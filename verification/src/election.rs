use std::collections::{HashMap, HashSet};
use vstd::pervasive::unreached;
use vstd::prelude::*;
use vstd::std_specs::hash::group_hash_axioms;

use crate::participant::ParticipantId;

verus! {

broadcast use group_hash_axioms;

pub type BallotItemId = usize;

pub type ElectionId = usize;

/// One option of an election and the number of votes it has received.
#[derive(Debug)]
pub struct BallotItem {
    pub id: BallotItemId,
    pub name: String,
    pub num_votes: usize,
}

/// A ballot item as the contracts see one. Its id is its position in the
/// election.
pub struct BallotItemModel {
    pub name: Seq<char>,
    pub votes: nat,
}

impl View for BallotItem {
    type V = BallotItemModel;

    open spec fn view(&self) -> BallotItemModel {
        BallotItemModel { name: self.name@, votes: self.num_votes as nat }
    }
}

/// An election: its ballot items by id, and the participants who have voted.
#[derive(Debug)]
pub struct Election {
    pub id: ElectionId,
    pub name: String,
    pub ballot_items_by_id: HashMap<BallotItemId, BallotItem>,
    pub participant_ids_who_voted: HashSet<ParticipantId>,
}

/// An election as the contracts see one. Its id is its position among the
/// elections.
pub struct ElectionModel {
    pub name: Seq<char>,
    pub items: Seq<BallotItemModel>,
    pub voters: Set<ParticipantId>,
}

impl Election {
    /// The ballot items carry the ids `0..n` and each is stored under its id.
    pub open spec fn wf(&self) -> bool {
        &&& forall|k: BallotItemId|
            self.ballot_items_by_id@.contains_key(k) <==> k < self.ballot_items_by_id@.len()
        &&& forall|k: BallotItemId| #[trigger]
            self.ballot_items_by_id@.contains_key(k) ==> self.ballot_items_by_id@[k].id == k
    }
}

impl View for Election {
    type V = ElectionModel;

    open spec fn view(&self) -> ElectionModel {
        ElectionModel {
            name: self.name@,
            items: Seq::new(
                self.ballot_items_by_id@.len(),
                |i: int| self.ballot_items_by_id@[i as usize]@,
            ),
            voters: self.participant_ids_who_voted@,
        }
    }
}

/// What is shown of an election to those who may see it: its id, its name
/// and its ballot items in the order of their ids, each with its count. Who
/// voted is not part of it.
#[derive(Debug)]
pub struct ElectionSummary {
    pub id: ElectionId,
    pub name: String,
    pub ballot_items: Vec<BallotItem>,
}

impl ElectionSummary {
    /// This summary shows the election `election` under the id `id`.
    pub open spec fn describes(&self, id: int, election: ElectionModel) -> bool {
        &&& self.id == id
        &&& self.name@ == election.name
        &&& self.ballot_items@.len() == election.items.len()
        &&& forall|b: int|
            0 <= b < self.ballot_items@.len() ==> (#[trigger] self.ballot_items@[b]).id == b
                && self.ballot_items@[b]@ == election.items[b]
    }
}

impl Election {
    /// The summary of this election.
    pub fn summary(&self) -> (summary: ElectionSummary)
        requires
            self.wf(),
        ensures
            summary.describes(self.id as int, self@),
    {
        let mut ballot_items: Vec<BallotItem> = Vec::new();
        let count: usize = self.ballot_items_by_id.len();
        let mut next: BallotItemId = 0;
        while next < count
            invariant
                self.wf(),
                count == self.ballot_items_by_id@.len(),
                next <= count,
                ballot_items@.len() == next,
                forall|b: int|
                    0 <= b < next ==> (#[trigger] ballot_items@[b]).id == b && ballot_items@[b]@
                        == self@.items[b],
            decreases count - next,
        {
            match self.ballot_items_by_id.get(&next) {
                Some(item) => {
                    ballot_items.push(
                        BallotItem { id: item.id, name: item.name.clone(), num_votes: item.num_votes },
                    );
                },
                None => unreached(),
            }
            next += 1;
        }
        ElectionSummary { id: self.id, name: self.name.clone(), ballot_items }
    }
}

/// A vote as it is sent: the election and the ballot item chosen in it.
#[derive(Debug, Clone, Copy)]
pub struct ElectionsVoteBody {
    pub election_id: ElectionId,
    pub selected_ballot_item_id: BallotItemId,
}

/// The sum of the votes of `items`.
pub open spec fn total_votes(items: Seq<BallotItemModel>) -> nat
    decreases items.len(),
{
    if items.len() == 0 {
        0
    } else {
        total_votes(items.drop_last()) + items.last().votes
    }
}

} // verus!
