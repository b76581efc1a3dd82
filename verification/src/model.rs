use vstd::prelude::*;

use crate::election::{total_votes, BallotItemId, BallotItemModel, ElectionId, ElectionModel};
use crate::error::{ElectionsVoteError, InvalidSessionError};
use crate::participant::{ParticipantId, ParticipantModel};

verus! {

/// The number of participants in `participants` whose recorded vote in
/// `election` names `item`.
pub open spec fn tally(
    participants: Seq<ParticipantModel>,
    election: ElectionId,
    item: BallotItemId,
) -> nat
    decreases participants.len(),
{
    if participants.len() == 0 {
        0
    } else {
        tally(participants.drop_last(), election, item) + if participants.last().chose(
            election,
            item,
        ) {
            1nat
        } else {
            0nat
        }
    }
}

/// The ballot items of a new election: one per name, in order, without votes.
pub open spec fn fresh_items(names: Seq<Seq<char>>) -> Seq<BallotItemModel> {
    Seq::new(names.len(), |i: int| BallotItemModel { name: names[i], votes: 0 })
}

/// Everything the authority holds, as the contracts see it. Ids are
/// positions: participant `p` is `participants[p]`, election `e` is
/// `elections[e]`, and an admin session is known by its token alone.
pub struct StateModel {
    pub participants: Seq<ParticipantModel>,
    pub elections: Seq<ElectionModel>,
    pub admin_sessions: Seq<Seq<char>>,
}

impl StateModel {
    /// The state without participants, sessions or elections.
    pub open spec fn empty() -> StateModel {
        StateModel { participants: seq![], elections: seq![], admin_sessions: seq![] }
    }

    /// Participant `p` exists and has a vote recorded for election `e`.
    pub open spec fn recorded(self, p: ParticipantId, e: ElectionId) -> bool {
        p < self.participants.len() && self.participants[p as int].votes.contains_key(e)
    }

    /// Election `e` exists and lists `p` among those who voted in it.
    pub open spec fn listed(self, p: ParticipantId, e: ElectionId) -> bool {
        e < self.elections.len() && self.elections[e as int].voters.contains(p)
    }

    /// Election `e` has as many votes on its items as it has voters, and each
    /// item has as many votes as participants have a vote recorded for it.
    pub open spec fn election_valid(self, e: ElectionId) -> bool {
        let election = self.elections[e as int];
        &&& election.voters.finite()
        &&& total_votes(election.items) == election.voters.len()
        &&& forall|b: BallotItemId|
            b < election.items.len() ==> (#[trigger] election.items[b as int]).votes == tally(
                self.participants,
                e,
                b,
            )
    }

    /// There are no more participants, elections or admin sessions than a
    /// machine word counts.
    pub open spec fn fits(self) -> bool {
        &&& self.participants.len() <= usize::MAX
        &&& self.elections.len() <= usize::MAX
        &&& self.admin_sessions.len() <= usize::MAX
    }

    /// What holds of the state between any two requests: it fits, every
    /// election is valid, a participant has a vote on record for an election
    /// exactly if the election lists them, and a vote on record names an
    /// item of its election.
    pub open spec fn valid(self) -> bool {
        &&& self.fits()
        &&& forall|e: ElectionId| e < self.elections.len() ==> #[trigger] self.election_valid(e)
        &&& forall|p: ParticipantId, e: ElectionId|
            #![trigger self.recorded(p, e)]
            #![trigger self.listed(p, e)]
            self.recorded(p, e) <==> self.listed(p, e)
        &&& forall|p: ParticipantId, e: ElectionId| #[trigger]
            self.recorded(p, e) ==> self.participants[p as int].votes[e]
                < self.elections[e as int].items.len()
    }

    /// Why the credentials `(id, token)` of a participant are refused, if
    /// they are.
    pub open spec fn participant_check(self, id: ParticipantId, token: Seq<char>) -> Option<
        InvalidSessionError,
    > {
        if id >= self.participants.len() {
            Some(InvalidSessionError::Missing)
        } else if self.participants[id as int].token != token {
            Some(InvalidSessionError::WrongToken)
        } else {
            None
        }
    }

    /// Why the admin session `(id, token)` is refused, if it is.
    pub open spec fn admin_session_check(self, id: usize, token: Seq<char>) -> Option<
        InvalidSessionError,
    > {
        if id >= self.admin_sessions.len() {
            Some(InvalidSessionError::Missing)
        } else if self.admin_sessions[id as int] != token {
            Some(InvalidSessionError::WrongToken)
        } else {
            None
        }
    }

    /// Why a vote of participant `p` for item `b` of election `e` is refused,
    /// if it is. An earlier vote in the election is found before the item is
    /// looked up.
    pub open spec fn vote_check(self, p: ParticipantId, e: ElectionId, b: BallotItemId) -> Option<
        ElectionsVoteError,
    > {
        if e >= self.elections.len() {
            Some(ElectionsVoteError::MissingElection)
        } else if self.elections[e as int].voters.contains(p) {
            Some(ElectionsVoteError::AlreadyVoted)
        } else if b >= self.elections[e as int].items.len() {
            Some(ElectionsVoteError::MissingBallotItem)
        } else {
            None
        }
    }

    /// The state after participant `p` has voted for item `b` of election
    /// `e`: the item has one vote more, the election lists `p`, and `p` has
    /// the vote on record.
    pub open spec fn with_vote(self, p: ParticipantId, e: ElectionId, b: BallotItemId) -> StateModel {
        let participant = self.participants[p as int];
        let election = self.elections[e as int];
        let item = election.items[b as int];
        StateModel {
            participants: self.participants.update(
                p as int,
                ParticipantModel { votes: participant.votes.insert(e, b), ..participant },
            ),
            elections: self.elections.update(
                e as int,
                ElectionModel {
                    items: election.items.update(
                        b as int,
                        BallotItemModel { votes: item.votes + 1, ..item },
                    ),
                    voters: election.voters.insert(p),
                    ..election
                },
            ),
            ..self
        }
    }

    /// The state after a participant with `token` has registered.
    pub open spec fn with_participant(self, token: Seq<char>) -> StateModel {
        StateModel {
            participants: self.participants.push(ParticipantModel { token, votes: Map::empty() }),
            ..self
        }
    }

    /// The state after an admin session with `token` has started.
    pub open spec fn with_admin_session(self, token: Seq<char>) -> StateModel {
        StateModel { admin_sessions: self.admin_sessions.push(token), ..self }
    }

    /// The state after an election `name` with the ballot items `item_names`
    /// has been created.
    pub open spec fn with_election(self, name: Seq<char>, item_names: Seq<Seq<char>>) -> StateModel {
        StateModel {
            elections: self.elections.push(
                ElectionModel { name, items: fresh_items(item_names), voters: Set::empty() },
            ),
            ..self
        }
    }
}

} // verus!
