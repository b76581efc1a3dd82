use vstd::prelude::*;

use crate::election::{total_votes, BallotItemId, BallotItemModel, ElectionId};
use crate::model::tally;
use crate::participant::ParticipantModel;

verus! {

/// Replacing one item changes the sum of the votes by what that item gained
/// or lost.
pub proof fn lemma_total_votes_update(items: Seq<BallotItemModel>, b: int, item: BallotItemModel)
    requires
        0 <= b < items.len(),
    ensures
        total_votes(items.update(b, item)) + items[b].votes == total_votes(items) + item.votes,
    decreases items.len(),
{
    let updated = items.update(b, item);
    if b == items.len() - 1 {
        assert(updated.drop_last() =~= items.drop_last());
    } else {
        assert(updated.drop_last() =~= items.drop_last().update(b, item));
        lemma_total_votes_update(items.drop_last(), b, item);
    }
}

/// Items without votes sum to no votes.
pub proof fn lemma_total_votes_none(items: Seq<BallotItemModel>)
    requires
        forall|b: int| 0 <= b < items.len() ==> (#[trigger] items[b]).votes == 0,
    ensures
        total_votes(items) == 0,
    decreases items.len(),
{
    if items.len() > 0 {
        assert(forall|b: int|
            0 <= b < items.drop_last().len() ==> #[trigger] items.drop_last()[b] == items[b]);
        lemma_total_votes_none(items.drop_last());
    }
}

/// A participant who joins adds one to the count of the item they chose, if
/// any, and nothing to the others.
pub proof fn lemma_tally_push(
    participants: Seq<ParticipantModel>,
    joined: ParticipantModel,
    e: ElectionId,
    b: BallotItemId,
)
    ensures
        tally(participants.push(joined), e, b) == tally(participants, e, b) + if joined.chose(
            e,
            b,
        ) {
            1nat
        } else {
            0nat
        },
{
    assert(participants.push(joined).drop_last() =~= participants);
}

/// Where nobody chose an item, its count is zero.
pub proof fn lemma_tally_none(participants: Seq<ParticipantModel>, e: ElectionId, b: BallotItemId)
    requires
        forall|p: int| 0 <= p < participants.len() ==> !(#[trigger] participants[p]).chose(e, b),
    ensures
        tally(participants, e, b) == 0,
    decreases participants.len(),
{
    if participants.len() > 0 {
        assert(forall|p: int|
            0 <= p < participants.drop_last().len() ==> #[trigger] participants.drop_last()[p]
                == participants[p]);
        lemma_tally_none(participants.drop_last(), e, b);
    }
}

/// Replacing one participant changes an item's count by that participant's
/// choice alone.
pub proof fn lemma_tally_update(
    participants: Seq<ParticipantModel>,
    p: int,
    changed: ParticipantModel,
    e: ElectionId,
    b: BallotItemId,
)
    requires
        0 <= p < participants.len(),
    ensures
        tally(participants.update(p, changed), e, b) + (if participants[p].chose(e, b) {
            1nat
        } else {
            0nat
        }) == tally(participants, e, b) + (if changed.chose(e, b) {
            1nat
        } else {
            0nat
        }),
    decreases participants.len(),
{
    let updated = participants.update(p, changed);
    if p == participants.len() - 1 {
        assert(updated.drop_last() =~= participants.drop_last());
    } else {
        assert(updated.drop_last() =~= participants.drop_last().update(p, changed));
        lemma_tally_update(participants.drop_last(), p, changed, e, b);
    }
}

/// An item's count stays below the number of participants as long as one of
/// them did not choose it.
pub proof fn lemma_tally_below(
    participants: Seq<ParticipantModel>,
    p: int,
    e: ElectionId,
    b: BallotItemId,
)
    requires
        0 <= p < participants.len(),
        !participants[p].chose(e, b),
    ensures
        tally(participants, e, b) < participants.len(),
    decreases participants.len(),
{
    if p == participants.len() - 1 {
        lemma_tally_bound(participants.drop_last(), e, b);
    } else {
        lemma_tally_below(participants.drop_last(), p, e, b);
    }
}

/// An item's count is at most the number of participants.
pub proof fn lemma_tally_bound(participants: Seq<ParticipantModel>, e: ElectionId, b: BallotItemId)
    ensures
        tally(participants, e, b) <= participants.len(),
    decreases participants.len(),
{
    if participants.len() > 0 {
        lemma_tally_bound(participants.drop_last(), e, b);
    }
}

/// An item that some participant chose has a count of at least one.
pub proof fn lemma_tally_positive(
    participants: Seq<ParticipantModel>,
    p: int,
    e: ElectionId,
    b: BallotItemId,
)
    requires
        0 <= p < participants.len(),
        participants[p].chose(e, b),
    ensures
        tally(participants, e, b) >= 1,
    decreases participants.len(),
{
    if p < participants.len() - 1 {
        lemma_tally_positive(participants.drop_last(), p, e, b);
    }
}

} // verus!
