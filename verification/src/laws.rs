use vstd::prelude::*;

use crate::counting::{
    lemma_tally_none, lemma_tally_positive, lemma_tally_push, lemma_tally_update,
    lemma_total_votes_none, lemma_total_votes_update,
};
use crate::election::{total_votes, BallotItemId, BallotItemModel, ElectionId};
use crate::error::ElectionsVoteError;
use crate::model::{fresh_items, tally, StateModel};
use crate::participant::{ParticipantId, ParticipantModel};

verus! {

/// The state without participants, sessions or elections is valid.
pub proof fn law_empty_is_valid()
    ensures
        StateModel::empty().valid(),
{
}

/// An accepted vote leaves a valid state valid: the election has again as
/// many votes on its items as it has voters, and each item's count is again
/// the number of participants with a vote on record for it.
pub proof fn law_vote_keeps_valid(s: StateModel, p: ParticipantId, e: ElectionId, b: BallotItemId)
    requires
        s.valid(),
        p < s.participants.len(),
        s.vote_check(p, e, b) is None,
    ensures
        s.with_vote(p, e, b).valid(),
{
    let t = s.with_vote(p, e, b);
    let before = s.participants[p as int];
    let after = t.participants[p as int];
    assert(!s.listed(p, e));
    assert(!s.recorded(p, e));
    assert forall|e2: ElectionId| e2 < t.elections.len() implies #[trigger] t.election_valid(
        e2,
    ) by {
        assert(s.election_valid(e2));
        let old_items = s.elections[e2 as int].items;
        let new_items = t.elections[e2 as int].items;
        if e2 == e {
            lemma_total_votes_update(old_items, b as int, new_items[b as int]);
        }
        assert forall|b2: BallotItemId| b2 < new_items.len() implies (
        #[trigger] new_items[b2 as int]).votes == tally(t.participants, e2, b2) by {
            lemma_tally_update(s.participants, p as int, after, e2, b2);
            assert(old_items[b2 as int].votes == tally(s.participants, e2, b2));
        }
    }
    assert forall|p2: ParticipantId, e2: ElectionId|
        #![trigger t.recorded(p2, e2)]
        #![trigger t.listed(p2, e2)]
        t.recorded(p2, e2) <==> t.listed(p2, e2) by {
        assert(s.recorded(p2, e2) <==> s.listed(p2, e2));
    }
    assert forall|p2: ParticipantId, e2: ElectionId| #[trigger]
        t.recorded(p2, e2) implies t.participants[p2 as int].votes[e2]
        < t.elections[e2 as int].items.len() by {
        if !(p2 == p && e2 == e) {
            assert(s.recorded(p2, e2));
        }
    }
}

/// A registration leaves a valid state valid.
pub proof fn law_registration_keeps_valid(s: StateModel, token: Seq<char>)
    requires
        s.valid(),
        s.participants.len() < usize::MAX,
    ensures
        s.with_participant(token).valid(),
{
    let t = s.with_participant(token);
    let joined = ParticipantModel { token, votes: Map::empty() };
    assert forall|e: ElectionId| e < t.elections.len() implies #[trigger] t.election_valid(e) by {
        assert(s.election_valid(e));
        let items = s.elections[e as int].items;
        assert forall|b: BallotItemId| b < items.len() implies (#[trigger] items[b as int]).votes
            == tally(t.participants, e, b) by {
            lemma_tally_push(s.participants, joined, e, b);
        }
    }
    assert forall|p: ParticipantId, e: ElectionId|
        #![trigger t.recorded(p, e)]
        #![trigger t.listed(p, e)]
        t.recorded(p, e) <==> t.listed(p, e) by {
        assert(s.recorded(p, e) <==> s.listed(p, e));
    }
    assert forall|p: ParticipantId, e: ElectionId| #[trigger]
        t.recorded(p, e) implies t.participants[p as int].votes[e]
        < t.elections[e as int].items.len() by {
        assert(s.recorded(p, e));
    }
}

/// A new admin session leaves a valid state valid.
pub proof fn law_admin_session_keeps_valid(s: StateModel, token: Seq<char>)
    requires
        s.valid(),
        s.admin_sessions.len() < usize::MAX,
    ensures
        s.with_admin_session(token).valid(),
{
    let t = s.with_admin_session(token);
    assert forall|e: ElectionId| e < t.elections.len() implies #[trigger] t.election_valid(e) by {
        assert(s.election_valid(e));
    }
    assert forall|p: ParticipantId, e: ElectionId|
        #![trigger t.recorded(p, e)]
        #![trigger t.listed(p, e)]
        t.recorded(p, e) <==> t.listed(p, e) by {
        assert(s.recorded(p, e) <==> s.listed(p, e));
    }
    assert forall|p: ParticipantId, e: ElectionId| #[trigger]
        t.recorded(p, e) implies t.participants[p as int].votes[e]
        < t.elections[e as int].items.len() by {
        assert(s.recorded(p, e));
    }
}

/// A new election leaves a valid state valid: it starts without voters and
/// without votes.
pub proof fn law_election_keeps_valid(s: StateModel, name: Seq<char>, item_names: Seq<Seq<char>>)
    requires
        s.valid(),
        s.elections.len() < usize::MAX,
    ensures
        s.with_election(name, item_names).valid(),
{
    let t = s.with_election(name, item_names);
    let created = s.elections.len() as ElectionId;
    assert forall|e: ElectionId| e < t.elections.len() implies #[trigger] t.election_valid(e) by {
        if e == created {
            let items = fresh_items(item_names);
            lemma_total_votes_none(items);
            assert forall|b: BallotItemId| b < items.len() implies (#[trigger] items[b as int]).votes
                == tally(t.participants, e, b) by {
                assert forall|p: int| 0 <= p < s.participants.len() implies !(
                #[trigger] s.participants[p]).chose(e, b) by {
                    assert(s.recorded(p as ParticipantId, e) <==> s.listed(p as ParticipantId, e));
                }
                lemma_tally_none(s.participants, e, b);
            }
        } else {
            assert(s.election_valid(e));
        }
    }
    assert forall|p: ParticipantId, e: ElectionId|
        #![trigger t.recorded(p, e)]
        #![trigger t.listed(p, e)]
        t.recorded(p, e) <==> t.listed(p, e) by {
        assert(s.recorded(p, e) <==> s.listed(p, e));
    }
    assert forall|p: ParticipantId, e: ElectionId| #[trigger]
        t.recorded(p, e) implies t.participants[p as int].votes[e]
        < t.elections[e as int].items.len() by {
        assert(s.recorded(p, e));
        assert(s.listed(p, e));
    }
}

/// Conservation: in a valid state every election has exactly as many votes
/// on its ballot items as it has voters.
pub proof fn law_votes_match_voters(s: StateModel, e: ElectionId)
    requires
        s.valid(),
        e < s.elections.len(),
    ensures
        total_votes(s.elections[e as int].items) == s.elections[e as int].voters.len(),
{
    assert(s.election_valid(e));
}

/// A vote on record is counted where it says: the participant is listed as
/// a voter of the election, the recorded item belongs to the election, and
/// that item's count is the number of participants whose record names it,
/// the participant among them.
pub proof fn law_recorded_vote_is_counted(s: StateModel, p: ParticipantId, e: ElectionId)
    requires
        s.valid(),
        s.recorded(p, e),
    ensures
        s.listed(p, e),
        s.participants[p as int].votes[e] < s.elections[e as int].items.len(),
        s.elections[e as int].items[s.participants[p as int].votes[e] as int].votes == tally(
            s.participants,
            e,
            s.participants[p as int].votes[e],
        ),
        tally(s.participants, e, s.participants[p as int].votes[e]) >= 1,
{
    let b = s.participants[p as int].votes[e];
    assert(s.listed(p, e));
    assert(s.election_valid(e));
    assert(s.elections[e as int].items[b as int].votes == tally(s.participants, e, b));
    lemma_tally_positive(s.participants, p as int, e, b);
}

/// Vote once: after an accepted vote, any further vote of the same
/// participant in the same election is refused as already voted, whatever
/// item it names.
pub proof fn law_second_vote_is_refused(
    s: StateModel,
    p: ParticipantId,
    e: ElectionId,
    first: BallotItemId,
    second: BallotItemId,
)
    requires
        s.vote_check(p, e, first) is None,
    ensures
        s.with_vote(p, e, first).vote_check(p, e, second) == Some(ElectionsVoteError::AlreadyVoted),
{
}

/// A vote on record is never overwritten: an accepted vote, by anyone in
/// any election, leaves every vote that was on record as it was.
pub proof fn law_recorded_vote_is_kept(
    s: StateModel,
    p: ParticipantId,
    e: ElectionId,
    voter: ParticipantId,
    election: ElectionId,
    item: BallotItemId,
)
    requires
        s.valid(),
        s.recorded(p, e),
        voter < s.participants.len(),
        s.vote_check(voter, election, item) is None,
    ensures
        s.with_vote(voter, election, item).recorded(p, e),
        s.with_vote(voter, election, item).participants[p as int].votes[e]
            == s.participants[p as int].votes[e],
{
    assert(s.recorded(voter, election) <==> s.listed(voter, election));
}

/// A participant who has voted in an election is told so before the ballot
/// item is looked at: the answer is the same for an item that exists and
/// for one that does not.
pub proof fn law_already_voted_comes_first(
    s: StateModel,
    p: ParticipantId,
    e: ElectionId,
    b: BallotItemId,
)
    requires
        s.listed(p, e),
    ensures
        s.vote_check(p, e, b) == Some(ElectionsVoteError::AlreadyVoted),
{
}

/// Ids follow the order of registration: whoever registers gets as id the
/// number of participants registered before, so of two registrations in a
/// row the earlier gets the smaller id and the later the next one.
pub proof fn law_ids_follow_registration_order(s: StateModel, first: Seq<char>, second: Seq<char>)
    ensures
        s.with_participant(first).participants.len() == s.participants.len() + 1,
        s.with_participant(first).with_participant(second).participants.len()
            == s.participants.len() + 2,
        s.with_participant(first).with_participant(second).participants[s.participants.len() as int].token
            == first,
        s.with_participant(first).with_participant(second).participants[s.participants.len() as int
            + 1].token == second,
{
}

} // verus!
