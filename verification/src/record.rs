use std::collections::{BTreeMap, HashMap};
use vstd::laws_cmp::group_laws_cmp;
use vstd::prelude::*;
use vstd::std_specs::btree::group_btree_axioms;
use vstd::std_specs::hash::group_hash_axioms;

use crate::election::{BallotItemId, ElectionId};

verus! {

broadcast use {group_hash_axioms, group_btree_axioms, group_laws_cmp};

/// What `serde_json` reports when it cannot serialize a value, carried
/// through as an opaque value.
#[verifier::external_type_specification]
#[verifier::external_body]
pub struct ExJsonError(serde_json::Error);

/// What `serde_json::to_vec` gives for a record of votes kept in the order
/// of its elections: the bytes, or nothing where it reports an error.
pub uninterp spec fn votes_json(votes: Map<ElectionId, BallotItemId>) -> Option<Seq<u8>>;

/// `serde_json::to_vec` on a record of votes that is kept in the order of
/// its elections. Whether it succeeds, and with which bytes, depends on the
/// record alone: it is what `votes_json` names. Which records succeed is
/// not claimed.
#[verifier::external_body]
fn votes_to_json(votes: &BTreeMap<ElectionId, BallotItemId>) -> (serialized: Result<
    Vec<u8>,
    serde_json::Error,
>)
    ensures
        match serialized {
            Ok(bytes) => votes_json(votes@) == Some(bytes@),
            Err(_) => votes_json(votes@) is None,
        },
{
    serde_json::to_vec(votes)
}

/// The record `votes`, in the order of its elections. `elections` is the
/// number of elections there are.
fn in_order(votes: &HashMap<ElectionId, BallotItemId>, elections: usize) -> (sorted: BTreeMap<
    ElectionId,
    BallotItemId,
>)
    requires
        forall|e: ElectionId| votes@.contains_key(e) ==> e < elections,
    ensures
        sorted@ == votes@,
{
    let mut sorted: BTreeMap<ElectionId, BallotItemId> = BTreeMap::new();
    let mut next: ElectionId = 0;
    while next < elections
        invariant
            next <= elections,
            forall|e: ElectionId|
                e < next && #[trigger] votes@.contains_key(e) ==> sorted@.contains_key(e),
            forall|e: ElectionId| #[trigger]
                sorted@.contains_key(e) ==> e < next && votes@.contains_key(e) && sorted@[e]
                    == votes@[e],
        decreases elections - next,
    {
        match votes.get(&next) {
            Some(item) => {
                sorted.insert(next, *item);
            },
            None => {},
        }
        next += 1;
    }
    assert(sorted@ =~= votes@);
    sorted
}

/// A record of votes as the bytes of a JSON object from election ids to
/// ballot item ids, in the order of the elections, or the error that
/// `serde_json` reports. `elections` is the number of elections there are.
pub(crate) fn serialized_votes(votes: &HashMap<ElectionId, BallotItemId>, elections: usize) -> (serialized:
    Result<Vec<u8>, serde_json::Error>)
    requires
        forall|e: ElectionId| votes@.contains_key(e) ==> e < elections,
    ensures
        match serialized {
            Ok(bytes) => votes_json(votes@) == Some(bytes@),
            Err(_) => votes_json(votes@) is None,
        },
{
    let sorted = in_order(votes, elections);
    votes_to_json(&sorted)
}

} // verus!
