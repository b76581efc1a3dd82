use std::collections::HashMap;
use vstd::prelude::*;

use crate::election::{BallotItemId, ElectionId};

verus! {

/// Name of the cookie that carries a participant's id.
pub const PARTICIPANT_ID_COOKIE_KEY: &'static str = "coco_participant_id";

/// Name of the cookie that carries a participant's token.
pub const ACCESS_TOKEN_COOKIE_KEY: &'static str = "coco_access_token";

/// The password that lets a participant register.
pub const PASSWORD: &'static str = "abc";

pub type ParticipantId = usize;

/// Whether `password` is the one that lets a participant register.
pub fn is_registration_password(password: &String) -> (accepted: bool)
    ensures
        accepted == (password@ == PASSWORD@),
{
    let expected: String = PASSWORD.to_owned();
    *password == expected
}

/// What a participant presents to prove who they are.
#[derive(Debug, Clone)]
pub struct ParticipantCredentials {
    pub id: ParticipantId,
    pub token: String,
}

/// A registered participant: the credentials issued at registration and, for
/// each election voted in, the ballot item chosen.
#[derive(Debug, Clone)]
pub struct Participant {
    pub credentials: ParticipantCredentials,
    pub voted_ballot_item_ids_by_election_id: HashMap<ElectionId, BallotItemId>,
}

/// A participant as the contracts see one. Its id is its position among the
/// registered participants.
pub struct ParticipantModel {
    pub token: Seq<char>,
    pub votes: Map<ElectionId, BallotItemId>,
}

impl ParticipantModel {
    /// Whether this participant's recorded vote in `election` names `item`.
    pub open spec fn chose(self, election: ElectionId, item: BallotItemId) -> bool {
        self.votes.contains_key(election) && self.votes[election] == item
    }
}

impl View for Participant {
    type V = ParticipantModel;

    open spec fn view(&self) -> ParticipantModel {
        ParticipantModel {
            token: self.credentials.token@,
            votes: self.voted_ballot_item_ids_by_election_id@,
        }
    }
}

/// Evidence that a participant's credentials were checked. Only a successful
/// check hands one out, and operations on behalf of a participant ask for it.
#[derive(Debug, Clone, Copy)]
pub struct ValidParticipantId(ParticipantId);

impl ValidParticipantId {
    /// The id whose credentials were checked.
    pub closed spec fn id(self) -> ParticipantId {
        self.0
    }

    pub(crate) fn new(id: ParticipantId) -> (valid: ValidParticipantId)
        ensures
            valid.id() == id,
    {
        ValidParticipantId(id)
    }

    /// The id whose credentials were checked.
    pub fn get(&self) -> (id: ParticipantId)
        ensures
            id == self.id(),
    {
        self.0
    }
}

} // verus!
