use std::collections::{HashMap, HashSet};
use vstd::pervasive::unreached;
use vstd::prelude::*;
use vstd::std_specs::hash::group_hash_axioms;

use crate::admin::{AdminCreateElectionBody, AdminSession, AdminSessionId, ValidAdminSession};
use crate::counting::lemma_tally_below;
use crate::election::{
    BallotItem, BallotItemId, Election, ElectionId, ElectionSummary, ElectionsVoteBody,
};
use crate::error::{ElectionsVoteError, InvalidSessionError};
use crate::laws::{
    law_admin_session_keeps_valid, law_election_keeps_valid, law_registration_keeps_valid,
    law_vote_keeps_valid,
};
use crate::model::{fresh_items, tally, StateModel};
use crate::participant::{
    Participant, ParticipantCredentials, ParticipantId, ValidParticipantId,
};
use crate::record::{serialized_votes, votes_json};
use crate::token::{generate_token, is_token};

verus! {

broadcast use group_hash_axioms;

/// The keys of `m` are the ids `0..n`, where `n` is the number of entries.
pub open spec fn dense<V>(m: Map<usize, V>) -> bool {
    forall|k: usize| #[trigger] m.contains_key(k) <==> k < m.len()
}

/// Credentials of either kind, as a request that both kinds may make
/// carries them.
#[derive(Debug, Clone)]
pub enum RequestingCredentials {
    Normal(ParticipantCredentials),
    Admin(AdminSession),
}

/// Evidence that credentials of either kind were checked.
#[derive(Debug)]
pub struct ValidCredentials(());

/// All that the authority owns: the participants, the elections and the
/// admin sessions, each kind numbered from zero in the order of creation.
#[derive(Debug)]
pub struct State {
    participants_by_id: HashMap<ParticipantId, Participant>,
    elections_by_id: HashMap<ElectionId, Election>,
    admin_sessions_by_id: HashMap<AdminSessionId, AdminSession>,
}

impl View for State {
    type V = StateModel;

    closed spec fn view(&self) -> StateModel {
        StateModel {
            participants: Seq::new(
                self.participants_by_id@.len(),
                |i: int| self.participants_by_id@[i as usize]@,
            ),
            elections: Seq::new(
                self.elections_by_id@.len(),
                |i: int| self.elections_by_id@[i as usize]@,
            ),
            admin_sessions: Seq::new(
                self.admin_sessions_by_id@.len(),
                |i: int| self.admin_sessions_by_id@[i as usize].token@,
            ),
        }
    }
}

impl StateModel {
    /// Why a vote for item `b` of election `e`, sent with the credentials
    /// `(id, token)`, is refused, if it is. The credentials are checked
    /// before the vote is looked at.
    pub open spec fn vote_request_check(
        self,
        id: ParticipantId,
        token: Seq<char>,
        e: ElectionId,
        b: BallotItemId,
    ) -> Option<ElectionsVoteError> {
        match self.participant_check(id, token) {
            Some(error) => Some(ElectionsVoteError::InvalidParticipant(error)),
            None => self.vote_check(id, e, b),
        }
    }

    /// Why `credentials` are refused, if they are.
    pub open spec fn credentials_check(self, credentials: RequestingCredentials) -> Option<
        InvalidSessionError,
    > {
        match credentials {
            RequestingCredentials::Normal(participant) => self.participant_check(
                participant.id,
                participant.token@,
            ),
            RequestingCredentials::Admin(session) => self.admin_session_check(
                session.id,
                session.token@,
            ),
        }
    }
}

impl Default for State {
    /// The state without participants, sessions or elections.
    fn default() -> (state: State)
        ensures
            state.wf(),
            state@ == StateModel::empty(),
    {
        State::new()
    }
}

impl State {
    /// Every entity is stored under its own id, the ids of each kind are
    /// dense, and the state as the contracts see it is valid.
    pub closed spec fn wf(&self) -> bool {
        &&& dense(self.participants_by_id@)
        &&& dense(self.elections_by_id@)
        &&& dense(self.admin_sessions_by_id@)
        &&& forall|k: usize| #[trigger]
            self.participants_by_id@.contains_key(k) ==> self.participants_by_id@[k].credentials.id
                == k
        &&& forall|k: usize| #[trigger]
            self.admin_sessions_by_id@.contains_key(k) ==> self.admin_sessions_by_id@[k].id == k
        &&& forall|k: usize| #[trigger]
            self.elections_by_id@.contains_key(k) ==> self.elections_by_id@[k].id == k
                && self.elections_by_id@[k].wf()
        &&& self@.valid()
    }

    /// A well-formed state is valid.
    pub proof fn lemma_wf_is_valid(&self)
        requires
            self.wf(),
        ensures
            self@.valid(),
    {
    }

    /// The state without participants, sessions or elections.
    pub fn new() -> (state: State)
        ensures
            state.wf(),
            state@ == StateModel::empty(),
    {
        let state = State {
            participants_by_id: HashMap::new(),
            elections_by_id: HashMap::new(),
            admin_sessions_by_id: HashMap::new(),
        };
        proof {
            assert(state@.participants =~= StateModel::empty().participants);
            assert(state@.elections =~= StateModel::empty().elections);
            assert(state@.admin_sessions =~= StateModel::empty().admin_sessions);
        }
        state
    }

    /// Checks a participant's credentials: `Missing` where no participant
    /// has the id, `WrongToken` where the token differs from the one issued.
    pub fn check_participant_validity(
        &self,
        requesting_participant_credentials: &ParticipantCredentials,
    ) -> (checked: Result<ValidParticipantId, InvalidSessionError>)
        requires
            self.wf(),
        ensures
            match checked {
                Ok(valid) => self@.participant_check(
                    requesting_participant_credentials.id,
                    requesting_participant_credentials.token@,
                ) is None && valid.id() == requesting_participant_credentials.id,
                Err(error) => self@.participant_check(
                    requesting_participant_credentials.id,
                    requesting_participant_credentials.token@,
                ) == Some(error),
            },
    {
        match self.participants_by_id.get(&requesting_participant_credentials.id) {
            None => Err(InvalidSessionError::Missing),
            Some(existing_participant) => {
                if existing_participant.credentials.token
                    == requesting_participant_credentials.token {
                    Ok(ValidParticipantId::new(requesting_participant_credentials.id))
                } else {
                    Err(InvalidSessionError::WrongToken)
                }
            },
        }
    }

    /// Checks an admin session: `Missing` where no session has the id,
    /// `WrongToken` where the token differs from the one issued.
    pub fn check_admin_session_validity(&self, admin_session: &AdminSession) -> (checked: Result<
        ValidAdminSession,
        InvalidSessionError,
    >)
        requires
            self.wf(),
        ensures
            match checked {
                Ok(valid) => self@.admin_session_check(admin_session.id, admin_session.token@)
                    is None && valid.id() == admin_session.id,
                Err(error) => self@.admin_session_check(admin_session.id, admin_session.token@)
                    == Some(error),
            },
    {
        match self.admin_sessions_by_id.get(&admin_session.id) {
            None => Err(InvalidSessionError::Missing),
            Some(existing_admin_session) => {
                if existing_admin_session.token == admin_session.token {
                    Ok(ValidAdminSession::new(admin_session.id))
                } else {
                    Err(InvalidSessionError::WrongToken)
                }
            },
        }
    }

    /// Checks credentials of either kind, each against its own registry.
    pub fn check_credentials(&self, requesting_credentials: &RequestingCredentials) -> (checked:
        Result<ValidCredentials, InvalidSessionError>)
        requires
            self.wf(),
        ensures
            match checked {
                Ok(_) => self@.credentials_check(*requesting_credentials) is None,
                Err(error) => self@.credentials_check(*requesting_credentials) == Some(error),
            },
    {
        match requesting_credentials {
            RequestingCredentials::Normal(participant) => {
                match self.check_participant_validity(participant) {
                    Ok(_) => Ok(ValidCredentials(())),
                    Err(error) => Err(error),
                }
            },
            RequestingCredentials::Admin(admin_session) => {
                match self.check_admin_session_validity(admin_session) {
                    Ok(_) => Ok(ValidCredentials(())),
                    Err(error) => Err(error),
                }
            },
        }
    }

    /// Registers a participant: the next id, a fresh token, no votes.
    pub fn create_participant(&mut self) -> (credentials: ParticipantCredentials)
        requires
            old(self).wf(),
        ensures
            final(self).wf(),
            credentials.id == old(self)@.participants.len(),
            is_token(credentials.token@),
            final(self)@ == old(self)@.with_participant(credentials.token@),
    {
        let ghost before = *self;
        let id: ParticipantId = self.participants_by_id.len();
        let token = generate_token();
        let new_participant = Participant {
            credentials: ParticipantCredentials { id, token: token.clone() },
            voted_ballot_item_ids_by_election_id: HashMap::new(),
        };
        self.participants_by_id.insert(id, new_participant);
        proof {
            assert(self.participants_by_id.len() == self.participants_by_id@.len());
            assert(self@.participants =~= before@.with_participant(token@).participants);
            assert(self@.elections =~= before@.elections);
            assert(self@.admin_sessions =~= before@.admin_sessions);
            law_registration_keeps_valid(before@, token@);
        }
        ParticipantCredentials { id, token }
    }

    /// Starts an admin session: the next id and a fresh token.
    pub fn create_admin_session(&mut self) -> (session: AdminSession)
        requires
            old(self).wf(),
        ensures
            final(self).wf(),
            session.id == old(self)@.admin_sessions.len(),
            is_token(session.token@),
            final(self)@ == old(self)@.with_admin_session(session.token@),
    {
        let ghost before = *self;
        let id: AdminSessionId = self.admin_sessions_by_id.len();
        let token = generate_token();
        let new_admin_session = AdminSession { id, token: token.clone() };
        self.admin_sessions_by_id.insert(id, new_admin_session);
        proof {
            assert(self.admin_sessions_by_id.len() == self.admin_sessions_by_id@.len());
            assert(self@.admin_sessions =~= before@.with_admin_session(token@).admin_sessions);
            assert(self@.elections =~= before@.elections);
            assert(self@.participants =~= before@.participants);
            law_admin_session_keeps_valid(before@, token@);
        }
        AdminSession { id, token }
    }

    /// Creates an election on behalf of a checked admin session. The
    /// election gets the next id, its ballot items the ids `0..n` in the
    /// order given; nobody has voted yet.
    pub fn create_election(
        &mut self,
        valid_admin_session: ValidAdminSession,
        admin_create_election_body: AdminCreateElectionBody,
    ) -> (id: ElectionId)
        requires
            old(self).wf(),
            valid_admin_session.id() < old(self)@.admin_sessions.len(),
        ensures
            final(self).wf(),
            id == old(self)@.elections.len(),
            final(self)@ == old(self)@.with_election(
                admin_create_election_body.name@,
                admin_create_election_body.item_names(),
            ),
    {
        let ghost before = *self;
        let ghost item_names = admin_create_election_body.item_names();
        let id: ElectionId = self.elections_by_id.len();
        let AdminCreateElectionBody { name, ballot_items } = admin_create_election_body;
        let mut ballot_items_by_id: HashMap<BallotItemId, BallotItem> = HashMap::new();
        let mut next: BallotItemId = 0;
        while next < ballot_items.len()
            invariant
                next <= ballot_items@.len(),
                ballot_items_by_id@.len() == next,
                dense(ballot_items_by_id@),
                forall|k: BallotItemId|
                    k < next ==> {
                        let item = #[trigger] ballot_items_by_id@[k];
                        item.id == k && item.name@ == ballot_items@[k as int]@ && item.num_votes
                            == 0
                    },
            decreases ballot_items@.len() - next,
        {
            let item_name = ballot_items[next].clone();
            ballot_items_by_id.insert(next, BallotItem { id: next, name: item_name, num_votes: 0 });
            next += 1;
        }
        let new_election = Election {
            id,
            name,
            ballot_items_by_id,
            participant_ids_who_voted: HashSet::new(),
        };
        proof {
            assert(new_election@.items =~= fresh_items(item_names));
        }
        self.elections_by_id.insert(id, new_election);
        proof {
            assert(self.elections_by_id.len() == self.elections_by_id@.len());
            assert(self@.elections =~= before@.with_election(name@, item_names).elections);
            assert(self@.participants =~= before@.participants);
            assert(self@.admin_sessions =~= before@.admin_sessions);
            law_election_keeps_valid(before@, name@, item_names);
        }
        id
    }

    /// Casts the vote of a checked participant. The checks come in this
    /// order: the election exists, the participant has not voted in it, the
    /// ballot item exists. Then the item gains one vote, the election lists
    /// the participant, and the vote goes on the participant's record. A
    /// refused vote changes nothing.
    pub fn apply_vote(
        &mut self,
        participant_id: ValidParticipantId,
        elections_vote_body: &ElectionsVoteBody,
    ) -> (outcome: Result<(), ElectionsVoteError>)
        requires
            old(self).wf(),
            participant_id.id() < old(self)@.participants.len(),
        ensures
            final(self).wf(),
            match outcome {
                Ok(_) => old(self)@.vote_check(
                    participant_id.id(),
                    elections_vote_body.election_id,
                    elections_vote_body.selected_ballot_item_id,
                ) is None && final(self)@ == old(self)@.with_vote(
                    participant_id.id(),
                    elections_vote_body.election_id,
                    elections_vote_body.selected_ballot_item_id,
                ),
                Err(error) => old(self)@.vote_check(
                    participant_id.id(),
                    elections_vote_body.election_id,
                    elections_vote_body.selected_ballot_item_id,
                ) == Some(error) && final(self)@ == old(self)@,
            },
    {
        let ghost before = *self;
        let p: ParticipantId = participant_id.get();
        let e: ElectionId = elections_vote_body.election_id;
        let b: BallotItemId = elections_vote_body.selected_ballot_item_id;
        match self.elections_by_id.get(&e) {
            None => {
                return Err(ElectionsVoteError::MissingElection);
            },
            Some(election) => {
                if election.participant_ids_who_voted.contains(&p) {
                    return Err(ElectionsVoteError::AlreadyVoted);
                }
                if !election.ballot_items_by_id.contains_key(&b) {
                    return Err(ElectionsVoteError::MissingBallotItem);
                }
            },
        }
        proof {
            assert(before@.vote_check(p, e, b) is None);
            assert(before@.election_valid(e));
            assert(before@.recorded(p, e) <==> before@.listed(p, e));
            assert(before@.elections[e as int].items[b as int].votes == tally(
                before@.participants,
                e,
                b,
            ));
            lemma_tally_below(before@.participants, p as int, e, b);
        }
        let mut election = match self.elections_by_id.remove(&e) {
            Some(election) => election,
            None => unreached(),
        };
        let ghost election_before = election;
        let mut ballot_item = match election.ballot_items_by_id.remove(&b) {
            Some(ballot_item) => ballot_item,
            None => unreached(),
        };
        ballot_item.num_votes = ballot_item.num_votes + 1;
        let ghost counted = ballot_item;
        election.ballot_items_by_id.insert(b, ballot_item);
        election.participant_ids_who_voted.insert(p);
        proof {
            assert(election_before.ballot_items_by_id.len()
                == election_before.ballot_items_by_id@.len());
            assert(election_before == before.elections_by_id@[e]);
            assert(before@.elections[e as int] == election_before@);
            assert(election.ballot_items_by_id@ =~= election_before.ballot_items_by_id@.insert(
                b,
                counted,
            ));
            assert(election.ballot_items_by_id@.dom() =~= election_before.ballot_items_by_id@.dom());
            assert(election.ballot_items_by_id@.len() == election_before.ballot_items_by_id@.len());
            assert(election@.items =~= before@.with_vote(p, e, b).elections[e as int].items);
        }
        self.elections_by_id.insert(e, election);
        let mut participant = match self.participants_by_id.remove(&p) {
            Some(participant) => participant,
            None => unreached(),
        };
        participant.voted_ballot_item_ids_by_election_id.insert(e, b);
        self.participants_by_id.insert(p, participant);
        proof {
            assert(self.elections_by_id@.dom() =~= before.elections_by_id@.dom());
            assert(self.participants_by_id@.dom() =~= before.participants_by_id@.dom());
            assert(self@.elections =~= before@.with_vote(p, e, b).elections);
            assert(self@.participants =~= before@.with_vote(p, e, b).participants);
            assert(self@.admin_sessions =~= before@.admin_sessions);
            law_vote_keeps_valid(before@, p, e, b);
        }
        Ok(())
    }

    /// The ballot item that a checked participant has on record for an
    /// election, if any.
    pub fn recorded_vote(&self, participant_id: ValidParticipantId, election_id: ElectionId) -> (vote:
        Option<BallotItemId>)
        requires
            self.wf(),
            participant_id.id() < self@.participants.len(),
        ensures
            vote == if self@.recorded(participant_id.id(), election_id) {
                Some(self@.participants[participant_id.id() as int].votes[election_id])
            } else {
                None
            },
    {
        match self.participants_by_id.get(&participant_id.get()) {
            Some(participant) => {
                match participant.voted_ballot_item_ids_by_election_id.get(&election_id) {
                    Some(item) => Some(*item),
                    None => None,
                }
            },
            None => unreached(),
        }
    }

    /// All elections in the order of their ids, as they are shown to
    /// whoever holds checked credentials.
    pub fn election_summaries(&self, valid_credentials: &ValidCredentials) -> (listing: Vec<
        ElectionSummary,
    >)
        requires
            self.wf(),
        ensures
            listing@.len() == self@.elections.len(),
            forall|e: int|
                0 <= e < listing@.len() ==> (#[trigger] listing@[e]).describes(
                    e,
                    self@.elections[e],
                ),
    {
        let mut listing: Vec<ElectionSummary> = Vec::new();
        let count: usize = self.elections_by_id.len();
        let mut next: ElectionId = 0;
        while next < count
            invariant
                self.wf(),
                count == self@.elections.len(),
                next <= count,
                listing@.len() == next,
                forall|e: int|
                    0 <= e < next ==> (#[trigger] listing@[e]).describes(e, self@.elections[e]),
            decreases count - next,
        {
            match self.elections_by_id.get(&next) {
                Some(election) => {
                    listing.push(election.summary());
                },
                None => unreached(),
            }
            next += 1;
        }
        listing
    }
}

/// The answer to a request for a record of votes, given what serializing
/// the record came to: the bytes, or `Unexpected` where it failed.
pub fn votes_answer(serialized: Result<Vec<u8>, serde_json::Error>) -> (answer: Result<
    Vec<u8>,
    InvalidSessionError,
>)
    ensures
        match serialized {
            Ok(bytes) => answer == Ok::<Vec<u8>, InvalidSessionError>(bytes),
            Err(_) => answer == Err::<Vec<u8>, InvalidSessionError>(InvalidSessionError::Unexpected),
        },
{
    match serialized {
        Ok(bytes) => Ok(bytes),
        Err(_) => Err(InvalidSessionError::Unexpected),
    }
}

/// The votes that a participant has on record, as the bytes of a JSON
/// object from election ids to ballot item ids, in the order of the
/// elections. Refused with the reason for which the credentials are. With
/// accepted credentials the bytes are owed whenever the record can be
/// serialized, and the answer is `Unexpected` only where it cannot.
pub fn get_votes_of_participant(
    state: &State,
    requesting_participant_credentials: ParticipantCredentials,
) -> (answer: Result<Vec<u8>, InvalidSessionError>)
    requires
        state.wf(),
    ensures
        match state@.participant_check(
            requesting_participant_credentials.id,
            requesting_participant_credentials.token@,
        ) {
            Some(error) => answer == Err::<Vec<u8>, InvalidSessionError>(error),
            None => match answer {
                Ok(bytes) => votes_json(
                    state@.participants[requesting_participant_credentials.id as int].votes,
                ) == Some(bytes@),
                Err(error) => error == InvalidSessionError::Unexpected && votes_json(
                    state@.participants[requesting_participant_credentials.id as int].votes,
                ) is None,
            },
        },
{
    let participant_id = match state.check_participant_validity(
        &requesting_participant_credentials,
    ) {
        Ok(participant_id) => participant_id,
        Err(error) => {
            return Err(error);
        },
    };
    match state.participants_by_id.get(&participant_id.get()) {
        Some(participant) => {
            let elections: usize = state.elections_by_id.len();
            proof {
                let p = participant_id.id();
                assert forall|e: ElectionId|
                    participant.voted_ballot_item_ids_by_election_id@.contains_key(
                        e,
                    ) implies e < elections by {
                    assert(state@.recorded(p, e) <==> state@.listed(p, e));
                }
            }
            votes_answer(
                serialized_votes(&participant.voted_ballot_item_ids_by_election_id, elections),
            )
        },
        None => unreached(),
    }
}

/// The summaries of all elections, for whoever presents credentials of
/// either kind that pass their check.
pub fn get_elections(state: &State, requesting_credentials: RequestingCredentials) -> (answer:
    Result<Vec<ElectionSummary>, InvalidSessionError>)
    requires
        state.wf(),
    ensures
        match answer {
            Ok(listing) => {
                &&& state@.credentials_check(requesting_credentials) is None
                &&& listing@.len() == state@.elections.len()
                &&& forall|e: int|
                    0 <= e < listing@.len() ==> (#[trigger] listing@[e]).describes(
                        e,
                        state@.elections[e],
                    )
            },
            Err(error) => state@.credentials_check(requesting_credentials) == Some(error),
        },
{
    match state.check_credentials(&requesting_credentials) {
        Ok(valid_credentials) => Ok(state.election_summaries(&valid_credentials)),
        Err(error) => Err(error),
    }
}

/// Casts a vote for whoever presents a participant's credentials: the
/// credentials are checked, then the vote is applied. A refused vote
/// changes nothing.
pub fn vote(
    state: &mut State,
    requesting_participant_credentials: ParticipantCredentials,
    elections_vote_body: ElectionsVoteBody,
) -> (outcome: Result<(), ElectionsVoteError>)
    requires
        old(state).wf(),
    ensures
        final(state).wf(),
        match outcome {
            Ok(_) => old(state)@.vote_request_check(
                requesting_participant_credentials.id,
                requesting_participant_credentials.token@,
                elections_vote_body.election_id,
                elections_vote_body.selected_ballot_item_id,
            ) is None && final(state)@ == old(state)@.with_vote(
                requesting_participant_credentials.id,
                elections_vote_body.election_id,
                elections_vote_body.selected_ballot_item_id,
            ),
            Err(error) => old(state)@.vote_request_check(
                requesting_participant_credentials.id,
                requesting_participant_credentials.token@,
                elections_vote_body.election_id,
                elections_vote_body.selected_ballot_item_id,
            ) == Some(error) && final(state)@ == old(state)@,
        },
{
    match state.check_participant_validity(&requesting_participant_credentials) {
        Ok(participant_id) => state.apply_vote(participant_id, &elections_vote_body),
        Err(error) => Err(ElectionsVoteError::from(error)),
    }
}

/// Creates an election for whoever presents an admin session that passes
/// its check. A refused request changes nothing.
pub fn create_election_as_admin(
    state: &mut State,
    admin_create_election_body: AdminCreateElectionBody,
    admin_session: AdminSession,
) -> (outcome: Result<(), InvalidSessionError>)
    requires
        old(state).wf(),
    ensures
        final(state).wf(),
        match outcome {
            Ok(_) => old(state)@.admin_session_check(admin_session.id, admin_session.token@)
                is None && final(state)@ == old(state)@.with_election(
                admin_create_election_body.name@,
                admin_create_election_body.item_names(),
            ),
            Err(error) => old(state)@.admin_session_check(admin_session.id, admin_session.token@)
                == Some(error) && final(state)@ == old(state)@,
        },
{
    match state.check_admin_session_validity(&admin_session) {
        Ok(valid_admin_session) => {
            state.create_election(valid_admin_session, admin_create_election_body);
            Ok(())
        },
        Err(error) => Err(error),
    }
}

} // verus!
