use vstd::prelude::*;

use crate::admin::{AdminCreateElectionBody, AdminSession};
use crate::election::{ElectionSummary, ElectionsVoteBody};
use crate::error::{ElectionsVoteError, InvalidSessionError};
use crate::laws::{
    law_admin_session_keeps_valid, law_election_keeps_valid, law_registration_keeps_valid,
    law_vote_keeps_valid,
};
use crate::model::StateModel;
use crate::participant::ParticipantCredentials;
use crate::record::votes_json;
use crate::state::{
    create_election_as_admin, get_elections, get_votes_of_participant, vote,
    RequestingCredentials, State,
};
use crate::token::is_token;

verus! {

/// A request to the authority. Whoever delivers it keeps the path on which
/// the answer goes back.
#[derive(Debug, Clone)]
pub enum Message {
    ParticipantsAdd,
    ParticipantsGetVotes { requesting_participant_credentials: ParticipantCredentials },
    ElectionsGet { requesting_credentials: RequestingCredentials },
    ElectionsVote {
        requesting_participant_credentials: ParticipantCredentials,
        elections_vote_body: ElectionsVoteBody,
    },
    AdminStartSession,
    AdminCreateElection {
        requesting_admin_session: AdminSession,
        admin_create_election_body: AdminCreateElectionBody,
    },
}

/// The authority's answer to a request, one kind for each kind of request.
#[derive(Debug)]
pub enum Answer {
    ParticipantsAdd(ParticipantCredentials),
    ParticipantsGetVotes(Result<Vec<u8>, InvalidSessionError>),
    ElectionsGet(Result<Vec<ElectionSummary>, InvalidSessionError>),
    ElectionsVote(Result<(), ElectionsVoteError>),
    AdminStartSession(AdminSession),
    AdminCreateElection(Result<(), InvalidSessionError>),
}

impl StateModel {
    /// `answer` is what the authority says to `message` in this state, and
    /// `after` is the state it is in then. Requests that are refused, and
    /// requests that only read, leave the state as it is.
    pub open spec fn answers(self, message: Message, answer: Answer, after: StateModel) -> bool {
        match message {
            Message::ParticipantsAdd => {
                &&& answer matches Answer::ParticipantsAdd(credentials)
                &&& credentials.id == self.participants.len()
                &&& is_token(credentials.token@)
                &&& after == self.with_participant(credentials.token@)
            },
            Message::ParticipantsGetVotes { requesting_participant_credentials } => {
                &&& answer matches Answer::ParticipantsGetVotes(votes)
                &&& after == self
                &&& match self.participant_check(
                    requesting_participant_credentials.id,
                    requesting_participant_credentials.token@,
                ) {
                    Some(error) => votes == Err::<Vec<u8>, InvalidSessionError>(error),
                    None => match votes {
                        Ok(bytes) => votes_json(
                            self.participants[requesting_participant_credentials.id as int].votes,
                        ) == Some(bytes@),
                        Err(error) => error == InvalidSessionError::Unexpected && votes_json(
                            self.participants[requesting_participant_credentials.id as int].votes,
                        ) is None,
                    },
                }
            },
            Message::ElectionsGet { requesting_credentials } => {
                &&& answer matches Answer::ElectionsGet(elections)
                &&& after == self
                &&& match elections {
                    Ok(listing) => {
                        &&& self.credentials_check(requesting_credentials) is None
                        &&& listing@.len() == self.elections.len()
                        &&& forall|e: int|
                            0 <= e < listing@.len() ==> (#[trigger] listing@[e]).describes(
                                e,
                                self.elections[e],
                            )
                    },
                    Err(error) => self.credentials_check(requesting_credentials) == Some(error),
                }
            },
            Message::ElectionsVote { requesting_participant_credentials, elections_vote_body } => {
                &&& answer matches Answer::ElectionsVote(outcome)
                &&& match outcome {
                    Ok(_) => self.vote_request_check(
                        requesting_participant_credentials.id,
                        requesting_participant_credentials.token@,
                        elections_vote_body.election_id,
                        elections_vote_body.selected_ballot_item_id,
                    ) is None && after == self.with_vote(
                        requesting_participant_credentials.id,
                        elections_vote_body.election_id,
                        elections_vote_body.selected_ballot_item_id,
                    ),
                    Err(error) => self.vote_request_check(
                        requesting_participant_credentials.id,
                        requesting_participant_credentials.token@,
                        elections_vote_body.election_id,
                        elections_vote_body.selected_ballot_item_id,
                    ) == Some(error) && after == self,
                }
            },
            Message::AdminStartSession => {
                &&& answer matches Answer::AdminStartSession(session)
                &&& session.id == self.admin_sessions.len()
                &&& is_token(session.token@)
                &&& after == self.with_admin_session(session.token@)
            },
            Message::AdminCreateElection { requesting_admin_session, admin_create_election_body } => {
                &&& answer matches Answer::AdminCreateElection(outcome)
                &&& match outcome {
                    Ok(_) => self.admin_session_check(
                        requesting_admin_session.id,
                        requesting_admin_session.token@,
                    ) is None && after == self.with_election(
                        admin_create_election_body.name@,
                        admin_create_election_body.item_names(),
                    ),
                    Err(error) => self.admin_session_check(
                        requesting_admin_session.id,
                        requesting_admin_session.token@,
                    ) == Some(error) && after == self,
                }
            },
        }
    }
}

/// Handles one request to completion: checks the credentials it carries,
/// reads or changes the state, and gives the answer. The state is
/// well-formed again when the answer is there, so the next request finds
/// every election with as many votes as voters.
pub fn handle_message(state: &mut State, message: Message) -> (answer: Answer)
    requires
        old(state).wf(),
    ensures
        final(state).wf(),
        final(state)@.valid(),
        old(state)@.answers(message, answer, final(state)@),
{
    let answer = match message {
        Message::ParticipantsAdd => Answer::ParticipantsAdd(state.create_participant()),
        Message::ParticipantsGetVotes { requesting_participant_credentials } => {
            Answer::ParticipantsGetVotes(
                get_votes_of_participant(state, requesting_participant_credentials),
            )
        },
        Message::ElectionsGet { requesting_credentials } => {
            Answer::ElectionsGet(get_elections(state, requesting_credentials))
        },
        Message::ElectionsVote { requesting_participant_credentials, elections_vote_body } => {
            Answer::ElectionsVote(
                vote(state, requesting_participant_credentials, elections_vote_body),
            )
        },
        Message::AdminStartSession => Answer::AdminStartSession(state.create_admin_session()),
        Message::AdminCreateElection { requesting_admin_session, admin_create_election_body } => {
            Answer::AdminCreateElection(
                create_election_as_admin(state, admin_create_election_body, requesting_admin_session),
            )
        },
    };
    proof {
        state.lemma_wf_is_valid();
    }
    answer
}

/// `states` are the states that the authority goes through, from the empty
/// one, as it answers `messages` one after the other with `answers`.
pub open spec fn is_run(states: Seq<StateModel>, messages: Seq<Message>, answers: Seq<Answer>) -> bool {
    &&& states.len() == messages.len() + 1
    &&& answers.len() == messages.len()
    &&& states[0] == StateModel::empty()
    &&& forall|i: int|
        #![trigger messages[i]]
        0 <= i < messages.len() ==> states[i].answers(messages[i], answers[i], states[i + 1])
            && states[i + 1].fits()
}

/// Whatever the request and whatever the answer, a valid state is valid
/// again once the request is handled, as long as it still fits.
pub proof fn law_answer_keeps_valid(
    before: StateModel,
    message: Message,
    answer: Answer,
    after: StateModel,
)
    requires
        before.valid(),
        before.answers(message, answer, after),
        after.fits(),
    ensures
        after.valid(),
{
    match message {
        Message::ParticipantsAdd => {
            if let Answer::ParticipantsAdd(credentials) = answer {
                law_registration_keeps_valid(before, credentials.token@);
            }
        },
        Message::ParticipantsGetVotes { .. } => {},
        Message::ElectionsGet { .. } => {},
        Message::ElectionsVote { requesting_participant_credentials, elections_vote_body } => {
            if let Answer::ElectionsVote(Ok(_)) = answer {
                law_vote_keeps_valid(
                    before,
                    requesting_participant_credentials.id,
                    elections_vote_body.election_id,
                    elections_vote_body.selected_ballot_item_id,
                );
            }
        },
        Message::AdminStartSession => {
            if let Answer::AdminStartSession(session) = answer {
                law_admin_session_keeps_valid(before, session.token@);
            }
        },
        Message::AdminCreateElection { requesting_admin_session, admin_create_election_body } => {
            if let Answer::AdminCreateElection(Ok(_)) = answer {
                law_election_keeps_valid(
                    before,
                    admin_create_election_body.name@,
                    admin_create_election_body.item_names(),
                );
            }
        },
    }
}

/// After any sequence of requests the state is valid: every election has
/// as many votes on its ballot items as it has voters, every vote on record
/// is counted on the item it names, and nobody is on record twice for one
/// election.
pub proof fn law_valid_after_any_run(
    states: Seq<StateModel>,
    messages: Seq<Message>,
    answers: Seq<Answer>,
    handled: int,
)
    requires
        is_run(states, messages, answers),
        0 <= handled <= messages.len(),
    ensures
        states[handled].valid(),
    decreases handled,
{
    if handled > 0 {
        law_valid_after_any_run(states, messages, answers, handled - 1);
        law_answer_keeps_valid(
            states[handled - 1],
            messages[handled - 1],
            answers[handled - 1],
            states[handled],
        );
    }
}

} // verus!
