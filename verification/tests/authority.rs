use coco::admin::{AdminCreateElectionBody, AdminSession};
use coco::authority::{handle_message, Answer, Message};
use coco::election::ElectionsVoteBody;
use coco::error::{ElectionsVoteError, InvalidSessionError};
use coco::participant::ParticipantCredentials;
use coco::state::{
    create_election_as_admin, get_elections, get_votes_of_participant, vote, votes_answer,
    RequestingCredentials, State,
};
use std::collections::HashMap;

fn pets() -> AdminCreateElectionBody {
    AdminCreateElectionBody {
        name: String::from("What is your favorite pet?"),
        ballot_items: vec![String::from("Cat"), String::from("Dog")],
    }
}

fn colors() -> AdminCreateElectionBody {
    AdminCreateElectionBody {
        name: String::from("What is your favorite color?"),
        ballot_items: vec![String::from("Red"), String::from("Green"), String::from("Blue")],
    }
}

fn ballot(election_id: usize, selected_ballot_item_id: usize) -> ElectionsVoteBody {
    ElectionsVoteBody { election_id, selected_ballot_item_id }
}

fn counts(state: &State, viewer: &ParticipantCredentials, election_id: usize) -> Vec<usize> {
    let listing = get_elections(state, RequestingCredentials::Normal(viewer.clone())).unwrap();
    listing[election_id].ballot_items.iter().map(|item| item.num_votes).collect()
}

#[test]
fn register_create_vote_and_vote_again() {
    let mut state = State::new();
    let participant = state.create_participant();
    assert_eq!(participant.id, 0);

    let admin = state.create_admin_session();
    assert_eq!(create_election_as_admin(&mut state, pets(), admin.clone()), Ok(()));

    let listing = get_elections(&state, RequestingCredentials::Admin(admin)).unwrap();
    assert_eq!(listing.len(), 1);
    assert_eq!(listing[0].id, 0);
    assert_eq!(listing[0].name, "What is your favorite pet?");
    assert_eq!(listing[0].ballot_items.len(), 2);
    assert_eq!(listing[0].ballot_items[0].id, 0);
    assert_eq!(listing[0].ballot_items[0].name, "Cat");
    assert_eq!(listing[0].ballot_items[0].num_votes, 0);
    assert_eq!(listing[0].ballot_items[1].id, 1);
    assert_eq!(listing[0].ballot_items[1].name, "Dog");
    assert_eq!(listing[0].ballot_items[1].num_votes, 0);

    assert_eq!(vote(&mut state, participant.clone(), ballot(0, 1)), Ok(()));
    assert_eq!(counts(&state, &participant, 0), vec![0, 1]);

    assert_eq!(
        vote(&mut state, participant.clone(), ballot(0, 0)),
        Err(ElectionsVoteError::AlreadyVoted)
    );
    assert_eq!(counts(&state, &participant, 0), vec![0, 1]);
}

#[test]
fn votes_that_are_refused() {
    let mut state = State::new();
    let participant = state.create_participant();
    let admin = state.create_admin_session();
    assert_eq!(create_election_as_admin(&mut state, pets(), admin), Ok(()));

    let stranger = ParticipantCredentials { id: 7, token: participant.token.clone() };
    assert_eq!(
        vote(&mut state, stranger, ballot(0, 0)),
        Err(ElectionsVoteError::InvalidParticipant(InvalidSessionError::Missing))
    );

    let forger = ParticipantCredentials { id: participant.id, token: String::from("guess") };
    assert_eq!(
        vote(&mut state, forger, ballot(0, 0)),
        Err(ElectionsVoteError::InvalidParticipant(InvalidSessionError::WrongToken))
    );

    assert_eq!(
        vote(&mut state, participant.clone(), ballot(99, 0)),
        Err(ElectionsVoteError::MissingElection)
    );
    assert_eq!(
        vote(&mut state, participant.clone(), ballot(0, 2)),
        Err(ElectionsVoteError::MissingBallotItem)
    );
    assert_eq!(counts(&state, &participant, 0), vec![0, 0]);
}

#[test]
fn an_earlier_vote_is_reported_before_a_missing_item() {
    let mut state = State::new();
    let participant = state.create_participant();
    let admin = state.create_admin_session();
    assert_eq!(create_election_as_admin(&mut state, pets(), admin), Ok(()));
    assert_eq!(vote(&mut state, participant.clone(), ballot(0, 0)), Ok(()));
    assert_eq!(
        vote(&mut state, participant.clone(), ballot(0, 5)),
        Err(ElectionsVoteError::AlreadyVoted)
    );
    assert_eq!(
        vote(&mut state, participant, ballot(1, 0)),
        Err(ElectionsVoteError::MissingElection)
    );
}

#[test]
fn ids_follow_the_order_of_registration() {
    let mut state = State::new();
    let first = state.create_participant();
    let second = state.create_participant();
    let third = state.create_participant();
    assert_eq!((first.id, second.id, third.id), (0, 1, 2));

    let admin_a = state.create_admin_session();
    let admin_b = state.create_admin_session();
    assert_eq!((admin_a.id, admin_b.id), (0, 1));

    assert_eq!(create_election_as_admin(&mut state, pets(), admin_a.clone()), Ok(()));
    assert_eq!(create_election_as_admin(&mut state, colors(), admin_b), Ok(()));
    let listing = get_elections(&state, RequestingCredentials::Admin(admin_a)).unwrap();
    assert_eq!(listing.iter().map(|election| election.id).collect::<Vec<usize>>(), vec![0, 1]);
    assert_eq!(listing[1].name, "What is your favorite color?");
    assert_eq!(
        listing[1].ballot_items.iter().map(|item| item.name.as_str()).collect::<Vec<&str>>(),
        vec!["Red", "Green", "Blue"]
    );
}

#[test]
fn a_check_gives_the_same_answer_twice() {
    let mut state = State::new();
    let participant = state.create_participant();
    let forger = ParticipantCredentials { id: 0, token: String::from("x") };
    let stranger = ParticipantCredentials { id: 1, token: participant.token.clone() };

    let first = state.check_participant_validity(&participant).map(|valid| valid.get());
    let again = state.check_participant_validity(&participant).map(|valid| valid.get());
    assert_eq!(first, Ok(0));
    assert_eq!(again, Ok(0));

    for _ in 0..2 {
        assert_eq!(
            state.check_participant_validity(&forger).err(),
            Some(InvalidSessionError::WrongToken)
        );
        assert_eq!(
            state.check_participant_validity(&stranger).err(),
            Some(InvalidSessionError::Missing)
        );
    }
}

#[test]
fn admin_sessions_are_checked_against_their_own_registry() {
    let mut state = State::new();
    let participant = state.create_participant();
    let admin = state.create_admin_session();

    assert!(state.check_admin_session_validity(&admin).is_ok());
    let forged = AdminSession { id: admin.id, token: participant.token.clone() };
    assert_eq!(
        state.check_admin_session_validity(&forged).err(),
        Some(InvalidSessionError::WrongToken)
    );
    let unknown = AdminSession { id: 1, token: admin.token.clone() };
    assert_eq!(
        state.check_admin_session_validity(&unknown).err(),
        Some(InvalidSessionError::Missing)
    );

    assert!(state.check_credentials(&RequestingCredentials::Admin(admin.clone())).is_ok());
    assert!(state.check_credentials(&RequestingCredentials::Normal(participant.clone())).is_ok());
    let as_participant = ParticipantCredentials { id: admin.id, token: admin.token.clone() };
    assert_eq!(
        state.check_credentials(&RequestingCredentials::Normal(as_participant)).err(),
        Some(InvalidSessionError::WrongToken)
    );
    assert_eq!(
        state.check_credentials(&RequestingCredentials::Admin(unknown)).err(),
        Some(InvalidSessionError::Missing)
    );
}

#[test]
fn an_election_is_not_created_without_a_valid_session() {
    let mut state = State::new();
    let admin = state.create_admin_session();
    let forged = AdminSession { id: 0, token: String::from("nope") };
    assert_eq!(
        create_election_as_admin(&mut state, pets(), forged),
        Err(InvalidSessionError::WrongToken)
    );
    let unknown = AdminSession { id: 3, token: admin.token.clone() };
    assert_eq!(
        create_election_as_admin(&mut state, pets(), unknown),
        Err(InvalidSessionError::Missing)
    );
    let listing = get_elections(&state, RequestingCredentials::Admin(admin)).unwrap();
    assert!(listing.is_empty());
}

#[test]
fn elections_are_shown_only_to_valid_credentials() {
    let mut state = State::new();
    let participant = state.create_participant();
    let forger = ParticipantCredentials { id: 0, token: String::from("x") };
    assert_eq!(
        get_elections(&state, RequestingCredentials::Normal(forger)).err(),
        Some(InvalidSessionError::WrongToken)
    );
    let no_session = AdminSession { id: 0, token: participant.token.clone() };
    assert_eq!(
        get_elections(&state, RequestingCredentials::Admin(no_session)).err(),
        Some(InvalidSessionError::Missing)
    );
    assert!(get_elections(&state, RequestingCredentials::Normal(participant)).unwrap().is_empty());
}

#[test]
fn votes_and_voters_stay_in_step() {
    let mut state = State::new();
    let admin = state.create_admin_session();
    assert_eq!(create_election_as_admin(&mut state, pets(), admin.clone()), Ok(()));
    assert_eq!(create_election_as_admin(&mut state, colors(), admin), Ok(()));
    let voters: Vec<ParticipantCredentials> =
        (0..5).map(|_| state.create_participant()).collect();

    let choices = [(0, 0, 1), (1, 0, 1), (2, 0, 0), (0, 1, 2), (3, 1, 2), (4, 1, 0)];
    let mut accepted = [0usize; 2];
    for (voter, election, item) in choices {
        assert_eq!(vote(&mut state, voters[voter].clone(), ballot(election, item)), Ok(()));
        accepted[election] += 1;
        for id in 0..2 {
            let total: usize = counts(&state, &voters[0], id).iter().sum();
            assert_eq!(total, accepted[id]);
        }
    }
    assert_eq!(counts(&state, &voters[0], 0), vec![1, 2]);
    assert_eq!(counts(&state, &voters[0], 1), vec![1, 0, 2]);

    for (voter, election, _) in choices {
        assert_eq!(
            vote(&mut state, voters[voter].clone(), ballot(election, 0)),
            Err(ElectionsVoteError::AlreadyVoted)
        );
    }
    assert_eq!(counts(&state, &voters[0], 0), vec![1, 2]);
    assert_eq!(counts(&state, &voters[0], 1), vec![1, 0, 2]);
}

#[test]
fn a_vote_goes_on_the_record_of_its_voter() {
    let mut state = State::new();
    let admin = state.create_admin_session();
    assert_eq!(create_election_as_admin(&mut state, pets(), admin.clone()), Ok(()));
    assert_eq!(create_election_as_admin(&mut state, colors(), admin), Ok(()));
    let alice = state.create_participant();
    let bob = state.create_participant();

    let valid_alice = state.check_participant_validity(&alice).unwrap();
    let valid_bob = state.check_participant_validity(&bob).unwrap();
    assert_eq!(state.recorded_vote(valid_alice, 1), None);

    assert_eq!(state.apply_vote(valid_alice, &ballot(1, 2)), Ok(()));
    assert_eq!(state.recorded_vote(valid_alice, 1), Some(2));
    assert_eq!(state.recorded_vote(valid_alice, 0), None);
    assert_eq!(state.recorded_vote(valid_bob, 1), None);

    assert_eq!(state.apply_vote(valid_alice, &ballot(1, 0)), Err(ElectionsVoteError::AlreadyVoted));
    assert_eq!(state.apply_vote(valid_bob, &ballot(1, 0)), Ok(()));
    assert_eq!(state.recorded_vote(valid_alice, 1), Some(2));
    assert_eq!(state.recorded_vote(valid_bob, 1), Some(0));
    assert_eq!(counts(&state, &alice, 1), vec![1, 0, 1]);
}

#[test]
fn the_record_of_votes_is_a_json_object() {
    let mut state = State::new();
    let admin = state.create_admin_session();
    assert_eq!(create_election_as_admin(&mut state, pets(), admin.clone()), Ok(()));
    assert_eq!(create_election_as_admin(&mut state, colors(), admin), Ok(()));
    let alice = state.create_participant();

    let empty = get_votes_of_participant(&state, alice.clone()).unwrap();
    assert_eq!(empty, b"{}".to_vec());

    assert_eq!(vote(&mut state, alice.clone(), ballot(1, 2)), Ok(()));
    let one = get_votes_of_participant(&state, alice.clone()).unwrap();
    assert_eq!(one, b"{\"1\":2}".to_vec());

    assert_eq!(vote(&mut state, alice.clone(), ballot(0, 1)), Ok(()));
    let two = get_votes_of_participant(&state, alice.clone()).unwrap();
    assert_eq!(two, b"{\"0\":1,\"1\":2}".to_vec());
    let parsed: HashMap<usize, usize> = serde_json::from_slice(&two).unwrap();
    assert_eq!(parsed, HashMap::from([(0, 1), (1, 2)]));

    let forger = ParticipantCredentials { id: alice.id, token: String::from("x") };
    assert_eq!(get_votes_of_participant(&state, forger), Err(InvalidSessionError::WrongToken));
    let stranger = ParticipantCredentials { id: 4, token: alice.token };
    assert_eq!(get_votes_of_participant(&state, stranger), Err(InvalidSessionError::Missing));
}

#[test]
fn a_record_is_written_in_the_order_of_its_elections() {
    let mut state = State::new();
    let admin = state.create_admin_session();
    for _ in 0..12 {
        assert_eq!(create_election_as_admin(&mut state, pets(), admin.clone()), Ok(()));
    }
    let alice = state.create_participant();
    for election in [11, 3, 7, 0, 10, 2] {
        assert_eq!(vote(&mut state, alice.clone(), ballot(election, election % 2)), Ok(()));
    }
    let written = get_votes_of_participant(&state, alice).unwrap();
    assert_eq!(
        String::from_utf8(written).unwrap(),
        "{\"0\":0,\"2\":0,\"3\":1,\"7\":1,\"10\":0,\"11\":1}"
    );
}

#[test]
fn a_state_starts_empty() {
    let mut state = State::default();
    let admin = state.create_admin_session();
    assert_eq!(admin.id, 0);
    assert!(get_elections(&state, RequestingCredentials::Admin(admin)).unwrap().is_empty());
    let participant = state.create_participant();
    assert_eq!(participant.id, 0);
    assert_eq!(
        vote(&mut state, participant, ballot(0, 0)),
        Err(ElectionsVoteError::MissingElection)
    );
}

#[test]
fn a_failed_serialization_is_unexpected() {
    assert_eq!(votes_answer(Ok(vec![123, 125])), Ok(vec![123, 125]));
    let failure = serde_json::from_str::<u8>("not json").unwrap_err();
    assert_eq!(votes_answer(Err(failure)), Err(InvalidSessionError::Unexpected));
}

#[test]
fn each_message_gets_its_kind_of_answer() {
    let mut state = State::new();

    let participant = match handle_message(&mut state, Message::ParticipantsAdd) {
        Answer::ParticipantsAdd(credentials) => credentials,
        other => panic!("{other:?}"),
    };
    assert_eq!(participant.id, 0);
    assert_eq!(participant.token.len(), 32);

    let admin = match handle_message(&mut state, Message::AdminStartSession) {
        Answer::AdminStartSession(session) => session,
        other => panic!("{other:?}"),
    };
    assert_eq!(admin.id, 0);
    assert_eq!(admin.token.len(), 32);

    let created = handle_message(
        &mut state,
        Message::AdminCreateElection {
            requesting_admin_session: admin.clone(),
            admin_create_election_body: pets(),
        },
    );
    assert!(matches!(created, Answer::AdminCreateElection(Ok(()))));

    let refused = handle_message(
        &mut state,
        Message::AdminCreateElection {
            requesting_admin_session: AdminSession { id: 0, token: String::new() },
            admin_create_election_body: colors(),
        },
    );
    assert!(matches!(
        refused,
        Answer::AdminCreateElection(Err(InvalidSessionError::WrongToken))
    ));

    let voted = handle_message(
        &mut state,
        Message::ElectionsVote {
            requesting_participant_credentials: participant.clone(),
            elections_vote_body: ballot(0, 1),
        },
    );
    assert!(matches!(voted, Answer::ElectionsVote(Ok(()))));

    let again = handle_message(
        &mut state,
        Message::ElectionsVote {
            requesting_participant_credentials: participant.clone(),
            elections_vote_body: ballot(0, 0),
        },
    );
    assert!(matches!(again, Answer::ElectionsVote(Err(ElectionsVoteError::AlreadyVoted))));

    let shown = handle_message(
        &mut state,
        Message::ElectionsGet {
            requesting_credentials: RequestingCredentials::Normal(participant.clone()),
        },
    );
    match shown {
        Answer::ElectionsGet(Ok(listing)) => {
            assert_eq!(listing.len(), 1);
            assert_eq!(listing[0].ballot_items[0].num_votes, 0);
            assert_eq!(listing[0].ballot_items[1].num_votes, 1);
        }
        other => panic!("{other:?}"),
    }

    let votes = handle_message(
        &mut state,
        Message::ParticipantsGetVotes { requesting_participant_credentials: participant },
    );
    match votes {
        Answer::ParticipantsGetVotes(Ok(bytes)) => assert_eq!(bytes, b"{\"0\":1}".to_vec()),
        other => panic!("{other:?}"),
    }
}
