use vstd::prelude::*;
use vstd::std_specs::convert::FromSpecImpl;

verus! {

/// Status a transport reports when an identity is unknown or its token is wrong.
pub const STATUS_UNAUTHORIZED: u16 = 401;

/// Status a transport reports when a participant tries to vote a second time.
pub const STATUS_FORBIDDEN: u16 = 403;

/// Status a transport reports when an election or ballot item does not exist.
pub const STATUS_NOT_FOUND: u16 = 404;

/// Status a transport reports when the service itself failed.
pub const STATUS_INTERNAL_SERVER_ERROR: u16 = 500;

/// Why presented credentials were not accepted.
#[derive(Debug, Clone, Copy, PartialEq, Eq, Structural)]
pub enum InvalidSessionError {
    /// No identity with the claimed id exists.
    Missing,
    /// The identity exists, but its token differs from the claimed one.
    WrongToken,
    /// A reply could not be serialized.
    Unexpected,
}

impl InvalidSessionError {
    /// The status code that stands for this error.
    pub open spec fn status(self) -> u16 {
        match self {
            InvalidSessionError::Missing => STATUS_UNAUTHORIZED,
            InvalidSessionError::WrongToken => STATUS_UNAUTHORIZED,
            InvalidSessionError::Unexpected => STATUS_INTERNAL_SERVER_ERROR,
        }
    }

    /// The status code a transport answers with. A missing identity and a
    /// wrong token are reported alike, so that a caller cannot probe which
    /// identities exist.
    pub fn http_status_code(&self) -> (code: u16)
        ensures
            code == self.status(),
    {
        match self {
            InvalidSessionError::Missing => STATUS_UNAUTHORIZED,
            InvalidSessionError::WrongToken => STATUS_UNAUTHORIZED,
            InvalidSessionError::Unexpected => STATUS_INTERNAL_SERVER_ERROR,
        }
    }

    /// The text shown to the caller.
    pub fn message(&self) -> (text: &'static str)
        ensures
            text@ == match *self {
                InvalidSessionError::Missing => "You need to log in first."@,
                InvalidSessionError::WrongToken => "The supplied login token for this participant is wrong."@,
                InvalidSessionError::Unexpected => "Unexpected internal error."@,
            },
    {
        match self {
            InvalidSessionError::Missing => "You need to log in first.",
            InvalidSessionError::WrongToken => "The supplied login token for this participant is wrong.",
            InvalidSessionError::Unexpected => "Unexpected internal error.",
        }
    }
}

/// Why a vote was not counted.
#[derive(Debug, Clone, Copy, PartialEq, Eq, Structural)]
pub enum ElectionsVoteError {
    /// The voter's credentials were not accepted.
    InvalidParticipant(InvalidSessionError),
    /// No election with the given id exists.
    MissingElection,
    /// The participant has voted in this election before.
    AlreadyVoted,
    /// The election has no ballot item with the given id.
    MissingBallotItem,
}

impl From<InvalidSessionError> for ElectionsVoteError {
    fn from(error: InvalidSessionError) -> (wrapped: ElectionsVoteError) {
        ElectionsVoteError::InvalidParticipant(error)
    }
}

impl FromSpecImpl<InvalidSessionError> for ElectionsVoteError {
    open spec fn obeys_from_spec() -> bool {
        true
    }

    open spec fn from_spec(error: InvalidSessionError) -> ElectionsVoteError {
        ElectionsVoteError::InvalidParticipant(error)
    }
}

impl ElectionsVoteError {
    /// The status code that stands for this error.
    pub open spec fn status(self) -> u16 {
        match self {
            ElectionsVoteError::InvalidParticipant(inner) => inner.status(),
            ElectionsVoteError::MissingElection => STATUS_NOT_FOUND,
            ElectionsVoteError::AlreadyVoted => STATUS_FORBIDDEN,
            ElectionsVoteError::MissingBallotItem => STATUS_NOT_FOUND,
        }
    }

    /// The status code a transport answers with; a credentials error keeps
    /// the code it has on its own.
    pub fn http_status_code(&self) -> (code: u16)
        ensures
            code == self.status(),
    {
        match self {
            ElectionsVoteError::InvalidParticipant(inner) => inner.http_status_code(),
            ElectionsVoteError::MissingElection => STATUS_NOT_FOUND,
            ElectionsVoteError::AlreadyVoted => STATUS_FORBIDDEN,
            ElectionsVoteError::MissingBallotItem => STATUS_NOT_FOUND,
        }
    }

    /// The text shown to the caller; a credentials error keeps its own text.
    pub fn message(&self) -> (text: &'static str)
        ensures
            text@ == match *self {
                ElectionsVoteError::InvalidParticipant(inner) => match inner {
                    InvalidSessionError::Missing => "You need to log in first."@,
                    InvalidSessionError::WrongToken => "The supplied login token for this participant is wrong."@,
                    InvalidSessionError::Unexpected => "Unexpected internal error."@,
                },
                ElectionsVoteError::MissingElection => "The election was deleted by the administrator."@,
                ElectionsVoteError::AlreadyVoted => "You already voted."@,
                ElectionsVoteError::MissingBallotItem => "The election was modified by the administrator."@,
            },
    {
        match self {
            ElectionsVoteError::InvalidParticipant(inner) => inner.message(),
            ElectionsVoteError::MissingElection => "The election was deleted by the administrator.",
            ElectionsVoteError::AlreadyVoted => "You already voted.",
            ElectionsVoteError::MissingBallotItem => "The election was modified by the administrator.",
        }
    }
}

} // verus!
