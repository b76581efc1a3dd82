use vstd::prelude::*;

verus! {

/// Name of the cookie that carries an admin session's id.
pub const ADMIN_SESSION_ID_COOKIE_KEY: &'static str = "coco_admin_session_id";

/// Name of the cookie that carries an admin session's token.
pub const ADMIN_TOKEN_COOKIE_KEY: &'static str = "coco_admin_token";

/// The password that opens an admin session.
pub const ADMIN_PASSWORD: &'static str = "abcd";

pub type AdminSessionId = usize;

/// Whether `password` is the one that opens an admin session.
pub fn is_admin_password(password: &String) -> (accepted: bool)
    ensures
        accepted == (password@ == ADMIN_PASSWORD@),
{
    let expected: String = ADMIN_PASSWORD.to_owned();
    *password == expected
}

/// An administrator's session: what is issued at login and presented later.
#[derive(Debug, Clone)]
pub struct AdminSession {
    pub id: AdminSessionId,
    pub token: String,
}

/// What an administrator sends to create an election: its name and the names
/// of its ballot items, in the order in which they get their ids.
#[derive(Debug, Clone)]
pub struct AdminCreateElectionBody {
    pub name: String,
    pub ballot_items: Vec<String>,
}

impl AdminCreateElectionBody {
    /// The names of the ballot items, in order, as plain text.
    pub open spec fn item_names(&self) -> Seq<Seq<char>> {
        Seq::new(self.ballot_items@.len(), |i: int| self.ballot_items@[i]@)
    }
}

/// Evidence that an admin session was checked. Only a successful check hands
/// one out, and creating an election asks for it.
#[derive(Debug)]
pub struct ValidAdminSession(AdminSessionId);

impl ValidAdminSession {
    /// The id of the session that was checked.
    pub closed spec fn id(self) -> AdminSessionId {
        self.0
    }

    pub(crate) fn new(id: AdminSessionId) -> (valid: ValidAdminSession)
        ensures
            valid.id() == id,
    {
        ValidAdminSession(id)
    }
}

} // verus!
