//! Session helpers: the key under which the logged-in user's id is kept, and the rule that
//! only a session with a user passes protected routes.
use vstd::prelude::*;

verus! {

/// Session helpers.
pub struct SessionManager;

impl SessionManager {
    /// The session key of the logged-in user's id.
    pub const USER_ID_KEY: &'static str = "user_id";

    /// Whether a request with this session user may pass a protected route.
    pub fn allows(user_id: Option<i64>) -> (r: bool)
        ensures
            r == user_id is Some,
    {
        user_id.is_some()
    }
}

} // verus!
