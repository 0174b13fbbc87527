//! Page endpoints: who sees the panel page and who is sent to the login page.
use vstd::prelude::*;

verus! {

/// What a protected page answers.
#[derive(Debug, Clone, Copy, PartialEq, Eq)]
pub enum PageAnswer {
    /// The panel page.
    Panel,
    /// A redirect to the login page at `/`.
    RedirectToLogin,
}

/// A protected page is shown to a logged-in user; anyone else is sent to the login page.
pub fn protected_page(user_id: Option<i64>) -> (r: PageAnswer)
    ensures
        r == (if user_id is Some { PageAnswer::Panel } else { PageAnswer::RedirectToLogin }),
{
    match user_id {
        Some(_) => PageAnswer::Panel,
        None => PageAnswer::RedirectToLogin,
    }
}

/// The statement that tells whether two-factor login is switched on.
pub const TWO_FACTOR_SQL: &'static str = "SELECT 1 FROM settings WHERE key = 'twoFactorEnable' AND value = 'true'";

} // verus!
