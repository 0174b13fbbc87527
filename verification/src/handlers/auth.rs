//! Login: checking a password against its stored Argon2 hash, and hashing new passwords.
use vstd::prelude::*;
use argon2::password_hash::{PasswordHasher, PasswordVerifier};
use crate::models::user::LoginResponse;
use crate::text::owned;

verus! {

/// Whether a password verifies against a stored PHC hash string, as Argon2 (default
/// parameters) decides it; false for a string that is not a password hash.
pub uninterp spec fn password_matches(password: Seq<char>, hash: Seq<char>) -> bool;

/// Checks a password against a stored hash (parses the hash with
/// `argon2::password_hash::PasswordHash::new`, then calls `verify_password` of
/// `argon2::Argon2::default()`). Claims the outcome is `password_matches`; a hash that does not
/// parse gives false.
#[verifier::external_body]
fn verify_password(password: &str, hash: &str) -> (r: bool)
    ensures
        r == password_matches(password@, hash@),
{
    match argon2::password_hash::PasswordHash::new(hash) {
        Ok(parsed) => argon2::Argon2::default().verify_password(password.as_bytes(), &parsed).is_ok(),
        Err(_) => false,
    }
}

/// Hashes a password with a fresh random salt (calls
/// `argon2::password_hash::SaltString::generate` with `rand::rngs::OsRng`, then `hash_password`
/// of `argon2::Argon2::default()`, and prints the PHC string). Claims that a hash it returns
/// verifies the password under the same default parameters, and that hashing succeeds for any
/// password of at most 0x3FFF_FFFF characters: with the default parameters and the generated
/// 16-byte salt, the only error `hash_password` can return is a password longer than
/// 0xFFFF_FFFF bytes. The salt is random, so the string itself is not stated.
#[verifier::external_body]
pub(crate) fn argon2_hash(password: &str) -> (r: Option<String>)
    ensures
        r matches Some(h) ==> password_matches(password@, h@),
        password@.len() <= 0x3FFF_FFFF ==> r is Some,
{
    let salt = argon2::password_hash::SaltString::generate(&mut rand::rngs::OsRng);
    argon2::Argon2::default().hash_password(password.as_bytes(), &salt).map(|h| h.to_string()).ok()
}

/// The stored form of a new password: its Argon2 hash, or the password itself when hashing
/// fails (only for passwords too long to hash).
pub fn hash_password(password: &str) -> (r: String)
    ensures
        password_matches(password@, r@) || r@ == password@,
        password@.len() <= 0x3FFF_FFFF ==> password_matches(password@, r@),
{
    match argon2_hash(password) {
        Some(h) => h,
        None => owned(password),
    }
}

/// A user as the login endpoint reads it.
#[derive(Debug)]
pub struct UserRow {
    pub id: i64,
    pub username: String,
    pub password: String,
}

/// The session user a login with `password` yields: the user's id when the user exists and
/// the password verifies against the stored hash.
pub open spec fn login_session(user: Option<UserRow>, password: Seq<char>) -> Option<i64> {
    match user {
        Some(u) => if password_matches(password, u.password@) { Some(u.id) } else { None },
        None => None,
    }
}

/// A user whose stored password is a hash that verifies `password` (as `hash_password` and
/// `hash_new_password` give it when hashing succeeds) logs in with that password, and with no
/// password that the hash does not verify.
pub proof fn lemma_stored_hash_logs_in(row: UserRow, password: Seq<char>, other: Seq<char>)
    requires
        password_matches(password, row.password@),
    ensures
        login_session(Some(row), password) == Some(row.id),
        !password_matches(other, row.password@) ==> login_session(Some(row), other) is None,
{
}

/// The outcome of a login: the user id to keep in the session, when the user exists and the
/// password verifies against the stored hash, and the response shown.
pub fn login_outcome(user: Option<&UserRow>, password: &str) -> (r: (Option<i64>, LoginResponse))
    ensures
        r.0 == login_session(match user { Some(u) => Some(*u), None => None }, password@),
        match user {
            Some(u) => if password_matches(password@, u.password@) {
                r.0 == Some(u.id) && r.1.success && r.1.message@ == "Login successful"@
            } else {
                r.0 is None && !r.1.success && r.1.message@ == "Invalid credentials"@
            },
            None => r.0 is None && !r.1.success && r.1.message@ == "Invalid credentials"@,
        },
        r.1.requires_2fa is None,
{
    match user {
        Some(u) => {
            if verify_password(password, u.password.as_str()) {
                (Some(u.id), LoginResponse { success: true, message: owned("Login successful"), requires_2fa: None })
            } else {
                (None, LoginResponse { success: false, message: owned("Invalid credentials"), requires_2fa: None })
            }
        },
        None => (None, LoginResponse { success: false, message: owned("Invalid credentials"), requires_2fa: None }),
    }
}

/// Whether a credentials update may go ahead: when a current password is given and the user's
/// stored hash is found, the password must verify against it.
pub fn current_password_accepted(old_password: &Option<String>, stored_hash: &Option<String>) -> (r: bool)
    ensures
        r == (match (old_password, stored_hash) {
            (Some(p), Some(h)) => password_matches(p@, h@),
            _ => true,
        }),
{
    match (old_password, stored_hash) {
        (Some(p), Some(h)) => verify_password(p.as_str(), h.as_str()),
        _ => true,
    }
}

} // verus!
