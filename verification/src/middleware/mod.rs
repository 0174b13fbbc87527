//! Request middleware: the session key of the logged-in user and the access rule.
pub mod session;
