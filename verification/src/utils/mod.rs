//! Helper types shared by the handlers.
pub mod response;
