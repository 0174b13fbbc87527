//! Standard API response envelope.
use vstd::prelude::*;
use crate::text::owned;

verus! {

/// Standard API response wrapper.
#[derive(Debug)]
pub struct ApiResponse<T> {
    pub success: bool,
    pub data: Option<T>,
    pub message: Option<String>,
}

/// The text of an optional message.
pub open spec fn message_view(m: Option<String>) -> Option<Seq<char>> {
    match m {
        Some(s) => Some(s@),
        None => None,
    }
}

impl<T> ApiResponse<T> {
    /// A successful response carrying data.
    pub fn success(data: T) -> (r: Self)
        ensures
            r.success,
            r.data == Some(data),
            r.message is None,
    {
        ApiResponse { success: true, data: Some(data), message: None }
    }

    /// A successful response with a message but no data.
    pub fn success_msg(message: &str) -> (r: Self)
        where
            T: Default,
        ensures
            r.success,
            r.data is None,
            message_view(r.message) == Some(message@),
    {
        ApiResponse { success: true, data: None, message: Some(owned(message)) }
    }

    /// A failed response with a message and default data.
    pub fn error(message: &str) -> (r: Self)
        where
            T: Default,
        ensures
            !r.success,
            r.data is Some,
            message_view(r.message) == Some(message@),
    {
        ApiResponse { success: false, data: Some(T::default()), message: Some(owned(message)) }
    }
}

impl ApiResponse<()> {
    /// A successful empty response.
    pub fn ok() -> (r: Self)
        ensures
            r.success,
            r.data == Some(()),
            r.message is None,
    {
        ApiResponse { success: true, data: Some(()), message: None }
    }
}

} // verus!
