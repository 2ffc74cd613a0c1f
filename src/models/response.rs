//! The success and error envelopes answers are wrapped in.
use vstd::prelude::*;

verus! {

/// A successful answer carrying its payload.
pub struct SuccessResponse<T> {
    pub data: T,
}

impl<T> SuccessResponse<T> {
    pub fn new(data: T) -> (r: Self)
        ensures
            r.data == data,
    {
        Self { data }
    }
}

/// A failed answer: its HTTP status and its text.
pub struct ErrorResponse {
    pub code: u16,
    pub message: String,
}

impl ErrorResponse {
    pub fn new(code: u16, message: String) -> (r: Self)
        ensures
            r.code == code,
            r.message@ == message@,
    {
        Self { code, message }
    }
}

} // verus!
