//! Connect status codes and the failure a handler answers with.

use vstd::prelude::*;
use crate::text::{chars_of, push_chars, string_from_chars};

verus! {

/// The Connect protocol's error codes.
#[derive(Debug, Clone, Copy, PartialEq, Eq, Structural)]
pub enum ConnectCode {
    Canceled,
    Unknown,
    InvalidArgument,
    DeadlineExceeded,
    NotFound,
    AlreadyExists,
    PermissionDenied,
    ResourceExhausted,
    FailedPrecondition,
    Aborted,
    OutOfRange,
    Unimplemented,
    Internal,
    Unavailable,
    DataLoss,
    Unauthenticated,
}

/// A Connect failure: its code and, where there is one, its message.
#[derive(Debug, Clone, PartialEq, Eq)]
pub struct ConnectFailure {
    /// The error code.
    pub code: ConnectCode,
    /// The message, if any.
    pub message: Option<String>,
}

impl ConnectFailure {
    /// A failure with `code` and `message`.
    pub fn new(code: ConnectCode, message: &str) -> (r: ConnectFailure)
        ensures
            r.code == code,
            r.message is Some,
            r.message->0@ == message@,
    {
        let v = chars_of(message);
        ConnectFailure { code, message: Some(string_from_chars(v.as_slice())) }
    }
}

/// The message of [`invalid_field`]: ``invalid `field` ``.
pub open spec fn invalid_field_message(field: Seq<char>) -> Seq<char> {
    "invalid `"@ + field + "`"@
}

/// An `InvalidArgument` failure naming the request field at fault.
pub fn invalid_field(field: &str) -> (r: ConnectFailure)
    ensures
        r.code == ConnectCode::InvalidArgument,
        r.message is Some,
        r.message->0@ == invalid_field_message(field@),
{
    let mut s = String::new();
    let a = chars_of("invalid `");
    let f = chars_of(field);
    let b = chars_of("`");
    push_chars(&mut s, a.as_slice());
    push_chars(&mut s, f.as_slice());
    push_chars(&mut s, b.as_slice());
    proof {
        assert(s@ =~= invalid_field_message(field@));
    }
    ConnectFailure { code: ConnectCode::InvalidArgument, message: Some(s) }
}

} // verus!
