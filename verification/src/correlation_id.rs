//! `CorrelationId`: an opaque identifier grouping related requests across
//! services, carried in the `X-Correlation-Id` header.

use vstd::prelude::*;
use vstd::utf8::encode_utf8;
use crate::text::{all_printable_ascii, lemma_printable_chars, owned, printable_ascii};
use crate::uuid::{lemma_uuid_text_printable, uuid_text, Uuid};
use crate::header_id::HeaderId;
use std::borrow::Cow;

verus! {

/// Why a string is not a correlation ID.
#[derive(Debug, Clone, Copy, PartialEq, Eq, Structural)]
pub enum CorrelationIdError {
    /// The input was empty.
    Empty,
    /// The input is longer than 255 characters.
    TooLong,
    /// The input holds a byte outside printable ASCII (`0x20`–`0x7E`).
    InvalidChars,
}

/// Validation of a correlation ID: non-empty, at most 255 characters, printable
/// ASCII only.
pub open spec fn spec_correlation_id(s: Seq<char>) -> Result<Seq<char>, CorrelationIdError> {
    if s.len() == 0 {
        Err(CorrelationIdError::Empty)
    } else if s.len() > 255 {
        Err(CorrelationIdError::TooLong)
    } else if !printable_ascii(encode_utf8(s)) {
        Err(CorrelationIdError::InvalidChars)
    } else {
        Ok(s)
    }
}

/// An opaque cross-service correlation identifier (1–255 printable ASCII
/// characters).
#[derive(Debug, Clone, PartialEq, Eq, Hash)]
pub struct CorrelationId(String);

impl View for CorrelationId {
    type V = Seq<char>;

    closed spec fn view(&self) -> Seq<char> {
        self.0@
    }
}

/// The abstract value of a construction result.
pub open spec fn correlation_result(r: Result<CorrelationId, CorrelationIdError>) -> Result<
    Seq<char>,
    CorrelationIdError,
> {
    match r {
        Ok(id) => Ok(id@),
        Err(e) => Err(e),
    }
}

impl CorrelationId {
    /// A correlation ID from `s`, if it is valid.
    pub fn new(s: &str) -> (r: Result<CorrelationId, CorrelationIdError>)
        ensures
            correlation_result(r) == spec_correlation_id(s@),
    {
        if s.is_empty() {
            return Err(CorrelationIdError::Empty);
        }
        if s.unicode_len() > 255 {
            return Err(CorrelationIdError::TooLong);
        }
        if !all_printable_ascii(s.as_bytes()) {
            return Err(CorrelationIdError::InvalidChars);
        }
        Ok(CorrelationId(owned(s)))
    }

    /// A fresh ID: the hyphenated form of a random version-4 UUID, which is
    /// always a valid correlation ID.
    pub fn new_uuid() -> (r: CorrelationId)
        ensures
            exists|v: u128| r@ == uuid_text(v),
            spec_correlation_id(r@) == Ok::<Seq<char>, CorrelationIdError>(r@),
    {
        let u = Uuid::new_v4();
        let s = u.to_string();
        proof {
            lemma_uuid_text_printable(u@);
            lemma_printable_chars(s@);
        }
        CorrelationId(s)
    }

    /// A fresh random ID (the same as [`CorrelationId::new_uuid`]).
    pub fn new_random() -> (r: CorrelationId)
        ensures
            exists|v: u128| r@ == uuid_text(v),
            spec_correlation_id(r@) == Ok::<Seq<char>, CorrelationIdError>(r@),
    {
        CorrelationId::new_uuid()
    }

    /// A fresh random ID (the same as [`CorrelationId::new_uuid`]).
    pub fn new_id() -> (r: CorrelationId)
        ensures
            exists|v: u128| r@ == uuid_text(v),
            spec_correlation_id(r@) == Ok::<Seq<char>, CorrelationIdError>(r@),
    {
        CorrelationId::new_uuid()
    }

    /// The ID.
    pub fn as_str(&self) -> (r: &str)
        ensures
            r@ == self@,
    {
        self.0.as_str()
    }

    /// The ID as an owned string.
    pub fn into_string(self) -> (r: String)
        ensures
            r@ == self@,
    {
        self.0
    }

    /// The ID, copied.
    pub fn to_string(&self) -> (r: String)
        ensures
            r@ == self@,
    {
        owned(self.0.as_str())
    }

    /// The header that carries it: `X-Correlation-Id`.
    pub fn header_name(&self) -> (r: &'static str)
        ensures
            r@ == "X-Correlation-Id"@,
    {
        "X-Correlation-Id"
    }
}

impl CorrelationIdError {
    /// Human-readable description.
    pub fn to_string(&self) -> (r: String)
        ensures
            r@ == (match *self {
                CorrelationIdError::Empty => "correlation ID must not be empty"@,
                CorrelationIdError::TooLong => "correlation ID must not exceed 255 characters"@,
                CorrelationIdError::InvalidChars =>
                    "correlation ID may only contain printable ASCII characters (0x20–0x7E)"@,
            }),
    {
        match self {
            CorrelationIdError::Empty => owned("correlation ID must not be empty"),
            CorrelationIdError::TooLong => owned("correlation ID must not exceed 255 characters"),
            CorrelationIdError::InvalidChars => owned(
                "correlation ID may only contain printable ASCII characters (0x20–0x7E)",
            ),
        }
    }
}

impl core::ops::Deref for CorrelationId {
    type Target = str;

    fn deref(&self) -> (r: &str)
        ensures
            r@ == self@,
    {
        self.0.as_str()
    }
}

impl AsRef<str> for CorrelationId {
    fn as_ref(&self) -> (r: &str)
        ensures
            r@ == self@,
    {
        self.0.as_str()
    }
}

impl core::str::FromStr for CorrelationId {
    type Err = CorrelationIdError;

    fn from_str(s: &str) -> (r: Result<CorrelationId, CorrelationIdError>)
        ensures
            correlation_result(r) == spec_correlation_id(s@),
    {
        CorrelationId::new(s)
    }
}

impl TryFrom<String> for CorrelationId {
    type Error = CorrelationIdError;

    fn try_from(s: String) -> (r: Result<CorrelationId, CorrelationIdError>)
        ensures
            correlation_result(r) == spec_correlation_id(s@),
    {
        CorrelationId::new(s.as_str())
    }
}

impl<'a> TryFrom<&'a str> for CorrelationId {
    type Error = CorrelationIdError;

    fn try_from(s: &'a str) -> (r: Result<CorrelationId, CorrelationIdError>)
        ensures
            correlation_result(r) == spec_correlation_id(s@),
    {
        CorrelationId::new(s)
    }
}

// The conversions are stated through `CorrelationId::new`; a `String` has no
// spec-level constructor, so `try_from_spec` cannot name the result.
impl vstd::std_specs::convert::TryFromSpecImpl<String> for CorrelationId {
    open spec fn obeys_try_from_spec() -> bool {
        false
    }

    open spec fn try_from_spec(s: String) -> Result<CorrelationId, CorrelationIdError> {
        arbitrary()
    }
}

impl<'a> vstd::std_specs::convert::TryFromSpecImpl<&'a str> for CorrelationId {
    open spec fn obeys_try_from_spec() -> bool {
        false
    }

    open spec fn try_from_spec(s: &'a str) -> Result<CorrelationId, CorrelationIdError> {
        arbitrary()
    }
}

impl HeaderId for CorrelationId {
    const HEADER_NAME: &'static str = "X-Correlation-Id";

    open spec fn header_text(&self) -> Seq<char> {
        self@
    }

    fn as_str(&self) -> Cow<'_, str> {
        Cow::Borrowed(self.0.as_str())
    }
}

} // verus!
