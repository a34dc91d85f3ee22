//! `IdempotencyKey`: the key a client sends once per logical operation so
//! that the server can recognise retries of non-idempotent requests.

use vstd::prelude::*;
use vstd::utf8::encode_utf8;
use crate::text::{all_printable_ascii, lemma_printable_chars, owned, printable_ascii};
use crate::uuid::{lemma_uuid_text_printable, uuid_text, Uuid};
use crate::header_id::HeaderId;
use std::borrow::Cow;

verus! {

/// Why a string is not an idempotency key.
#[derive(Debug, Clone, Copy, PartialEq, Eq, Structural)]
pub enum IdempotencyKeyError {
    /// The input was empty.
    Empty,
    /// The input is longer than 255 characters.
    TooLong,
    /// The input holds a byte outside printable ASCII (`0x20`–`0x7E`).
    InvalidChars,
}

/// Validation of an idempotency key: non-empty, at most 255 characters, printable
/// ASCII only.
pub open spec fn spec_idempotency_key(s: Seq<char>) -> Result<Seq<char>, IdempotencyKeyError> {
    if s.len() == 0 {
        Err(IdempotencyKeyError::Empty)
    } else if s.len() > 255 {
        Err(IdempotencyKeyError::TooLong)
    } else if !printable_ascii(encode_utf8(s)) {
        Err(IdempotencyKeyError::InvalidChars)
    } else {
        Ok(s)
    }
}

/// A validated idempotency key (1–255 printable ASCII characters).
#[derive(Debug, Clone, PartialEq, Eq, Hash)]
pub struct IdempotencyKey(String);

impl View for IdempotencyKey {
    type V = Seq<char>;

    closed spec fn view(&self) -> Seq<char> {
        self.0@
    }
}

/// The abstract value of a construction result.
pub open spec fn idempotency_result(r: Result<IdempotencyKey, IdempotencyKeyError>) -> Result<
    Seq<char>,
    IdempotencyKeyError,
> {
    match r {
        Ok(id) => Ok(id@),
        Err(e) => Err(e),
    }
}

impl IdempotencyKey {
    /// An idempotency key from `s`, if it is valid.
    pub fn new(s: &str) -> (r: Result<IdempotencyKey, IdempotencyKeyError>)
        ensures
            idempotency_result(r) == spec_idempotency_key(s@),
    {
        if s.is_empty() {
            return Err(IdempotencyKeyError::Empty);
        }
        if s.unicode_len() > 255 {
            return Err(IdempotencyKeyError::TooLong);
        }
        if !all_printable_ascii(s.as_bytes()) {
            return Err(IdempotencyKeyError::InvalidChars);
        }
        Ok(IdempotencyKey(owned(s)))
    }

    /// A fresh key: the hyphenated form of a random version-4 UUID, which
    /// is always a valid key.
    pub fn from_uuid() -> (r: IdempotencyKey)
        ensures
            exists|v: u128| r@ == uuid_text(v),
            spec_idempotency_key(r@) == Ok::<Seq<char>, IdempotencyKeyError>(r@),
    {
        let u = Uuid::new_v4();
        let s = u.to_string();
        proof {
            lemma_uuid_text_printable(u@);
            lemma_printable_chars(s@);
        }
        IdempotencyKey(s)
    }

    /// The key.
    pub fn as_str(&self) -> (r: &str)
        ensures
            r@ == self@,
    {
        self.0.as_str()
    }

    /// The key as an owned string.
    pub fn into_string(self) -> (r: String)
        ensures
            r@ == self@,
    {
        self.0
    }

    /// The key, copied.
    pub fn to_string(&self) -> (r: String)
        ensures
            r@ == self@,
    {
        owned(self.0.as_str())
    }

}

impl IdempotencyKeyError {
    /// Human-readable description.
    pub fn to_string(&self) -> (r: String)
        ensures
            r@ == (match *self {
                IdempotencyKeyError::Empty => "idempotency key must not be empty"@,
                IdempotencyKeyError::TooLong => "idempotency key must not exceed 255 characters"@,
                IdempotencyKeyError::InvalidChars =>
                    "idempotency key may only contain printable ASCII characters (0x20–0x7E)"@,
            }),
    {
        match self {
            IdempotencyKeyError::Empty => owned("idempotency key must not be empty"),
            IdempotencyKeyError::TooLong => owned("idempotency key must not exceed 255 characters"),
            IdempotencyKeyError::InvalidChars => owned(
                "idempotency key may only contain printable ASCII characters (0x20–0x7E)",
            ),
        }
    }
}

impl core::ops::Deref for IdempotencyKey {
    type Target = str;

    fn deref(&self) -> (r: &str)
        ensures
            r@ == self@,
    {
        self.0.as_str()
    }
}

impl AsRef<str> for IdempotencyKey {
    fn as_ref(&self) -> (r: &str)
        ensures
            r@ == self@,
    {
        self.0.as_str()
    }
}

impl core::str::FromStr for IdempotencyKey {
    type Err = IdempotencyKeyError;

    fn from_str(s: &str) -> (r: Result<IdempotencyKey, IdempotencyKeyError>)
        ensures
            idempotency_result(r) == spec_idempotency_key(s@),
    {
        IdempotencyKey::new(s)
    }
}

impl TryFrom<String> for IdempotencyKey {
    type Error = IdempotencyKeyError;

    fn try_from(s: String) -> (r: Result<IdempotencyKey, IdempotencyKeyError>)
        ensures
            idempotency_result(r) == spec_idempotency_key(s@),
    {
        IdempotencyKey::new(s.as_str())
    }
}

impl<'a> TryFrom<&'a str> for IdempotencyKey {
    type Error = IdempotencyKeyError;

    fn try_from(s: &'a str) -> (r: Result<IdempotencyKey, IdempotencyKeyError>)
        ensures
            idempotency_result(r) == spec_idempotency_key(s@),
    {
        IdempotencyKey::new(s)
    }
}

// The conversions are stated through `IdempotencyKey::new`; a `String` has no
// spec-level constructor, so `try_from_spec` cannot name the result.
impl vstd::std_specs::convert::TryFromSpecImpl<String> for IdempotencyKey {
    open spec fn obeys_try_from_spec() -> bool {
        false
    }

    open spec fn try_from_spec(s: String) -> Result<IdempotencyKey, IdempotencyKeyError> {
        arbitrary()
    }
}

impl<'a> vstd::std_specs::convert::TryFromSpecImpl<&'a str> for IdempotencyKey {
    open spec fn obeys_try_from_spec() -> bool {
        false
    }

    open spec fn try_from_spec(s: &'a str) -> Result<IdempotencyKey, IdempotencyKeyError> {
        arbitrary()
    }
}

impl HeaderId for IdempotencyKey {
    const HEADER_NAME: &'static str = "Idempotency-Key";

    open spec fn header_text(&self) -> Seq<char> {
        self@
    }

    fn as_str(&self) -> Cow<'_, str> {
        Cow::Borrowed(self.0.as_str())
    }
}

} // verus!
