//! Request-header extraction: the raw `Authorization` header split into its
//! scheme and credentials, and checked against an expected scheme.

use vstd::prelude::*;
use crate::error::{is_fresh, ApiError, ErrorCode};
use crate::text::{
    chars_eq_ignore_case, chars_of, eq_ignore_case, owned, push_chars, split_once,
    split_once_chars, string_from_chars, trim, trim_chars,
};

verus! {

/// The `Authorization` header as sent: a scheme and the credentials after it.
#[derive(Debug, Clone, PartialEq, Eq)]
pub struct Authorization {
    /// The scheme (e.g. `Bearer`), as written.
    pub scheme: String,
    /// The credentials after the first space, trimmed (empty when absent).
    pub credentials: String,
}

/// A byte `http::HeaderValue::to_str` accepts: visible ASCII or tab.
pub open spec fn is_visible_ascii(b: u8) -> bool {
    (b >= 32 && b < 127) || b == 9
}

/// The characters of bytes that are all ASCII.
pub open spec fn ascii_chars(b: Seq<u8>) -> Seq<char> {
    b.map_values(|x: u8| x as char)
}

/// Reading the header: missing, not visible ASCII, or an empty scheme is
/// rejected with the message given; otherwise the scheme precedes the first
/// space and the credentials are the trimmed rest.
pub open spec fn spec_authorization(raw: Option<Seq<u8>>) -> Result<(Seq<char>, Seq<char>), Seq<char>> {
    match raw {
        None => Err("missing Authorization header"@),
        Some(b) => if !(forall|i: int| 0 <= i < b.len() ==> is_visible_ascii(#[trigger] b[i])) {
            Err("Authorization header contains non-UTF-8 bytes"@)
        } else {
            let text = ascii_chars(b);
            let parts = match split_once(text, ' ') {
                Some(p) => (p.0, trim(p.1)),
                None => (text, Seq::empty()),
            };
            if parts.0.len() == 0 {
                Err("malformed Authorization header"@)
            } else {
                Ok(parts)
            }
        },
    }
}

/// The text of visible-ASCII bytes, or `None` when one is not.
pub(crate) fn visible_ascii_text(b: &[u8]) -> (r: Option<Vec<char>>)
    ensures
        match r {
            Some(v) => (forall|i: int| 0 <= i < b@.len() ==> is_visible_ascii(#[trigger] b@[i]))
                && v@ == ascii_chars(b@),
            None => !(forall|i: int| 0 <= i < b@.len() ==> is_visible_ascii(#[trigger] b@[i])),
        },
{
    let mut v: Vec<char> = Vec::new();
    let mut i: usize = 0;
    while i < b.len()
        invariant
            i <= b@.len(),
            forall|j: int| 0 <= j < i ==> is_visible_ascii(#[trigger] b@[j]),
            v@ == ascii_chars(b@.subrange(0, i as int)),
        decreases b@.len() - i,
    {
        let x = b[i];
        if !((x >= 32 && x < 127) || x == 9) {
            assert(!is_visible_ascii(b@[i as int]));
            return None;
        }
        v.push(x as char);
        assert(ascii_chars(b@.subrange(0, i + 1)) =~= ascii_chars(b@.subrange(0, i as int)).push(
            x as char,
        ));
        i = i + 1;
    }
    assert(b@.subrange(0, i as int) =~= b@);
    Some(v)
}

impl Authorization {
    /// Read the raw header value (`None` when the header is absent).
    pub fn from_header_value(raw: Option<&[u8]>) -> (r: Result<Authorization, ApiError>)
        ensures
            match r {
                Ok(a) => spec_authorization(match raw {
                    Some(b) => Some(b@),
                    None => None,
                }) == Ok::<(Seq<char>, Seq<char>), Seq<char>>((a.scheme@, a.credentials@)),
                Err(e) => spec_authorization(match raw {
                    Some(b) => Some(b@),
                    None => None,
                }) matches Err(m) && is_fresh(e, ErrorCode::Unauthorized, m),
            },
    {
        let bytes = match raw {
            Some(b) => b,
            None => {
                return Err(ApiError::unauthorized("missing Authorization header"));
            },
        };
        let text = match visible_ascii_text(bytes) {
            Some(t) => t,
            None => {
                return Err(ApiError::unauthorized("Authorization header contains non-UTF-8 bytes"));
            },
        };
        let (scheme, credentials) = match split_once_chars(text.as_slice(), ' ') {
            Some(p) => (p.0, trim_chars(p.1.as_slice())),
            None => (text, Vec::new()),
        };
        if scheme.len() == 0 {
            return Err(ApiError::unauthorized("malformed Authorization header"));
        }
        Ok(
            Authorization {
                scheme: string_from_chars(scheme.as_slice()),
                credentials: string_from_chars(credentials.as_slice()),
            },
        )
    }

    /// `Ok` when the scheme is `expected` (ASCII case ignored); otherwise a
    /// 401 naming both schemes.
    pub fn require_scheme(&self, expected: &str) -> (r: Result<(), ApiError>)
        ensures
            match r {
                Ok(_) => eq_ignore_case(self.scheme@, expected@),
                Err(e) => !eq_ignore_case(self.scheme@, expected@) && is_fresh(
                    e,
                    ErrorCode::Unauthorized,
                    "expected "@ + expected@ + " authorization scheme, got "@ + self.scheme@,
                ),
            },
    {
        let s = chars_of(self.scheme.as_str());
        let x = chars_of(expected);
        if chars_eq_ignore_case(s.as_slice(), x.as_slice()) {
            Ok(())
        } else {
            let mut msg = owned("expected ");
            push_chars(&mut msg, x.as_slice());
            push_chars(&mut msg, chars_of(" authorization scheme, got ").as_slice());
            push_chars(&mut msg, s.as_slice());
            Err(ApiError::unauthorized(msg.as_str()))
        }
    }
}

} // verus!
