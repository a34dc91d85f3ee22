//! Validated HTTP header names and values, validated by the `http` crate.

use vstd::prelude::*;
use crate::axum_extractors::{ascii_chars, is_visible_ascii, visible_ascii_text};
use crate::encoding::is_header_value;
use crate::etag::{spec_etag_text, ETag};
use crate::text::{
    chars_of, fmt_u64, fmt_u64_exec, join_sep, join_sep_chars, lower, owned, push_chars,
    string_from_chars, views,
};
use vstd::utf8::encode_utf8;
use vstd::string::StrSliceExecFns;

verus! {

/// A token character of HTTP (`tchar`): a letter, a digit, or one of
/// ``!#$%&'*+-.^_`|~``.
pub open spec fn is_tchar(c: char) -> bool {
    ||| ('a' <= c && c <= 'z')
    ||| ('A' <= c && c <= 'Z')
    ||| ('0' <= c && c <= '9')
    ||| c == '!' || c == '#' || c == '$' || c == '%' || c == '&' || c == '\''
    ||| c == '*' || c == '+' || c == '-' || c == '.' || c == '^' || c == '_'
    ||| c == '`' || c == '|' || c == '~'
}

/// Whether `http` accepts `s` as a header name: 1 to 65,535 characters, each
/// a token character.
pub open spec fn spec_is_header_name(s: Seq<char>) -> bool {
    &&& 1 <= s.len() <= 65535
    &&& forall|i: int| 0 <= i < s.len() ==> is_tchar(#[trigger] s[i])
}

/// `s.parse::<http::header::HeaderName>()`, as the name's text (`None` for
/// the crate's error). The source (`HeaderName::from_bytes` through the
/// `HEADER_CHARS` table) accepts exactly the strings of 1 to
/// `MAX_HEADER_NAME_LEN` (65,535) bytes that are all token characters, any
/// byte of 128 or more mapping to the rejecting 0; it maps every accepted
/// byte to its ASCII lower case, so an accepted name reads back as
/// `lower(s)`.
#[verifier::external_body]
fn http_parse_header_name(s: &str) -> (r: Option<String>)
    ensures
        r is Some <==> spec_is_header_name(s@),
        r matches Some(t) ==> t@ == lower(s@),
{
    match s.parse::<http::header::HeaderName>() {
        Ok(n) => Some(n.as_str().to_owned()),
        Err(_) => None,
    }
}

/// `s.parse::<http::header::HeaderValue>().is_ok()`: the source accepts
/// exactly the strings whose every byte passes `is_valid` (`b >= 32 && b !=
/// 127 || b == b'\t'`), and keeps the bytes as they are.
#[verifier::external_body]
pub(crate) fn http_accepts_header_value(s: &str) -> (r: bool)
    ensures
        r == is_header_value(encode_utf8(s@)),
{
    s.parse::<http::header::HeaderValue>().is_ok()
}

/// The `Debug` form of a byte slice: the bytes in decimal, separated by
/// `", "`, in square brackets (`[255, 254]`).
pub open spec fn spec_bytes_debug(b: Seq<u8>) -> Seq<char> {
    "["@ + join_sep(b.map_values(|x: u8| fmt_u64(x as nat)), ", "@) + "]"@
}

/// The `Debug` form of a byte slice.
fn bytes_debug(b: &[u8]) -> (r: String)
    ensures
        r@ == spec_bytes_debug(b@),
{
    let mut ps: Vec<Vec<char>> = Vec::new();
    let mut i: usize = 0;
    while i < b.len()
        invariant
            i <= b@.len(),
            views(ps@) == b@.subrange(0, i as int).map_values(|x: u8| fmt_u64(x as nat)),
        decreases b@.len() - i,
    {
        let d = fmt_u64_exec(b[i] as u64);
        let ghost before = ps@;
        ps.push(d);
        assert(views(ps@) =~= b@.subrange(0, i + 1).map_values(|x: u8| fmt_u64(x as nat))) by {
            assert(ps@ =~= before.push(d));
            let had = b@.subrange(0, i as int).map_values(|x: u8| fmt_u64(x as nat));
            assert(views(before).len() == before.len());
            assert(had.len() == i) by {
                assert(b@.subrange(0, i as int).len() == i);
            }
            assert(before.len() == i);
            let want = b@.subrange(0, i + 1).map_values(|x: u8| fmt_u64(x as nat));
            assert forall|k: int| 0 <= k < want.len() implies views(ps@)[k] == want[k] by {
                if k < i {
                    assert(views(ps@)[k] == ps@[k]@);
                    assert(ps@[k] == before[k]);
                    assert(views(before)[k] == had[k]);
                } else {
                    assert(views(ps@)[k] == d@);
                }
            }
        }
        i = i + 1;
    }
    assert(b@.subrange(0, i as int) =~= b@);
    let sep = chars_of(", ");
    let body = join_sep_chars(&ps, sep.as_slice());
    let mut s = String::new();
    push_chars(&mut s, chars_of("[").as_slice());
    push_chars(&mut s, body.as_slice());
    push_chars(&mut s, chars_of("]").as_slice());
    s
}

/// A string that is not a valid header name.
#[derive(Debug, Clone, Copy, PartialEq, Eq, Structural)]
pub struct InvalidHeaderName;

/// A string that is not a valid header value.
#[derive(Debug, Clone, Copy, PartialEq, Eq, Structural)]
pub struct InvalidHeaderValue;

/// A header value that is not visible ASCII text.
#[derive(Debug, Clone, Copy, PartialEq, Eq, Structural)]
pub struct ToStrError;

// ---------------------------------------------------------------------------
// Names
// ---------------------------------------------------------------------------

/// A validated HTTP header name (lower case).
#[derive(Debug, Clone, PartialEq, Eq, Hash)]
pub struct HeaderName {
    text: String,
}

impl View for HeaderName {
    type V = Seq<char>;

    closed spec fn view(&self) -> Seq<char> {
        self.text@
    }
}

impl HeaderName {
    /// Validates `s` as a header name; an accepted name is lower-cased.
    pub fn parse(s: &str) -> (r: Result<HeaderName, InvalidHeaderName>)
        ensures
            r is Ok <==> spec_is_header_name(s@),
            r matches Ok(n) ==> n@ == lower(s@),
    {
        match http_parse_header_name(s) {
            Some(text) => Ok(HeaderName { text }),
            None => Err(InvalidHeaderName),
        }
    }

    /// A name from a static string that is a valid name.
    pub fn from_static(s: &'static str) -> (r: HeaderName)
        requires
            spec_is_header_name(s@),
        ensures
            r@ == lower(s@),
    {
        match HeaderName::parse(s) {
            Ok(n) => n,
            Err(_) => vstd::pervasive::unreached(),
        }
    }

    /// [`HeaderName::from_static`] where `s` is a valid name, `None` where it
    /// is not (where `from_static` would panic).
    pub fn try_from_static(s: &'static str) -> (r: Option<HeaderName>)
        ensures
            r is Some <==> spec_is_header_name(s@),
            r matches Some(n) ==> n@ == lower(s@),
    {
        if http_parse_header_name(s).is_some() {
            Some(HeaderName::from_static(s))
        } else {
            None
        }
    }

    /// The name as text.
    pub fn as_str(&self) -> (r: &str)
        ensures
            r@ == self@,
    {
        self.text.as_str()
    }

    /// The name as an owned string (its display form).
    pub fn to_string(&self) -> (r: String)
        ensures
            r@ == self@,
    {
        owned(self.text.as_str())
    }
}

impl core::str::FromStr for HeaderName {
    type Err = InvalidHeaderName;

    fn from_str(s: &str) -> (r: Result<HeaderName, InvalidHeaderName>)
        ensures
            r is Ok <==> spec_is_header_name(s@),
            r matches Ok(n) ==> n@ == lower(s@),
    {
        HeaderName::parse(s)
    }
}

// ---------------------------------------------------------------------------
// Values
// ---------------------------------------------------------------------------

/// A validated HTTP header value.
#[derive(Debug, PartialEq, Eq, Hash)]
pub struct HeaderValue {
    bytes: Vec<u8>,
    text: Option<String>,
}

impl View for HeaderValue {
    type V = Seq<u8>;

    closed spec fn view(&self) -> Seq<u8> {
        self.bytes@
    }
}

/// Whether every byte is visible ASCII or a tab (`HeaderValue::to_str`).
pub open spec fn all_visible_ascii(b: Seq<u8>) -> bool {
    forall|i: int| 0 <= i < b.len() ==> is_visible_ascii(#[trigger] b[i])
}

/// The display form of a value: its text when visible ASCII, otherwise the
/// `Debug` form of its bytes.
pub open spec fn value_display(b: Seq<u8>) -> Seq<char> {
    if all_visible_ascii(b) {
        ascii_chars(b)
    } else {
        spec_bytes_debug(b)
    }
}

impl HeaderValue {
    /// The type's invariant: the text is present exactly for visible-ASCII
    /// bytes, and then spells them.
    #[verifier::type_invariant]
    closed spec fn wf(&self) -> bool {
        match self.text {
            Some(t) => all_visible_ascii(self.bytes@) && t@ == ascii_chars(self.bytes@),
            None => !all_visible_ascii(self.bytes@),
        }
    }

    fn from_bytes_unchecked(bytes: Vec<u8>) -> (r: HeaderValue)
        ensures
            r@ == bytes@,
    {
        let text = match visible_ascii_text(bytes.as_slice()) {
            Some(v) => Some(string_from_chars(v.as_slice())),
            None => None,
        };
        HeaderValue { bytes, text }
    }

    /// Validates `s` as a header value; its bytes are kept as they are.
    pub fn parse(s: &str) -> (r: Result<HeaderValue, InvalidHeaderValue>)
        ensures
            r is Ok <==> is_header_value(encode_utf8(s@)),
            r matches Ok(v) ==> v@ == encode_utf8(s@),
    {
        if http_accepts_header_value(s) {
            Ok(HeaderValue::from_bytes_unchecked(s.as_bytes_vec()))
        } else {
            Err(InvalidHeaderValue)
        }
    }

    /// A value from a static string that is a valid value.
    pub fn from_static(s: &'static str) -> (r: HeaderValue)
        requires
            is_header_value(encode_utf8(s@)),
        ensures
            r@ == encode_utf8(s@),
    {
        match HeaderValue::parse(s) {
            Ok(v) => v,
            Err(_) => vstd::pervasive::unreached(),
        }
    }

    /// The value as text when every byte is visible ASCII.
    pub fn to_str(&self) -> (r: Result<&str, ToStrError>)
        ensures
            r is Ok <==> all_visible_ascii(self@),
            r matches Ok(s) ==> s@ == ascii_chars(self@),
    {
        proof {
            use_type_invariant(self);
        }
        match &self.text {
            Some(t) => Ok(t.as_str()),
            None => Err(ToStrError),
        }
    }

    /// The raw bytes.
    pub fn as_bytes(&self) -> (r: &[u8])
        ensures
            r@ == self@,
    {
        self.bytes.as_slice()
    }

    /// The display form: the text, or the bytes' `Debug` form when they are
    /// not visible ASCII.
    pub fn to_string(&self) -> (r: String)
        ensures
            r@ == value_display(self@),
    {
        proof {
            use_type_invariant(self);
        }
        match &self.text {
            Some(t) => owned(t.as_str()),
            None => bytes_debug(self.bytes.as_slice()),
        }
    }

    /// The value of an entity tag's wire form; an error when the tag's value
    /// holds a byte no header value may hold.
    pub fn from_etag(tag: &ETag) -> (r: Result<HeaderValue, InvalidHeaderValue>)
        ensures
            r is Ok <==> is_header_value(encode_utf8(spec_etag_text(tag.weak, tag.value@))),
            r matches Ok(v) ==> v@ == encode_utf8(spec_etag_text(tag.weak, tag.value@)),
    {
        let text = tag.to_string();
        HeaderValue::parse(text.as_str())
    }
}

impl Clone for HeaderValue {
    fn clone(&self) -> (r: HeaderValue)
        ensures
            r@ == self@,
    {
        let bytes = self.bytes.clone();
        assert(bytes@ =~= self.bytes@);
        HeaderValue::from_bytes_unchecked(bytes)
    }
}

impl core::str::FromStr for HeaderValue {
    type Err = InvalidHeaderValue;

    fn from_str(s: &str) -> (r: Result<HeaderValue, InvalidHeaderValue>)
        ensures
            r is Ok <==> is_header_value(encode_utf8(s@)),
            r matches Ok(v) ==> v@ == encode_utf8(s@),
    {
        HeaderValue::parse(s)
    }
}

impl TryFrom<ETag> for HeaderValue {
    type Error = InvalidHeaderValue;

    fn try_from(tag: ETag) -> (r: Result<HeaderValue, InvalidHeaderValue>)
        ensures
            r is Ok <==> is_header_value(encode_utf8(spec_etag_text(tag.weak, tag.value@))),
            r matches Ok(v) ==> v@ == encode_utf8(spec_etag_text(tag.weak, tag.value@)),
    {
        HeaderValue::from_etag(&tag)
    }
}

// The conversion is stated through `HeaderValue::from_etag`; a value holds an
// `http` value that spec code cannot build, so `try_from_spec` names none.
impl vstd::std_specs::convert::TryFromSpecImpl<ETag> for HeaderValue {
    open spec fn obeys_try_from_spec() -> bool {
        false
    }

    open spec fn try_from_spec(tag: ETag) -> Result<HeaderValue, InvalidHeaderValue> {
        arbitrary()
    }
}

} // verus!
