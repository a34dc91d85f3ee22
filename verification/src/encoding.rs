//! Byte encodings the headers use: base64 (through the `base64` crate) and
//! UTF-8 (through `std`).

use vstd::prelude::*;
use vstd::utf8::*;
use base64::Engine;
use hmac::{Hmac, Mac};
use hmac::digest::KeyInit;
use sha2::Sha256;

verus! {

/// The base64 alphabet of RFC 4648 §4, with its padding character.
pub open spec fn is_b64_standard_char(c: char) -> bool {
    ||| ('A' <= c && c <= 'Z')
    ||| ('a' <= c && c <= 'z')
    ||| ('0' <= c && c <= '9')
    ||| c == '+'
    ||| c == '/'
    ||| c == '='
}

/// Whether `STANDARD.decode` of the UTF-8 bytes of `text` gives `bytes`.
pub open spec fn decodes_to(text: Seq<char>, bytes: Seq<u8>) -> bool {
    spec_b64_standard_decode(encode_utf8(text)) == Ok::<Seq<u8>, Seq<char>>(bytes)
}

/// The character of a 6-bit value in the base64 alphabet: `A-Z`, `a-z`,
/// `0-9`, then `+` and `/` (standard) or `-` and `_` (URL-safe).
pub open spec fn b64_char(url: bool, v: int) -> char {
    if v < 26 {
        (65 + v) as char
    } else if v < 52 {
        (97 + v - 26) as char
    } else if v < 62 {
        (48 + v - 52) as char
    } else if v == 62 {
        if url { '-' } else { '+' }
    } else {
        if url { '_' } else { '/' }
    }
}

/// Base64 of `b` (RFC 4648): every three bytes give four characters, six
/// bits each; a last one or two bytes give two or three characters, padded
/// with `=` to four when `pad`.
pub open spec fn b64_encode(b: Seq<u8>, url: bool, pad: bool) -> Seq<char>
    decreases b.len(),
{
    if b.len() == 0 {
        Seq::empty()
    } else if b.len() == 1 {
        seq![b64_char(url, b[0] as int / 4), b64_char(url, (b[0] as int % 4) * 16)] + if pad {
            seq!['=', '=']
        } else {
            Seq::empty()
        }
    } else if b.len() == 2 {
        seq![
            b64_char(url, b[0] as int / 4),
            b64_char(url, (b[0] as int % 4) * 16 + b[1] as int / 16),
            b64_char(url, (b[1] as int % 16) * 4),
        ] + if pad {
            seq!['=']
        } else {
            Seq::empty()
        }
    } else {
        seq![
            b64_char(url, b[0] as int / 4),
            b64_char(url, (b[0] as int % 4) * 16 + b[1] as int / 16),
            b64_char(url, (b[1] as int % 16) * 4 + b[2] as int / 64),
            b64_char(url, b[2] as int % 64),
        ] + b64_encode(b.subrange(3, b.len() as int), url, pad)
    }
}

/// What `base64::engine::general_purpose::STANDARD.encode` returns for a byte
/// string: padded base64 in the standard alphabet.
pub open spec fn spec_b64_standard_encode(input: Seq<u8>) -> Seq<char> {
    b64_encode(input, false, true)
}

/// What `base64::engine::general_purpose::STANDARD.decode` returns for a byte
/// string: the decoded bytes, or the `Display` text of the `DecodeError`.
pub uninterp spec fn spec_b64_standard_decode(input: Seq<u8>) -> Result<Seq<u8>, Seq<char>>;

/// `STANDARD.encode` (padded RFC 4648 base64). The result is
/// `spec_b64_standard_encode`; beyond that it is stated that the output
/// has the padded length `4 * ceil(n / 3)` (`encoded_len`), uses only the
/// standard alphabet and `=`, and that `STANDARD.decode` of its bytes gives
/// the input back. `encode` panics only when `encoded_len` overflows, which no
/// slice of at most `isize::MAX` bytes reaches.
#[verifier::external_body]
pub(crate) fn b64_standard_encode(input: &[u8]) -> (r: String)
    requires
        input@.len() <= isize::MAX,
    ensures
        r@ == spec_b64_standard_encode(input@),
        r@.len() == 4 * ((input@.len() + 2) / 3),
        forall|i: int| 0 <= i < r@.len() ==> is_b64_standard_char(#[trigger] r@[i]),
        decodes_to(r@, input@),
{
    base64::engine::general_purpose::STANDARD.encode(input)
}

/// `STANDARD.decode`, with a `DecodeError` turned into its `Display` text.
/// Only the name `spec_b64_standard_decode` is stated of the result.
#[verifier::external_body]
pub(crate) fn b64_standard_decode(input: &[u8]) -> (r: Result<Vec<u8>, String>)
    ensures
        match r {
            Ok(v) => spec_b64_standard_decode(input@) == Ok::<Seq<u8>, Seq<char>>(v@),
            Err(m) => spec_b64_standard_decode(input@) == Err::<Seq<u8>, Seq<char>>(m@),
        },
{
    match base64::engine::general_purpose::STANDARD.decode(input) {
        Ok(v) => Ok(v),
        Err(e) => Err(e.to_string()),
    }
}

/// `String::from_utf8`: the text the bytes encode when they are valid UTF-8,
/// and `None` otherwise.
#[verifier::external_body]
pub(crate) fn utf8_decode(bytes: Vec<u8>) -> (r: Option<String>)
    ensures
        match r {
            Some(s) => valid_utf8(bytes@) && s@ == decode_utf8(bytes@),
            None => !valid_utf8(bytes@),
        },
{
    String::from_utf8(bytes).ok()
}

/// A byte `http::HeaderValue` accepts: visible ASCII, space, tab, or any byte
/// from `0x80` up (`is_valid` in `http::header::value`).
pub open spec fn is_header_value_byte(b: u8) -> bool {
    (b >= 32 && b != 127) || b == 9
}

/// Whether every byte is one `http::HeaderValue` accepts.
pub open spec fn is_header_value(bytes: Seq<u8>) -> bool {
    forall|i: int| 0 <= i < bytes.len() ==> is_header_value_byte(#[trigger] bytes[i])
}

/// Whether `http` accepts `s` as a header value.
pub(crate) fn header_value_valid(s: &str) -> (r: bool)
    ensures
        r == is_header_value(encode_utf8(s@)),
{
    crate::header::http_accepts_header_value(s)
}

/// The URL-safe base64 alphabet of RFC 4648 §5 (no padding character).
pub open spec fn is_b64_url_char(c: char) -> bool {
    ||| ('A' <= c && c <= 'Z')
    ||| ('a' <= c && c <= 'z')
    ||| ('0' <= c && c <= '9')
    ||| c == '-'
    ||| c == '_'
}

/// What `base64::engine::general_purpose::URL_SAFE_NO_PAD.encode` returns for
/// a byte string: unpadded base64 in the URL-safe alphabet.
pub open spec fn spec_b64_url_encode(input: Seq<u8>) -> Seq<char> {
    b64_encode(input, true, false)
}

/// What `URL_SAFE_NO_PAD.decode` returns for a byte string: the decoded
/// bytes, or `None` for any `DecodeError`.
pub uninterp spec fn spec_b64_url_decode(input: Seq<u8>) -> Option<Seq<u8>>;

/// Whether `URL_SAFE_NO_PAD.decode` of the UTF-8 bytes of `text` gives `bytes`.
pub open spec fn url_decodes_to(text: Seq<char>, bytes: Seq<u8>) -> bool {
    spec_b64_url_decode(encode_utf8(text)) == Some(bytes)
}

/// `URL_SAFE_NO_PAD.encode` (unpadded URL-safe base64). The result is
/// `spec_b64_url_encode`; beyond that it is stated that the output has
/// the unpadded length `ceil(4n / 3)` (`encoded_len`), uses only the
/// URL-safe alphabet, and that `URL_SAFE_NO_PAD.decode` of its bytes gives
/// the input back. `encode` panics only when `encoded_len` overflows, which
/// no slice of at most `isize::MAX` bytes reaches.
#[verifier::external_body]
pub(crate) fn b64_url_encode(input: &[u8]) -> (r: String)
    requires
        input@.len() <= isize::MAX,
    ensures
        r@ == spec_b64_url_encode(input@),
        r@.len() == (4 * input@.len() + 2) / 3,
        forall|i: int| 0 <= i < r@.len() ==> is_b64_url_char(#[trigger] r@[i]),
        url_decodes_to(r@, input@),
{
    base64::engine::general_purpose::URL_SAFE_NO_PAD.encode(input)
}

/// `URL_SAFE_NO_PAD.decode`, with any `DecodeError` turned into `None`.
/// Only the name `spec_b64_url_decode` is stated of the result.
#[verifier::external_body]
pub(crate) fn b64_url_decode(input: &[u8]) -> (r: Option<Vec<u8>>)
    ensures
        match r {
            Some(v) => spec_b64_url_decode(input@) == Some(v@),
            None => spec_b64_url_decode(input@) is None,
        },
{
    base64::engine::general_purpose::URL_SAFE_NO_PAD.decode(input).ok()
}

/// The HMAC-SHA256 tag (RFC 2104 over FIPS 180-4) of `msg` under `key`.
pub uninterp spec fn spec_hmac_sha256(key: Seq<u8>, msg: Seq<u8>) -> Seq<u8>;

/// `Hmac::<Sha256>::new_from_slice(key)`, `update(msg)`, `finalize()`: the tag
/// is named `spec_hmac_sha256` and is 32 bytes long (SHA-256's output size).
/// `new_from_slice` accepts keys of every length, so the `expect` never fires.
#[verifier::external_body]
pub(crate) fn hmac_sha256(key: &[u8], msg: &[u8]) -> (r: Vec<u8>)
    ensures
        r@ == spec_hmac_sha256(key@, msg@),
        r@.len() == 32,
{
    let mut mac = <Hmac<Sha256> as KeyInit>::new_from_slice(key).expect(
        "HMAC accepts any key length",
    );
    mac.update(msg);
    mac.finalize().into_bytes().to_vec()
}

/// `Mac::verify_slice` on `Hmac::<Sha256>` keyed with `key` after `update(msg)`:
/// the source accepts exactly a `tag` equal (in length and, compared in
/// constant time, in bytes) to the tag `hmac_sha256` computes.
#[verifier::external_body]
pub(crate) fn hmac_sha256_verify(key: &[u8], msg: &[u8], tag: &[u8]) -> (r: bool)
    ensures
        r == (tag@ == spec_hmac_sha256(key@, msg@)),
{
    let mut mac = <Hmac<Sha256> as KeyInit>::new_from_slice(key).expect(
        "HMAC accepts any key length",
    );
    mac.update(msg);
    mac.verify_slice(tag).is_ok()
}

} // verus!
