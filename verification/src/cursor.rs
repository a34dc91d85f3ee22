//! Opaque pagination cursors: URL-safe base64 of a payload, optionally
//! signed with HMAC-SHA256 so that clients cannot forge them.

use vstd::prelude::*;
use vstd::utf8::encode_utf8;
use crate::encoding::{
    b64_url_decode, b64_url_encode, hmac_sha256, is_b64_url_char, url_decodes_to, hmac_sha256_verify, spec_b64_url_decode,
    spec_b64_url_encode, spec_hmac_sha256,
};
use crate::text::owned;

verus! {

/// Why a cursor was rejected.
#[derive(Debug, Clone, Copy, PartialEq, Eq, Structural)]
pub enum CursorError {
    /// Not URL-safe base64.
    InvalidBase64,
    /// The signature does not match the payload.
    InvalidSignature,
    /// Too short to hold a signature.
    TooShort,
}

impl CursorError {
    /// Human-readable description.
    pub fn to_string(&self) -> (r: String)
        ensures
            r@ == (match *self {
                CursorError::InvalidBase64 => "cursor: invalid base64 encoding"@,
                CursorError::InvalidSignature => "cursor: invalid HMAC signature"@,
                CursorError::TooShort => "cursor: payload too short to contain signature"@,
            }),
    {
        match self {
            CursorError::InvalidBase64 => owned("cursor: invalid base64 encoding"),
            CursorError::InvalidSignature => owned("cursor: invalid HMAC signature"),
            CursorError::TooShort => owned("cursor: payload too short to contain signature"),
        }
    }
}

/// Length of the HMAC-SHA256 signature appended to a signed payload.
pub open spec fn sig_len() -> int {
    32
}

/// Decoding a cursor: its base64 payload, or `InvalidBase64`.
pub open spec fn spec_decode(cursor: Seq<char>) -> Result<Seq<u8>, CursorError> {
    match spec_b64_url_decode(encode_utf8(cursor)) {
        Some(b) => Ok(b),
        None => Err(CursorError::InvalidBase64),
    }
}

/// Decoding a signed cursor: base64, then at least 32 bytes, then the last 32
/// must be the HMAC-SHA256 of the rest under `key`.
pub open spec fn spec_decode_signed(cursor: Seq<char>, key: Seq<u8>) -> Result<
    Seq<u8>,
    CursorError,
> {
    match spec_b64_url_decode(encode_utf8(cursor)) {
        None => Err(CursorError::InvalidBase64),
        Some(comb) => if comb.len() < sig_len() {
            Err(CursorError::TooShort)
        } else {
            let payload = comb.subrange(0, comb.len() - sig_len());
            let sig = comb.subrange(comb.len() - sig_len(), comb.len() as int);
            if sig == spec_hmac_sha256(key, payload) {
                Ok(payload)
            } else {
                Err(CursorError::InvalidSignature)
            }
        },
    }
}

/// The abstract value of a decode result.
pub open spec fn bytes_result(r: Result<Vec<u8>, CursorError>) -> Result<Seq<u8>, CursorError> {
    match r {
        Ok(v) => Ok(v@),
        Err(e) => Err(e),
    }
}

/// Cursor encoding and decoding.
pub struct Cursor;

impl Cursor {
    /// The URL-safe, unpadded base64 of `payload`: only `A-Z a-z 0-9 - _`,
    /// `ceil(4n / 3)` characters (so the empty payload gives `""`). Decoding
    /// it gives the payload back.
    pub fn encode(payload: &[u8]) -> (r: String)
        requires
            payload@.len() <= isize::MAX,
        ensures
            r@ == spec_b64_url_encode(payload@),
            r@.len() == (4 * payload@.len() + 2) / 3,
            forall|i: int| 0 <= i < r@.len() ==> is_b64_url_char(#[trigger] r@[i]),
            spec_decode(r@) == Ok::<Seq<u8>, CursorError>(payload@),
    {
        b64_url_encode(payload)
    }

    /// The payload of a cursor.
    pub fn decode(cursor: &str) -> (r: Result<Vec<u8>, CursorError>)
        ensures
            bytes_result(r) == spec_decode(cursor@),
    {
        match b64_url_decode(cursor.as_bytes()) {
            Some(v) => Ok(v),
            None => Err(CursorError::InvalidBase64),
        }
    }

    /// The cursor of `payload` followed by its HMAC-SHA256 under `key`: the
    /// URL-safe, unpadded base64 of those bytes. Decoding it with the same key
    /// gives the payload back; with any key whose tag of the payload differs,
    /// it fails with `InvalidSignature`.
    pub fn encode_signed(payload: &[u8], key: &[u8]) -> (r: String)
        requires
            payload@.len() + 32 <= isize::MAX,
        ensures
            r@ == spec_b64_url_encode(payload@ + spec_hmac_sha256(key@, payload@)),
            url_decodes_to(r@, payload@ + spec_hmac_sha256(key@, payload@)),
            r@.len() == (4 * (payload@.len() + 32) + 2) / 3,
            forall|i: int| 0 <= i < r@.len() ==> is_b64_url_char(#[trigger] r@[i]),
            spec_decode_signed(r@, key@) == Ok::<Seq<u8>, CursorError>(payload@),
            forall|other: Seq<u8>|
                spec_hmac_sha256(other, payload@) != spec_hmac_sha256(key@, payload@)
                    ==> #[trigger] spec_decode_signed(r@, other)
                    == Err::<Seq<u8>, CursorError>(CursorError::InvalidSignature),
    {
        let sig = hmac_sha256(key, payload);
        let mut combined: Vec<u8> = Vec::new();
        let mut i: usize = 0;
        while i < payload.len()
            invariant
                i <= payload@.len(),
                combined@ == payload@.subrange(0, i as int),
            decreases payload@.len() - i,
        {
            combined.push(payload[i]);
            i = i + 1;
        }
        let mut j: usize = 0;
        while j < sig.len()
            invariant
                j <= sig@.len(),
                i == payload@.len(),
                combined@ == payload@ + sig@.subrange(0, j as int),
            decreases sig@.len() - j,
        {
            combined.push(sig[j]);
            j = j + 1;
            assert(payload@ + sig@.subrange(0, j as int) =~= (payload@ + sig@.subrange(
                0,
                j - 1,
            )).push(sig@[j - 1]));
        }
        assert(payload@.subrange(0, payload@.len() as int) =~= payload@);
        assert(sig@.subrange(0, sig@.len() as int) =~= sig@);
        let r = b64_url_encode(combined.as_slice());
        proof {
            let comb = combined@;
            assert(comb.subrange(0, comb.len() - 32) =~= payload@);
            assert(comb.subrange(comb.len() - 32, comb.len() as int) =~= sig@);
        }
        r
    }

    /// The payload of a signed cursor, checked against its signature under
    /// `key` (in constant time).
    pub fn decode_signed(cursor: &str, key: &[u8]) -> (r: Result<Vec<u8>, CursorError>)
        ensures
            bytes_result(r) == spec_decode_signed(cursor@, key@),
    {
        let combined = match b64_url_decode(cursor.as_bytes()) {
            Some(v) => v,
            None => {
                return Err(CursorError::InvalidBase64);
            },
        };
        let n = combined.len();
        if n < 32 {
            return Err(CursorError::TooShort);
        }
        let payload = slice_range(combined.as_slice(), 0, n - 32);
        let stored = slice_range(combined.as_slice(), n - 32, n);
        if !hmac_sha256_verify(key, payload.as_slice(), stored.as_slice()) {
            return Err(CursorError::InvalidSignature);
        }
        Ok(payload)
    }
}

/// Copy of `v[a..b]`.
fn slice_range(v: &[u8], a: usize, b: usize) -> (r: Vec<u8>)
    requires
        a <= b <= v@.len(),
    ensures
        r@ == v@.subrange(a as int, b as int),
{
    let mut r: Vec<u8> = Vec::new();
    let mut i: usize = a;
    while i < b
        invariant
            a <= i <= b <= v@.len(),
            r@ == v@.subrange(a as int, i as int),
        decreases b - i,
    {
        r.push(v[i]);
        i = i + 1;
    }
    r
}

} // verus!
