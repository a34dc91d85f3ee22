//! RFC 4122 identifiers held as their 128-bit value.
//!
//! Generation and parsing go through the `uuid` crate; the canonical
//! hyphenated rendering is specified (and implemented) here.

use vstd::prelude::*;
use crate::text::string_from_chars;

verus! {

/// A 128-bit RFC 4122 identifier.
#[derive(Clone, Copy, PartialEq, Eq, Hash, Debug, Structural)]
pub struct Uuid {
    value: u128,
}

impl View for Uuid {
    type V = u128;

    open spec fn view(&self) -> u128 {
        self.spec_value()
    }
}

/// Lowercase hexadecimal digit for `d < 16`.
pub open spec fn hex_char(d: u128) -> char {
    if d < 10 {
        ((d + 48) as u32) as char
    } else {
        ((d + 87) as u32) as char
    }
}

/// Nibble `k` (0 = most significant) of `v`.
pub open spec fn nibble(v: u128, k: int) -> u128 {
    (v >> ((4 * (31 - k)) as u128)) & 0xf
}

/// Index of the nibble shown at position `p` of the hyphenated form.
pub open spec fn nibble_at(p: int) -> int {
    if p < 8 {
        p
    } else if p < 13 {
        p - 1
    } else if p < 18 {
        p - 2
    } else if p < 23 {
        p - 3
    } else {
        p - 4
    }
}

pub open spec fn is_hyphen_pos(p: int) -> bool {
    p == 8 || p == 13 || p == 18 || p == 23
}

/// The hyphenated lowercase form `xxxxxxxx-xxxx-xxxx-xxxx-xxxxxxxxxxxx`
/// of the identifier with value `v`.
pub open spec fn uuid_text(v: u128) -> Seq<char> {
    Seq::new(
        36,
        |p: int|
            if is_hyphen_pos(p) {
                '-'
            } else {
                hex_char(nibble(v, nibble_at(p)))
            },
    )
}

/// The hyphenated form has 36 characters, each printable ASCII (`0x20`–`0x7E`).
pub proof fn lemma_uuid_text_printable(v: u128)
    ensures
        uuid_text(v).len() == 36,
        forall|i: int| 0 <= i < 36 ==> ' ' <= #[trigger] uuid_text(v)[i] && uuid_text(v)[i] <= '~',
{
    assert forall|i: int| 0 <= i < 36 implies ' ' <= #[trigger] uuid_text(v)[i] && uuid_text(
        v,
    )[i] <= '~' by {
        if !is_hyphen_pos(i) {
            let k = nibble_at(i);
            let x = v >> ((4 * (31 - k)) as u128);
            assert(x & 0xf < 16) by (bit_vector);
            let d = nibble(v, k);
            assert(d < 16);
        }
    }
}

/// What `uuid::Uuid::parse_str` returns for a string, as a 128-bit value.
pub uninterp spec fn spec_uuid_parse(s: Seq<char>) -> Option<u128>;

/// Calls `uuid::Uuid::parse_str`. The crate documents that every format it
/// generates, the hyphenated one among them, parses back to the same value;
/// which other inputs it accepts is left to the name `spec_uuid_parse`.
#[verifier::external_body]
fn uuid_parse(s: &str) -> (r: Option<u128>)
    ensures
        r == spec_uuid_parse(s@),
        forall|v: u128| s@ == uuid_text(v) ==> r == Some(v),
{
    match ::uuid::Uuid::parse_str(s) {
        Ok(u) => Some(u.as_u128()),
        Err(_) => None,
    }
}

/// Calls `uuid::Uuid::new_v4`: a random value whose version nibble is 4 and
/// whose variant bits are `10` (RFC 4122), as its source sets them.
#[verifier::external_body]
fn uuid_random_v4() -> (r: u128)
    ensures
        (r >> 76u128) & 0xf == 4,
        (r >> 62u128) & 3 == 2,
{
    ::uuid::Uuid::new_v4().as_u128()
}

impl Uuid {
    pub closed spec fn spec_value(&self) -> u128 {
        self.value
    }

    /// The all-zero identifier.
    pub fn nil() -> (r: Uuid)
        ensures
            r@ == 0,
    {
        Uuid { value: 0 }
    }

    /// The identifier with the given 128-bit value.
    pub fn from_u128(value: u128) -> (r: Uuid)
        ensures
            r@ == value,
    {
        Uuid { value }
    }

    /// The 128-bit value.
    pub fn as_u128(&self) -> (r: u128)
        ensures
            r == self@,
    {
        self.value
    }

    /// Whether this is the all-zero identifier.
    pub fn is_nil(&self) -> (r: bool)
        ensures
            r == (self@ == 0),
    {
        self.value == 0
    }

    /// A fresh random version-4 identifier.
    pub fn new_v4() -> (r: Uuid)
        ensures
            (r@ >> 76u128) & 0xf == 4,
            (r@ >> 62u128) & 3 == 2,
    {
        Uuid { value: uuid_random_v4() }
    }

    /// The version number (bits 76..80).
    pub fn get_version_num(&self) -> (r: usize)
        ensures
            r == (self@ >> 76u128) & 0xf,
    {
        let x = self.value;
        let v = (x >> 76u128) & 0xf;
        assert(v < 16) by (bit_vector)
            requires
                v == (x >> 76u128) & 0xf,
        ;
        v as usize
    }

    /// Parse any textual form the `uuid` crate accepts.
    pub fn parse_str(s: &str) -> (r: Option<Uuid>)
        ensures
            r matches Some(u) ==> spec_uuid_parse(s@) == Some(u@),
            r is None <==> spec_uuid_parse(s@) is None,
            forall|v: u128| s@ == uuid_text(v) ==> (r matches Some(u) && u@ == v),
    {
        match uuid_parse(s) {
            Some(v) => Some(Uuid { value: v }),
            None => None,
        }
    }

    /// The hyphenated lowercase rendering.
    pub fn to_string(&self) -> (r: String)
        ensures
            r@ == uuid_text(self@),
    {
        let v = hyphenated(self.value);
        string_from_chars(v.as_slice())
    }
}

fn hex_char_exec(d: u128) -> (c: char)
    requires
        d < 16,
    ensures
        c == hex_char(d),
{
    if d < 10 {
        let b: u8 = (d + 48) as u8;
        let c = b as char;
        assert(c == ((d + 48) as u32) as char);
        c
    } else {
        let b: u8 = (d + 87) as u8;
        let c = b as char;
        assert(c == ((d + 87) as u32) as char);
        c
    }
}

/// The hyphenated form of `v` as characters.
pub fn hyphenated(v: u128) -> (r: Vec<char>)
    ensures
        r@ == uuid_text(v),
{
    let mut r: Vec<char> = Vec::new();
    let mut p: usize = 0;
    while p < 36
        invariant
            p <= 36,
            r@.len() == p,
            forall|q: int| 0 <= q < p ==> r@[q] == uuid_text(v)[q],
        decreases 36 - p,
    {
        if p == 8 || p == 13 || p == 18 || p == 23 {
            r.push('-');
        } else {
            let k: u128 = if p < 8 {
                p as u128
            } else if p < 13 {
                (p - 1) as u128
            } else if p < 18 {
                (p - 2) as u128
            } else if p < 23 {
                (p - 3) as u128
            } else {
                (p - 4) as u128
            };
            assert(k == nibble_at(p as int));
            let shift: u128 = 4 * (31 - k);
            let d = (v >> shift) & 0xf;
            assert(d < 16) by (bit_vector)
                requires
                    d == (v >> shift) & 0xf,
            ;
            assert(d == nibble(v, nibble_at(p as int)));
            r.push(hex_char_exec(d));
        }
        p = p + 1;
    }
    assert(r@ =~= uuid_text(v));
    r
}

} // verus!
