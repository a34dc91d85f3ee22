//! Character-level helpers shared by the header parsers and renderers.
//!
//! Every parser in this crate works on the character sequence of its input
//! (`s@`), so the specifications here are stated over `Seq<char>`.

use vstd::prelude::*;
use vstd::string::*;
use vstd::utf8::encode_utf8;

verus! {

// ---------------------------------------------------------------------------
// Whitespace and trimming
// ---------------------------------------------------------------------------

/// Unicode `White_Space`, the set that `char::is_whitespace` (and therefore
/// `str::trim`) removes.
pub open spec fn is_ws(c: char) -> bool {
    ||| ('\u{9}' <= c && c <= '\u{d}')
    ||| c == ' '
    ||| c == '\u{85}'
    ||| c == '\u{a0}'
    ||| c == '\u{1680}'
    ||| ('\u{2000}' <= c && c <= '\u{200a}')
    ||| c == '\u{2028}'
    ||| c == '\u{2029}'
    ||| c == '\u{202f}'
    ||| c == '\u{205f}'
    ||| c == '\u{3000}'
}

/// ASCII whitespace as `u8::is_ascii_whitespace` defines it.
pub open spec fn is_ascii_ws(c: char) -> bool {
    c == ' ' || c == '\t' || c == '\n' || c == '\u{c}' || c == '\r'
}

/// Number of whitespace characters at the front of `s`.
pub open spec fn lead_ws(s: Seq<char>) -> nat
    decreases s.len(),
{
    if s.len() > 0 && is_ws(s[0]) {
        1 + lead_ws(s.drop_first())
    } else {
        0
    }
}

/// Number of whitespace characters at the back of `s`.
pub open spec fn trail_ws(s: Seq<char>) -> nat
    decreases s.len(),
{
    if s.len() > 0 && is_ws(s.last()) {
        1 + trail_ws(s.drop_last())
    } else {
        0
    }
}

/// `s` without leading whitespace (`str::trim_start`).
pub open spec fn trim_start(s: Seq<char>) -> Seq<char> {
    s.subrange(lead_ws(s) as int, s.len() as int)
}

/// `s` without trailing whitespace (`str::trim_end`).
pub open spec fn trim_end(s: Seq<char>) -> Seq<char> {
    s.subrange(0, s.len() - trail_ws(s))
}

/// `s` without leading and trailing whitespace (`str::trim`).
pub open spec fn trim(s: Seq<char>) -> Seq<char> {
    trim_end(trim_start(s))
}

pub proof fn lemma_lead_ws(s: Seq<char>, k: int)
    requires
        0 <= k <= s.len(),
        forall|j: int| 0 <= j < k ==> is_ws(#[trigger] s[j]),
        k == s.len() || !is_ws(s[k]),
    ensures
        lead_ws(s) == k,
    decreases k,
{
    if k > 0 {
        let t = s.drop_first();
        assert forall|j: int| 0 <= j < k - 1 implies is_ws(#[trigger] t[j]) by {
            assert(t[j] == s[j + 1]);
        }
        if k - 1 < t.len() {
            assert(t[k - 1] == s[k]);
        }
        lemma_lead_ws(t, k - 1);
    }
}

pub proof fn lemma_trail_ws(s: Seq<char>, k: int)
    requires
        0 <= k <= s.len(),
        forall|j: int| s.len() - k <= j < s.len() ==> is_ws(#[trigger] s[j]),
        k == s.len() || !is_ws(s[s.len() - k - 1]),
    ensures
        trail_ws(s) == k,
    decreases k,
{
    if k > 0 {
        let t = s.drop_last();
        assert forall|j: int| t.len() - (k - 1) <= j < t.len() implies is_ws(#[trigger] t[j]) by {
            assert(t[j] == s[j]);
        }
        if k - 1 < t.len() {
            assert(t[t.len() - (k - 1) - 1] == s[s.len() - k - 1]);
        }
        lemma_lead_ws_bound(s);
        lemma_trail_ws(t, k - 1);
    }
}

proof fn lemma_lead_ws_bound(s: Seq<char>)
    ensures
        lead_ws(s) <= s.len(),
        trail_ws(s) <= s.len(),
    decreases s.len(),
{
    if s.len() > 0 {
        lemma_lead_ws_bound(s.drop_first());
        lemma_lead_ws_bound(s.drop_last());
    }
}

/// Bounds `[start, end)` of the trimmed part of `v`.
pub fn trim_bounds(v: &[char]) -> (r: (usize, usize))
    ensures
        r.0 <= r.1 <= v@.len(),
        v@.subrange(r.0 as int, r.1 as int) == trim(v@),
        r.0 == lead_ws(v@),
{
    let n = v.len();
    let mut a: usize = 0;
    while a < n && is_ws_exec(v[a])
        invariant
            n == v@.len(),
            a <= n,
            forall|j: int| 0 <= j < a ==> is_ws(#[trigger] v@[j]),
        decreases n - a,
    {
        a = a + 1;
    }
    proof {
        lemma_lead_ws(v@, a as int);
    }
    let ghost t = v@.subrange(a as int, n as int);
    let mut b: usize = n;
    while b > a && is_ws_exec(v[b - 1])
        invariant
            n == v@.len(),
            a <= b <= n,
            t == v@.subrange(a as int, n as int),
            forall|j: int| b <= j < n ==> is_ws(#[trigger] v@[j]),
        decreases b - a,
    {
        b = b - 1;
    }
    proof {
        assert forall|j: int| t.len() - (n - b) <= j < t.len() implies is_ws(#[trigger] t[j]) by {
            assert(t[j] == v@[a + j]);
        }
        if b > a {
            assert(t[t.len() - (n - b) - 1] == v@[b - 1]);
        }
        lemma_trail_ws(t, (n - b) as int);
        assert(trim_start(v@) == t);
        assert(t.subrange(0, t.len() - (n - b)) =~= v@.subrange(a as int, b as int));
    }
    (a, b)
}

/// Executable test for [`is_ws`].
pub fn is_ws_exec(c: char) -> (r: bool)
    ensures
        r == is_ws(c),
{
    ('\u{9}' <= c && c <= '\u{d}') || c == ' ' || c == '\u{85}' || c == '\u{a0}' || c
        == '\u{1680}' || ('\u{2000}' <= c && c <= '\u{200a}') || c == '\u{2028}' || c
        == '\u{2029}' || c == '\u{202f}' || c == '\u{205f}' || c == '\u{3000}'
}

// ---------------------------------------------------------------------------
// Searching
// ---------------------------------------------------------------------------

/// Index of the first `c` in `s`, if any.
pub open spec fn find(s: Seq<char>, c: char) -> Option<int>
    decreases s.len(),
{
    if s.len() == 0 {
        None
    } else if s[0] == c {
        Some(0)
    } else {
        match find(s.drop_first(), c) {
            Some(i) => Some(i + 1),
            None => None,
        }
    }
}

pub proof fn lemma_find_some(s: Seq<char>, c: char, i: int)
    requires
        0 <= i < s.len(),
        s[i] == c,
        forall|j: int| 0 <= j < i ==> #[trigger] s[j] != c,
    ensures
        find(s, c) == Some(i),
    decreases i,
{
    if i > 0 {
        let t = s.drop_first();
        assert forall|j: int| 0 <= j < i - 1 implies #[trigger] t[j] != c by {
            assert(t[j] == s[j + 1]);
        }
        assert(s[0] != c);
        lemma_find_some(t, c, i - 1);
    }
}

pub proof fn lemma_find_none(s: Seq<char>, c: char)
    requires
        forall|j: int| 0 <= j < s.len() ==> #[trigger] s[j] != c,
    ensures
        find(s, c) == None::<int>,
    decreases s.len(),
{
    if s.len() > 0 {
        let t = s.drop_first();
        assert forall|j: int| 0 <= j < t.len() implies #[trigger] t[j] != c by {
            assert(t[j] == s[j + 1]);
        }
        assert(s[0] != c);
        lemma_find_none(t, c);
    }
}

pub proof fn lemma_find_facts(s: Seq<char>, c: char)
    ensures
        match find(s, c) {
            Some(i) => 0 <= i < s.len() && s[i] == c && forall|j: int|
                0 <= j < i ==> #[trigger] s[j] != c,
            None => forall|j: int| 0 <= j < s.len() ==> #[trigger] s[j] != c,
        },
    decreases s.len(),
{
    if s.len() > 0 {
        let t = s.drop_first();
        lemma_find_facts(t, c);
        if s[0] != c {
            match find(t, c) {
                Some(i) => {
                    assert forall|j: int| 0 <= j < i + 1 implies #[trigger] s[j] != c by {
                        if j > 0 {
                            assert(s[j] == t[j - 1]);
                        }
                    }
                },
                None => {
                    assert forall|j: int| 0 <= j < s.len() implies #[trigger] s[j] != c by {
                        if j > 0 {
                            assert(s[j] == t[j - 1]);
                        }
                    }
                },
            }
        }
    }
}

/// Position of the first `c` in `v`.
pub fn find_char(v: &[char], c: char) -> (r: Option<usize>)
    ensures
        match r {
            Some(i) => find(v@, c) == Some(i as int),
            None => find(v@, c) == None::<int>,
        },
{
    let n = v.len();
    let mut i: usize = 0;
    while i < n
        invariant
            n == v@.len(),
            i <= n,
            forall|j: int| 0 <= j < i ==> #[trigger] v@[j] != c,
        decreases n - i,
    {
        if v[i] == c {
            proof {
                lemma_find_some(v@, c, i as int);
            }
            return Some(i);
        }
        i = i + 1;
    }
    proof {
        lemma_find_none(v@, c);
    }
    None
}

// ---------------------------------------------------------------------------
// Case
// ---------------------------------------------------------------------------

/// `char::to_ascii_lowercase`.
pub open spec fn lower_char(c: char) -> char {
    if 'A' <= c && c <= 'Z' {
        ((c as u32) + 32) as char
    } else {
        c
    }
}

/// `str::to_ascii_lowercase`.
pub open spec fn lower(s: Seq<char>) -> Seq<char> {
    s.map_values(|c: char| lower_char(c))
}

/// `str::eq_ignore_ascii_case`.
pub open spec fn eq_ignore_case(a: Seq<char>, b: Seq<char>) -> bool {
    lower(a) == lower(b)
}

pub fn lower_char_exec(c: char) -> (r: char)
    ensures
        r == lower_char(c),
{
    if 'A' <= c && c <= 'Z' {
        let u: u32 = c as u32 + 32;
        char_from_ascii(u)
    } else {
        c
    }
}

/// The character with the given ASCII code.
fn char_from_ascii(u: u32) -> (r: char)
    requires
        u < 128,
    ensures
        r == u as char,
{
    let b: u8 = u as u8;
    assert(b as u32 == u) by (bit_vector)
        requires
            b == u as u8,
            u < 128,
    ;
    let c = b as char;
    c
}

/// ASCII-lowercased copy of `v`.
pub fn lower_vec(v: &[char]) -> (r: Vec<char>)
    ensures
        r@ == lower(v@),
{
    let mut r: Vec<char> = Vec::new();
    let mut i: usize = 0;
    while i < v.len()
        invariant
            i <= v@.len(),
            r@ == lower(v@.subrange(0, i as int)),
        decreases v@.len() - i,
    {
        let c = lower_char_exec(v[i]);
        r.push(c);
        i = i + 1;
        assert(lower(v@.subrange(0, i as int)) =~= lower(v@.subrange(0, i - 1)).push(c));
    }
    assert(v@.subrange(0, v@.len() as int) =~= v@);
    r
}

/// Whether `a` and `b` are equal.
pub fn chars_eq(a: &[char], b: &[char]) -> (r: bool)
    ensures
        r == (a@ == b@),
{
    if a.len() != b.len() {
        return false;
    }
    let mut i: usize = 0;
    while i < a.len()
        invariant
            a@.len() == b@.len(),
            i <= a@.len(),
            forall|j: int| 0 <= j < i ==> a@[j] == b@[j],
        decreases a@.len() - i,
    {
        if a[i] != b[i] {
            return false;
        }
        i = i + 1;
    }
    assert(a@ =~= b@);
    true
}

/// Whether `a` and `b` are equal ignoring ASCII case.
pub fn chars_eq_ignore_case(a: &[char], b: &[char]) -> (r: bool)
    ensures
        r == eq_ignore_case(a@, b@),
{
    let la = lower_vec(a);
    let lb = lower_vec(b);
    chars_eq(la.as_slice(), lb.as_slice())
}

/// Whether the characters of `v` spell exactly `lit`.
pub fn chars_eq_str(v: &[char], lit: &str) -> (r: bool)
    ensures
        r == (v@ == lit@),
{
    let w = chars_of(lit);
    chars_eq(v, w.as_slice())
}

// ---------------------------------------------------------------------------
// Conversions between strings and character vectors
// ---------------------------------------------------------------------------

/// The characters of `s`, in order.
pub fn chars_of(s: &str) -> (v: Vec<char>)
    ensures
        v@ == s@,
{
    let n = s.unicode_len();
    let mut v: Vec<char> = Vec::new();
    let mut i: usize = 0;
    while i < n
        invariant
            n == s@.len(),
            i <= n,
            v@ == s@.subrange(0, i as int),
        decreases n - i,
    {
        let c = s.get_char(i);
        v.push(c);
        i = i + 1;
    }
    v
}

/// Appends one character to `s` (`String::push`).
#[verifier::external_body]
pub(crate) fn push_char(s: &mut String, c: char)
    ensures
        final(s)@ == old(s)@.push(c),
{
    s.push(c);
}

/// Appends the characters of `v` to `s`.
pub fn push_chars(s: &mut String, v: &[char])
    ensures
        final(s)@ == old(s)@ + v@,
{
    let mut i: usize = 0;
    while i < v.len()
        invariant
            i <= v@.len(),
            s@ == old(s)@ + v@.subrange(0, i as int),
        decreases v@.len() - i,
    {
        push_char(s, v[i]);
        i = i + 1;
        assert(old(s)@ + v@.subrange(0, i as int) =~= old(s)@ + v@.subrange(0, i - 1) + seq![
            v@[i - 1],
        ]);
    }
    assert(v@.subrange(0, v@.len() as int) =~= v@);
}

/// Builds a `String` holding exactly the characters of `v`.
pub fn string_from_chars(v: &[char]) -> (s: String)
    ensures
        s@ == v@,
{
    let mut s = String::new();
    push_chars(&mut s, v);
    s
}

/// Copy of `v[a..b]`.
pub fn sub_chars(v: &[char], a: usize, b: usize) -> (r: Vec<char>)
    requires
        a <= b <= v@.len(),
    ensures
        r@ == v@.subrange(a as int, b as int),
{
    let mut r: Vec<char> = Vec::new();
    let mut i: usize = a;
    while i < b
        invariant
            a <= i <= b <= v@.len(),
            r@ == v@.subrange(a as int, i as int),
        decreases b - i,
    {
        r.push(v[i]);
        i = i + 1;
    }
    r
}

/// Copy of the trimmed part of `v`.
pub fn trim_chars(v: &[char]) -> (r: Vec<char>)
    ensures
        r@ == trim(v@),
{
    let (a, b) = trim_bounds(v);
    sub_chars(v, a, b)
}

/// `String` holding `s` trimmed.
pub fn trim_str(s: &str) -> (r: String)
    ensures
        r@ == trim(s@),
{
    let v = chars_of(s);
    let t = trim_chars(v.as_slice());
    string_from_chars(t.as_slice())
}

/// A copy of `s` as an owned `String`.
pub fn owned(s: &str) -> (r: String)
    ensures
        r@ == s@,
{
    s.to_owned()
}

// ---------------------------------------------------------------------------
// Decimal numbers
// ---------------------------------------------------------------------------

pub open spec fn is_digit(c: char) -> bool {
    '0' <= c && c <= '9'
}

pub open spec fn digit_value(c: char) -> nat {
    (c as u32 - '0' as u32) as nat
}

pub open spec fn digit_char(d: nat) -> char {
    ((d + '0' as u32) as u32) as char
}

/// Value of a string of decimal digits.
pub open spec fn digits_value(s: Seq<char>) -> nat
    decreases s.len(),
{
    if s.len() == 0 {
        0
    } else {
        digits_value(s.drop_last()) * 10 + digit_value(s.last())
    }
}

pub open spec fn all_digits(s: Seq<char>) -> bool {
    forall|i: int| 0 <= i < s.len() ==> is_digit(#[trigger] s[i])
}

/// `u64::from_str`: an optional `+`, then one or more ASCII digits whose
/// value fits in a `u64`.
pub open spec fn parse_u64(s: Seq<char>) -> Option<u64> {
    let d = if s.len() > 0 && s[0] == '+' {
        s.drop_first()
    } else {
        s
    };
    if d.len() > 0 && all_digits(d) && digits_value(d) <= u64::MAX {
        Some(digits_value(d) as u64)
    } else {
        None
    }
}

/// Decimal rendering of `n` (`u64`'s `Display`).
pub open spec fn fmt_u64(n: nat) -> Seq<char>
    decreases n,
{
    if n < 10 {
        seq![digit_char(n)]
    } else {
        fmt_u64(n / 10).push(digit_char(n % 10))
    }
}

pub proof fn lemma_fmt_u64(n: nat)
    ensures
        fmt_u64(n).len() > 0,
        all_digits(fmt_u64(n)),
        digits_value(fmt_u64(n)) == n,
        fmt_u64(n)[0] != '+',
    decreases n,
{
    lemma_digit_char(n % 10);
    let s = fmt_u64(n);
    if n >= 10 {
        lemma_fmt_u64(n / 10);
        assert(s.drop_last() =~= fmt_u64(n / 10));
        assert(s[0] == fmt_u64(n / 10)[0]);
        assert(s.last() == digit_char(n % 10));
        assert(digits_value(s) == digits_value(s.drop_last()) * 10 + digit_value(s.last()));
        assert(n == (n / 10) * 10 + n % 10);
    } else {
        assert(s.drop_last() =~= Seq::<char>::empty());
        assert(digits_value(s) == digits_value(s.drop_last()) * 10 + digit_value(s.last()));
    }
}

proof fn lemma_digit_char(d: nat)
    requires
        d < 10,
    ensures
        is_digit(digit_char(d)),
        digit_value(digit_char(d)) == d,
        digit_char(d) != '+',
{
    let u: u32 = (d + 48) as u32;
    assert(u as char as u32 == u);
}

/// Parsing the decimal rendering of a number gives the number back.
pub proof fn lemma_parse_fmt_u64(n: u64)
    ensures
        parse_u64(fmt_u64(n as nat)) == Some(n),
{
    lemma_fmt_u64(n as nat);
}

/// `u64::from_str` on a character slice.
pub fn parse_u64_chars(v: &[char]) -> (r: Option<u64>)
    ensures
        r == parse_u64(v@),
{
    let n = v.len();
    let start: usize = if n > 0 && v[0] == '+' {
        1
    } else {
        0
    };
    let ghost d = if n > 0 && v@[0] == '+' {
        v@.drop_first()
    } else {
        v@
    };
    assert(d =~= v@.subrange(start as int, n as int));
    if start >= n {
        return None;
    }
    let mut acc: u64 = 0;
    let mut i: usize = start;
    while i < n
        invariant
            start <= i <= n,
            n == v@.len(),
            d =~= v@.subrange(start as int, n as int),
            d == (if n > 0 && v@[0] == '+' {
                v@.drop_first()
            } else {
                v@
            }),
            all_digits(v@.subrange(start as int, i as int)),
            acc as nat == digits_value(v@.subrange(start as int, i as int)),
        decreases n - i,
    {
        let c = v[i];
        if !('0' <= c && c <= '9') {
            proof {
                assert(d[i - start] == c);
                assert(!is_digit(d[i - start]));
                assert(!all_digits(d));
            }
            return None;
        }
        let dv: u64 = (c as u32 - '0' as u32) as u64;
        let ghost prev = v@.subrange(start as int, i as int);
        let ghost next = v@.subrange(start as int, i + 1);
        assert(next.drop_last() =~= prev);
        proof {
            if all_digits(d) {
                lemma_digits_value_monotone(d, i + 1 - start);
                assert(d.subrange(0, i + 1 - start) =~= next);
            }
        }
        if acc > (u64::MAX - dv) / 10 {
            proof {
                assert(digits_value(next) == acc * 10 + dv);
                assert(acc * 10 + dv > u64::MAX) by (nonlinear_arith)
                    requires
                        acc > (u64::MAX - dv) / 10,
                        dv <= 9,
                ;
            }
            return None;
        }
        assert(acc * 10 + dv <= u64::MAX) by (nonlinear_arith)
            requires
                acc <= (u64::MAX - dv) / 10,
                dv <= 9,
        ;
        acc = acc * 10 + dv;
        i = i + 1;
    }
    assert(v@.subrange(start as int, n as int) =~= d);
    Some(acc)
}

/// The value of a digit string never decreases as it grows.
proof fn lemma_digits_value_monotone(d: Seq<char>, k: int)
    requires
        0 <= k <= d.len(),
        all_digits(d),
    ensures
        digits_value(d.subrange(0, k)) <= digits_value(d),
    decreases d.len() - k,
{
    if k < d.len() {
        lemma_digits_value_monotone(d, k + 1);
        let a = d.subrange(0, k + 1);
        assert(a.drop_last() =~= d.subrange(0, k));
        assert(is_digit(d[k]));
    } else {
        assert(d.subrange(0, k) =~= d);
    }
}

/// Decimal rendering of `n`.
pub fn fmt_u64_exec(n: u64) -> (r: Vec<char>)
    ensures
        r@ == fmt_u64(n as nat),
    decreases n,
{
    if n < 10 {
        let mut r: Vec<char> = Vec::new();
        r.push(digit_exec(n));
        r
    } else {
        let mut r = fmt_u64_exec(n / 10);
        r.push(digit_exec(n % 10));
        r
    }
}

fn digit_exec(d: u64) -> (c: char)
    requires
        d < 10,
    ensures
        c == digit_char(d as nat),
{
    char_from_ascii(d as u32 + '0' as u32)
}

/// Appends the decimal rendering of `n` to `s`.
pub fn push_u64(s: &mut String, n: u64)
    ensures
        final(s)@ == old(s)@ + fmt_u64(n as nat),
{
    let v = fmt_u64_exec(n);
    push_chars(s, v.as_slice());
}

// ---------------------------------------------------------------------------
// Prefixes and trailing characters
// ---------------------------------------------------------------------------

/// `str::strip_prefix`: the rest of `s` after `p`, when `s` starts with `p`.
pub open spec fn strip_prefix(p: Seq<char>, s: Seq<char>) -> Option<Seq<char>> {
    if p.is_prefix_of(s) {
        Some(s.skip(p.len() as int))
    } else {
        None
    }
}

pub proof fn lemma_strip_prefix_concat(p: Seq<char>, t: Seq<char>)
    ensures
        strip_prefix(p, p + t) == Some(t),
{
    assert(p.is_prefix_of(p + t)) by {
        assert((p + t).subrange(0, p.len() as int) =~= p);
    }
    assert((p + t).skip(p.len() as int) =~= t);
}

/// Whether `v` starts with `p`.
pub fn starts_with(v: &[char], p: &[char]) -> (r: bool)
    ensures
        r == p@.is_prefix_of(v@),
{
    if p.len() > v.len() {
        return false;
    }
    let mut i: usize = 0;
    while i < p.len()
        invariant
            p@.len() <= v@.len(),
            i <= p@.len(),
            forall|j: int| 0 <= j < i ==> p@[j] == v@[j],
        decreases p@.len() - i,
    {
        if p[i] != v[i] {
            assert(!(v@.subrange(0, p@.len() as int) =~= p@)) by {
                assert(v@.subrange(0, p@.len() as int)[i as int] == v@[i as int]);
            }
            return false;
        }
        i = i + 1;
    }
    assert(v@.subrange(0, p@.len() as int) =~= p@);
    true
}

/// `str::strip_prefix` on characters.
pub fn strip_prefix_chars(v: &[char], p: &[char]) -> (r: Option<Vec<char>>)
    ensures
        match r {
            Some(x) => strip_prefix(p@, v@) == Some(x@),
            None => strip_prefix(p@, v@) is None,
        },
{
    if starts_with(v, p) {
        let x = sub_chars(v, p.len(), v.len());
        assert(x@ =~= v@.skip(p@.len() as int));
        Some(x)
    } else {
        None
    }
}

/// `s` without every trailing `c` (`str::trim_end_matches` with one char).
pub open spec fn trim_end_char(s: Seq<char>, c: char) -> Seq<char>
    decreases s.len(),
{
    if s.len() > 0 && s.last() == c {
        trim_end_char(s.drop_last(), c)
    } else {
        s
    }
}

proof fn lemma_trim_end_char(s: Seq<char>, c: char, k: int)
    requires
        0 <= k <= s.len(),
        forall|j: int| k <= j < s.len() ==> #[trigger] s[j] == c,
        k == 0 || s[k - 1] != c,
    ensures
        trim_end_char(s, c) == s.subrange(0, k),
    decreases s.len(),
{
    if k < s.len() {
        let t = s.drop_last();
        assert forall|j: int| k <= j < t.len() implies #[trigger] t[j] == c by {
            assert(t[j] == s[j]);
        }
        if k > 0 {
            assert(t[k - 1] == s[k - 1]);
        }
        lemma_trim_end_char(t, c, k);
        assert(t.subrange(0, k) =~= s.subrange(0, k));
    } else {
        assert(s.subrange(0, k) =~= s);
    }
}

/// Copy of `v` without every trailing `c`.
pub fn trim_end_char_vec(v: &[char], c: char) -> (r: Vec<char>)
    ensures
        r@ == trim_end_char(v@, c),
{
    let mut k: usize = v.len();
    while k > 0 && v[k - 1] == c
        invariant
            k <= v@.len(),
            forall|j: int| k <= j < v@.len() ==> #[trigger] v@[j] == c,
        decreases k,
    {
        k = k - 1;
    }
    proof {
        lemma_trim_end_char(v@, c, k as int);
    }
    sub_chars(v, 0, k)
}

/// Concatenation of two character slices.
pub fn concat_chars(a: &[char], b: &[char]) -> (r: Vec<char>)
    ensures
        r@ == a@ + b@,
{
    let mut r: Vec<char> = Vec::new();
    let mut i: usize = 0;
    while i < a.len()
        invariant
            i <= a@.len(),
            r@ == a@.subrange(0, i as int),
        decreases a@.len() - i,
    {
        r.push(a[i]);
        i = i + 1;
    }
    let mut j: usize = 0;
    while j < b.len()
        invariant
            j <= b@.len(),
            i == a@.len(),
            r@ == a@ + b@.subrange(0, j as int),
        decreases b@.len() - j,
    {
        r.push(b[j]);
        j = j + 1;
        assert(a@ + b@.subrange(0, j as int) =~= (a@ + b@.subrange(0, j - 1)).push(b@[j - 1]));
    }
    assert(a@.subrange(0, a@.len() as int) =~= a@);
    assert(b@.subrange(0, b@.len() as int) =~= b@);
    r
}

// ---------------------------------------------------------------------------
// Splitting
// ---------------------------------------------------------------------------

/// `str::split_once` with a one-character pattern: the parts before and after
/// the first `c`.
pub open spec fn split_once(s: Seq<char>, c: char) -> Option<(Seq<char>, Seq<char>)> {
    match find(s, c) {
        Some(i) => Some((s.subrange(0, i), s.subrange(i + 1, s.len() as int))),
        None => None,
    }
}

/// `str::split_once` on characters.
pub fn split_once_chars(v: &[char], c: char) -> (r: Option<(Vec<char>, Vec<char>)>)
    ensures
        match r {
            Some(p) => split_once(v@, c) == Some((p.0@, p.1@)),
            None => split_once(v@, c) is None,
        },
{
    proof {
        lemma_find_facts(v@, c);
    }
    match find_char(v, c) {
        Some(i) => {
            let n = v.len();
            assert(i < n);
            Some((sub_chars(v, 0, i), sub_chars(v, i + 1, n)))
        },
        None => None,
    }
}

/// The pending token `cur` as a sequence of at most one token.
pub open spec fn flush(cur: Seq<char>) -> Seq<Seq<char>> {
    if cur.len() > 0 {
        seq![cur]
    } else {
        Seq::empty()
    }
}

/// Tokens of `s` separated by ASCII whitespace, continuing a token `cur`
/// already begun.
pub open spec fn tokens_from(s: Seq<char>, cur: Seq<char>) -> Seq<Seq<char>>
    decreases s.len(),
{
    if s.len() == 0 {
        flush(cur)
    } else if is_ascii_ws(s[0]) {
        flush(cur) + tokens_from(s.drop_first(), Seq::empty())
    } else {
        tokens_from(s.drop_first(), cur.push(s[0]))
    }
}

/// `str::split_ascii_whitespace`: the non-empty runs of non-whitespace.
pub open spec fn ascii_tokens(s: Seq<char>) -> Seq<Seq<char>> {
    tokens_from(s, Seq::empty())
}

/// A token as `split_ascii_whitespace` yields it: non-empty, no ASCII whitespace.
pub open spec fn is_token(t: Seq<char>) -> bool {
    t.len() > 0 && forall|j: int| 0 <= j < t.len() ==> !is_ascii_ws(#[trigger] t[j])
}

pub proof fn lemma_tokens_from_wf(s: Seq<char>, cur: Seq<char>)
    requires
        forall|j: int| 0 <= j < cur.len() ==> !is_ascii_ws(#[trigger] cur[j]),
    ensures
        forall|k: int| 0 <= k < tokens_from(s, cur).len() ==> is_token(
            #[trigger] tokens_from(s, cur)[k],
        ),
    decreases s.len(),
{
    if cur.len() > 0 {
        assert(is_token(cur));
        assert(flush(cur)[0] == cur);
    }
    if s.len() == 0 {
        assert(tokens_from(s, cur) == flush(cur));
    } else if is_ascii_ws(s[0]) {
        lemma_tokens_from_wf(s.drop_first(), Seq::empty());
        let a = flush(cur);
        let b = tokens_from(s.drop_first(), Seq::empty());
        assert forall|k: int| 0 <= k < (a + b).len() implies is_token(#[trigger] (a + b)[k]) by {
            if k >= a.len() {
                assert((a + b)[k] == b[k - a.len()]);
            }
        }
    } else {
        let c2 = cur.push(s[0]);
        assert forall|j: int| 0 <= j < c2.len() implies !is_ascii_ws(#[trigger] c2[j]) by {
            if j < cur.len() {
                assert(c2[j] == cur[j]);
            }
        }
        lemma_tokens_from_wf(s.drop_first(), c2);
        assert(tokens_from(s, cur) == tokens_from(s.drop_first(), c2));
    }
}

/// Views of a vector of character vectors.
pub open spec fn views(v: Seq<Vec<char>>) -> Seq<Seq<char>> {
    v.map_values(|x: Vec<char>| x@)
}

/// `str::split_ascii_whitespace` on characters.
pub fn ascii_tokens_chars(v: &[char]) -> (r: Vec<Vec<char>>)
    ensures
        views(r@) == ascii_tokens(v@),
{
    let n = v.len();
    let mut out: Vec<Vec<char>> = Vec::new();
    let mut cur: Vec<char> = Vec::new();
    let mut i: usize = 0;
    assert(v@.subrange(0, n as int) =~= v@);
    assert(views(out@) + tokens_from(v@.subrange(0, n as int), cur@) =~= ascii_tokens(v@));
    while i < n
        invariant
            n == v@.len(),
            i <= n,
            views(out@) + tokens_from(v@.subrange(i as int, n as int), cur@) == ascii_tokens(v@),
        decreases n - i,
    {
        let ghost rest = v@.subrange(i as int, n as int);
        assert(rest.drop_first() =~= v@.subrange(i + 1, n as int));
        let c = v[i];
        if c == ' ' || c == '\t' || c == '\n' || c == '\u{c}' || c == '\r' {
            let ghost before = views(out@);
            let ghost old_cur = cur@;
            if cur.len() > 0 {
                out.push(cur);
            }
            assert(views(out@) =~= before + flush(old_cur));
            cur = Vec::new();
            assert(before + (flush(old_cur) + tokens_from(rest.drop_first(), Seq::empty()))
                =~= views(out@) + tokens_from(rest.drop_first(), cur@));
        } else {
            cur.push(c);
        }
        i = i + 1;
    }
    let ghost before = views(out@);
    if cur.len() > 0 {
        out.push(cur);
    }
    assert(views(out@) =~= before + flush(cur@));
    out
}

// ---------------------------------------------------------------------------
// Formatting
// ---------------------------------------------------------------------------

/// `core::fmt::Formatter`, used opaquely by the hand-written `Debug` impls.
#[verifier::external_type_specification]
#[verifier::external_body]
pub struct ExFormatter<'a>(core::fmt::Formatter<'a>);

/// `core::fmt::Error`, the error of `core::fmt::Result`.
#[verifier::external_type_specification]
#[verifier::external_body]
pub struct ExFmtError(core::fmt::Error);

/// `Formatter::write_str`: writes `s` to the formatter. Whether the sink
/// accepts it is the formatter's own affair, so nothing is stated.
#[verifier::external_body]
pub(crate) fn write_text(f: &mut core::fmt::Formatter<'_>, s: &str) -> core::fmt::Result {
    f.write_str(s)
}

/// Non-empty, and neither starts nor ends with whitespace.
pub open spec fn trimmed_nonempty(t: Seq<char>) -> bool {
    t.len() > 0 && !is_ws(t[0]) && !is_ws(t.last())
}

/// Trimming a value with no whitespace at either end leaves it unchanged.
pub proof fn lemma_trim_id(t: Seq<char>)
    requires
        trimmed_nonempty(t),
    ensures
        trim(t) == t,
{
    lemma_lead_ws(t, 0);
    assert(trim_start(t) =~= t);
    lemma_trail_ws(t, 0);
    assert(trim_end(t) =~= t);
}

/// Splitting `p c rest` at the first `c`, when `p` has no `c`, gives `p` and `rest`.
pub proof fn lemma_split_once_at(p: Seq<char>, c: char, rest: Seq<char>)
    requires
        !p.contains(c),
    ensures
        split_once(p + seq![c] + rest, c) == Some((p, rest)),
{
    let w = p + seq![c] + rest;
    assert forall|j: int| 0 <= j < p.len() implies #[trigger] w[j] != c by {
        assert(w[j] == p[j]);
        if p[j] == c {
            assert(p.contains(c));
        }
    }
    assert(w[p.len() as int] == c);
    lemma_find_some(w, c, p.len() as int);
    assert(w.subrange(0, p.len() as int) =~= p);
    assert(w.subrange(p.len() as int + 1, w.len() as int) =~= rest);
}

/// A value `p c rest` (with `p` free of `c`, not starting with whitespace, and
/// `rest` trimmed and non-empty) is unchanged by trimming, and splits at the
/// first `c` into `p` and `rest`.
pub proof fn lemma_render_split(p: Seq<char>, c: char, rest: Seq<char>)
    requires
        p.len() > 0,
        !is_ws(p[0]),
        !p.contains(c),
        trimmed_nonempty(rest),
    ensures
        trim(p + seq![c] + rest) == p + seq![c] + rest,
        split_once(p + seq![c] + rest, c) == Some((p, rest)),
        trim(rest) == rest,
{
    let w = p + seq![c] + rest;
    assert(w[0] == p[0]);
    assert(w.last() == rest.last());
    lemma_trim_id(w);
    lemma_trim_id(rest);
    lemma_split_once_at(p, c, rest);
}

// ---------------------------------------------------------------------------
// Splitting at every separator, joining with a separator
// ---------------------------------------------------------------------------

/// `str::split` with a one-character pattern: every piece, empty ones included.
pub open spec fn split_char(s: Seq<char>, c: char) -> Seq<Seq<char>>
    decreases s.len(),
{
    match find(s, c) {
        Some(i) => {
            proof {
                lemma_find_facts(s, c);
            }
            seq![s.subrange(0, i)] + split_char(s.subrange(i + 1, s.len() as int), c)
        },
        None => seq![s],
    }
}

/// `str::split` with a one-character pattern, on characters.
pub fn split_char_chars(v: &[char], c: char) -> (r: Vec<Vec<char>>)
    ensures
        views(r@) == split_char(v@, c),
{
    let mut out: Vec<Vec<char>> = Vec::new();
    let mut rest: Vec<char> = sub_chars(v, 0, v.len());
    assert(rest@ =~= v@);
    loop
        invariant
            views(out@) + split_char(rest@, c) == split_char(v@, c),
        decreases rest@.len(),
    {
        proof {
            lemma_find_facts(rest@, c);
        }
        match find_char(rest.as_slice(), c) {
            Some(i) => {
                let n = rest.len();
                let head = sub_chars(rest.as_slice(), 0, i);
                let tail = sub_chars(rest.as_slice(), i + 1, n);
                let ghost before = views(out@);
                out.push(head);
                assert(views(out@) =~= before.push(head@));
                assert(before + split_char(rest@, c) =~= views(out@) + split_char(tail@, c));
                rest = tail;
            },
            None => {
                let ghost before = views(out@);
                out.push(rest);
                assert(views(out@) =~= before + split_char(rest@, c));
                return out;
            },
        }
    }
}

/// The pieces joined with `sep` between neighbours.
pub open spec fn join_sep(ps: Seq<Seq<char>>, sep: Seq<char>) -> Seq<char>
    decreases ps.len(),
{
    if ps.len() == 0 {
        Seq::empty()
    } else if ps.len() == 1 {
        ps[0]
    } else {
        ps[0] + sep + join_sep(ps.drop_first(), sep)
    }
}

pub proof fn lemma_join_sep_push(ps: Seq<Seq<char>>, sep: Seq<char>, x: Seq<char>)
    requires
        ps.len() > 0,
    ensures
        join_sep(ps.push(x), sep) == join_sep(ps, sep) + sep + x,
    decreases ps.len(),
{
    let q = ps.push(x);
    assert(q[0] == ps[0]);
    if ps.len() == 1 {
        assert(q.drop_first() =~= seq![x]);
        assert(join_sep(seq![x], sep) == x);
        assert(join_sep(ps, sep) == ps[0]);
    } else {
        assert(q.drop_first() =~= ps.drop_first().push(x));
        lemma_join_sep_push(ps.drop_first(), sep, x);
        assert(ps[0] + sep + (join_sep(ps.drop_first(), sep) + sep + x) =~= ps[0] + sep
            + join_sep(ps.drop_first(), sep) + sep + x);
    }
}

/// Joins the pieces with `sep` between neighbours.
pub fn join_sep_chars(ps: &Vec<Vec<char>>, sep: &[char]) -> (r: Vec<char>)
    ensures
        r@ == join_sep(views(ps@), sep@),
{
    let mut out: Vec<char> = Vec::new();
    let mut i: usize = 0;
    assert(views(ps@).subrange(0, 0) =~= Seq::<Seq<char>>::empty());
    while i < ps.len()
        invariant
            i <= ps@.len(),
            out@ == join_sep(views(ps@).subrange(0, i as int), sep@),
        decreases ps@.len() - i,
    {
        let ghost prev = views(ps@).subrange(0, i as int);
        assert(views(ps@).subrange(0, i + 1) =~= prev.push(ps@[i as int]@));
        if i == 0 {
            out = concat_chars(out.as_slice(), ps[i].as_slice());
            assert(prev.push(ps@[i as int]@) =~= seq![ps@[i as int]@]);
            assert(out@ =~= ps@[i as int]@);
        } else {
            let with_sep = concat_chars(out.as_slice(), sep);
            out = concat_chars(with_sep.as_slice(), ps[i].as_slice());
            proof {
                lemma_join_sep_push(prev, sep@, ps@[i as int]@);
            }
        }
        i = i + 1;
    }
    assert(views(ps@).subrange(0, i as int) =~= views(ps@));
    out
}

/// `", "`, the separator of list-valued headers.
pub open spec fn comma_space() -> Seq<char> {
    seq![',', ' ']
}

/// Splitting `pre` followed by the `", "`-joined pieces at every comma gives
/// `pre` joined to the first piece, then each further piece after a space.
pub proof fn lemma_split_join(pre: Seq<char>, ps: Seq<Seq<char>>)
    requires
        !pre.contains(','),
        ps.len() > 0,
        forall|k: int| 0 <= k < ps.len() ==> !(#[trigger] ps[k]).contains(','),
    ensures
        split_char(pre + join_sep(ps, comma_space()), ',') == seq![pre + ps[0]]
            + ps.drop_first().map_values(|x: Seq<char>| seq![' '] + x),
    decreases ps.len(),
{
    let head = pre + ps[0];
    assert(!head.contains(',')) by {
        if head.contains(',') {
            let j = choose|j: int| 0 <= j < head.len() && head[j] == ',';
            if j < pre.len() {
                assert(pre[j] == ',');
            } else {
                assert(ps[0][j - pre.len()] == ',');
            }
        }
    }
    if ps.len() == 1 {
        assert(pre + join_sep(ps, comma_space()) =~= head);
        assert forall|j: int| 0 <= j < head.len() implies #[trigger] head[j] != ',' by {
            if head[j] == ',' {
                assert(head.contains(','));
            }
        }
        lemma_find_none(head, ',');
        assert(ps.drop_first().map_values(|x: Seq<char>| seq![' '] + x) =~= Seq::<
            Seq<char>,
        >::empty());
        assert(seq![head] + Seq::<Seq<char>>::empty() =~= seq![head]);
    } else {
        let rest = ps.drop_first();
        let tail = join_sep(rest, comma_space());
        let w = pre + join_sep(ps, comma_space());
        assert(w =~= head + seq![','] + (seq![' '] + tail));
        lemma_split_once_at(head, ',', seq![' '] + tail);
        assert(!seq![' '].contains(',')) by {
            if seq![' '].contains(',') {
                let j = choose|j: int| 0 <= j < 1 && seq![' '][j] == ',';
            }
        }
        assert forall|k: int| 0 <= k < rest.len() implies !(#[trigger] rest[k]).contains(',') by {
            assert(rest[k] == ps[k + 1]);
        }
        lemma_split_join(seq![' '], rest);
        assert(seq![' '] + tail == seq![' '] + join_sep(rest, comma_space()));
        let m = |x: Seq<char>| seq![' '] + x;
        assert(rest.map_values(m) =~= seq![seq![' '] + rest[0]] + rest.drop_first().map_values(m));
    }
}

/// Trimming a space followed by a trimmed value gives the value.
pub proof fn lemma_trim_after_space(x: Seq<char>)
    requires
        trimmed_nonempty(x),
    ensures
        trim(seq![' '] + x) == x,
{
    let w = seq![' '] + x;
    assert(w[0] == ' ');
    assert(w[1] == x[0]);
    lemma_lead_ws(w, 1);
    assert(trim_start(w) =~= x);
    lemma_trim_id(x);
}

// ---------------------------------------------------------------------------
// Printable ASCII
// ---------------------------------------------------------------------------

/// Every byte is printable ASCII (`0x20`–`0x7E`).
pub open spec fn printable_ascii(b: Seq<u8>) -> bool {
    forall|i: int| 0 <= i < b.len() ==> 0x20 <= #[trigger] b[i] <= 0x7e
}

/// Whether every byte of `b` is printable ASCII.
pub fn all_printable_ascii(b: &[u8]) -> (r: bool)
    ensures
        r == printable_ascii(b@),
{
    let mut i: usize = 0;
    while i < b.len()
        invariant
            i <= b@.len(),
            forall|j: int| 0 <= j < i ==> 0x20 <= #[trigger] b@[j] <= 0x7e,
        decreases b@.len() - i,
    {
        if b[i] < 0x20 || b[i] > 0x7e {
            return false;
        }
        i = i + 1;
    }
    true
}

/// The UTF-8 encoding of characters in `' '`–`'~'` (`0x20`–`0x7E`) is those
/// characters as bytes, which are printable ASCII.
pub proof fn lemma_printable_chars(s: Seq<char>)
    requires
        forall|i: int| 0 <= i < s.len() ==> ' ' <= #[trigger] s[i] && s[i] <= '~',
    ensures
        encode_utf8(s).len() == s.len(),
        printable_ascii(encode_utf8(s)),
{
    assert(vstd::utf8::is_ascii_chars(s));
    vstd::utf8::is_ascii_chars_encode_utf8(s);
    assert forall|i: int| 0 <= i < encode_utf8(s).len() implies 0x20 <= #[trigger] encode_utf8(
        s,
    )[i] <= 0x7e by {
        let c = s[i];
        assert(' ' <= c && c <= '~');
        assert(c as u8 == encode_utf8(s)[i]);
        assert(0x20 <= (c as u32) <= 0x7e);
        assert((c as u32) as u8 == c as u8);
    }
}

// ---------------------------------------------------------------------------
// Hexadecimal numbers
// ---------------------------------------------------------------------------

/// Lower-case hexadecimal digit of `d < 16`.
pub open spec fn hex_digit(d: nat) -> char {
    if d < 10 {
        ((d + '0' as u32) as u32) as char
    } else {
        ((d - 10 + 'a' as u32) as u32) as char
    }
}

/// `format!("{:x}", n)`: lower-case hexadecimal without leading zeros.
pub open spec fn fmt_hex(n: nat) -> Seq<char>
    decreases n,
{
    if n < 16 {
        seq![hex_digit(n)]
    } else {
        fmt_hex(n / 16).push(hex_digit(n % 16))
    }
}

fn hex_digit_exec(d: u64) -> (c: char)
    requires
        d < 16,
    ensures
        c == hex_digit(d as nat),
{
    if d < 10 {
        char_from_ascii(d as u32 + '0' as u32)
    } else {
        char_from_ascii((d - 10) as u32 + 'a' as u32)
    }
}

/// Lower-case hexadecimal rendering of `n`.
pub fn fmt_hex_exec(n: u64) -> (r: Vec<char>)
    ensures
        r@ == fmt_hex(n as nat),
    decreases n,
{
    if n < 16 {
        let mut r: Vec<char> = Vec::new();
        r.push(hex_digit_exec(n));
        r
    } else {
        let mut r = fmt_hex_exec(n / 16);
        r.push(hex_digit_exec(n % 16));
        r
    }
}

} // verus!
