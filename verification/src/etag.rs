//! Entity tags and the `If-Match` / `If-None-Match` conditions (RFC 7232).

use vstd::prelude::*;
use crate::error::ApiError;
use crate::text::{
    chars_eq, chars_of, find_char, owned, push_chars, string_from_chars, sub_chars, trim,
    trim_bounds, trim_chars, trim_start, lead_ws, find,
};

verus! {

// ---------------------------------------------------------------------------
// ETag
// ---------------------------------------------------------------------------

/// An HTTP entity tag: an opaque value, strong or weak.
#[derive(Debug, Clone, PartialEq, Eq, Hash)]
pub struct ETag {
    /// The opaque tag value (without surrounding quotes).
    pub value: String,
    /// Whether this is a weak tag.
    pub weak: bool,
}

/// An entity tag as (weak, value).
pub open spec fn etag_view(e: ETag) -> (bool, Seq<char>) {
    (e.weak, e.value@)
}

/// The wire form: `"<value>"`, or `W/"<value>"` for a weak tag.
pub open spec fn spec_etag_text(weak: bool, value: Seq<char>) -> Seq<char> {
    if weak {
        "W/\""@ + value + "\""@
    } else {
        "\""@ + value + "\""@
    }
}

/// RFC 9110 strong comparison: both tags strong, values equal.
pub open spec fn strong_match(a: ETag, b: ETag) -> bool {
    !a.weak && !b.weak && a.value@ == b.value@
}

/// RFC 9110 weak comparison: values equal, whatever the strength.
pub open spec fn weak_match(a: ETag, b: ETag) -> bool {
    a.value@ == b.value@
}

/// Both comparisons are symmetric, a strong match is also a weak match, and
/// a weak tag strongly matches nothing.
pub proof fn lemma_comparison_laws(a: ETag, b: ETag)
    ensures
        strong_match(a, b) == strong_match(b, a),
        weak_match(a, b) == weak_match(b, a),
        strong_match(a, b) ==> weak_match(a, b),
        a.weak ==> !strong_match(a, b),
        weak_match(a, a),
{
}

/// Why an entity tag did not parse.
#[derive(Debug, Clone, Copy, PartialEq, Eq, Structural)]
pub enum ParseETagError {
    /// The input was empty after trimming.
    Empty,
    /// The tag was not enclosed in double quotes.
    Unquoted,
    /// The input was otherwise malformed (missing closing quote, embedded quote).
    Malformed,
}

/// RFC 7232 §2.3 parsing: trim, an optional `W/` prefix, whitespace, then a
/// quoted value without inner quotes.
pub open spec fn spec_parse_etag(s: Seq<char>) -> Result<(bool, Seq<char>), ParseETagError> {
    let t = trim(s);
    if t.len() == 0 {
        Err(ParseETagError::Empty)
    } else {
        let weak = "W/"@.is_prefix_of(t);
        let rest = trim_start(
            if weak {
                t.skip(2)
            } else {
                t
            },
        );
        if !(rest.len() > 0 && rest[0] == '"') {
            Err(ParseETagError::Unquoted)
        } else if rest.len() < 2 || rest.last() != '"' {
            Err(ParseETagError::Malformed)
        } else if rest.subrange(1, rest.len() - 1).contains('"') {
            Err(ParseETagError::Malformed)
        } else {
            Ok((weak, rest.subrange(1, rest.len() - 1)))
        }
    }
}

impl ETag {
    /// A strong tag.
    pub fn strong(value: &str) -> (r: ETag)
        ensures
            etag_view(r) == (false, value@),
    {
        ETag { value: owned(value), weak: false }
    }

    /// A weak tag.
    pub fn weak(value: &str) -> (r: ETag)
        ensures
            etag_view(r) == (true, value@),
    {
        ETag { value: owned(value), weak: true }
    }

    /// Strong comparison: both strong and equal values.
    pub fn matches(&self, other: &ETag) -> (r: bool)
        ensures
            r == strong_match(*self, *other),
    {
        if self.weak || other.weak {
            return false;
        }
        let a = chars_of(self.value.as_str());
        let b = chars_of(other.value.as_str());
        chars_eq(a.as_slice(), b.as_slice())
    }

    /// Weak comparison: equal values, whatever the strength.
    pub fn matches_weak(&self, other: &ETag) -> (r: bool)
        ensures
            r == weak_match(*self, *other),
    {
        let a = chars_of(self.value.as_str());
        let b = chars_of(other.value.as_str());
        chars_eq(a.as_slice(), b.as_slice())
    }

    /// The wire form.
    pub fn to_string(&self) -> (r: String)
        ensures
            r@ == spec_etag_text(self.weak, self.value@),
    {
        let mut s = String::new();
        if self.weak {
            push_chars(&mut s, chars_of("W/\"").as_slice());
        } else {
            push_chars(&mut s, chars_of("\"").as_slice());
        }
        push_chars(&mut s, chars_of(self.value.as_str()).as_slice());
        push_chars(&mut s, chars_of("\"").as_slice());
        s
    }

    /// Parse the wire form.
    pub fn parse(s: &str) -> (r: Result<ETag, ParseETagError>)
        ensures
            match r {
                Ok(e) => spec_parse_etag(s@) == Ok::<_, ParseETagError>(etag_view(e)),
                Err(err) => spec_parse_etag(s@) == Err::<(bool, Seq<char>), _>(err),
            },
    {
        let v = chars_of(s);
        parse_etag_chars(v.as_slice())
    }

    /// Parse a comma-separated list of tags (the body of `If-Match` /
    /// `If-None-Match`); commas inside quotes do not separate.
    pub fn parse_list(s: &str) -> (r: Result<Vec<ETag>, ParseETagError>)
        ensures
            match r {
                Ok(tags) => spec_parse_list(s@) == Ok::<_, ParseETagError>(
                    tags@.map_values(|e: ETag| etag_view(e)),
                ),
                Err(err) => spec_parse_list(s@) == Err::<Seq<(bool, Seq<char>)>, _>(err),
            },
    {
        let v = chars_of(s);
        let pieces = split_unquoted(v.as_slice());
        let mut out: Vec<ETag> = Vec::new();
        let mut k: usize = 0;
        let ghost ps = split_pieces(v@);
        proof {
            assert(ps.skip(0) =~= ps);
            match parse_all(ps) {
                Ok(x) => {
                    assert(Seq::<(bool, Seq<char>)>::empty() + x =~= x);
                },
                Err(_) => {},
            }
            assert(out@.map_values(|e: ETag| etag_view(e)) =~= Seq::<(bool, Seq<char>)>::empty());
        }
        while k < pieces.len()
            invariant
                v@ == s@,
                ps == split_pieces(v@),
                pieces@.len() == ps.len(),
                forall|j: int| 0 <= j < ps.len() ==> (#[trigger] pieces@[j])@ == ps[j],
                k <= pieces@.len(),
                parse_all(ps) == prepend_ok(
                    out@.map_values(|e: ETag| etag_view(e)),
                    parse_all(ps.skip(k as int)),
                ),
            decreases pieces@.len() - k,
        {
            let piece = &pieces[k];
            let t = trim_chars(piece.as_slice());
            assert(ps.skip(k as int).drop_first() =~= ps.skip(k + 1));
            assert(ps.skip(k as int)[0] == ps[k as int]);
            if t.len() > 0 {
                match parse_etag_chars(piece.as_slice()) {
                    Ok(e) => {
                        let ghost before = out@.map_values(|e: ETag| etag_view(e));
                        out.push(e);
                        assert(out@.map_values(|e: ETag| etag_view(e)) =~= before + seq![
                            etag_view(e),
                        ]);
                        proof {
                            lemma_prepend_assoc(before, etag_view(e), parse_all(ps.skip(k + 1)));
                        }
                    },
                    Err(err) => {
                        assert(parse_all(ps.skip(k as int)) == Err::<Seq<(bool, Seq<char>)>, _>(
                            err,
                        ));
                        assert(parse_all(ps) == Err::<Seq<(bool, Seq<char>)>, _>(err));
                        assert(v@ == s@);
                        assert(spec_parse_list(s@) == Err::<Seq<(bool, Seq<char>)>, _>(err));
                        return Err(err);
                    },
                }
            }
            k = k + 1;
        }
        assert(ps.skip(k as int) =~= Seq::<Seq<char>>::empty());
        if out.len() == 0 {
            return Err(ParseETagError::Empty);
        }
        assert(out@.map_values(|e: ETag| etag_view(e)) + Seq::<(bool, Seq<char>)>::empty()
            =~= out@.map_values(|e: ETag| etag_view(e)));
        Ok(out)
    }
}

impl core::str::FromStr for ETag {
    type Err = ParseETagError;

    fn from_str(s: &str) -> (r: Result<ETag, ParseETagError>)
        ensures
            match r {
                Ok(e) => spec_parse_etag(s@) == Ok::<_, ParseETagError>(etag_view(e)),
                Err(err) => spec_parse_etag(s@) == Err::<(bool, Seq<char>), _>(err),
            },
    {
        ETag::parse(s)
    }
}

impl ParseETagError {
    /// Human-readable description.
    pub fn to_string(&self) -> (r: String)
        ensures
            r@ == (match *self {
                ParseETagError::Empty => "ETag is empty"@,
                ParseETagError::Unquoted => "ETag must be enclosed in double quotes"@,
                ParseETagError::Malformed => "ETag is malformed"@,
            }),
    {
        match self {
            ParseETagError::Empty => owned("ETag is empty"),
            ParseETagError::Unquoted => owned("ETag must be enclosed in double quotes"),
            ParseETagError::Malformed => owned("ETag is malformed"),
        }
    }
}

/// Parse one tag from its characters.
fn parse_etag_chars(v: &[char]) -> (r: Result<ETag, ParseETagError>)
    ensures
        match r {
            Ok(e) => spec_parse_etag(v@) == Ok::<_, ParseETagError>(etag_view(e)),
            Err(err) => spec_parse_etag(v@) == Err::<(bool, Seq<char>), _>(err),
        },
{
    let t = trim_chars(v);
    if t.len() == 0 {
        return Err(ParseETagError::Empty);
    }
    let weak = t.len() >= 2 && t[0] == 'W' && t[1] == '/';
    proof {
        reveal_strlit("W/");
        if weak {
            assert(t@.subrange(0, 2) =~= "W/"@);
        } else if t@.len() >= 2 {
            assert(!("W/"@.is_prefix_of(t@))) by {
                if "W/"@.is_prefix_of(t@) {
                    assert(t@.subrange(0, 2)[0] == t@[0]);
                    assert(t@.subrange(0, 2)[1] == t@[1]);
                }
            }
        }
    }
    let after = if weak {
        sub_chars(t.as_slice(), 2, t.len())
    } else {
        sub_chars(t.as_slice(), 0, t.len())
    };
    assert(after@ == (if weak {
        t@.skip(2)
    } else {
        t@
    })) by {
        if weak {
            assert(after@ =~= t@.skip(2));
        } else {
            assert(after@ =~= t@);
        }
    }
    let (a, _) = trim_bounds(after.as_slice());
    let rest = sub_chars(after.as_slice(), a, after.len());
    assert(rest@ =~= trim_start(after@));
    let n = rest.len();
    if !(n > 0 && rest[0] == '"') {
        return Err(ParseETagError::Unquoted);
    }
    if n < 2 || rest[n - 1] != '"' {
        return Err(ParseETagError::Malformed);
    }
    let value = sub_chars(rest.as_slice(), 1, n - 1);
    match find_char(value.as_slice(), '"') {
        Some(_) => {
            proof {
                crate::text::lemma_find_facts(value@, '"');
            }
            Err(ParseETagError::Malformed)
        },
        None => {
            proof {
                crate::text::lemma_find_facts(value@, '"');
                assert(!value@.contains('"'));
            }
            Ok(ETag { value: string_from_chars(value.as_slice()), weak })
        },
    }
}

/// Parsing the wire form of a tag whose value holds no `"` gives the tag back.
pub proof fn lemma_etag_roundtrip(weak: bool, value: Seq<char>)
    requires
        !value.contains('"'),
    ensures
        spec_parse_etag(spec_etag_text(weak, value)) == Ok::<_, ParseETagError>((weak, value)),
{
    reveal_strlit("W/\"");
    reveal_strlit("\"");
    reveal_strlit("W/");
    let t = spec_etag_text(weak, value);
    assert(t.len() >= 2);
    assert(!crate::text::is_ws(t[0]));
    assert(t.last() == '"');
    crate::text::lemma_lead_ws(t, 0);
    crate::text::lemma_trail_ws(t, 0);
    assert(trim_start(t) =~= t);
    assert(trim(t) =~= t);
    let rest = if weak {
        t.skip(2)
    } else {
        t
    };
    if weak {
        assert("W/"@.is_prefix_of(t)) by {
            assert(t.subrange(0, 2) =~= "W/"@);
        }
        assert(rest =~= "\""@ + value + "\""@);
    } else {
        assert(!"W/"@.is_prefix_of(t)) by {
            if "W/"@.is_prefix_of(t) {
                assert(t.subrange(0, 2)[0] == t[0]);
            }
        }
    }
    crate::text::lemma_lead_ws(rest, 0);
    assert(trim_start(rest) =~= rest);
    assert(rest.subrange(1, rest.len() - 1) =~= value);
}

// ---------------------------------------------------------------------------
// Lists
// ---------------------------------------------------------------------------

/// The pieces of `s` from index `i` on, splitting at commas outside quotes;
/// `start` is where the current piece began and `inq` whether a quote is open.
pub open spec fn scan(s: Seq<char>, i: int, start: int, inq: bool) -> Seq<Seq<char>>
    decreases s.len() - i,
{
    if i >= s.len() {
        seq![s.subrange(start, s.len() as int)]
    } else if s[i] == '"' {
        scan(s, i + 1, start, !inq)
    } else if s[i] == ',' && !inq {
        seq![s.subrange(start, i)] + scan(s, i + 1, i + 1, inq)
    } else {
        scan(s, i + 1, start, inq)
    }
}

/// The comma-separated pieces of `s` (commas inside quotes do not count).
pub open spec fn split_pieces(s: Seq<char>) -> Seq<Seq<char>> {
    scan(s, 0, 0, false)
}

/// Parse every non-blank piece in order; the first error wins.
pub open spec fn parse_all(ps: Seq<Seq<char>>) -> Result<Seq<(bool, Seq<char>)>, ParseETagError>
    decreases ps.len(),
{
    if ps.len() == 0 {
        Ok(seq![])
    } else if trim(ps[0]).len() == 0 {
        parse_all(ps.drop_first())
    } else {
        match spec_parse_etag(ps[0]) {
            Err(e) => Err(e),
            Ok(t) => prepend_ok(seq![t], parse_all(ps.drop_first())),
        }
    }
}

pub open spec fn prepend_ok(
    pre: Seq<(bool, Seq<char>)>,
    r: Result<Seq<(bool, Seq<char>)>, ParseETagError>,
) -> Result<Seq<(bool, Seq<char>)>, ParseETagError> {
    match r {
        Ok(x) => Ok(pre + x),
        Err(e) => Err(e),
    }
}

proof fn lemma_prepend_assoc(
    pre: Seq<(bool, Seq<char>)>,
    t: (bool, Seq<char>),
    r: Result<Seq<(bool, Seq<char>)>, ParseETagError>,
)
    ensures
        prepend_ok(pre, prepend_ok(seq![t], r)) == prepend_ok(pre + seq![t], r),
{
    match r {
        Ok(x) => {
            assert(pre + (seq![t] + x) =~= pre + seq![t] + x);
        },
        Err(_) => {},
    }
}

/// Scanning inside an open quote that no `"` closes before `e` reaches `e`
/// without splitting.
proof fn lemma_scan_inside_quote(s: Seq<char>, i: int, e: int)
    requires
        0 <= i <= e < s.len(),
        s[e] == '"',
        forall|k: int| i <= k < e ==> s[k] != '"',
    ensures
        scan(s, i, 0, true) == scan(s, e, 0, true),
    decreases e - i,
{
    if i < e {
        lemma_scan_inside_quote(s, i + 1, e);
    }
}

/// The wire form of a tag whose value holds no `"` is a single piece of a
/// list: a comma in the value sits inside the quotes.
proof fn lemma_tag_text_one_piece(weak: bool, value: Seq<char>)
    requires
        !value.contains('"'),
    ensures
        split_pieces(spec_etag_text(weak, value)) == seq![spec_etag_text(weak, value)],
{
    reveal_strlit("W/\"");
    reveal_strlit("\"");
    let t = spec_etag_text(weak, value);
    let q: int = if weak {
        2
    } else {
        0
    };
    let e = t.len() - 1;
    assert(t[q] == '"');
    assert(t[e] == '"');
    assert forall|k: int| q + 1 <= k < e implies t[k] != '"' by {
        assert(t[k] == value[k - q - 1]);
        if t[k] == '"' {
            assert(value.contains('"'));
        }
    }
    lemma_scan_inside_quote(t, q + 1, e);
    assert(scan(t, e + 1, 0, false) == seq![t.subrange(0, t.len() as int)]);
    assert(t.subrange(0, t.len() as int) =~= t);
    if weak {
        assert(scan(t, 1, 0, false) == scan(t, 2, 0, false));
        assert(scan(t, 0, 0, false) == scan(t, 1, 0, false));
    }
}

/// A list holding one tag's wire form parses to that one tag.
pub proof fn lemma_parse_list_single(weak: bool, value: Seq<char>)
    requires
        !value.contains('"'),
    ensures
        spec_parse_list(spec_etag_text(weak, value)) == Ok::<_, ParseETagError>(
            seq![(weak, value)],
        ),
{
    let t = spec_etag_text(weak, value);
    lemma_tag_text_one_piece(weak, value);
    lemma_etag_roundtrip(weak, value);
    reveal_strlit("W/\"");
    reveal_strlit("\"");
    assert(t.len() >= 2);
    assert(!crate::text::is_ws(t[0]));
    crate::text::lemma_lead_ws(t, 0);
    crate::text::lemma_trail_ws(t, 0);
    assert(trim_start(t) =~= t);
    assert(trim(t) =~= t);
    let ps = seq![t];
    assert(ps.drop_first() =~= Seq::<Seq<char>>::empty());
    assert(parse_all(ps.drop_first()) == Ok::<_, ParseETagError>(Seq::<(bool, Seq<char>)>::empty()));
    assert(seq![(weak, value)] + Seq::<(bool, Seq<char>)>::empty() =~= seq![(weak, value)]);
}

/// `ETag::parse_list` on characters: the list of tags, or the first error;
/// a list with no tags at all is `Empty`.
pub open spec fn spec_parse_list(s: Seq<char>) -> Result<Seq<(bool, Seq<char>)>, ParseETagError> {
    match parse_all(split_pieces(s)) {
        Ok(tags) => if tags.len() == 0 {
            Err(ParseETagError::Empty)
        } else {
            Ok(tags)
        },
        Err(e) => Err(e),
    }
}

/// Split at commas outside quotes.
fn split_unquoted(v: &[char]) -> (r: Vec<Vec<char>>)
    ensures
        r@.len() == split_pieces(v@).len(),
        forall|j: int| 0 <= j < r@.len() ==> (#[trigger] r@[j])@ == split_pieces(v@)[j],
{
    let mut out: Vec<Vec<char>> = Vec::new();
    let mut start: usize = 0;
    let mut inq = false;
    let mut i: usize = 0;
    let ghost done: Seq<Seq<char>> = Seq::empty();
    while i < v.len()
        invariant
            start <= i <= v@.len(),
            out@.len() == done.len(),
            forall|j: int| 0 <= j < out@.len() ==> (#[trigger] out@[j])@ == done[j],
            done + scan(v@, i as int, start as int, inq) == split_pieces(v@),
        decreases v@.len() - i,
    {
        let c = v[i];
        if c == '"' {
            inq = !inq;
        } else if c == ',' && !inq {
            let piece = sub_chars(v, start, i);
            proof {
                let ghost d2 = done.push(piece@);
                assert(done + scan(v@, i as int, start as int, inq) =~= d2 + scan(
                    v@,
                    i + 1,
                    i + 1,
                    inq,
                ));
                done = d2;
            }
            out.push(piece);
            start = i + 1;
        }
        i = i + 1;
    }
    let piece = sub_chars(v, start, v.len());
    proof {
        assert(done + scan(v@, i as int, start as int, inq) =~= done.push(piece@));
        done = done.push(piece@);
    }
    out.push(piece);
    out
}

// ---------------------------------------------------------------------------
// Conditional request headers
// ---------------------------------------------------------------------------

/// The `If-Match` condition.
#[derive(Debug, Clone, PartialEq, Eq)]
pub enum IfMatch {
    /// `If-Match: *` — matches any existing representation.
    Any,
    /// Matches when the current tag strongly matches one of these.
    Tags(Vec<ETag>),
}

/// The `If-None-Match` condition.
#[derive(Debug, Clone, PartialEq, Eq)]
pub enum IfNoneMatch {
    /// `If-None-Match: *` — fails whenever a representation exists.
    Any,
    /// Satisfied when the current tag weakly matches none of these.
    Tags(Vec<ETag>),
}

impl IfMatch {
    /// Whether `current` satisfies the condition (strong comparison).
    #[verifier::loop_isolation(false)]
    pub fn matches(&self, current: &ETag) -> (r: bool)
        ensures
            r == (match *self {
                IfMatch::Any => true,
                IfMatch::Tags(tags) => exists|i: int|
                    0 <= i < tags@.len() && strong_match(#[trigger] tags@[i], *current),
            }),
    {
        match self {
            IfMatch::Any => true,
            IfMatch::Tags(tags) => {
                let mut i: usize = 0;
                while i < tags.len()
                    invariant
                        i <= tags@.len(),
                        forall|j: int| 0 <= j < i ==> !strong_match(#[trigger] tags@[j], *current),
                    decreases tags@.len() - i,
                {
                    if tags[i].matches(current) {
                        assert(strong_match(tags@[i as int], *current));
                        assert(exists|j: int|
                            0 <= j < tags@.len() && strong_match(#[trigger] tags@[j], *current));
                        return true;
                    }
                    i = i + 1;
                }
                false
            },
        }
    }
}

impl IfNoneMatch {
    /// Whether the condition is satisfied: the current tag weakly matches no
    /// listed tag (never, for `*`).
    #[verifier::loop_isolation(false)]
    pub fn matches(&self, current: &ETag) -> (r: bool)
        ensures
            r == (match *self {
                IfNoneMatch::Any => false,
                IfNoneMatch::Tags(tags) => forall|i: int|
                    0 <= i < tags@.len() ==> (#[trigger] tags@[i]).value@ != current.value@,
            }),
    {
        match self {
            IfNoneMatch::Any => false,
            IfNoneMatch::Tags(tags) => {
                let mut i: usize = 0;
                while i < tags.len()
                    invariant
                        i <= tags@.len(),
                        forall|j: int|
                            0 <= j < i ==> (#[trigger] tags@[j]).value@ != current.value@,
                    decreases tags@.len() - i,
                {
                    if tags[i].matches_weak(current) {
                        assert(tags@[i as int].value@ == current.value@);
                        return false;
                    }
                    i = i + 1;
                }
                true
            },
        }
    }
}

/// A parsed conditional header value: `*`, or a list of tags.
pub open spec fn spec_condition(raw: Seq<char>) -> Result<
    (bool, Seq<(bool, Seq<char>)>),
    ParseETagError,
> {
    if trim(raw) == "*"@ {
        Ok((true, seq![]))
    } else {
        match spec_parse_list(trim(raw)) {
            Ok(tags) => Ok((false, tags)),
            Err(e) => Err(e),
        }
    }
}

/// Parse an `If-Match` header value; a malformed value is a 400 whose detail
/// describes the parse error.
pub fn parse_if_match(raw: &str) -> (r: Result<IfMatch, ApiError>)
    ensures
        match r {
            Ok(IfMatch::Any) => spec_condition(raw@) matches Ok((true, _)),
            Ok(IfMatch::Tags(tags)) => spec_condition(raw@) == Ok::<_, ParseETagError>(
                (false, tags@.map_values(|e: ETag| etag_view(e))),
            ),
            Err(e) => spec_condition(raw@) is Err && e.status == 400,
        },
{
    match parse_condition(raw) {
        Ok((true, _)) => Ok(IfMatch::Any),
        Ok((false, tags)) => Ok(IfMatch::Tags(tags)),
        Err(e) => Err(e),
    }
}

/// Parse an `If-None-Match` header value, as [`parse_if_match`] does.
pub fn parse_if_none_match(raw: &str) -> (r: Result<IfNoneMatch, ApiError>)
    ensures
        match r {
            Ok(IfNoneMatch::Any) => spec_condition(raw@) matches Ok((true, _)),
            Ok(IfNoneMatch::Tags(tags)) => spec_condition(raw@) == Ok::<_, ParseETagError>(
                (false, tags@.map_values(|e: ETag| etag_view(e))),
            ),
            Err(e) => spec_condition(raw@) is Err && e.status == 400,
        },
{
    match parse_condition(raw) {
        Ok((true, _)) => Ok(IfNoneMatch::Any),
        Ok((false, tags)) => Ok(IfNoneMatch::Tags(tags)),
        Err(e) => Err(e),
    }
}

fn parse_condition(raw: &str) -> (r: Result<(bool, Vec<ETag>), ApiError>)
    ensures
        match r {
            Ok((true, tags)) => spec_condition(raw@) matches Ok((true, _)),
            Ok((false, tags)) => spec_condition(raw@) == Ok::<_, ParseETagError>(
                (false, tags@.map_values(|e: ETag| etag_view(e))),
            ),
            Err(e) => spec_condition(raw@) is Err && e.status == 400 && (
            spec_condition(raw@) matches Err(pe) && e.detail@ == spec_parse_error_text(pe)),
        },
{
    let t = trim_str_owned(raw);
    let tv = chars_of(t.as_str());
    if crate::text::chars_eq_str(tv.as_slice(), "*") {
        return Ok((true, Vec::new()));
    }
    match ETag::parse_list(t.as_str()) {
        Ok(tags) => Ok((false, tags)),
        Err(e) => {
            let msg = e.to_string();
            Err(ApiError::bad_request(msg.as_str()))
        },
    }
}

pub open spec fn spec_parse_error_text(e: ParseETagError) -> Seq<char> {
    match e {
        ParseETagError::Empty => "ETag is empty"@,
        ParseETagError::Unquoted => "ETag must be enclosed in double quotes"@,
        ParseETagError::Malformed => "ETag is malformed"@,
    }
}

fn trim_str_owned(s: &str) -> (r: String)
    ensures
        r@ == trim(s@),
{
    crate::text::trim_str(s)
}

} // verus!
