//! Media types: the structured `Content-Type` value, its rendering and its
//! parser.

use vstd::prelude::*;
use crate::text::{
    chars_eq_ignore_case, chars_of, eq_ignore_case, lower, lower_vec, owned, push_chars, split_char,
    split_char_chars, split_once, split_once_chars, string_from_chars, trim, trim_chars, views,
    trimmed_nonempty, is_ws, find, lemma_find_none, lemma_find_facts, lemma_split_once_at,
    lemma_trim_id, lemma_trim_after_space, lemma_lead_ws, lemma_trail_ws,
};

verus! {

/// A `type/subtype` media type with `name=value` parameters.
#[derive(Debug, Clone, PartialEq, Eq, Hash)]
pub struct ContentType {
    /// The primary type (e.g. `application`).
    pub type_: String,
    /// The subtype (e.g. `json`).
    pub subtype: String,
    /// Parameters such as `charset` or `boundary`, in order.
    pub params: Vec<(String, String)>,
}

/// The view of one parameter.
pub open spec fn param_view(p: (String, String)) -> (Seq<char>, Seq<char>) {
    (p.0@, p.1@)
}

/// The views of a parameter list.
pub open spec fn params_view(ps: Seq<(String, String)>) -> Seq<(Seq<char>, Seq<char>)> {
    ps.map_values(|p: (String, String)| param_view(p))
}

/// A media type as (type, subtype, parameters).
pub type MediaV = (Seq<char>, Seq<char>, Seq<(Seq<char>, Seq<char>)>);

impl View for ContentType {
    type V = MediaV;

    open spec fn view(&self) -> MediaV {
        (self.type_@, self.subtype@, params_view(self.params@))
    }
}

/// `; name=value` for each parameter, in order.
pub open spec fn params_text(ps: Seq<(Seq<char>, Seq<char>)>) -> Seq<char>
    decreases ps.len(),
{
    if ps.len() == 0 {
        Seq::empty()
    } else {
        seq![';', ' '] + ps[0].0 + seq!['='] + ps[0].1 + params_text(ps.drop_first())
    }
}

/// The wire form: `type/subtype` followed by the parameters.
pub open spec fn media_text(m: MediaV) -> Seq<char> {
    m.0 + seq!['/'] + m.1 + params_text(m.2)
}

/// The value of the first parameter whose name equals `name` ignoring ASCII case.
pub open spec fn find_param(ps: Seq<(Seq<char>, Seq<char>)>, name: Seq<char>) -> Option<Seq<char>>
    decreases ps.len(),
{
    if ps.len() == 0 {
        None
    } else if eq_ignore_case(ps[0].0, name) {
        Some(ps[0].1)
    } else {
        find_param(ps.drop_first(), name)
    }
}

/// Looking up a parameter finds the first one whose name matches the
/// queried name in ASCII lower case: there is a result exactly when some
/// name matches, the result is the value of the first match, and the
/// queried name's ASCII case makes no difference.
pub proof fn lemma_find_param_ignores_case(
    ps: Seq<(Seq<char>, Seq<char>)>,
    name: Seq<char>,
    other: Seq<char>,
)
    ensures
        match find_param(ps, name) {
            Some(v) => exists|i: int|
                0 <= i < ps.len() && lower(#[trigger] ps[i].0) == lower(name) && ps[i].1 == v
                    && forall|j: int| 0 <= j < i ==> lower(#[trigger] ps[j].0) != lower(name),
            None => forall|i: int| 0 <= i < ps.len() ==> lower(#[trigger] ps[i].0) != lower(name),
        },
        lower(other) == lower(name) ==> find_param(ps, other) == find_param(ps, name),
    decreases ps.len(),
{
    if ps.len() > 0 {
        let rest = ps.drop_first();
        lemma_find_param_ignores_case(rest, name, other);
        match find_param(ps, name) {
            Some(v) => {
                if lower(ps[0].0) == lower(name) {
                    assert(0 <= 0 < ps.len() && lower(ps[0].0) == lower(name) && ps[0].1 == v);
                } else {
                    let i = choose|i: int|
                        0 <= i < rest.len() && lower(#[trigger] rest[i].0) == lower(name) && rest[i].1
                            == v && forall|j: int| 0 <= j < i ==> lower(#[trigger] rest[j].0) != lower(name);
                    assert(ps[i + 1] == rest[i]);
                    assert forall|j: int| 0 <= j < i + 1 implies lower(#[trigger] ps[j].0) != lower(name) by {
                        if j > 0 {
                            assert(ps[j] == rest[j - 1]);
                        }
                    }
                }
            },
            None => {
                assert forall|i: int| 0 <= i < ps.len() implies lower(#[trigger] ps[i].0) != lower(name) by {
                    if i > 0 {
                        assert(ps[i] == rest[i - 1]);
                    }
                }
            },
        }
    }
}

fn pair(k: &str, v: &str) -> (r: (String, String))
    ensures
        param_view(r) == (k@, v@),
{
    (owned(k), owned(v))
}

impl ContentType {
    /// A media type without parameters.
    pub fn new(type_: &str, subtype: &str) -> (r: ContentType)
        ensures
            r@ == (type_@, subtype@, Seq::<(Seq<char>, Seq<char>)>::empty()),
    {
        let r = ContentType { type_: owned(type_), subtype: owned(subtype), params: Vec::new() };
        assert(params_view(r.params@) =~= Seq::<(Seq<char>, Seq<char>)>::empty());
        r
    }

    /// A media type with parameters.
    pub fn with_params(type_: &str, subtype: &str, params: Vec<(String, String)>) -> (r:
        ContentType)
        ensures
            r@ == (type_@, subtype@, params_view(params@)),
    {
        ContentType { type_: owned(type_), subtype: owned(subtype), params }
    }

    /// `type/subtype`, without parameters.
    pub fn essence(&self) -> (r: String)
        ensures
            r@ == self@.0 + seq!['/'] + self@.1,
    {
        let mut s = owned(self.type_.as_str());
        crate::text::push_char(&mut s, '/');
        push_chars(&mut s, chars_of(self.subtype.as_str()).as_slice());
        s
    }

    /// The value of the first parameter named `name` (ASCII case ignored).
    pub fn param(&self, name: &str) -> (r: Option<&str>)
        ensures
            match r {
                Some(v) => find_param(self@.2, name@) == Some(v@),
                None => find_param(self@.2, name@) is None,
            },
    {
        let nv = chars_of(name);
        let mut i: usize = 0;
        let ghost ps = self@.2;
        assert(ps.skip(0) =~= ps);
        while i < self.params.len()
            invariant
                i <= self.params@.len(),
                ps == params_view(self.params@),
                nv@ == name@,
                find_param(ps, name@) == find_param(ps.skip(i as int), name@),
            decreases self.params@.len() - i,
        {
            assert(ps.skip(i as int)[0] == param_view(self.params@[i as int]));
            assert(ps.skip(i as int).drop_first() =~= ps.skip(i + 1));
            let kv = chars_of(self.params[i].0.as_str());
            if chars_eq_ignore_case(kv.as_slice(), nv.as_slice()) {
                return Some(self.params[i].1.as_str());
            }
            i = i + 1;
        }
        None
    }

    /// `application/json`.
    pub fn application_json() -> (r: ContentType)
        ensures
            r@ == ("application"@, "json"@, Seq::<(Seq<char>, Seq<char>)>::empty()),
    {
        ContentType::new("application", "json")
    }

    /// `application/problem+json` (RFC 9457).
    pub fn application_problem_json() -> (r: ContentType)
        ensures
            r@ == ("application"@, "problem+json"@, Seq::<(Seq<char>, Seq<char>)>::empty()),
    {
        ContentType::new("application", "problem+json")
    }

    /// `application/octet-stream`.
    pub fn application_octet_stream() -> (r: ContentType)
        ensures
            r@ == ("application"@, "octet-stream"@, Seq::<(Seq<char>, Seq<char>)>::empty()),
    {
        ContentType::new("application", "octet-stream")
    }

    /// `multipart/form-data; boundary=<boundary>`.
    pub fn multipart_form_data(boundary: &str) -> (r: ContentType)
        ensures
            r@ == ("multipart"@, "form-data"@, seq![("boundary"@, boundary@)]),
    {
        let mut params: Vec<(String, String)> = Vec::new();
        params.push(pair("boundary", boundary));
        let r = ContentType::with_params("multipart", "form-data", params);
        assert(params_view(params@) =~= seq![("boundary"@, boundary@)]);
        r
    }

    /// `text/plain`.
    pub fn text_plain() -> (r: ContentType)
        ensures
            r@ == ("text"@, "plain"@, Seq::<(Seq<char>, Seq<char>)>::empty()),
    {
        ContentType::new("text", "plain")
    }

    /// `text/plain; charset=utf-8`.
    pub fn text_plain_utf8() -> (r: ContentType)
        ensures
            r@ == ("text"@, "plain"@, seq![("charset"@, "utf-8"@)]),
    {
        let mut params: Vec<(String, String)> = Vec::new();
        params.push(pair("charset", "utf-8"));
        let r = ContentType::with_params("text", "plain", params);
        assert(params_view(params@) =~= seq![("charset"@, "utf-8"@)]);
        r
    }

    /// `text/html`.
    pub fn text_html() -> (r: ContentType)
        ensures
            r@ == ("text"@, "html"@, Seq::<(Seq<char>, Seq<char>)>::empty()),
    {
        ContentType::new("text", "html")
    }

    /// The wire form: `type/subtype`, then `; name=value` for each parameter.
    pub fn to_string(&self) -> (r: String)
        ensures
            r@ == media_text(self@),
    {
        let mut s = self.essence();
        let mut i: usize = 0;
        let ghost ps = self@.2;
        assert(ps.skip(0) =~= ps);
        while i < self.params.len()
            invariant
                i <= self.params@.len(),
                ps == params_view(self.params@),
                s@ + params_text(ps.skip(i as int)) == media_text(self@),
            decreases self.params@.len() - i,
        {
            let ghost before = s@;
            assert(ps.skip(i as int)[0] == param_view(self.params@[i as int]));
            assert(ps.skip(i as int).drop_first() =~= ps.skip(i + 1));
            crate::text::push_char(&mut s, ';');
            crate::text::push_char(&mut s, ' ');
            push_chars(&mut s, chars_of(self.params[i].0.as_str()).as_slice());
            crate::text::push_char(&mut s, '=');
            push_chars(&mut s, chars_of(self.params[i].1.as_str()).as_slice());
            assert(s@ + params_text(ps.skip(i + 1)) =~= before + params_text(ps.skip(i as int)));
            i = i + 1;
        }
        assert(ps.skip(i as int) =~= Seq::<(Seq<char>, Seq<char>)>::empty());
        assert(s@ + Seq::<char>::empty() =~= s@);
        s
    }
}

// ---------------------------------------------------------------------------
// Parsing
// ---------------------------------------------------------------------------

/// Error of a malformed `Content-Type` value.
#[derive(Debug, Clone, Copy, PartialEq, Eq, Structural)]
pub struct ParseContentTypeError;

impl ParseContentTypeError {
    /// `invalid Content-Type value`.
    pub fn to_string(&self) -> (r: String)
        ensures
            r@ == "invalid Content-Type value"@,
    {
        owned("invalid Content-Type value")
    }
}

/// `s` split at the first `c`, the second part empty when `c` is absent
/// (`splitn(2, c)` with a missing second part read as empty).
pub open spec fn split_pair(s: Seq<char>, c: char) -> (Seq<char>, Seq<char>) {
    match split_once(s, c) {
        Some(p) => p,
        None => (s, Seq::empty()),
    }
}

/// One parameter: the name (trimmed, ASCII lower-cased) and the value
/// (trimmed) around the first `=`; `None` when the name is empty.
pub open spec fn parse_param(p: Seq<char>) -> Option<(Seq<char>, Seq<char>)> {
    let kv = split_pair(p, '=');
    let k = lower(trim(kv.0));
    if k.len() == 0 {
        None
    } else {
        Some((k, trim(kv.1)))
    }
}

/// The parameters of the `;`-separated pieces; empty pieces are skipped and
/// any parameter without a name fails the whole list.
pub open spec fn parse_params(pieces: Seq<Seq<char>>) -> Option<Seq<(Seq<char>, Seq<char>)>>
    decreases pieces.len(),
{
    if pieces.len() == 0 {
        Some(Seq::empty())
    } else {
        let p = trim(pieces[0]);
        if p.len() == 0 {
            parse_params(pieces.drop_first())
        } else {
            match parse_param(p) {
                None => None,
                Some(kv) => match parse_params(pieces.drop_first()) {
                    Some(rest) => Some(seq![kv] + rest),
                    None => None,
                },
            }
        }
    }
}

/// Parsing a `Content-Type` value: trim; the essence precedes the first `;`
/// and splits at its first `/` into type and subtype (both trimmed, required
/// non-empty, and ASCII lower-cased); the rest holds the parameters.
pub open spec fn spec_parse_media(s: Seq<char>) -> Option<MediaV> {
    let t = trim(s);
    let ep = split_once(t, ';');
    let essence = trim(
        match ep {
            Some(p) => p.0,
            None => t,
        },
    );
    let ts = split_pair(essence, '/');
    let ty = trim(ts.0);
    let sub = trim(ts.1);
    if ty.len() == 0 || sub.len() == 0 {
        None
    } else {
        let params = match ep {
            Some(p) => parse_params(split_char(p.1, ';')),
            None => Some(Seq::empty()),
        };
        match params {
            Some(ps) => Some((lower(ty), lower(sub), ps)),
            None => None,
        }
    }
}

fn split_pair_chars(v: &[char], c: char) -> (r: (Vec<char>, Vec<char>))
    ensures
        (r.0@, r.1@) == split_pair(v@, c),
{
    match split_once_chars(v, c) {
        Some(p) => p,
        None => (crate::text::sub_chars(v, 0, v.len()), Vec::new()),
    }
}

fn parse_params_exec(pieces: &Vec<Vec<char>>) -> (r: Option<Vec<(String, String)>>)
    ensures
        match r {
            Some(ps) => parse_params(views(pieces@)) == Some(params_view(ps@)),
            None => parse_params(views(pieces@)) is None,
        },
{
    let ghost all = views(pieces@);
    let mut out: Vec<(String, String)> = Vec::new();
    let mut i: usize = 0;
    assert(all.skip(0) =~= all);
    assert(params_view(out@) =~= Seq::<(Seq<char>, Seq<char>)>::empty());
    while i < pieces.len()
        invariant
            i <= pieces@.len(),
            all == views(pieces@),
            parse_params(all) == (match parse_params(all.skip(i as int)) {
                Some(rest) => Some(params_view(out@) + rest),
                None => None,
            }),
        decreases pieces@.len() - i,
    {
        let ghost here = all.skip(i as int);
        assert(here[0] == pieces@[i as int]@);
        assert(here.drop_first() =~= all.skip(i + 1));
        let p = trim_chars(pieces[i].as_slice());
        if p.len() > 0 {
            let kv = split_pair_chars(p.as_slice(), '=');
            let kt = trim_chars(kv.0.as_slice());
            let k = lower_vec(kt.as_slice());
            if k.len() == 0 {
                return None;
            }
            let v = trim_chars(kv.1.as_slice());
            let ghost before = params_view(out@);
            out.push((string_from_chars(k.as_slice()), string_from_chars(v.as_slice())));
            assert(params_view(out@) =~= before.push((k@, v@)));
            proof {
                match parse_params(all.skip(i + 1)) {
                    Some(rest) => {
                        assert(before + (seq![(k@, v@)] + rest) =~= params_view(out@) + rest);
                    },
                    None => {},
                }
            }
        }
        i = i + 1;
    }
    assert(all.skip(i as int) =~= Seq::<Seq<char>>::empty());
    assert(params_view(out@) + Seq::<(Seq<char>, Seq<char>)>::empty() =~= params_view(out@));
    Some(out)
}

impl ContentType {
    /// Parse a `Content-Type` value: `type/subtype` with optional
    /// `; name=value` parameters. Type, subtype and parameter names are
    /// ASCII lower-cased; values are kept as written (trimmed).
    pub fn parse(s: &str) -> (r: Result<ContentType, ParseContentTypeError>)
        ensures
            match r {
                Ok(ct) => spec_parse_media(s@) == Some(ct@),
                Err(_) => spec_parse_media(s@) is None,
            },
    {
        let v = chars_of(s);
        let t = trim_chars(v.as_slice());
        let ep = split_once_chars(t.as_slice(), ';');
        let essence = match &ep {
            Some(p) => trim_chars(p.0.as_slice()),
            None => trim_chars(t.as_slice()),
        };
        let ts = split_pair_chars(essence.as_slice(), '/');
        let ty = trim_chars(ts.0.as_slice());
        let sub = trim_chars(ts.1.as_slice());
        if ty.len() == 0 || sub.len() == 0 {
            return Err(ParseContentTypeError);
        }
        let params = match &ep {
            Some(p) => {
                let pieces = split_char_chars(p.1.as_slice(), ';');
                match parse_params_exec(&pieces) {
                    Some(ps) => ps,
                    None => {
                        return Err(ParseContentTypeError);
                    },
                }
            },
            None => Vec::new(),
        };
        let ghost pv = params_view(params@);
        proof {
            if ep is None {
                assert(pv =~= Seq::<(Seq<char>, Seq<char>)>::empty());
            }
        }
        let lt = lower_vec(ty.as_slice());
        let ls = lower_vec(sub.as_slice());
        Ok(
            ContentType {
                type_: string_from_chars(lt.as_slice()),
                subtype: string_from_chars(ls.as_slice()),
                params,
            },
        )
    }
}

impl core::str::FromStr for ContentType {
    type Err = ParseContentTypeError;

    fn from_str(s: &str) -> (r: Result<ContentType, ParseContentTypeError>)
        ensures
            match r {
                Ok(ct) => spec_parse_media(s@) == Some(ct@),
                Err(_) => spec_parse_media(s@) is None,
            },
    {
        ContentType::parse(s)
    }
}

// ---------------------------------------------------------------------------
// Rendering and parsing agree
// ---------------------------------------------------------------------------

/// A parameter that renders and parses back unchanged: a non-empty,
/// lower-case name without surrounding whitespace, `=` or `;`, and a value
/// without `;` that is empty or has no surrounding whitespace.
pub open spec fn canonical_param(p: (Seq<char>, Seq<char>)) -> bool {
    &&& trimmed_nonempty(p.0)
    &&& lower(p.0) == p.0
    &&& !p.0.contains('=')
    &&& !p.0.contains(';')
    &&& !p.1.contains(';')
    &&& (p.1.len() == 0 || trimmed_nonempty(p.1))
}

/// A media type that renders and parses back unchanged: lower-case type and
/// subtype without surrounding whitespace or `;`, the type without `/`, and
/// canonical parameters.
pub open spec fn canonical_media(m: MediaV) -> bool {
    &&& trimmed_nonempty(m.0)
    &&& lower(m.0) == m.0
    &&& !m.0.contains('/')
    &&& !m.0.contains(';')
    &&& trimmed_nonempty(m.1)
    &&& lower(m.1) == m.1
    &&& !m.1.contains(';')
    &&& forall|k: int| 0 <= k < m.2.len() ==> canonical_param(#[trigger] m.2[k])
}

/// The piece a parameter leaves between two `;`: ` name=value`.
pub open spec fn param_piece(p: (Seq<char>, Seq<char>)) -> Seq<char> {
    seq![' '] + p.0 + seq!['='] + p.1
}

/// The pieces of a parameter list.
pub open spec fn param_pieces(ps: Seq<(Seq<char>, Seq<char>)>) -> Seq<Seq<char>> {
    ps.map_values(|p: (Seq<char>, Seq<char>)| param_piece(p))
}

/// Splitting at the first `c`, when the head has none, then at the rest.
proof fn lemma_split_step(head: Seq<char>, tail: Seq<char>, c: char)
    requires
        !head.contains(c),
    ensures
        split_char(head + seq![c] + tail, c) == seq![head] + split_char(tail, c),
{
    lemma_split_once_at(head, c, tail);
    lemma_find_facts(head + seq![c] + tail, c);
}

/// `a + b` has no `c` when neither part has one.
proof fn lemma_concat_free(a: Seq<char>, b: Seq<char>, c: char)
    requires
        !a.contains(c),
        !b.contains(c),
    ensures
        !(a + b).contains(c),
{
    if (a + b).contains(c) {
        let j = choose|j: int| 0 <= j < (a + b).len() && (a + b)[j] == c;
        if j < a.len() {
            assert(a[j] == c);
        } else {
            assert(b[j - a.len()] == c);
        }
    }
}

proof fn lemma_single_free(x: char, c: char)
    requires
        x != c,
    ensures
        !seq![x].contains(c),
{
    if seq![x].contains(c) {
        let j = choose|j: int| 0 <= j < 1 && seq![x][j] == c;
    }
}

/// A canonical parameter's text `name=value` has no `;`, is trimmed and non-empty.
proof fn lemma_param_text(p: (Seq<char>, Seq<char>))
    requires
        canonical_param(p),
    ensures
        !(p.0 + seq!['='] + p.1).contains(';'),
        trimmed_nonempty(p.0 + seq!['='] + p.1),
        !param_piece(p).contains(';'),
        trim(param_piece(p)) == p.0 + seq!['='] + p.1,
{
    let t = p.0 + seq!['='] + p.1;
    lemma_single_free('=', ';');
    lemma_single_free(' ', ';');
    lemma_concat_free(p.0, seq!['='], ';');
    lemma_concat_free(p.0 + seq!['='], p.1, ';');
    assert(t[0] == p.0[0]);
    if p.1.len() == 0 {
        assert(t.last() == '=');
    } else {
        assert(t.last() == p.1.last());
    }
    lemma_concat_free(seq![' '], t, ';');
    assert(param_piece(p) =~= seq![' '] + t);
    lemma_trim_after_space(t);
}

/// The rendered parameters, without their leading `;`, split at each `;`
/// into the parameter pieces.
proof fn lemma_split_params(ps: Seq<(Seq<char>, Seq<char>)>)
    requires
        ps.len() > 0,
        forall|k: int| 0 <= k < ps.len() ==> canonical_param(#[trigger] ps[k]),
    ensures
        split_char(param_piece(ps[0]) + params_text(ps.drop_first()), ';') == param_pieces(ps),
    decreases ps.len(),
{
    let q0 = param_piece(ps[0]);
    let rest = ps.drop_first();
    assert(canonical_param(ps[0]));
    lemma_param_text(ps[0]);
    if rest.len() == 0 {
        assert(q0 + params_text(rest) =~= q0);
        assert forall|j: int| 0 <= j < q0.len() implies #[trigger] q0[j] != ';' by {
            if q0[j] == ';' {
                assert(q0.contains(';'));
            }
        }
        lemma_find_none(q0, ';');
        assert(param_pieces(ps) =~= seq![q0]);
    } else {
        assert forall|k: int| 0 <= k < rest.len() implies canonical_param(#[trigger] rest[k]) by {
            assert(rest[k] == ps[k + 1]);
        }
        lemma_split_params(rest);
        let tail = param_piece(rest[0]) + params_text(rest.drop_first());
        assert(params_text(rest) =~= seq![';'] + tail);
        assert(q0 + params_text(rest) =~= q0 + seq![';'] + tail);
        lemma_split_step(q0, tail, ';');
        assert(param_pieces(ps) =~= seq![q0] + param_pieces(rest));
    }
}

/// Parsing the pieces of canonical parameters gives the parameters.
proof fn lemma_parse_pieces(ps: Seq<(Seq<char>, Seq<char>)>)
    requires
        forall|k: int| 0 <= k < ps.len() ==> canonical_param(#[trigger] ps[k]),
    ensures
        parse_params(param_pieces(ps)) == Some(ps),
    decreases ps.len(),
{
    let qs = param_pieces(ps);
    if ps.len() == 0 {
        assert(qs.len() == 0);
        assert(Seq::<(Seq<char>, Seq<char>)>::empty() =~= ps);
    } else {
        let p = ps[0];
        assert(canonical_param(p));
        lemma_param_text(p);
        let t = p.0 + seq!['='] + p.1;
        assert(qs[0] == param_piece(p));
        lemma_split_once_at(p.0, '=', p.1);
        lemma_trim_id(p.0);
        if p.1.len() == 0 {
            lemma_lead_ws(p.1, 0);
            lemma_trail_ws(p.1, 0);
            assert(trim(p.1) =~= p.1);
        } else {
            lemma_trim_id(p.1);
        }
        assert(parse_param(t) == Some(p));
        let rest = ps.drop_first();
        assert forall|k: int| 0 <= k < rest.len() implies canonical_param(#[trigger] rest[k]) by {
            assert(rest[k] == ps[k + 1]);
        }
        lemma_parse_pieces(rest);
        assert(qs.drop_first() =~= param_pieces(rest));
        assert(seq![p] + rest =~= ps);
    }
}

/// The rendered parameters end in a non-whitespace character.
proof fn lemma_params_text_last(ps: Seq<(Seq<char>, Seq<char>)>)
    requires
        ps.len() > 0,
        forall|k: int| 0 <= k < ps.len() ==> canonical_param(#[trigger] ps[k]),
    ensures
        params_text(ps).len() > 0,
        !is_ws(params_text(ps).last()),
    decreases ps.len(),
{
    let rest = ps.drop_first();
    assert(canonical_param(ps[0]));
    lemma_param_text(ps[0]);
    let head = seq![';', ' '] + ps[0].0 + seq!['='] + ps[0].1;
    if rest.len() == 0 {
        assert(params_text(rest) == Seq::<char>::empty());
        assert(params_text(ps) =~= head);
        assert(head =~= seq![';', ' '] + (ps[0].0 + seq!['='] + ps[0].1));
        assert(head.last() == (ps[0].0 + seq!['='] + ps[0].1).last());
    } else {
        assert forall|k: int| 0 <= k < rest.len() implies canonical_param(#[trigger] rest[k]) by {
            assert(rest[k] == ps[k + 1]);
        }
        lemma_params_text_last(rest);
        assert(params_text(ps).last() == params_text(rest).last());
    }
}

/// Parsing the rendering of a canonical media type gives it back.
pub proof fn lemma_media_roundtrip(m: MediaV)
    requires
        canonical_media(m),
    ensures
        spec_parse_media(media_text(m)) == Some(m),
{
    let ty = m.0;
    let sub = m.1;
    let ps = m.2;
    let e = ty + seq!['/'] + sub;
    let text = media_text(m);
    lemma_single_free('/', ';');
    lemma_concat_free(ty, seq!['/'], ';');
    lemma_concat_free(ty + seq!['/'], sub, ';');
    assert(e[0] == ty[0]);
    assert(e.last() == sub.last());
    lemma_trim_id(e);
    lemma_split_once_at(ty, '/', sub);
    lemma_trim_id(ty);
    lemma_trim_id(sub);
    if ps.len() == 0 {
        assert(text =~= e);
        assert forall|j: int| 0 <= j < e.len() implies #[trigger] e[j] != ';' by {
            if e[j] == ';' {
                assert(e.contains(';'));
            }
        }
        lemma_find_none(e, ';');
    } else {
        let tail = param_piece(ps[0]) + params_text(ps.drop_first());
        assert(params_text(ps) =~= seq![';'] + tail);
        assert(text =~= e + seq![';'] + tail);
        lemma_params_text_last(ps);
        assert(text[0] == ty[0]);
        assert(text.last() == params_text(ps).last());
        lemma_trim_id(text);
        lemma_split_once_at(e, ';', tail);
        lemma_split_params(ps);
        lemma_parse_pieces(ps);
    }
}

} // verus!
