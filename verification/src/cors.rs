//! CORS response headers (`Access-Control-*`, Fetch standard): a builder and
//! the header entries a response carries.

use vstd::prelude::*;
use vstd::utf8::encode_utf8;
use crate::encoding::{header_value_valid, is_header_value};
use crate::text::{
    chars_of, comma_space, fmt_u64, fmt_u64_exec, join_sep, join_sep_chars, owned,
    string_from_chars, views,
};

verus! {

/// The value of `Access-Control-Allow-Origin`.
#[derive(Debug, Clone, PartialEq, Eq)]
pub enum CorsOrigin {
    /// `*`
    Any,
    /// A specific origin.
    Origin(String),
}

/// The abstract value of a [`CorsOrigin`].
pub enum OriginV {
    Any,
    Origin(Seq<char>),
}

impl View for CorsOrigin {
    type V = OriginV;

    open spec fn view(&self) -> OriginV {
        match self {
            CorsOrigin::Any => OriginV::Any,
            CorsOrigin::Origin(s) => OriginV::Origin(s@),
        }
    }
}

/// The header value of an origin: `*` or the origin itself.
pub open spec fn origin_text(o: OriginV) -> Seq<char> {
    match o {
        OriginV::Any => seq!['*'],
        OriginV::Origin(s) => s,
    }
}

impl CorsOrigin {
    /// The header value: `*` or the origin.
    pub fn to_string(&self) -> (r: String)
        ensures
            r@ == origin_text(self@),
    {
        match self {
            CorsOrigin::Any => {
                let r = owned("*");
                proof {
                    reveal_strlit("*");
                    assert(r@ =~= seq!['*']);
                }
                r
            },
            CorsOrigin::Origin(s) => owned(s.as_str()),
        }
    }
}

/// Structured CORS response headers; every header may be absent.
#[derive(Debug, Clone, PartialEq, Eq)]
#[non_exhaustive]
pub struct CorsHeaders {
    /// `Access-Control-Allow-Origin`
    pub allow_origin: Option<CorsOrigin>,
    /// `Access-Control-Allow-Methods`
    pub allow_methods: Option<Vec<String>>,
    /// `Access-Control-Allow-Headers`
    pub allow_headers: Option<Vec<String>>,
    /// `Access-Control-Expose-Headers`
    pub expose_headers: Option<Vec<String>>,
    /// `Access-Control-Max-Age` (seconds)
    pub max_age: Option<u64>,
    /// `Access-Control-Allow-Credentials`
    pub allow_credentials: Option<bool>,
}

/// The views of a list of strings.
pub open spec fn strs(v: Seq<String>) -> Seq<Seq<char>> {
    v.map_values(|s: String| s@)
}

/// The view of an optional list of strings.
pub open spec fn opt_strs(o: Option<Vec<String>>) -> Option<Seq<Seq<char>>> {
    match o {
        Some(v) => Some(strs(v@)),
        None => None,
    }
}

/// The abstract value of [`CorsHeaders`].
pub struct CorsV {
    pub allow_origin: Option<OriginV>,
    pub allow_methods: Option<Seq<Seq<char>>>,
    pub allow_headers: Option<Seq<Seq<char>>>,
    pub expose_headers: Option<Seq<Seq<char>>>,
    pub max_age: Option<u64>,
    pub allow_credentials: Option<bool>,
}

impl View for CorsHeaders {
    type V = CorsV;

    open spec fn view(&self) -> CorsV {
        CorsV {
            allow_origin: match self.allow_origin {
                Some(o) => Some(o@),
                None => None,
            },
            allow_methods: opt_strs(self.allow_methods),
            allow_headers: opt_strs(self.allow_headers),
            expose_headers: opt_strs(self.expose_headers),
            max_age: self.max_age,
            allow_credentials: self.allow_credentials,
        }
    }
}

/// Headers with nothing set.
pub open spec fn no_cors() -> CorsV {
    CorsV {
        allow_origin: None,
        allow_methods: None,
        allow_headers: None,
        expose_headers: None,
        max_age: None,
        allow_credentials: None,
    }
}

/// Owned copies of the given strings.
fn owned_all(items: &[&str]) -> (r: Vec<String>)
    ensures
        strs(r@) == strs_ref(items@),
{
    let mut out: Vec<String> = Vec::new();
    let mut i: usize = 0;
    while i < items.len()
        invariant
            i <= items@.len(),
            strs(out@) == strs_ref(items@).subrange(0, i as int),
        decreases items@.len() - i,
    {
        let ghost before = strs(out@);
        let o = owned(items[i]);
        out.push(o);
        assert(strs(out@) =~= before.push(items@[i as int]@));
        assert(strs_ref(items@).subrange(0, i + 1) =~= strs_ref(items@).subrange(0, i as int).push(
            items@[i as int]@,
        ));
        i = i + 1;
    }
    assert(strs_ref(items@).subrange(0, i as int) =~= strs_ref(items@));
    out
}

/// `items` joined by `", "`.
fn join_list(items: &Vec<String>) -> (r: String)
    ensures
        r@ == join_sep(strs(items@), comma_space()),
{
    let mut parts: Vec<Vec<char>> = Vec::new();
    let mut i: usize = 0;
    while i < items.len()
        invariant
            i <= items@.len(),
            views(parts@) == strs(items@).subrange(0, i as int),
        decreases items@.len() - i,
    {
        let ghost before = views(parts@);
        let c = chars_of(items[i].as_str());
        parts.push(c);
        assert(views(parts@) =~= before.push(items@[i as int]@));
        assert(strs(items@).subrange(0, i + 1) =~= strs(items@).subrange(0, i as int).push(
            items@[i as int]@,
        ));
        i = i + 1;
    }
    assert(strs(items@).subrange(0, i as int) =~= strs(items@));
    let sep = chars_of(", ");
    proof {
        reveal_strlit(", ");
        assert(sep@ =~= comma_space());
    }
    let v = join_sep_chars(&parts, sep.as_slice());
    string_from_chars(v.as_slice())
}

/// The views of a list of string slices.
pub open spec fn strs_ref(v: Seq<&str>) -> Seq<Seq<char>> {
    v.map_values(|s: &str| s@)
}

impl CorsHeaders {
    /// No header set.
    pub fn new() -> (r: CorsHeaders)
        ensures
            r@ == no_cors(),
    {
        CorsHeaders {
            allow_origin: None,
            allow_methods: None,
            allow_headers: None,
            expose_headers: None,
            max_age: None,
            allow_credentials: None,
        }
    }

    /// Set `Access-Control-Allow-Origin`.
    pub fn allow_origin(self, origin: CorsOrigin) -> (r: CorsHeaders)
        ensures
            r@ == (CorsV { allow_origin: Some(origin@), ..self@ }),
    {
        CorsHeaders { allow_origin: Some(origin), ..self }
    }

    /// Set `Access-Control-Allow-Methods`.
    pub fn allow_methods(self, methods: &[&str]) -> (r: CorsHeaders)
        ensures
            r@ == (CorsV { allow_methods: Some(strs_ref(methods@)), ..self@ }),
    {
        CorsHeaders { allow_methods: Some(owned_all(methods)), ..self }
    }

    /// Set `Access-Control-Allow-Headers`.
    pub fn allow_headers(self, headers: &[&str]) -> (r: CorsHeaders)
        ensures
            r@ == (CorsV { allow_headers: Some(strs_ref(headers@)), ..self@ }),
    {
        CorsHeaders { allow_headers: Some(owned_all(headers)), ..self }
    }

    /// Set `Access-Control-Expose-Headers`.
    pub fn expose_headers(self, headers: &[&str]) -> (r: CorsHeaders)
        ensures
            r@ == (CorsV { expose_headers: Some(strs_ref(headers@)), ..self@ }),
    {
        CorsHeaders { expose_headers: Some(owned_all(headers)), ..self }
    }

    /// Set `Access-Control-Max-Age` (seconds).
    pub fn max_age(self, seconds: u64) -> (r: CorsHeaders)
        ensures
            r@ == (CorsV { max_age: Some(seconds), ..self@ }),
    {
        CorsHeaders { max_age: Some(seconds), ..self }
    }

    /// Set `Access-Control-Allow-Credentials`. With `true` the origin must
    /// not be `*`; this is not enforced.
    pub fn allow_credentials(self, allow: bool) -> (r: CorsHeaders)
        ensures
            r@ == (CorsV { allow_credentials: Some(allow), ..self@ }),
    {
        CorsHeaders { allow_credentials: Some(allow), ..self }
    }

    /// A preflight response: origin, methods and headers set, nothing else.
    pub fn preflight(origin: CorsOrigin, methods: &[&str], headers: &[&str]) -> (r: CorsHeaders)
        ensures
            r@ == (CorsV {
                allow_origin: Some(origin@),
                allow_methods: Some(strs_ref(methods@)),
                allow_headers: Some(strs_ref(headers@)),
                ..no_cors()
            }),
    {
        CorsHeaders::new().allow_origin(origin).allow_methods(methods).allow_headers(headers)
    }

    /// The `Access-Control-Allow-Methods` value: the methods joined by `", "`.
    pub fn allow_methods_header(&self) -> (r: Option<String>)
        ensures
            opt_view(r) == (match self@.allow_methods {
                Some(m) => Some(join_sep(m, comma_space())),
                None => None,
            }),
    {
        match &self.allow_methods {
            Some(m) => Some(join_list(m)),
            None => None,
        }
    }

    /// The `Access-Control-Allow-Headers` value: the names joined by `", "`.
    pub fn allow_headers_header(&self) -> (r: Option<String>)
        ensures
            opt_view(r) == (match self@.allow_headers {
                Some(m) => Some(join_sep(m, comma_space())),
                None => None,
            }),
    {
        match &self.allow_headers {
            Some(m) => Some(join_list(m)),
            None => None,
        }
    }

    /// The `Access-Control-Expose-Headers` value: the names joined by `", "`.
    pub fn expose_headers_header(&self) -> (r: Option<String>)
        ensures
            opt_view(r) == (match self@.expose_headers {
                Some(m) => Some(join_sep(m, comma_space())),
                None => None,
            }),
    {
        match &self.expose_headers {
            Some(m) => Some(join_list(m)),
            None => None,
        }
    }
}

/// The view of an optional string.
pub open spec fn opt_view(o: Option<String>) -> Option<Seq<char>> {
    match o {
        Some(s) => Some(s@),
        None => None,
    }
}

// ---------------------------------------------------------------------------
// Response headers
// ---------------------------------------------------------------------------

/// One header entry when its value is present and a valid header value.
pub open spec fn entry(name: Seq<char>, value: Option<Seq<char>>) -> Seq<(Seq<char>, Seq<char>)> {
    match value {
        Some(v) => if is_header_value(encode_utf8(v)) {
            seq![(name, v)]
        } else {
            Seq::empty()
        },
        None => Seq::empty(),
    }
}

/// A list header's value: the items joined by `", "`.
pub open spec fn list_value(o: Option<Seq<Seq<char>>>) -> Option<Seq<char>> {
    match o {
        Some(m) => Some(join_sep(m, comma_space())),
        None => None,
    }
}

/// The headers a response carries, in order: origin, methods, headers,
/// exposed headers, max age, credentials. A value that is not a valid header
/// value is left out.
pub open spec fn cors_entries(c: CorsV) -> Seq<(Seq<char>, Seq<char>)> {
    entry(
        "access-control-allow-origin"@,
        match c.allow_origin {
            Some(o) => Some(origin_text(o)),
            None => None,
        },
    ) + entry("access-control-allow-methods"@, list_value(c.allow_methods)) + entry(
        "access-control-allow-headers"@,
        list_value(c.allow_headers),
    ) + entry("access-control-expose-headers"@, list_value(c.expose_headers)) + entry(
        "access-control-max-age"@,
        match c.max_age {
            Some(n) => Some(fmt_u64(n as nat)),
            None => None,
        },
    ) + match c.allow_credentials {
        Some(b) => seq![
            ("access-control-allow-credentials"@, if b {
                "true"@
            } else {
                "false"@
            }),
        ],
        None => Seq::empty(),
    }
}

/// An element of either part is an element of their concatenation.
proof fn lemma_in_concat(a: Seq<(Seq<char>, Seq<char>)>, b: Seq<(Seq<char>, Seq<char>)>, x: (Seq<char>, Seq<char>))
    ensures
        a.contains(x) ==> (a + b).contains(x),
        b.contains(x) ==> (a + b).contains(x),
{
    if a.contains(x) {
        let i = choose|i: int| 0 <= i < a.len() && a[i] == x;
        assert((a + b)[i] == x);
    }
    if b.contains(x) {
        let i = choose|i: int| 0 <= i < b.len() && b[i] == x;
        assert((a + b)[a.len() + i] == x);
    }
}

/// An element of one of six parts is an element of their concatenation.
proof fn lemma_in_parts(
    p1: Seq<(Seq<char>, Seq<char>)>,
    p2: Seq<(Seq<char>, Seq<char>)>,
    p3: Seq<(Seq<char>, Seq<char>)>,
    p4: Seq<(Seq<char>, Seq<char>)>,
    p5: Seq<(Seq<char>, Seq<char>)>,
    p6: Seq<(Seq<char>, Seq<char>)>,
    x: (Seq<char>, Seq<char>),
)
    ensures
        p1.contains(x) || p2.contains(x) || p3.contains(x) || p4.contains(x) || p5.contains(x)
            || p6.contains(x) ==> (p1 + p2 + p3 + p4 + p5 + p6).contains(x),
{
    lemma_in_concat(p1, p2, x);
    lemma_in_concat(p1 + p2, p3, x);
    lemma_in_concat(p1 + p2 + p3, p4, x);
    lemma_in_concat(p1 + p2 + p3 + p4, p5, x);
    lemma_in_concat(p1 + p2 + p3 + p4 + p5, p6, x);
}

/// Whether `v` may stand as a header value.
pub open spec fn valid_value(v: Seq<char>) -> bool {
    is_header_value(encode_utf8(v))
}

/// Every configured field becomes its own response header: the origin (`*`
/// for any origin) as `access-control-allow-origin`; the methods, request
/// headers and exposed headers, each joined by `", "`, as
/// `access-control-allow-methods`, `access-control-allow-headers` and
/// `access-control-expose-headers`; the max age in decimal as
/// `access-control-max-age`; and the credentials flag as
/// `access-control-allow-credentials: true` or `false`. Only a value that is
/// not a valid header value is left out, and nothing else is added: there is
/// one header per field that is set and valid.
pub proof fn lemma_cors_headers_carry_each_field(c: CorsV)
    ensures
        ({
            let origin = match c.allow_origin {
                Some(OriginV::Any) => Some(seq!['*']),
                Some(OriginV::Origin(s)) => Some(s),
                None => None,
            };
            let sep = seq![',', ' '];
            let es = cors_entries(c);
            &&& (origin is Some && valid_value(origin->0) ==> es.contains(
                ("access-control-allow-origin"@, origin->0),
            ))
            &&& (c.allow_methods is Some && valid_value(join_sep(c.allow_methods->0, sep)) ==> es.contains(
                ("access-control-allow-methods"@, join_sep(c.allow_methods->0, sep)),
            ))
            &&& (c.allow_headers is Some && valid_value(join_sep(c.allow_headers->0, sep)) ==> es.contains(
                ("access-control-allow-headers"@, join_sep(c.allow_headers->0, sep)),
            ))
            &&& (c.expose_headers is Some && valid_value(join_sep(c.expose_headers->0, sep)) ==> es.contains(
                ("access-control-expose-headers"@, join_sep(c.expose_headers->0, sep)),
            ))
            &&& (c.max_age is Some && valid_value(fmt_u64(c.max_age->0 as nat)) ==> es.contains(
                ("access-control-max-age"@, fmt_u64(c.max_age->0 as nat)),
            ))
            &&& (c.allow_credentials is Some ==> es.contains(
                ("access-control-allow-credentials"@, if c.allow_credentials->0 {
                    "true"@
                } else {
                    "false"@
                }),
            ))
            &&& es.len() == (if origin is Some && valid_value(origin->0) {
                1int
            } else {
                0
            }) + (if c.allow_methods is Some && valid_value(join_sep(c.allow_methods->0, sep)) {
                1int
            } else {
                0
            }) + (if c.allow_headers is Some && valid_value(join_sep(c.allow_headers->0, sep)) {
                1int
            } else {
                0
            }) + (if c.expose_headers is Some && valid_value(join_sep(c.expose_headers->0, sep)) {
                1int
            } else {
                0
            }) + (if c.max_age is Some && valid_value(fmt_u64(c.max_age->0 as nat)) {
                1int
            } else {
                0
            }) + (if c.allow_credentials is Some {
                1int
            } else {
                0
            })
        }),
{
    let p1 = entry(
        "access-control-allow-origin"@,
        match c.allow_origin {
            Some(o) => Some(origin_text(o)),
            None => None,
        },
    );
    let p2 = entry("access-control-allow-methods"@, list_value(c.allow_methods));
    let p3 = entry("access-control-allow-headers"@, list_value(c.allow_headers));
    let p4 = entry("access-control-expose-headers"@, list_value(c.expose_headers));
    let p5 = entry(
        "access-control-max-age"@,
        match c.max_age {
            Some(n) => Some(fmt_u64(n as nat)),
            None => None,
        },
    );
    let p6: Seq<(Seq<char>, Seq<char>)> = match c.allow_credentials {
        Some(b) => seq![
            ("access-control-allow-credentials"@, if b {
                "true"@
            } else {
                "false"@
            }),
        ],
        None => Seq::empty(),
    };
    assert(cors_entries(c) == p1 + p2 + p3 + p4 + p5 + p6);
    assert(comma_space() == seq![',', ' ']);
    if let Some(o) = c.allow_origin {
        let x = ("access-control-allow-origin"@, origin_text(o));
        if valid_value(origin_text(o)) {
            assert(p1[0] == x);
            lemma_in_parts(p1, p2, p3, p4, p5, p6, x);
        }
    }
    if let Some(l) = c.allow_methods {
        let x = ("access-control-allow-methods"@, join_sep(l, comma_space()));
        if valid_value(x.1) {
            assert(p2[0] == x);
            lemma_in_parts(p1, p2, p3, p4, p5, p6, x);
        }
    }
    if let Some(l) = c.allow_headers {
        let x = ("access-control-allow-headers"@, join_sep(l, comma_space()));
        if valid_value(x.1) {
            assert(p3[0] == x);
            lemma_in_parts(p1, p2, p3, p4, p5, p6, x);
        }
    }
    if let Some(l) = c.expose_headers {
        let x = ("access-control-expose-headers"@, join_sep(l, comma_space()));
        if valid_value(x.1) {
            assert(p4[0] == x);
            lemma_in_parts(p1, p2, p3, p4, p5, p6, x);
        }
    }
    if let Some(n) = c.max_age {
        let x = ("access-control-max-age"@, fmt_u64(n as nat));
        if valid_value(x.1) {
            assert(p5[0] == x);
            lemma_in_parts(p1, p2, p3, p4, p5, p6, x);
        }
    }
    if let Some(b) = c.allow_credentials {
        let x = ("access-control-allow-credentials"@, if b {
            "true"@
        } else {
            "false"@
        });
        assert(p6[0] == x);
        lemma_in_parts(p1, p2, p3, p4, p5, p6, x);
    }
}

/// The views of header entries.
pub open spec fn entries_view(v: Seq<(String, String)>) -> Seq<(Seq<char>, Seq<char>)> {
    v.map_values(|p: (String, String)| (p.0@, p.1@))
}

fn push_entry(out: &mut Vec<(String, String)>, name: &str, value: Option<String>)
    ensures
        entries_view(final(out)@) == entries_view(old(out)@) + entry(name@, opt_view(value)),
{
    let ghost before = entries_view(out@);
    match value {
        Some(v) => {
            if header_value_valid(v.as_str()) {
                out.push((owned(name), v));
            }
        },
        None => {},
    }
    assert(entries_view(out@) =~= before + entry(name@, opt_view(value)));
}

impl CorsHeaders {
    /// The `(name, value)` header entries to add to a response.
    pub fn response_headers(&self) -> (r: Vec<(String, String)>)
        ensures
            entries_view(r@) == cors_entries(self@),
    {
        let mut out: Vec<(String, String)> = Vec::new();
        let origin = match &self.allow_origin {
            Some(o) => Some(o.to_string()),
            None => None,
        };
        push_entry(&mut out, "access-control-allow-origin", origin);
        push_entry(&mut out, "access-control-allow-methods", self.allow_methods_header());
        push_entry(&mut out, "access-control-allow-headers", self.allow_headers_header());
        push_entry(&mut out, "access-control-expose-headers", self.expose_headers_header());
        let age = match self.max_age {
            Some(n) => Some(string_from_chars(fmt_u64_exec(n).as_slice())),
            None => None,
        };
        push_entry(&mut out, "access-control-max-age", age);
        let ghost before = entries_view(out@);
        match self.allow_credentials {
            Some(b) => {
                let v = if b {
                    owned("true")
                } else {
                    owned("false")
                };
                out.push((owned("access-control-allow-credentials"), v));
            },
            None => {},
        }
        assert(entries_view(out@) =~= cors_entries(self@));
        out
    }
}

} // verus!
