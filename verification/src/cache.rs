//! The `Cache-Control` header (RFC 7234 §5.2): a structured value with
//! builder methods, its rendering, and a parser that ignores unknown
//! directives.

use vstd::prelude::*;
use crate::text::{
    chars_eq_str, chars_of, comma_space, concat_chars, find, find_char, fmt_u64, fmt_u64_exec, join_sep,
    join_sep_chars, lower, lower_vec, owned, parse_u64, parse_u64_chars, push_chars, split_char,
    split_char_chars, string_from_chars, sub_chars, trim, trim_chars, views, trimmed_nonempty,
    lemma_split_join, lemma_trim_after_space, lemma_trim_id, lemma_fmt_u64, lemma_parse_fmt_u64,
    lemma_split_once_at, is_ws, all_digits, lower_char, split_once,
};

verus! {

// ---------------------------------------------------------------------------
// CacheControl
// ---------------------------------------------------------------------------

/// Structured `Cache-Control` header. Boolean directives default to `false`,
/// numeric ones to `None` (absent).
#[derive(Debug, Clone, Copy, PartialEq, Eq, Structural)]
#[non_exhaustive]
pub struct CacheControl {
    /// `public`: any cache may store the response.
    pub public: bool,
    /// `private`: intended for a single user.
    pub private: bool,
    /// `no-cache`: revalidate with the origin before serving.
    pub no_cache: bool,
    /// `no-store`: store nothing.
    pub no_store: bool,
    /// `no-transform`: no transformations.
    pub no_transform: bool,
    /// `must-revalidate`: no stale use without revalidation.
    pub must_revalidate: bool,
    /// `proxy-revalidate`: `must-revalidate` for shared caches.
    pub proxy_revalidate: bool,
    /// `immutable`: the body will not change.
    pub immutable: bool,
    /// `max-age=<seconds>`.
    pub max_age: Option<u64>,
    /// `s-maxage=<seconds>`.
    pub s_maxage: Option<u64>,
    /// `stale-while-revalidate=<seconds>`.
    pub stale_while_revalidate: Option<u64>,
    /// `stale-if-error=<seconds>`.
    pub stale_if_error: Option<u64>,
    /// `only-if-cached` (request).
    pub only_if_cached: bool,
    /// `max-stale[=<seconds>]` (request); `Some(0)` accepts any staleness.
    pub max_stale: Option<u64>,
    /// `min-fresh=<seconds>` (request).
    pub min_fresh: Option<u64>,
}

/// The value with every directive absent.
pub open spec fn no_directives() -> CacheControl {
    CacheControl {
        public: false,
        private: false,
        no_cache: false,
        no_store: false,
        no_transform: false,
        must_revalidate: false,
        proxy_revalidate: false,
        immutable: false,
        max_age: None,
        s_maxage: None,
        stale_while_revalidate: None,
        stale_if_error: None,
        only_if_cached: false,
        max_stale: None,
        min_fresh: None,
    }
}

impl Default for CacheControl {
    /// Every directive absent.
    fn default() -> (r: CacheControl)
        ensures
            r == no_directives(),
    {
        CacheControl {
            public: false,
            private: false,
            no_cache: false,
            no_store: false,
            no_transform: false,
            must_revalidate: false,
            proxy_revalidate: false,
            immutable: false,
            max_age: None,
            s_maxage: None,
            stale_while_revalidate: None,
            stale_if_error: None,
            only_if_cached: false,
            max_stale: None,
            min_fresh: None,
        }
    }
}

impl CacheControl {
    /// Every directive absent.
    pub fn new() -> (r: CacheControl)
        ensures
            r == no_directives(),
    {
        CacheControl::default()
    }

    /// Set `public`.
    pub fn public(self) -> (r: CacheControl)
        ensures
            r == (CacheControl { public: true, ..self }),
    {
        CacheControl { public: true, ..self }
    }

    /// Set `private`.
    pub fn private(self) -> (r: CacheControl)
        ensures
            r == (CacheControl { private: true, ..self }),
    {
        CacheControl { private: true, ..self }
    }

    /// Set `no-cache`.
    pub fn no_cache(self) -> (r: CacheControl)
        ensures
            r == (CacheControl { no_cache: true, ..self }),
    {
        CacheControl { no_cache: true, ..self }
    }

    /// Set `no-store`.
    pub fn no_store(self) -> (r: CacheControl)
        ensures
            r == (CacheControl { no_store: true, ..self }),
    {
        CacheControl { no_store: true, ..self }
    }

    /// Set `no-transform`.
    pub fn no_transform(self) -> (r: CacheControl)
        ensures
            r == (CacheControl { no_transform: true, ..self }),
    {
        CacheControl { no_transform: true, ..self }
    }

    /// Set `must-revalidate`.
    pub fn must_revalidate(self) -> (r: CacheControl)
        ensures
            r == (CacheControl { must_revalidate: true, ..self }),
    {
        CacheControl { must_revalidate: true, ..self }
    }

    /// Set `proxy-revalidate`.
    pub fn proxy_revalidate(self) -> (r: CacheControl)
        ensures
            r == (CacheControl { proxy_revalidate: true, ..self }),
    {
        CacheControl { proxy_revalidate: true, ..self }
    }

    /// Set `immutable`.
    pub fn immutable(self) -> (r: CacheControl)
        ensures
            r == (CacheControl { immutable: true, ..self }),
    {
        CacheControl { immutable: true, ..self }
    }

    /// Set `max-age=<seconds>`.
    pub fn max_age(self, seconds: u64) -> (r: CacheControl)
        ensures
            r == (CacheControl { max_age: Some(seconds), ..self }),
    {
        CacheControl { max_age: Some(seconds), ..self }
    }

    /// Set `s-maxage=<seconds>`.
    pub fn s_maxage(self, seconds: u64) -> (r: CacheControl)
        ensures
            r == (CacheControl { s_maxage: Some(seconds), ..self }),
    {
        CacheControl { s_maxage: Some(seconds), ..self }
    }

    /// Set `stale-while-revalidate=<seconds>`.
    pub fn stale_while_revalidate(self, seconds: u64) -> (r: CacheControl)
        ensures
            r == (CacheControl { stale_while_revalidate: Some(seconds), ..self }),
    {
        CacheControl { stale_while_revalidate: Some(seconds), ..self }
    }

    /// Set `stale-if-error=<seconds>`.
    pub fn stale_if_error(self, seconds: u64) -> (r: CacheControl)
        ensures
            r == (CacheControl { stale_if_error: Some(seconds), ..self }),
    {
        CacheControl { stale_if_error: Some(seconds), ..self }
    }

    /// Set `only-if-cached`.
    pub fn only_if_cached(self) -> (r: CacheControl)
        ensures
            r == (CacheControl { only_if_cached: true, ..self }),
    {
        CacheControl { only_if_cached: true, ..self }
    }

    /// Set `max-stale=<seconds>`; `0` accepts any staleness.
    pub fn max_stale(self, seconds: u64) -> (r: CacheControl)
        ensures
            r == (CacheControl { max_stale: Some(seconds), ..self }),
    {
        CacheControl { max_stale: Some(seconds), ..self }
    }

    /// Set `min-fresh=<seconds>`.
    pub fn min_fresh(self, seconds: u64) -> (r: CacheControl)
        ensures
            r == (CacheControl { min_fresh: Some(seconds), ..self }),
    {
        CacheControl { min_fresh: Some(seconds), ..self }
    }

    /// `no-store`: disable all caching.
    pub fn no_caching() -> (r: CacheControl)
        ensures
            r == (CacheControl { no_store: true, ..no_directives() }),
    {
        CacheControl::new().no_store()
    }

    /// `private, no-cache, no-store`.
    pub fn private_no_cache() -> (r: CacheControl)
        ensures
            r == (CacheControl { private: true, no_cache: true, no_store: true, ..no_directives() }),
    {
        CacheControl::new().private().no_cache().no_store()
    }
}

// ---------------------------------------------------------------------------
// Directives
// ---------------------------------------------------------------------------

/// The directives this header models.
#[derive(Debug, Clone, Copy, PartialEq, Eq, Structural)]
pub enum Directive {
    Public,
    Private,
    NoCache,
    NoStore,
    NoTransform,
    MustRevalidate,
    ProxyRevalidate,
    Immutable,
    OnlyIfCached,
    MaxAge,
    SMaxage,
    StaleWhileRevalidate,
    StaleIfError,
    MaxStale,
    MinFresh,
}

/// The wire name of a directive.
pub open spec fn directive_name(d: Directive) -> Seq<char> {
    match d {
        Directive::Public => "public"@,
        Directive::Private => "private"@,
        Directive::NoCache => "no-cache"@,
        Directive::NoStore => "no-store"@,
        Directive::NoTransform => "no-transform"@,
        Directive::MustRevalidate => "must-revalidate"@,
        Directive::ProxyRevalidate => "proxy-revalidate"@,
        Directive::Immutable => "immutable"@,
        Directive::OnlyIfCached => "only-if-cached"@,
        Directive::MaxAge => "max-age"@,
        Directive::SMaxage => "s-maxage"@,
        Directive::StaleWhileRevalidate => "stale-while-revalidate"@,
        Directive::StaleIfError => "stale-if-error"@,
        Directive::MaxStale => "max-stale"@,
        Directive::MinFresh => "min-fresh"@,
    }
}

/// The directive a lower-case name denotes, if any.
pub open spec fn directive_of(name: Seq<char>) -> Option<Directive> {
    if name == "public"@ {
        Some(Directive::Public)
    } else if name == "private"@ {
        Some(Directive::Private)
    } else if name == "no-cache"@ {
        Some(Directive::NoCache)
    } else if name == "no-store"@ {
        Some(Directive::NoStore)
    } else if name == "no-transform"@ {
        Some(Directive::NoTransform)
    } else if name == "must-revalidate"@ {
        Some(Directive::MustRevalidate)
    } else if name == "proxy-revalidate"@ {
        Some(Directive::ProxyRevalidate)
    } else if name == "immutable"@ {
        Some(Directive::Immutable)
    } else if name == "only-if-cached"@ {
        Some(Directive::OnlyIfCached)
    } else if name == "max-age"@ {
        Some(Directive::MaxAge)
    } else if name == "s-maxage"@ {
        Some(Directive::SMaxage)
    } else if name == "stale-while-revalidate"@ {
        Some(Directive::StaleWhileRevalidate)
    } else if name == "stale-if-error"@ {
        Some(Directive::StaleIfError)
    } else if name == "max-stale"@ {
        Some(Directive::MaxStale)
    } else if name == "min-fresh"@ {
        Some(Directive::MinFresh)
    } else {
        None
    }
}

/// Whether a directive carries a number.
pub open spec fn is_numeric(d: Directive) -> bool {
    match d {
        Directive::MaxAge | Directive::SMaxage | Directive::StaleWhileRevalidate
        | Directive::StaleIfError | Directive::MaxStale | Directive::MinFresh => true,
        _ => false,
    }
}

fn directive_text(d: Directive) -> (r: &'static str)
    ensures
        r@ == directive_name(d),
{
    match d {
        Directive::Public => "public",
        Directive::Private => "private",
        Directive::NoCache => "no-cache",
        Directive::NoStore => "no-store",
        Directive::NoTransform => "no-transform",
        Directive::MustRevalidate => "must-revalidate",
        Directive::ProxyRevalidate => "proxy-revalidate",
        Directive::Immutable => "immutable",
        Directive::OnlyIfCached => "only-if-cached",
        Directive::MaxAge => "max-age",
        Directive::SMaxage => "s-maxage",
        Directive::StaleWhileRevalidate => "stale-while-revalidate",
        Directive::StaleIfError => "stale-if-error",
        Directive::MaxStale => "max-stale",
        Directive::MinFresh => "min-fresh",
    }
}

fn directive_of_chars(v: &[char]) -> (r: Option<Directive>)
    ensures
        r == directive_of(v@),
{
    if chars_eq_str(v, "public") {
        Some(Directive::Public)
    } else if chars_eq_str(v, "private") {
        Some(Directive::Private)
    } else if chars_eq_str(v, "no-cache") {
        Some(Directive::NoCache)
    } else if chars_eq_str(v, "no-store") {
        Some(Directive::NoStore)
    } else if chars_eq_str(v, "no-transform") {
        Some(Directive::NoTransform)
    } else if chars_eq_str(v, "must-revalidate") {
        Some(Directive::MustRevalidate)
    } else if chars_eq_str(v, "proxy-revalidate") {
        Some(Directive::ProxyRevalidate)
    } else if chars_eq_str(v, "immutable") {
        Some(Directive::Immutable)
    } else if chars_eq_str(v, "only-if-cached") {
        Some(Directive::OnlyIfCached)
    } else if chars_eq_str(v, "max-age") {
        Some(Directive::MaxAge)
    } else if chars_eq_str(v, "s-maxage") {
        Some(Directive::SMaxage)
    } else if chars_eq_str(v, "stale-while-revalidate") {
        Some(Directive::StaleWhileRevalidate)
    } else if chars_eq_str(v, "stale-if-error") {
        Some(Directive::StaleIfError)
    } else if chars_eq_str(v, "max-stale") {
        Some(Directive::MaxStale)
    } else if chars_eq_str(v, "min-fresh") {
        Some(Directive::MinFresh)
    } else {
        None
    }
}

// ---------------------------------------------------------------------------
// Rendering
// ---------------------------------------------------------------------------

/// The name of a boolean directive when it is set.
pub open spec fn flag_part(b: bool, d: Directive) -> Seq<Seq<char>> {
    if b {
        seq![directive_name(d)]
    } else {
        Seq::empty()
    }
}

/// `<name>=<seconds>` for a numeric directive that is present.
pub open spec fn num_part(o: Option<u64>, d: Directive) -> Seq<Seq<char>> {
    match o {
        Some(v) => seq![directive_name(d) + seq!['='] + fmt_u64(v as nat)],
        None => Seq::empty(),
    }
}

/// The rendered directives: the boolean ones first, then the numeric ones,
/// each group in declaration order.
pub open spec fn cache_parts(cc: CacheControl) -> Seq<Seq<char>> {
    flag_part(cc.public, Directive::Public) + flag_part(cc.private, Directive::Private)
        + flag_part(cc.no_cache, Directive::NoCache) + flag_part(cc.no_store, Directive::NoStore)
        + flag_part(cc.no_transform, Directive::NoTransform) + flag_part(
        cc.must_revalidate,
        Directive::MustRevalidate,
    ) + flag_part(cc.proxy_revalidate, Directive::ProxyRevalidate) + flag_part(
        cc.immutable,
        Directive::Immutable,
    ) + flag_part(cc.only_if_cached, Directive::OnlyIfCached) + num_part(
        cc.max_age,
        Directive::MaxAge,
    ) + num_part(cc.s_maxage, Directive::SMaxage) + num_part(
        cc.stale_while_revalidate,
        Directive::StaleWhileRevalidate,
    ) + num_part(cc.stale_if_error, Directive::StaleIfError) + num_part(
        cc.max_stale,
        Directive::MaxStale,
    ) + num_part(cc.min_fresh, Directive::MinFresh)
}

/// The header value: the directives separated by `", "`.
pub open spec fn cache_text(cc: CacheControl) -> Seq<char> {
    join_sep(cache_parts(cc), comma_space())
}

fn push_flag(parts: &mut Vec<Vec<char>>, b: bool, d: Directive)
    ensures
        views(final(parts)@) == views(old(parts)@) + flag_part(b, d),
{
    let ghost before = views(parts@);
    if b {
        parts.push(chars_of(directive_text(d)));
    }
    assert(views(parts@) =~= before + flag_part(b, d));
}

fn push_num(parts: &mut Vec<Vec<char>>, o: Option<u64>, d: Directive)
    ensures
        views(final(parts)@) == views(old(parts)@) + num_part(o, d),
{
    let ghost before = views(parts@);
    match o {
        Some(v) => {
            let name = chars_of(directive_text(d));
            let eq = chars_of("=");
            proof {
                reveal_strlit("=");
                assert(eq@ =~= seq!['=']);
            }
            let a = concat_chars(name.as_slice(), eq.as_slice());
            let digits = fmt_u64_exec(v);
            parts.push(concat_chars(a.as_slice(), digits.as_slice()));
        },
        None => {},
    }
    assert(views(parts@) =~= before + num_part(o, d));
}

impl CacheControl {
    /// The header value: the set boolean directives, then the present numeric
    /// ones as `name=seconds`, separated by `", "`.
    pub fn to_string(&self) -> (r: String)
        ensures
            r@ == cache_text(*self),
    {
        let mut parts: Vec<Vec<char>> = Vec::new();
        push_flag(&mut parts, self.public, Directive::Public);
        push_flag(&mut parts, self.private, Directive::Private);
        push_flag(&mut parts, self.no_cache, Directive::NoCache);
        push_flag(&mut parts, self.no_store, Directive::NoStore);
        push_flag(&mut parts, self.no_transform, Directive::NoTransform);
        push_flag(&mut parts, self.must_revalidate, Directive::MustRevalidate);
        push_flag(&mut parts, self.proxy_revalidate, Directive::ProxyRevalidate);
        push_flag(&mut parts, self.immutable, Directive::Immutable);
        push_flag(&mut parts, self.only_if_cached, Directive::OnlyIfCached);
        push_num(&mut parts, self.max_age, Directive::MaxAge);
        push_num(&mut parts, self.s_maxage, Directive::SMaxage);
        push_num(&mut parts, self.stale_while_revalidate, Directive::StaleWhileRevalidate);
        push_num(&mut parts, self.stale_if_error, Directive::StaleIfError);
        push_num(&mut parts, self.max_stale, Directive::MaxStale);
        push_num(&mut parts, self.min_fresh, Directive::MinFresh);
        assert(views(parts@) =~= cache_parts(*self));
        let sep = chars_of(", ");
        proof {
            reveal_strlit(", ");
            assert(sep@ =~= comma_space());
        }
        let text = join_sep_chars(&parts, sep.as_slice());
        string_from_chars(text.as_slice())
    }
}

// ---------------------------------------------------------------------------
// Parsing
// ---------------------------------------------------------------------------

/// Why a `Cache-Control` value did not parse: the message names the
/// directive whose number is missing or malformed.
#[derive(Debug, Clone, PartialEq, Eq)]
pub struct ParseCacheControlError(String);

impl View for ParseCacheControlError {
    type V = Seq<char>;

    closed spec fn view(&self) -> Seq<char> {
        self.0@
    }
}

impl ParseCacheControlError {
    /// `invalid Cache-Control header: <message>`.
    pub fn to_string(&self) -> (r: String)
        ensures
            r@ == "invalid Cache-Control header: "@ + self@,
    {
        let mut s = owned("invalid Cache-Control header: ");
        push_chars(&mut s, chars_of(self.0.as_str()).as_slice());
        s
    }
}

/// `cc` with boolean directive `d` set to `b`.
pub open spec fn with_flag(cc: CacheControl, d: Directive, b: bool) -> CacheControl {
    match d {
        Directive::Public => CacheControl { public: b, ..cc },
        Directive::Private => CacheControl { private: b, ..cc },
        Directive::NoCache => CacheControl { no_cache: b, ..cc },
        Directive::NoStore => CacheControl { no_store: b, ..cc },
        Directive::NoTransform => CacheControl { no_transform: b, ..cc },
        Directive::MustRevalidate => CacheControl { must_revalidate: b, ..cc },
        Directive::ProxyRevalidate => CacheControl { proxy_revalidate: b, ..cc },
        Directive::Immutable => CacheControl { immutable: b, ..cc },
        Directive::OnlyIfCached => CacheControl { only_if_cached: b, ..cc },
        _ => cc,
    }
}

/// `cc` with numeric directive `d` set to `o`.
pub open spec fn with_num(cc: CacheControl, d: Directive, o: Option<u64>) -> CacheControl {
    match d {
        Directive::MaxAge => CacheControl { max_age: o, ..cc },
        Directive::SMaxage => CacheControl { s_maxage: o, ..cc },
        Directive::StaleWhileRevalidate => CacheControl { stale_while_revalidate: o, ..cc },
        Directive::StaleIfError => CacheControl { stale_if_error: o, ..cc },
        Directive::MaxStale => CacheControl { max_stale: o, ..cc },
        Directive::MinFresh => CacheControl { min_fresh: o, ..cc },
        _ => cc,
    }
}

/// The number a numeric directive requires, or the error naming it.
pub open spec fn required_number(d: Directive, value: Option<Seq<char>>) -> Result<u64, Seq<char>> {
    match value {
        None => Err(directive_name(d) + " requires a value"@),
        Some(v) => match parse_u64(v) {
            Some(n) => Ok(n),
            None => Err(directive_name(d) + " value is not a valid integer"@),
        },
    }
}

/// `max-stale` tolerates a missing or malformed number, meaning any staleness.
pub open spec fn stale_number(value: Option<Seq<char>>) -> u64 {
    match value {
        Some(v) => match parse_u64(v) {
            Some(n) => n,
            None => 0,
        },
        None => 0,
    }
}

/// Applying directive `d` with its optional value.
pub open spec fn set_directive(cc: CacheControl, d: Directive, value: Option<Seq<char>>) -> Result<
    CacheControl,
    Seq<char>,
> {
    if !is_numeric(d) {
        Ok(with_flag(cc, d, true))
    } else if d == Directive::MaxStale {
        Ok(with_num(cc, d, Some(stale_number(value))))
    } else {
        match required_number(d, value) {
            Ok(n) => Ok(with_num(cc, d, Some(n))),
            Err(m) => Err(m),
        }
    }
}

/// Applying one trimmed comma-separated token: empty tokens and unknown
/// names change nothing; a name is matched case-insensitively and a value
/// follows the first `=`, trimmed. Only ASCII letters of a name are
/// lower-cased: no other character lower-cases to an ASCII letter that any
/// directive name contains, so the same names match as with Unicode
/// lower-casing.
pub open spec fn apply_token(cc: CacheControl, token: Seq<char>) -> Result<CacheControl, Seq<char>> {
    if token.len() == 0 {
        Ok(cc)
    } else {
        let raw_name = match find(token, '=') {
            Some(e) => token.subrange(0, e),
            None => token,
        };
        let value = match find(token, '=') {
            Some(e) => Some(trim(token.subrange(e + 1, token.len() as int))),
            None => None,
        };
        match directive_of(lower(trim(raw_name))) {
            Some(d) => set_directive(cc, d, value),
            None => Ok(cc),
        }
    }
}

/// Applying the tokens in order; the first error stops parsing.
pub open spec fn apply_tokens(ts: Seq<Seq<char>>, cc: CacheControl) -> Result<CacheControl, Seq<char>>
    decreases ts.len(),
{
    if ts.len() == 0 {
        Ok(cc)
    } else {
        match apply_token(cc, ts[0]) {
            Ok(c1) => apply_tokens(ts.drop_first(), c1),
            Err(m) => Err(m),
        }
    }
}

/// The comma-separated pieces of `s`, each trimmed.
pub open spec fn cache_tokens(s: Seq<char>) -> Seq<Seq<char>> {
    split_char(s, ',').map_values(|p: Seq<char>| trim(p))
}

/// Parsing a `Cache-Control` value.
pub open spec fn spec_parse_cache_control(s: Seq<char>) -> Result<CacheControl, Seq<char>> {
    apply_tokens(cache_tokens(s), no_directives())
}

/// The abstract value of a parse result.
pub open spec fn cache_result_view(r: Result<CacheControl, ParseCacheControlError>) -> Result<
    CacheControl,
    Seq<char>,
> {
    match r {
        Ok(c) => Ok(c),
        Err(e) => Err(e@),
    }
}

fn join_text(a: &str, b: &str) -> (r: String)
    ensures
        r@ == a@ + b@,
{
    let mut s = owned(a);
    push_chars(&mut s, chars_of(b).as_slice());
    s
}

fn required_number_exec(d: Directive, value: &Option<Vec<char>>) -> (r: Result<u64, String>)
    ensures
        match r {
            Ok(n) => required_number(d, opt_chars(*value)) == Ok::<u64, Seq<char>>(n),
            Err(m) => required_number(d, opt_chars(*value)) == Err::<u64, Seq<char>>(m@),
        },
{
    match value {
        None => Err(join_text(directive_text(d), " requires a value")),
        Some(v) => match parse_u64_chars(v.as_slice()) {
            Some(n) => Ok(n),
            None => Err(join_text(directive_text(d), " value is not a valid integer")),
        },
    }
}

/// The view of an optional character vector.
pub open spec fn opt_chars(o: Option<Vec<char>>) -> Option<Seq<char>> {
    match o {
        Some(v) => Some(v@),
        None => None,
    }
}

fn set_directive_exec(cc: CacheControl, d: Directive, value: &Option<Vec<char>>) -> (r: Result<
    CacheControl,
    String,
>)
    ensures
        match r {
            Ok(c) => set_directive(cc, d, opt_chars(*value)) == Ok::<CacheControl, Seq<char>>(c),
            Err(m) => set_directive(cc, d, opt_chars(*value)) == Err::<CacheControl, Seq<char>>(
                m@,
            ),
        },
{
    match d {
        Directive::Public => Ok(CacheControl { public: true, ..cc }),
        Directive::Private => Ok(CacheControl { private: true, ..cc }),
        Directive::NoCache => Ok(CacheControl { no_cache: true, ..cc }),
        Directive::NoStore => Ok(CacheControl { no_store: true, ..cc }),
        Directive::NoTransform => Ok(CacheControl { no_transform: true, ..cc }),
        Directive::MustRevalidate => Ok(CacheControl { must_revalidate: true, ..cc }),
        Directive::ProxyRevalidate => Ok(CacheControl { proxy_revalidate: true, ..cc }),
        Directive::Immutable => Ok(CacheControl { immutable: true, ..cc }),
        Directive::OnlyIfCached => Ok(CacheControl { only_if_cached: true, ..cc }),
        Directive::MaxStale => {
            let n = match value {
                Some(v) => match parse_u64_chars(v.as_slice()) {
                    Some(n) => n,
                    None => 0,
                },
                None => 0,
            };
            Ok(CacheControl { max_stale: Some(n), ..cc })
        },
        _ => match required_number_exec(d, value) {
            Err(m) => Err(m),
            Ok(n) => match d {
                Directive::MaxAge => Ok(CacheControl { max_age: Some(n), ..cc }),
                Directive::SMaxage => Ok(CacheControl { s_maxage: Some(n), ..cc }),
                Directive::StaleWhileRevalidate => Ok(
                    CacheControl { stale_while_revalidate: Some(n), ..cc },
                ),
                Directive::StaleIfError => Ok(CacheControl { stale_if_error: Some(n), ..cc }),
                _ => Ok(CacheControl { min_fresh: Some(n), ..cc }),
            },
        },
    }
}

fn apply_token_exec(cc: CacheControl, token: &[char]) -> (r: Result<CacheControl, String>)
    ensures
        match r {
            Ok(c) => apply_token(cc, token@) == Ok::<CacheControl, Seq<char>>(c),
            Err(m) => apply_token(cc, token@) == Err::<CacheControl, Seq<char>>(m@),
        },
{
    let n = token.len();
    if n == 0 {
        return Ok(cc);
    }
    proof {
        crate::text::lemma_find_facts(token@, '=');
    }
    let (raw, value): (Vec<char>, Option<Vec<char>>) = match find_char(token, '=') {
        Some(e) => {
            let rest = sub_chars(token, e + 1, n);
            (sub_chars(token, 0, e), Some(trim_chars(rest.as_slice())))
        },
        None => (sub_chars(token, 0, n), None),
    };
    assert(token@.subrange(0, n as int) =~= token@);
    let trimmed = trim_chars(raw.as_slice());
    let name = lower_vec(trimmed.as_slice());
    match directive_of_chars(name.as_slice()) {
        Some(d) => set_directive_exec(cc, d, &value),
        None => Ok(cc),
    }
}

impl CacheControl {
    /// Parse a `Cache-Control` value. Directives are comma-separated and
    /// case-insensitive; unknown ones are ignored; a later occurrence of a
    /// directive overrides an earlier one. A numeric directive other than
    /// `max-stale` without a valid number is an error.
    pub fn parse(s: &str) -> (r: Result<CacheControl, ParseCacheControlError>)
        ensures
            cache_result_view(r) == spec_parse_cache_control(s@),
    {
        let v = chars_of(s);
        let pieces = split_char_chars(v.as_slice(), ',');
        let ghost ts = cache_tokens(s@);
        let mut cc = CacheControl::new();
        let mut i: usize = 0;
        assert(ts.skip(0) =~= ts);
        while i < pieces.len()
            invariant
                i <= pieces@.len(),
                views(pieces@) == split_char(s@, ','),
                ts == cache_tokens(s@),
                ts.len() == pieces@.len(),
                apply_tokens(ts, no_directives()) == apply_tokens(ts.skip(i as int), cc),
            decreases pieces@.len() - i,
        {
            let tok = trim_chars(pieces[i].as_slice());
            assert(tok@ == ts[i as int]);
            assert(ts.skip(i as int)[0] == ts[i as int]);
            assert(ts.skip(i as int).drop_first() =~= ts.skip(i + 1));
            match apply_token_exec(cc, tok.as_slice()) {
                Ok(c1) => {
                    cc = c1;
                },
                Err(m) => {
                    return Err(ParseCacheControlError(m));
                },
            }
            i = i + 1;
        }
        assert(ts.skip(i as int) =~= Seq::<Seq<char>>::empty());
        Ok(cc)
    }
}

impl core::str::FromStr for CacheControl {
    type Err = ParseCacheControlError;

    fn from_str(s: &str) -> (r: Result<CacheControl, ParseCacheControlError>)
        ensures
            cache_result_view(r) == spec_parse_cache_control(s@),
    {
        CacheControl::parse(s)
    }
}

// ---------------------------------------------------------------------------
// Rendering and parsing agree
// ---------------------------------------------------------------------------

/// Characters of directive names: lower-case letters and `-`.
pub open spec fn is_name_char(c: char) -> bool {
    ('a' <= c && c <= 'z') || c == '-'
}

/// Every directive name is non-empty, made of lower-case letters and `-`,
/// and names its directive.
pub proof fn lemma_directive_name(d: Directive)
    ensures
        directive_name(d).len() > 0,
        forall|i: int| 0 <= i < directive_name(d).len() ==> is_name_char(
            #[trigger] directive_name(d)[i],
        ),
        directive_of(directive_name(d)) == Some(d),
{
    reveal_strlit("public");
    reveal_strlit("private");
    reveal_strlit("no-cache");
    reveal_strlit("no-store");
    reveal_strlit("no-transform");
    reveal_strlit("must-revalidate");
    reveal_strlit("proxy-revalidate");
    reveal_strlit("immutable");
    reveal_strlit("only-if-cached");
    reveal_strlit("max-age");
    reveal_strlit("s-maxage");
    reveal_strlit("stale-while-revalidate");
    reveal_strlit("stale-if-error");
    reveal_strlit("max-stale");
    reveal_strlit("min-fresh");
    assert("public"@.len() == 6 && "private"@.len() == 7 && "no-cache"@.len() == 8
        && "no-store"@.len() == 8 && "no-transform"@.len() == 12 && "must-revalidate"@.len()
        == 15 && "proxy-revalidate"@.len() == 16 && "immutable"@.len() == 9
        && "only-if-cached"@.len() == 14 && "max-age"@.len() == 7 && "s-maxage"@.len() == 8
        && "stale-while-revalidate"@.len() == 22 && "stale-if-error"@.len() == 14
        && "max-stale"@.len() == 9 && "min-fresh"@.len() == 9);
    assert("public"@[1] != "private"@[1]);
    assert("no-cache"@[3] != "no-store"@[3]);
    assert("no-cache"@[3] != "s-maxage"@[3]);
    assert("no-store"@[0] != "s-maxage"@[0]);
    assert("only-if-cached"@[0] != "stale-if-error"@[0]);
    assert("max-age"@[0] != "private"@[0]);
    assert("max-stale"@[0] != "immutable"@[0]);
    assert("max-stale"@[1] != "min-fresh"@[1]);
}

/// Lower-casing a name made of lower-case letters and `-` changes nothing.
proof fn lemma_lower_name(n: Seq<char>)
    requires
        forall|i: int| 0 <= i < n.len() ==> is_name_char(#[trigger] n[i]),
    ensures
        lower(n) == n,
{
    assert forall|i: int| 0 <= i < n.len() implies #[trigger] lower(n)[i] == n[i] by {
        assert(is_name_char(n[i]));
    }
    assert(lower(n) =~= n);
}

/// A name made of lower-case letters and `-` has no `=`, no `,`, and no
/// whitespace at its ends.
proof fn lemma_name_plain(n: Seq<char>)
    requires
        n.len() > 0,
        forall|i: int| 0 <= i < n.len() ==> is_name_char(#[trigger] n[i]),
    ensures
        !n.contains('='),
        !n.contains(','),
        trimmed_nonempty(n),
{
    assert(is_name_char(n[0]));
    assert(is_name_char(n[n.len() - 1]));
    if n.contains('=') {
        let i = choose|i: int| 0 <= i < n.len() && n[i] == '=';
        assert(is_name_char(n[i]));
    }
    if n.contains(',') {
        let i = choose|i: int| 0 <= i < n.len() && n[i] == ',';
        assert(is_name_char(n[i]));
    }
}

/// Applying a boolean directive's name sets it.
proof fn lemma_apply_flag(c: CacheControl, d: Directive)
    requires
        !is_numeric(d),
    ensures
        apply_token(c, directive_name(d)) == Ok::<CacheControl, Seq<char>>(with_flag(c, d, true)),
{
    let n = directive_name(d);
    lemma_directive_name(d);
    lemma_name_plain(n);
    lemma_lower_name(n);
    lemma_trim_id(n);
    assert forall|j: int| 0 <= j < n.len() implies #[trigger] n[j] != '=' by {
        if n[j] == '=' {
            assert(n.contains('='));
        }
    }
    crate::text::lemma_find_none(n, '=');
}

/// Applying `name=seconds` of a numeric directive sets it to the number.
proof fn lemma_apply_num(c: CacheControl, d: Directive, v: u64)
    requires
        is_numeric(d),
    ensures
        apply_token(c, directive_name(d) + seq!['='] + fmt_u64(v as nat)) == Ok::<
            CacheControl,
            Seq<char>,
        >(with_num(c, d, Some(v))),
{
    let n = directive_name(d);
    let digits = fmt_u64(v as nat);
    let t = n + seq!['='] + digits;
    lemma_directive_name(d);
    lemma_name_plain(n);
    lemma_lower_name(n);
    lemma_trim_id(n);
    lemma_fmt_u64(v as nat);
    lemma_parse_fmt_u64(v);
    assert(crate::text::is_digit(digits[0]));
    assert(crate::text::is_digit(digits[digits.len() - 1]));
    lemma_trim_id(digits);
    lemma_split_once_at(n, '=', digits);
    assert(t.len() > 0);
    assert(t.subrange(n.len() as int + 1, t.len() as int) =~= digits);
}

/// Applying the tokens `ts` followed by `x`.
proof fn lemma_apply_tokens_push(ts: Seq<Seq<char>>, x: Seq<char>, c: CacheControl)
    ensures
        apply_tokens(ts.push(x), c) == (match apply_tokens(ts, c) {
            Ok(c1) => apply_token(c1, x),
            Err(m) => Err(m),
        }),
    decreases ts.len(),
{
    if ts.len() == 0 {
        let one = ts.push(x);
        assert(one[0] == x);
        assert(one.drop_first() =~= Seq::<Seq<char>>::empty());
        match apply_token(c, x) {
            Ok(c1) => {
                assert(apply_tokens(one.drop_first(), c1) == Ok::<CacheControl, Seq<char>>(c1));
            },
            Err(_) => {},
        }
    } else {
        let q = ts.push(x);
        assert(q[0] == ts[0]);
        assert(q.drop_first() =~= ts.drop_first().push(x));
        match apply_token(c, ts[0]) {
            Ok(c1) => {
                lemma_apply_tokens_push(ts.drop_first(), x, c1);
            },
            Err(_) => {},
        }
    }
}

/// Appending the part of a boolean directive.
proof fn lemma_chunk_flag(ts: Seq<Seq<char>>, c0: CacheControl, b: bool, d: Directive)
    requires
        apply_tokens(ts, no_directives()) == Ok::<CacheControl, Seq<char>>(c0),
        !is_numeric(d),
    ensures
        apply_tokens(ts + flag_part(b, d), no_directives()) == Ok::<CacheControl, Seq<char>>(
            if b {
                with_flag(c0, d, true)
            } else {
                c0
            },
        ),
{
    if b {
        assert(ts + flag_part(b, d) =~= ts.push(directive_name(d)));
        lemma_apply_tokens_push(ts, directive_name(d), no_directives());
        lemma_apply_flag(c0, d);
    } else {
        assert(ts + flag_part(b, d) =~= ts);
    }
}

/// Appending the part of a numeric directive.
proof fn lemma_chunk_num(ts: Seq<Seq<char>>, c0: CacheControl, o: Option<u64>, d: Directive)
    requires
        apply_tokens(ts, no_directives()) == Ok::<CacheControl, Seq<char>>(c0),
        is_numeric(d),
    ensures
        apply_tokens(ts + num_part(o, d), no_directives()) == Ok::<CacheControl, Seq<char>>(
            match o {
                Some(v) => with_num(c0, d, Some(v)),
                None => c0,
            },
        ),
{
    match o {
        Some(v) => {
            let t = directive_name(d) + seq!['='] + fmt_u64(v as nat);
            assert(ts + num_part(o, d) =~= ts.push(t));
            lemma_apply_tokens_push(ts, t, no_directives());
            lemma_apply_num(c0, d, v);
        },
        None => {
            assert(ts + num_part(o, d) =~= ts);
        },
    }
}

/// The first five boolean parts.
spec fn parts_5(cc: CacheControl) -> Seq<Seq<char>> {
    flag_part(cc.public, Directive::Public) + flag_part(cc.private, Directive::Private)
        + flag_part(cc.no_cache, Directive::NoCache) + flag_part(cc.no_store, Directive::NoStore)
        + flag_part(cc.no_transform, Directive::NoTransform)
}

/// All boolean parts.
spec fn parts_9(cc: CacheControl) -> Seq<Seq<char>> {
    parts_5(cc) + flag_part(cc.must_revalidate, Directive::MustRevalidate) + flag_part(
        cc.proxy_revalidate,
        Directive::ProxyRevalidate,
    ) + flag_part(cc.immutable, Directive::Immutable) + flag_part(
        cc.only_if_cached,
        Directive::OnlyIfCached,
    )
}

spec fn state_5(cc: CacheControl) -> CacheControl {
    CacheControl {
        public: cc.public,
        private: cc.private,
        no_cache: cc.no_cache,
        no_store: cc.no_store,
        no_transform: cc.no_transform,
        ..no_directives()
    }
}

spec fn state_9(cc: CacheControl) -> CacheControl {
    CacheControl {
        must_revalidate: cc.must_revalidate,
        proxy_revalidate: cc.proxy_revalidate,
        immutable: cc.immutable,
        only_if_cached: cc.only_if_cached,
        ..state_5(cc)
    }
}

proof fn lemma_apply_parts_5(cc: CacheControl)
    ensures
        apply_tokens(parts_5(cc), no_directives()) == Ok::<CacheControl, Seq<char>>(state_5(cc)),
{
    let t0 = Seq::<Seq<char>>::empty();
    let s0 = no_directives();
    lemma_chunk_flag(t0, s0, cc.public, Directive::Public);
    let t1 = t0 + flag_part(cc.public, Directive::Public);
    assert(t1 =~= flag_part(cc.public, Directive::Public));
    let s1 = CacheControl { public: cc.public, ..s0 };
    lemma_chunk_flag(t1, s1, cc.private, Directive::Private);
    let t2 = t1 + flag_part(cc.private, Directive::Private);
    let s2 = CacheControl { private: cc.private, ..s1 };
    lemma_chunk_flag(t2, s2, cc.no_cache, Directive::NoCache);
    let t3 = t2 + flag_part(cc.no_cache, Directive::NoCache);
    let s3 = CacheControl { no_cache: cc.no_cache, ..s2 };
    lemma_chunk_flag(t3, s3, cc.no_store, Directive::NoStore);
    let t4 = t3 + flag_part(cc.no_store, Directive::NoStore);
    let s4 = CacheControl { no_store: cc.no_store, ..s3 };
    lemma_chunk_flag(t4, s4, cc.no_transform, Directive::NoTransform);
}

proof fn lemma_apply_parts_9(cc: CacheControl)
    ensures
        apply_tokens(parts_9(cc), no_directives()) == Ok::<CacheControl, Seq<char>>(state_9(cc)),
{
    lemma_apply_parts_5(cc);
    let t5 = parts_5(cc);
    let s5 = state_5(cc);
    lemma_chunk_flag(t5, s5, cc.must_revalidate, Directive::MustRevalidate);
    let t6 = t5 + flag_part(cc.must_revalidate, Directive::MustRevalidate);
    let s6 = CacheControl { must_revalidate: cc.must_revalidate, ..s5 };
    lemma_chunk_flag(t6, s6, cc.proxy_revalidate, Directive::ProxyRevalidate);
    let t7 = t6 + flag_part(cc.proxy_revalidate, Directive::ProxyRevalidate);
    let s7 = CacheControl { proxy_revalidate: cc.proxy_revalidate, ..s6 };
    lemma_chunk_flag(t7, s7, cc.immutable, Directive::Immutable);
    let t8 = t7 + flag_part(cc.immutable, Directive::Immutable);
    let s8 = CacheControl { immutable: cc.immutable, ..s7 };
    lemma_chunk_flag(t8, s8, cc.only_if_cached, Directive::OnlyIfCached);
}

spec fn parts_12(cc: CacheControl) -> Seq<Seq<char>> {
    parts_9(cc) + num_part(cc.max_age, Directive::MaxAge) + num_part(
        cc.s_maxage,
        Directive::SMaxage,
    ) + num_part(cc.stale_while_revalidate, Directive::StaleWhileRevalidate)
}

spec fn state_12(cc: CacheControl) -> CacheControl {
    CacheControl {
        max_age: cc.max_age,
        s_maxage: cc.s_maxage,
        stale_while_revalidate: cc.stale_while_revalidate,
        ..state_9(cc)
    }
}

proof fn lemma_apply_parts_12(cc: CacheControl)
    ensures
        apply_tokens(parts_12(cc), no_directives()) == Ok::<CacheControl, Seq<char>>(
            state_12(cc),
        ),
{
    lemma_apply_parts_9(cc);
    let t9 = parts_9(cc);
    let s9 = state_9(cc);
    lemma_chunk_num(t9, s9, cc.max_age, Directive::MaxAge);
    let t10 = t9 + num_part(cc.max_age, Directive::MaxAge);
    let s10 = CacheControl { max_age: cc.max_age, ..s9 };
    lemma_chunk_num(t10, s10, cc.s_maxage, Directive::SMaxage);
    let t11 = t10 + num_part(cc.s_maxage, Directive::SMaxage);
    let s11 = CacheControl { s_maxage: cc.s_maxage, ..s10 };
    lemma_chunk_num(t11, s11, cc.stale_while_revalidate, Directive::StaleWhileRevalidate);
}

/// Applying the rendered parts, in order, rebuilds the value.
proof fn lemma_apply_parts(cc: CacheControl)
    ensures
        apply_tokens(cache_parts(cc), no_directives()) == Ok::<CacheControl, Seq<char>>(cc),
{
    lemma_apply_parts_12(cc);
    let t12 = parts_12(cc);
    let s12 = state_12(cc);
    lemma_chunk_num(t12, s12, cc.stale_if_error, Directive::StaleIfError);
    let t13 = t12 + num_part(cc.stale_if_error, Directive::StaleIfError);
    let s13 = CacheControl { stale_if_error: cc.stale_if_error, ..s12 };
    lemma_chunk_num(t13, s13, cc.max_stale, Directive::MaxStale);
    let t14 = t13 + num_part(cc.max_stale, Directive::MaxStale);
    let s14 = CacheControl { max_stale: cc.max_stale, ..s13 };
    lemma_chunk_num(t14, s14, cc.min_fresh, Directive::MinFresh);
    assert(t14 + num_part(cc.min_fresh, Directive::MinFresh) == cache_parts(cc));
}

/// Every token is non-empty, has no surrounding whitespace and no comma.
pub open spec fn all_plain(ts: Seq<Seq<char>>) -> bool {
    forall|k: int| 0 <= k < ts.len() ==> trimmed_nonempty(#[trigger] ts[k]) && !ts[k].contains(
        ',',
    )
}

proof fn lemma_plain_concat(a: Seq<Seq<char>>, b: Seq<Seq<char>>)
    requires
        all_plain(a),
        all_plain(b),
    ensures
        all_plain(a + b),
{
    assert forall|k: int| 0 <= k < (a + b).len() implies trimmed_nonempty(#[trigger] (a + b)[k])
        && !(a + b)[k].contains(',') by {
        if k < a.len() {
            assert((a + b)[k] == a[k]);
        } else {
            assert((a + b)[k] == b[k - a.len()]);
        }
    }
}

proof fn lemma_flag_plain(b: bool, d: Directive)
    ensures
        all_plain(flag_part(b, d)),
{
    if b {
        lemma_directive_name(d);
        lemma_name_plain(directive_name(d));
    }
}

proof fn lemma_num_plain(o: Option<u64>, d: Directive)
    ensures
        all_plain(num_part(o, d)),
{
    if let Some(v) = o {
        let n = directive_name(d);
        let digits = fmt_u64(v as nat);
        let p = n + seq!['='] + digits;
        lemma_directive_name(d);
        lemma_name_plain(n);
        lemma_fmt_u64(v as nat);
        assert(crate::text::is_digit(digits[digits.len() - 1]));
        assert(is_name_char(n[0]));
        assert(p[0] == n[0]);
        assert(p.last() == digits.last());
        if p.contains(',') {
            let i = choose|i: int| 0 <= i < p.len() && p[i] == ',';
            if i < n.len() {
                assert(p[i] == n[i]);
                assert(n.contains(','));
            } else if i > n.len() {
                assert(p[i] == digits[i - n.len() - 1]);
                assert(crate::text::is_digit(digits[i - n.len() - 1]));
            }
        }
        assert(num_part(o, d)[0] == p);
    }
}

/// Every rendered part is non-empty, has no surrounding whitespace and no comma.
proof fn lemma_parts_plain(cc: CacheControl)
    ensures
        all_plain(cache_parts(cc)),
{
    lemma_flag_plain(cc.public, Directive::Public);
    lemma_flag_plain(cc.private, Directive::Private);
    lemma_flag_plain(cc.no_cache, Directive::NoCache);
    lemma_flag_plain(cc.no_store, Directive::NoStore);
    lemma_flag_plain(cc.no_transform, Directive::NoTransform);
    lemma_flag_plain(cc.must_revalidate, Directive::MustRevalidate);
    lemma_flag_plain(cc.proxy_revalidate, Directive::ProxyRevalidate);
    lemma_flag_plain(cc.immutable, Directive::Immutable);
    lemma_flag_plain(cc.only_if_cached, Directive::OnlyIfCached);
    lemma_num_plain(cc.max_age, Directive::MaxAge);
    lemma_num_plain(cc.s_maxage, Directive::SMaxage);
    lemma_num_plain(cc.stale_while_revalidate, Directive::StaleWhileRevalidate);
    lemma_num_plain(cc.stale_if_error, Directive::StaleIfError);
    lemma_num_plain(cc.max_stale, Directive::MaxStale);
    lemma_num_plain(cc.min_fresh, Directive::MinFresh);
    let c1 = flag_part(cc.public, Directive::Public);
    let c2 = c1 + flag_part(cc.private, Directive::Private);
    lemma_plain_concat(c1, flag_part(cc.private, Directive::Private));
    let c3 = c2 + flag_part(cc.no_cache, Directive::NoCache);
    lemma_plain_concat(c2, flag_part(cc.no_cache, Directive::NoCache));
    let c4 = c3 + flag_part(cc.no_store, Directive::NoStore);
    lemma_plain_concat(c3, flag_part(cc.no_store, Directive::NoStore));
    let c5 = c4 + flag_part(cc.no_transform, Directive::NoTransform);
    lemma_plain_concat(c4, flag_part(cc.no_transform, Directive::NoTransform));
    let c6 = c5 + flag_part(cc.must_revalidate, Directive::MustRevalidate);
    lemma_plain_concat(c5, flag_part(cc.must_revalidate, Directive::MustRevalidate));
    let c7 = c6 + flag_part(cc.proxy_revalidate, Directive::ProxyRevalidate);
    lemma_plain_concat(c6, flag_part(cc.proxy_revalidate, Directive::ProxyRevalidate));
    let c8 = c7 + flag_part(cc.immutable, Directive::Immutable);
    lemma_plain_concat(c7, flag_part(cc.immutable, Directive::Immutable));
    let c9 = c8 + flag_part(cc.only_if_cached, Directive::OnlyIfCached);
    lemma_plain_concat(c8, flag_part(cc.only_if_cached, Directive::OnlyIfCached));
    let c10 = c9 + num_part(cc.max_age, Directive::MaxAge);
    lemma_plain_concat(c9, num_part(cc.max_age, Directive::MaxAge));
    let c11 = c10 + num_part(cc.s_maxage, Directive::SMaxage);
    lemma_plain_concat(c10, num_part(cc.s_maxage, Directive::SMaxage));
    let c12 = c11 + num_part(cc.stale_while_revalidate, Directive::StaleWhileRevalidate);
    lemma_plain_concat(c11, num_part(cc.stale_while_revalidate, Directive::StaleWhileRevalidate));
    let c13 = c12 + num_part(cc.stale_if_error, Directive::StaleIfError);
    lemma_plain_concat(c12, num_part(cc.stale_if_error, Directive::StaleIfError));
    let c14 = c13 + num_part(cc.max_stale, Directive::MaxStale);
    lemma_plain_concat(c13, num_part(cc.max_stale, Directive::MaxStale));
    lemma_plain_concat(c14, num_part(cc.min_fresh, Directive::MinFresh));
}

/// Parsing the rendering of any `Cache-Control` value gives that value back.
pub proof fn lemma_cache_control_roundtrip(cc: CacheControl)
    ensures
        spec_parse_cache_control(cache_text(cc)) == Ok::<CacheControl, Seq<char>>(cc),
{
    let ps = cache_parts(cc);
    lemma_apply_parts(cc);
    if ps.len() == 0 {
        assert(cache_text(cc) =~= Seq::<char>::empty());
        crate::text::lemma_find_none(Seq::<char>::empty(), ',');
        let ts = cache_tokens(cache_text(cc));
        assert(split_char(Seq::<char>::empty(), ',') =~= seq![Seq::<char>::empty()]);
        crate::text::lemma_lead_ws(Seq::<char>::empty(), 0);
        crate::text::lemma_trail_ws(Seq::<char>::empty(), 0);
        assert(trim(Seq::<char>::empty()) =~= Seq::<char>::empty());
        assert(ts =~= seq![Seq::<char>::empty()]);
        assert(ts.drop_first() =~= Seq::<Seq<char>>::empty());
        assert(cc == no_directives());
    } else {
        lemma_parts_plain(cc);
        assert(!Seq::<char>::empty().contains(','));
        assert forall|k: int| 0 <= k < ps.len() implies !(#[trigger] ps[k]).contains(',') by {
            assert(trimmed_nonempty(ps[k]) && !ps[k].contains(','));
        }
        lemma_split_join(Seq::empty(), ps);
        assert(Seq::<char>::empty() + join_sep(ps, comma_space()) =~= cache_text(cc));
        assert(Seq::<char>::empty() + ps[0] =~= ps[0]);
        let pieces = split_char(cache_text(cc), ',');
        assert forall|k: int| 0 <= k < ps.len() implies #[trigger] trim(pieces[k]) == ps[k] by {
            assert(trimmed_nonempty(ps[k]) && !ps[k].contains(','));
            if k == 0 {
                lemma_trim_id(ps[0]);
            } else {
                assert(pieces[k] == seq![' '] + ps.drop_first()[k - 1]);
                assert(ps.drop_first()[k - 1] == ps[k]);
                lemma_trim_after_space(ps[k]);
            }
        }
        assert(cache_tokens(cache_text(cc)) =~= ps);
    }
}

} // verus!
