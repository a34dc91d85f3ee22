//! RFC 9457 problem details: machine-readable error codes, the rendering of
//! their `type` URI, and the [`ApiError`] body every service answers with.

use vstd::prelude::*;
use vstd::string::*;
use crate::text::{
    chars_eq_str, chars_of, concat_chars, lemma_strip_prefix_concat, owned, push_chars,
    push_u64, strip_prefix, strip_prefix_chars, string_from_chars, trim_end_char,
    trim_end_char_vec, fmt_u64,
};
use crate::uuid::Uuid;

verus! {

// ---------------------------------------------------------------------------
// Error code
// ---------------------------------------------------------------------------

/// Machine-readable error code carried by every problem-details response.
#[derive(Debug, Clone, Copy, PartialEq, Eq, Structural)]
pub enum ErrorCode {
    BadRequest,
    ValidationFailed,
    Unauthorized,
    InvalidCredentials,
    TokenExpired,
    TokenInvalid,
    Forbidden,
    InsufficientPermissions,
    ResourceNotFound,
    Conflict,
    ResourceAlreadyExists,
    UnprocessableEntity,
    RateLimited,
    InternalServerError,
    ServiceUnavailable,
}

/// HTTP status for each code.
pub open spec fn spec_status(c: ErrorCode) -> u16 {
    match c {
        ErrorCode::BadRequest | ErrorCode::ValidationFailed => 400,
        ErrorCode::Unauthorized | ErrorCode::InvalidCredentials | ErrorCode::TokenExpired
        | ErrorCode::TokenInvalid => 401,
        ErrorCode::Forbidden | ErrorCode::InsufficientPermissions => 403,
        ErrorCode::ResourceNotFound => 404,
        ErrorCode::Conflict | ErrorCode::ResourceAlreadyExists => 409,
        ErrorCode::UnprocessableEntity => 422,
        ErrorCode::RateLimited => 429,
        ErrorCode::InternalServerError => 500,
        ErrorCode::ServiceUnavailable => 503,
    }
}

/// Human-friendly title for each code.
pub open spec fn spec_title(c: ErrorCode) -> Seq<char> {
    match c {
        ErrorCode::BadRequest => "Bad Request"@,
        ErrorCode::ValidationFailed => "Validation Failed"@,
        ErrorCode::Unauthorized => "Unauthorized"@,
        ErrorCode::InvalidCredentials => "Invalid Credentials"@,
        ErrorCode::TokenExpired => "Token Expired"@,
        ErrorCode::TokenInvalid => "Token Invalid"@,
        ErrorCode::Forbidden => "Forbidden"@,
        ErrorCode::InsufficientPermissions => "Insufficient Permissions"@,
        ErrorCode::ResourceNotFound => "Resource Not Found"@,
        ErrorCode::Conflict => "Conflict"@,
        ErrorCode::ResourceAlreadyExists => "Resource Already Exists"@,
        ErrorCode::UnprocessableEntity => "Unprocessable Entity"@,
        ErrorCode::RateLimited => "Rate Limited"@,
        ErrorCode::InternalServerError => "Internal Server Error"@,
        ErrorCode::ServiceUnavailable => "Service Unavailable"@,
    }
}

/// URN slug for each code.
pub open spec fn spec_slug(c: ErrorCode) -> Seq<char> {
    match c {
        ErrorCode::BadRequest => "bad-request"@,
        ErrorCode::ValidationFailed => "validation-failed"@,
        ErrorCode::Unauthorized => "unauthorized"@,
        ErrorCode::InvalidCredentials => "invalid-credentials"@,
        ErrorCode::TokenExpired => "token-expired"@,
        ErrorCode::TokenInvalid => "token-invalid"@,
        ErrorCode::Forbidden => "forbidden"@,
        ErrorCode::InsufficientPermissions => "insufficient-permissions"@,
        ErrorCode::ResourceNotFound => "resource-not-found"@,
        ErrorCode::Conflict => "conflict"@,
        ErrorCode::ResourceAlreadyExists => "resource-already-exists"@,
        ErrorCode::UnprocessableEntity => "unprocessable-entity"@,
        ErrorCode::RateLimited => "rate-limited"@,
        ErrorCode::InternalServerError => "internal-server-error"@,
        ErrorCode::ServiceUnavailable => "service-unavailable"@,
    }
}

/// `c` with an ASCII upper-case letter taken to lower case.
pub open spec fn ascii_lower(c: char) -> char {
    if 'A' <= c && c <= 'Z' {
        ((c as u32) + 32) as char
    } else {
        c
    }
}

/// A title in lower case with each space written as a hyphen.
pub open spec fn slug_of_title(t: Seq<char>) -> Seq<char> {
    t.map_values(|c: char| if c == ' ' { '-' } else { ascii_lower(c) })
}

/// Each code's slug is its title in lower case with hyphens for spaces.
pub proof fn lemma_slug_is_hyphenated_title(c: ErrorCode)
    ensures
        spec_slug(c) == slug_of_title(spec_title(c)),
{
    match c {
        ErrorCode::BadRequest => {
            reveal_strlit("Bad Request");
            reveal_strlit("bad-request");
            assert(spec_slug(c) =~= slug_of_title(spec_title(c)));
        },
        ErrorCode::ValidationFailed => {
            reveal_strlit("Validation Failed");
            reveal_strlit("validation-failed");
            assert(spec_slug(c) =~= slug_of_title(spec_title(c)));
        },
        ErrorCode::Unauthorized => {
            reveal_strlit("Unauthorized");
            reveal_strlit("unauthorized");
            assert(spec_slug(c) =~= slug_of_title(spec_title(c)));
        },
        ErrorCode::InvalidCredentials => {
            reveal_strlit("Invalid Credentials");
            reveal_strlit("invalid-credentials");
            assert(spec_slug(c) =~= slug_of_title(spec_title(c)));
        },
        ErrorCode::TokenExpired => {
            reveal_strlit("Token Expired");
            reveal_strlit("token-expired");
            assert(spec_slug(c) =~= slug_of_title(spec_title(c)));
        },
        ErrorCode::TokenInvalid => {
            reveal_strlit("Token Invalid");
            reveal_strlit("token-invalid");
            assert(spec_slug(c) =~= slug_of_title(spec_title(c)));
        },
        ErrorCode::Forbidden => {
            reveal_strlit("Forbidden");
            reveal_strlit("forbidden");
            assert(spec_slug(c) =~= slug_of_title(spec_title(c)));
        },
        ErrorCode::InsufficientPermissions => {
            reveal_strlit("Insufficient Permissions");
            reveal_strlit("insufficient-permissions");
            assert(spec_slug(c) =~= slug_of_title(spec_title(c)));
        },
        ErrorCode::ResourceNotFound => {
            reveal_strlit("Resource Not Found");
            reveal_strlit("resource-not-found");
            assert(spec_slug(c) =~= slug_of_title(spec_title(c)));
        },
        ErrorCode::Conflict => {
            reveal_strlit("Conflict");
            reveal_strlit("conflict");
            assert(spec_slug(c) =~= slug_of_title(spec_title(c)));
        },
        ErrorCode::ResourceAlreadyExists => {
            reveal_strlit("Resource Already Exists");
            reveal_strlit("resource-already-exists");
            assert(spec_slug(c) =~= slug_of_title(spec_title(c)));
        },
        ErrorCode::UnprocessableEntity => {
            reveal_strlit("Unprocessable Entity");
            reveal_strlit("unprocessable-entity");
            assert(spec_slug(c) =~= slug_of_title(spec_title(c)));
        },
        ErrorCode::RateLimited => {
            reveal_strlit("Rate Limited");
            reveal_strlit("rate-limited");
            assert(spec_slug(c) =~= slug_of_title(spec_title(c)));
        },
        ErrorCode::InternalServerError => {
            reveal_strlit("Internal Server Error");
            reveal_strlit("internal-server-error");
            assert(spec_slug(c) =~= slug_of_title(spec_title(c)));
        },
        ErrorCode::ServiceUnavailable => {
            reveal_strlit("Service Unavailable");
            reveal_strlit("service-unavailable");
            assert(spec_slug(c) =~= slug_of_title(spec_title(c)));
        },
    }
}

/// The code whose slug is `s`, if any.
pub open spec fn from_slug(s: Seq<char>) -> Option<ErrorCode> {
    if s == "bad-request"@ {
        Some(ErrorCode::BadRequest)
    } else if s == "validation-failed"@ {
        Some(ErrorCode::ValidationFailed)
    } else if s == "unauthorized"@ {
        Some(ErrorCode::Unauthorized)
    } else if s == "invalid-credentials"@ {
        Some(ErrorCode::InvalidCredentials)
    } else if s == "token-expired"@ {
        Some(ErrorCode::TokenExpired)
    } else if s == "token-invalid"@ {
        Some(ErrorCode::TokenInvalid)
    } else if s == "forbidden"@ {
        Some(ErrorCode::Forbidden)
    } else if s == "insufficient-permissions"@ {
        Some(ErrorCode::InsufficientPermissions)
    } else if s == "resource-not-found"@ {
        Some(ErrorCode::ResourceNotFound)
    } else if s == "conflict"@ {
        Some(ErrorCode::Conflict)
    } else if s == "resource-already-exists"@ {
        Some(ErrorCode::ResourceAlreadyExists)
    } else if s == "unprocessable-entity"@ {
        Some(ErrorCode::UnprocessableEntity)
    } else if s == "rate-limited"@ {
        Some(ErrorCode::RateLimited)
    } else if s == "internal-server-error"@ {
        Some(ErrorCode::InternalServerError)
    } else if s == "service-unavailable"@ {
        Some(ErrorCode::ServiceUnavailable)
    } else {
        None
    }
}

// ---------------------------------------------------------------------------
// Type-URI rendering mode
// ---------------------------------------------------------------------------

/// How the RFC 9457 `type` member is rendered.
#[derive(Debug, Clone, PartialEq, Eq)]
pub enum ErrorTypeMode {
    /// `{base_url}/{slug}`; trailing slashes of `base_url` are trimmed.
    Url { base_url: String },
    /// `urn:{namespace}:error:{slug}`.
    Urn { namespace: String },
}

/// The namespace used when nothing else is configured.
pub open spec fn default_namespace() -> Seq<char> {
    "api-bones"@
}

/// The text before the slug in each mode.
pub open spec fn type_prefix(mode: ErrorTypeMode) -> Seq<char> {
    match mode {
        ErrorTypeMode::Url { base_url } => trim_end_char(base_url@, '/') + "/"@,
        ErrorTypeMode::Urn { namespace } => "urn:"@ + namespace@ + ":error:"@,
    }
}

/// `mode.render(slug)`.
pub open spec fn spec_render(mode: ErrorTypeMode, slug: Seq<char>) -> Seq<char> {
    type_prefix(mode) + slug
}

/// The slug inside a type URI under `mode`: the URL prefix (falling back to
/// the default URN form) in URL mode, the URN prefix in URN mode.
pub open spec fn type_uri_slug(mode: ErrorTypeMode, s: Seq<char>) -> Option<Seq<char>> {
    match mode {
        ErrorTypeMode::Url { .. } => match strip_prefix(type_prefix(mode), s) {
            Some(rest) => Some(rest),
            None => strip_prefix("urn:"@ + default_namespace() + ":error:"@, s),
        },
        ErrorTypeMode::Urn { .. } => strip_prefix(type_prefix(mode), s),
    }
}

/// `ErrorCode::from_type_uri(s)` under `mode`.
pub open spec fn spec_from_type_uri(mode: ErrorTypeMode, s: Seq<char>) -> Option<ErrorCode> {
    match type_uri_slug(mode, s) {
        Some(slug) => from_slug(slug),
        None => None,
    }
}

impl ErrorTypeMode {
    /// Render the full `type` URI for a slug.
    pub fn render(&self, slug: &str) -> (r: String)
        ensures
            r@ == spec_render(*self, slug@),
    {
        let p = prefix_chars(self);
        let s = chars_of(slug);
        let all = concat_chars(p.as_slice(), s.as_slice());
        string_from_chars(all.as_slice())
    }
}

impl Default for ErrorTypeMode {
    /// `Urn { namespace: "api-bones" }`, the mode in force when none is set.
    fn default() -> (r: ErrorTypeMode)
        ensures
            r matches ErrorTypeMode::Urn { namespace } && namespace@ == default_namespace(),
    {
        ErrorTypeMode::Urn { namespace: owned("api-bones") }
    }
}

fn prefix_chars(mode: &ErrorTypeMode) -> (r: Vec<char>)
    ensures
        r@ == type_prefix(*mode),
{
    match mode {
        ErrorTypeMode::Url { base_url } => {
            let b = chars_of(base_url.as_str());
            let t = trim_end_char_vec(b.as_slice(), '/');
            let slash = chars_of("/");
            concat_chars(t.as_slice(), slash.as_slice())
        },
        ErrorTypeMode::Urn { namespace } => {
            let a = chars_of("urn:");
            let n = chars_of(namespace.as_str());
            let e = chars_of(":error:");
            let an = concat_chars(a.as_slice(), n.as_slice());
            concat_chars(an.as_slice(), e.as_slice())
        },
    }
}

/// The mode resolved from configuration, first non-empty value wins:
/// build-time base URL, run-time base URL, build-time namespace, run-time
/// namespace, and the default `urn:api-bones` otherwise.
pub open spec fn spec_resolve_mode(
    build_url: Option<Seq<char>>,
    run_url: Option<Seq<char>>,
    build_ns: Option<Seq<char>>,
    run_ns: Option<Seq<char>>,
) -> (ModeKind, Seq<char>) {
    if nonempty(build_url) {
        (ModeKind::Url, build_url->0)
    } else if nonempty(run_url) {
        (ModeKind::Url, run_url->0)
    } else if nonempty(build_ns) {
        (ModeKind::Urn, build_ns->0)
    } else if nonempty(run_ns) {
        (ModeKind::Urn, run_ns->0)
    } else {
        (ModeKind::Urn, default_namespace())
    }
}

pub open spec fn nonempty(o: Option<Seq<char>>) -> bool {
    o matches Some(s) && s.len() > 0
}

/// Which of the two modes a configuration resolves to.
#[derive(Debug, Clone, Copy, PartialEq, Eq, Structural)]
pub enum ModeKind {
    Url,
    Urn,
}

pub open spec fn mode_parts(m: ErrorTypeMode) -> (ModeKind, Seq<char>) {
    match m {
        ErrorTypeMode::Url { base_url } => (ModeKind::Url, base_url@),
        ErrorTypeMode::Urn { namespace } => (ModeKind::Urn, namespace@),
    }
}

pub open spec fn opt_view(o: Option<&str>) -> Option<Seq<char>> {
    match o {
        Some(s) => Some(s@),
        None => None,
    }
}

/// Resolve the [`ErrorTypeMode`] from configuration values (the callers read
/// them from the build and the environment).
pub fn resolve_error_type_mode(
    build_url: Option<&str>,
    run_url: Option<&str>,
    build_ns: Option<&str>,
    run_ns: Option<&str>,
) -> (r: ErrorTypeMode)
    ensures
        mode_parts(r) == spec_resolve_mode(
            opt_view(build_url),
            opt_view(run_url),
            opt_view(build_ns),
            opt_view(run_ns),
        ),
{
    if let Some(u) = build_url {
        if !u.is_empty() {
            return ErrorTypeMode::Url { base_url: owned(u) };
        }
    }
    if let Some(u) = run_url {
        if !u.is_empty() {
            return ErrorTypeMode::Url { base_url: owned(u) };
        }
    }
    if let Some(n) = build_ns {
        if !n.is_empty() {
            return ErrorTypeMode::Urn { namespace: owned(n) };
        }
    }
    if let Some(n) = run_ns {
        if !n.is_empty() {
            return ErrorTypeMode::Urn { namespace: owned(n) };
        }
    }
    ErrorTypeMode::default()
}

/// A copy of a mode.
fn copy_mode(m: &ErrorTypeMode) -> (r: ErrorTypeMode)
    ensures
        mode_parts(r) == mode_parts(*m),
{
    match m {
        ErrorTypeMode::Url { base_url } => ErrorTypeMode::Url { base_url: owned(base_url.as_str()) },
        ErrorTypeMode::Urn { namespace } => ErrorTypeMode::Urn {
            namespace: owned(namespace.as_str()),
        },
    }
}

/// Where a process keeps its error-type mode: empty until the mode is set or
/// first resolved, and kept from then on until it is set again or reset.
pub struct ErrorTypeModeStore {
    mode: Option<ErrorTypeMode>,
}

impl View for ErrorTypeModeStore {
    type V = Option<(ModeKind, Seq<char>)>;

    closed spec fn view(&self) -> Option<(ModeKind, Seq<char>)> {
        match self.mode {
            Some(m) => Some(mode_parts(m)),
            None => None,
        }
    }
}

impl ErrorTypeModeStore {
    /// An empty store.
    pub fn new() -> (r: ErrorTypeModeStore)
        ensures
            r@ is None,
    {
        ErrorTypeModeStore { mode: None }
    }

    /// The stored mode, if any.
    pub fn get(&self) -> (r: Option<ErrorTypeMode>)
        ensures
            match r {
                Some(m) => self@ == Some(mode_parts(m)),
                None => self@ is None,
            },
    {
        match &self.mode {
            Some(m) => Some(copy_mode(m)),
            None => None,
        }
    }

    /// The stored mode; when there is none, the mode resolved from the given
    /// configuration values (as [`resolve_error_type_mode`]), which is then
    /// kept.
    pub fn get_or_resolve(
        &mut self,
        build_url: Option<&str>,
        run_url: Option<&str>,
        build_ns: Option<&str>,
        run_ns: Option<&str>,
    ) -> (r: ErrorTypeMode)
        ensures
            match old(self)@ {
                Some(p) => mode_parts(r) == p && final(self)@ == old(self)@,
                None => mode_parts(r) == spec_resolve_mode(
                    opt_view(build_url),
                    opt_view(run_url),
                    opt_view(build_ns),
                    opt_view(run_ns),
                ) && final(self)@ == Some(mode_parts(r)),
            },
    {
        match &self.mode {
            Some(m) => copy_mode(m),
            None => {
                let m = resolve_error_type_mode(build_url, run_url, build_ns, run_ns);
                self.mode = Some(copy_mode(&m));
                m
            },
        }
    }

    /// Stores `mode`, replacing any mode set or resolved before.
    pub fn set(&mut self, mode: ErrorTypeMode)
        ensures
            final(self)@ == Some(mode_parts(mode)),
    {
        self.mode = Some(mode);
    }

    /// Empties the store, so that the next read resolves the mode again.
    pub fn reset(&mut self)
        ensures
            final(self)@ is None,
    {
        self.mode = None;
    }
}

/// The URN namespace of a mode; URL mode reports the default namespace.
pub fn mode_urn_namespace(mode: &ErrorTypeMode) -> (r: String)
    ensures
        r@ == (match *mode {
            ErrorTypeMode::Urn { namespace } => namespace@,
            ErrorTypeMode::Url { .. } => default_namespace(),
        }),
{
    match mode {
        ErrorTypeMode::Urn { namespace } => {
            let v = chars_of(namespace.as_str());
            string_from_chars(v.as_slice())
        },
        ErrorTypeMode::Url { .. } => owned("api-bones"),
    }
}

impl ErrorCode {
    /// HTTP status code for this error code.
    pub fn status_code(&self) -> (r: u16)
        ensures
            r == spec_status(*self),
    {
        match self {
            ErrorCode::BadRequest | ErrorCode::ValidationFailed => 400,
            ErrorCode::Unauthorized | ErrorCode::InvalidCredentials | ErrorCode::TokenExpired
            | ErrorCode::TokenInvalid => 401,
            ErrorCode::Forbidden | ErrorCode::InsufficientPermissions => 403,
            ErrorCode::ResourceNotFound => 404,
            ErrorCode::Conflict | ErrorCode::ResourceAlreadyExists => 409,
            ErrorCode::UnprocessableEntity => 422,
            ErrorCode::RateLimited => 429,
            ErrorCode::InternalServerError => 500,
            ErrorCode::ServiceUnavailable => 503,
        }
    }

    /// Human-friendly title (RFC 9457 `title`).
    pub fn title(&self) -> (r: &'static str)
        ensures
            r@ == spec_title(*self),
    {
        match self {
            ErrorCode::BadRequest => "Bad Request",
            ErrorCode::ValidationFailed => "Validation Failed",
            ErrorCode::Unauthorized => "Unauthorized",
            ErrorCode::InvalidCredentials => "Invalid Credentials",
            ErrorCode::TokenExpired => "Token Expired",
            ErrorCode::TokenInvalid => "Token Invalid",
            ErrorCode::Forbidden => "Forbidden",
            ErrorCode::InsufficientPermissions => "Insufficient Permissions",
            ErrorCode::ResourceNotFound => "Resource Not Found",
            ErrorCode::Conflict => "Conflict",
            ErrorCode::ResourceAlreadyExists => "Resource Already Exists",
            ErrorCode::UnprocessableEntity => "Unprocessable Entity",
            ErrorCode::RateLimited => "Rate Limited",
            ErrorCode::InternalServerError => "Internal Server Error",
            ErrorCode::ServiceUnavailable => "Service Unavailable",
        }
    }

    /// The URN slug (the part after `urn:<namespace>:error:`).
    pub fn urn_slug(&self) -> (r: &'static str)
        ensures
            r@ == spec_slug(*self),
    {
        match self {
            ErrorCode::BadRequest => "bad-request",
            ErrorCode::ValidationFailed => "validation-failed",
            ErrorCode::Unauthorized => "unauthorized",
            ErrorCode::InvalidCredentials => "invalid-credentials",
            ErrorCode::TokenExpired => "token-expired",
            ErrorCode::TokenInvalid => "token-invalid",
            ErrorCode::Forbidden => "forbidden",
            ErrorCode::InsufficientPermissions => "insufficient-permissions",
            ErrorCode::ResourceNotFound => "resource-not-found",
            ErrorCode::Conflict => "conflict",
            ErrorCode::ResourceAlreadyExists => "resource-already-exists",
            ErrorCode::UnprocessableEntity => "unprocessable-entity",
            ErrorCode::RateLimited => "rate-limited",
            ErrorCode::InternalServerError => "internal-server-error",
            ErrorCode::ServiceUnavailable => "service-unavailable",
        }
    }

    /// Full type URI of this code under `mode`.
    pub fn urn(&self, mode: &ErrorTypeMode) -> (r: String)
        ensures
            r@ == spec_render(*mode, spec_slug(*self)),
    {
        mode.render(self.urn_slug())
    }

    /// Parse a type URI (URL or URN form) back into a code under `mode`.
    pub fn from_type_uri(s: &str, mode: &ErrorTypeMode) -> (r: Option<ErrorCode>)
        ensures
            r == spec_from_type_uri(*mode, s@),
    {
        let v = chars_of(s);
        let p = prefix_chars(mode);
        let slug = match mode {
            ErrorTypeMode::Url { .. } => match strip_prefix_chars(v.as_slice(), p.as_slice()) {
                Some(rest) => rest,
                None => {
                    let fallback = chars_of("urn:api-bones:error:");
                    proof {
                        reveal_strlit("urn:api-bones:error:");
                        reveal_strlit("urn:");
                        reveal_strlit("api-bones");
                        reveal_strlit(":error:");
                        assert(fallback@ =~= "urn:"@ + default_namespace() + ":error:"@);
                    }
                    match strip_prefix_chars(v.as_slice(), fallback.as_slice()) {
                        Some(rest) => rest,
                        None => {
                            return None;
                        },
                    }
                },
            },
            ErrorTypeMode::Urn { .. } => match strip_prefix_chars(v.as_slice(), p.as_slice()) {
                Some(rest) => rest,
                None => {
                    return None;
                },
            },
        };
        code_from_slug(slug.as_slice())
    }
}

/// The code whose slug is `v`.
fn code_from_slug(v: &[char]) -> (r: Option<ErrorCode>)
    ensures
        r == from_slug(v@),
{
    if chars_eq_str(v, "bad-request") {
        Some(ErrorCode::BadRequest)
    } else if chars_eq_str(v, "validation-failed") {
        Some(ErrorCode::ValidationFailed)
    } else if chars_eq_str(v, "unauthorized") {
        Some(ErrorCode::Unauthorized)
    } else if chars_eq_str(v, "invalid-credentials") {
        Some(ErrorCode::InvalidCredentials)
    } else if chars_eq_str(v, "token-expired") {
        Some(ErrorCode::TokenExpired)
    } else if chars_eq_str(v, "token-invalid") {
        Some(ErrorCode::TokenInvalid)
    } else if chars_eq_str(v, "forbidden") {
        Some(ErrorCode::Forbidden)
    } else if chars_eq_str(v, "insufficient-permissions") {
        Some(ErrorCode::InsufficientPermissions)
    } else if chars_eq_str(v, "resource-not-found") {
        Some(ErrorCode::ResourceNotFound)
    } else if chars_eq_str(v, "conflict") {
        Some(ErrorCode::Conflict)
    } else if chars_eq_str(v, "resource-already-exists") {
        Some(ErrorCode::ResourceAlreadyExists)
    } else if chars_eq_str(v, "unprocessable-entity") {
        Some(ErrorCode::UnprocessableEntity)
    } else if chars_eq_str(v, "rate-limited") {
        Some(ErrorCode::RateLimited)
    } else if chars_eq_str(v, "internal-server-error") {
        Some(ErrorCode::InternalServerError)
    } else if chars_eq_str(v, "service-unavailable") {
        Some(ErrorCode::ServiceUnavailable)
    } else {
        None
    }
}

/// Every code's status is a valid HTTP status (RFC 9457 §3.1.3: 100–599),
/// and in the client or server error range.
pub proof fn lemma_status_in_http_range(c: ErrorCode)
    ensures
        100 <= spec_status(c) <= 599,
        400 <= spec_status(c),
{
}

/// The slug of every code maps back to that code.
pub proof fn lemma_slug_roundtrip(c: ErrorCode)
    ensures
        from_slug(spec_slug(c)) == Some(c),
{
    reveal_strlit("bad-request");
    reveal_strlit("validation-failed");
    reveal_strlit("unauthorized");
    reveal_strlit("invalid-credentials");
    reveal_strlit("token-expired");
    reveal_strlit("token-invalid");
    reveal_strlit("forbidden");
    reveal_strlit("insufficient-permissions");
    reveal_strlit("resource-not-found");
    reveal_strlit("conflict");
    reveal_strlit("resource-already-exists");
    reveal_strlit("unprocessable-entity");
    reveal_strlit("rate-limited");
    reveal_strlit("internal-server-error");
    reveal_strlit("service-unavailable");
    assert("bad-request"@.len() == 11);
    assert("validation-failed"@.len() == 17);
    assert("unauthorized"@.len() == 12);
    assert("invalid-credentials"@.len() == 19);
    assert("token-expired"@.len() == 13);
    assert("token-invalid"@.len() == 13);
    assert("forbidden"@.len() == 9);
    assert("insufficient-permissions"@.len() == 24);
    assert("resource-not-found"@.len() == 18);
    assert("conflict"@.len() == 8);
    assert("resource-already-exists"@.len() == 23);
    assert("unprocessable-entity"@.len() == 20);
    assert("rate-limited"@.len() == 12);
    assert("internal-server-error"@.len() == 21);
    assert("service-unavailable"@.len() == 19);
    assert("unauthorized"@[0] != "rate-limited"@[0]);
    assert("token-expired"@[6] != "token-invalid"@[6]);
    assert("invalid-credentials"@[0] != "service-unavailable"@[0]);
}

/// Distinct codes have distinct slugs.
pub proof fn lemma_slug_injective(c: ErrorCode, d: ErrorCode)
    ensures
        c != d ==> spec_slug(c) != spec_slug(d),
{
    lemma_slug_roundtrip(c);
    lemma_slug_roundtrip(d);
}

/// Parsing the type URI of a code, under the same mode, gives the code back.
pub proof fn lemma_type_uri_roundtrip(c: ErrorCode, mode: ErrorTypeMode)
    ensures
        spec_from_type_uri(mode, spec_render(mode, spec_slug(c))) == Some(c),
{
    lemma_strip_prefix_concat(type_prefix(mode), spec_slug(c));
    lemma_slug_roundtrip(c);
}

// ---------------------------------------------------------------------------
// Validation error
// ---------------------------------------------------------------------------

/// A single field-level validation error.
#[derive(Debug, Clone, PartialEq, Eq)]
pub struct ValidationError {
    /// JSON Pointer to the offending field (e.g. `"/email"`).
    pub field: String,
    /// Human-readable description of what went wrong.
    pub message: String,
    /// Optional machine-readable rule that failed (e.g. `"min_length"`).
    pub rule: Option<String>,
}

/// `"{field}: {message}"`, followed by `" (rule: {rule})"` when a rule is set.
pub open spec fn spec_validation_text(e: ValidationError) -> Seq<char> {
    match e.rule {
        Some(rule) => e.field@ + ": "@ + e.message@ + " (rule: "@ + rule@ + ")"@,
        None => e.field@ + ": "@ + e.message@,
    }
}

impl ValidationError {
    /// The human-readable rendering.
    pub fn to_string(&self) -> (r: String)
        ensures
            r@ == spec_validation_text(*self),
    {
        let mut s = String::new();
        push_chars(&mut s, chars_of(self.field.as_str()).as_slice());
        push_chars(&mut s, chars_of(": ").as_slice());
        push_chars(&mut s, chars_of(self.message.as_str()).as_slice());
        match &self.rule {
            Some(rule) => {
                push_chars(&mut s, chars_of(" (rule: ").as_slice());
                push_chars(&mut s, chars_of(rule.as_str()).as_slice());
                push_chars(&mut s, chars_of(")").as_slice());
            },
            None => {},
        }
        s
    }
}

// ---------------------------------------------------------------------------
// API error
// ---------------------------------------------------------------------------

/// RFC 9457 problem-details error.
#[derive(Debug, Clone, PartialEq)]
pub struct ApiError {
    /// Machine-readable code (`type`).
    pub code: ErrorCode,
    /// Human-friendly label (`title`).
    pub title: String,
    /// HTTP status (`status`).
    pub status: u16,
    /// Human-readable specifics (`detail`).
    pub detail: String,
    /// The occurrence (`instance`, as `urn:uuid:<id>`).
    pub request_id: Option<Uuid>,
    /// Field-level validation errors (extension member).
    pub errors: Vec<ValidationError>,
}

/// `ApiError::new(code, detail)` has exactly these fields.
pub open spec fn is_fresh(e: ApiError, code: ErrorCode, detail: Seq<char>) -> bool {
    &&& e.code == code
    &&& e.title@ == spec_title(code)
    &&& e.status == spec_status(code)
    &&& e.detail@ == detail
    &&& e.request_id is None
    &&& e.errors@.len() == 0
}

/// An error as its code, title, status, detail, request id and validation
/// errors.
pub open spec fn error_view(e: ApiError) -> (
    ErrorCode,
    Seq<char>,
    u16,
    Seq<char>,
    Option<Uuid>,
    Seq<ValidationError>,
) {
    (e.code, e.title@, e.status, e.detail@, e.request_id, e.errors@)
}

/// The error `ApiError::new(code, detail)` gives, with `request_id` and
/// `errors` attached (`None` and none for `new` itself).
pub open spec fn new_error(
    code: ErrorCode,
    detail: Seq<char>,
    request_id: Option<Uuid>,
    errors: Seq<ValidationError>,
) -> (ErrorCode, Seq<char>, u16, Seq<char>, Option<Uuid>, Seq<ValidationError>) {
    (code, spec_title(code), spec_status(code), detail, request_id, errors)
}

/// `"[{type}] {detail}"`.
pub open spec fn spec_error_text(e: ApiError, mode: ErrorTypeMode) -> Seq<char> {
    "["@ + spec_render(mode, spec_slug(e.code)) + "] "@ + e.detail@
}

/// Detail of [`ApiError::rate_limited`].
pub open spec fn rate_limited_detail(secs: u64) -> Seq<char> {
    "Rate limited, retry after "@ + fmt_u64(secs as nat) + "s"@
}

impl ApiError {
    /// A new error; `title` and `status` are derived from `code`.
    pub fn new(code: ErrorCode, detail: &str) -> (r: ApiError)
        ensures
            is_fresh(r, code, detail@),
            error_view(r) == new_error(code, detail@, None, Seq::empty()),
    {
        let status = code.status_code();
        ApiError {
            code,
            title: owned(code.title()),
            status,
            detail: owned(detail),
            request_id: None,
            errors: Vec::new(),
        }
    }

    /// Attach a request id.
    pub fn with_request_id(self, id: Uuid) -> (r: ApiError)
        ensures
            r == (ApiError { request_id: Some(id), ..self }),
    {
        ApiError { request_id: Some(id), ..self }
    }

    /// Attach field-level validation errors (replacing any present).
    pub fn with_errors(self, errors: Vec<ValidationError>) -> (r: ApiError)
        ensures
            r == (ApiError { errors: errors, ..self }),
    {
        ApiError { errors, ..self }
    }

    /// HTTP status code.
    pub fn status_code(&self) -> (r: u16)
        ensures
            r == self.status,
    {
        self.status
    }

    /// Whether this is a client error (a 4xx status).
    pub fn is_client_error(&self) -> (r: bool)
        ensures
            r == (400 <= self.status <= 499),
    {
        400 <= self.status && self.status <= 499
    }

    /// Whether this is a server error (a 5xx status).
    pub fn is_server_error(&self) -> (r: bool)
        ensures
            r == (500 <= self.status <= 599),
    {
        500 <= self.status && self.status <= 599
    }

    /// 400 Bad Request.
    pub fn bad_request(msg: &str) -> (r: ApiError)
        ensures
            is_fresh(r, ErrorCode::BadRequest, msg@),
    {
        ApiError::new(ErrorCode::BadRequest, msg)
    }

    /// 400 Validation Failed.
    pub fn validation_failed(msg: &str) -> (r: ApiError)
        ensures
            is_fresh(r, ErrorCode::ValidationFailed, msg@),
    {
        ApiError::new(ErrorCode::ValidationFailed, msg)
    }

    /// 401 Unauthorized.
    pub fn unauthorized(msg: &str) -> (r: ApiError)
        ensures
            is_fresh(r, ErrorCode::Unauthorized, msg@),
    {
        ApiError::new(ErrorCode::Unauthorized, msg)
    }

    /// 401 Invalid Credentials.
    pub fn invalid_credentials() -> (r: ApiError)
        ensures
            is_fresh(r, ErrorCode::InvalidCredentials, "Invalid credentials"@),
    {
        ApiError::new(ErrorCode::InvalidCredentials, "Invalid credentials")
    }

    /// 401 Token Expired.
    pub fn token_expired() -> (r: ApiError)
        ensures
            is_fresh(r, ErrorCode::TokenExpired, "Token has expired"@),
    {
        ApiError::new(ErrorCode::TokenExpired, "Token has expired")
    }

    /// 403 Forbidden.
    pub fn forbidden(msg: &str) -> (r: ApiError)
        ensures
            is_fresh(r, ErrorCode::Forbidden, msg@),
    {
        ApiError::new(ErrorCode::Forbidden, msg)
    }

    /// 403 Insufficient Permissions.
    pub fn insufficient_permissions(msg: &str) -> (r: ApiError)
        ensures
            is_fresh(r, ErrorCode::InsufficientPermissions, msg@),
    {
        ApiError::new(ErrorCode::InsufficientPermissions, msg)
    }

    /// 404 Resource Not Found.
    pub fn not_found(msg: &str) -> (r: ApiError)
        ensures
            is_fresh(r, ErrorCode::ResourceNotFound, msg@),
    {
        ApiError::new(ErrorCode::ResourceNotFound, msg)
    }

    /// 409 Conflict.
    pub fn conflict(msg: &str) -> (r: ApiError)
        ensures
            is_fresh(r, ErrorCode::Conflict, msg@),
    {
        ApiError::new(ErrorCode::Conflict, msg)
    }

    /// 409 Resource Already Exists.
    pub fn already_exists(msg: &str) -> (r: ApiError)
        ensures
            is_fresh(r, ErrorCode::ResourceAlreadyExists, msg@),
    {
        ApiError::new(ErrorCode::ResourceAlreadyExists, msg)
    }

    /// 422 Unprocessable Entity.
    pub fn unprocessable(msg: &str) -> (r: ApiError)
        ensures
            is_fresh(r, ErrorCode::UnprocessableEntity, msg@),
    {
        ApiError::new(ErrorCode::UnprocessableEntity, msg)
    }

    /// 429 Rate Limited, with the retry delay in the detail.
    pub fn rate_limited(retry_after_seconds: u64) -> (r: ApiError)
        ensures
            is_fresh(r, ErrorCode::RateLimited, rate_limited_detail(retry_after_seconds)),
    {
        let mut d = String::new();
        push_chars(&mut d, chars_of("Rate limited, retry after ").as_slice());
        push_u64(&mut d, retry_after_seconds);
        push_chars(&mut d, chars_of("s").as_slice());
        ApiError::new(ErrorCode::RateLimited, d.as_str())
    }

    /// 500 Internal Server Error.
    pub fn internal(msg: &str) -> (r: ApiError)
        ensures
            is_fresh(r, ErrorCode::InternalServerError, msg@),
    {
        ApiError::new(ErrorCode::InternalServerError, msg)
    }

    /// 503 Service Unavailable.
    pub fn unavailable(msg: &str) -> (r: ApiError)
        ensures
            is_fresh(r, ErrorCode::ServiceUnavailable, msg@),
    {
        ApiError::new(ErrorCode::ServiceUnavailable, msg)
    }

    /// A builder with neither code nor detail set yet.
    pub fn builder() -> (r: ApiErrorBuilder<(), ()>)
        ensures
            r.spec_request_id() is None,
            r.spec_errors().len() == 0,
    {
        ApiErrorBuilder { code: (), detail: (), request_id: None, errors: Vec::new() }
    }

    /// `"[{type}] {detail}"`, the type URI rendered under `mode`.
    pub fn to_string_with(&self, mode: &ErrorTypeMode) -> (r: String)
        ensures
            r@ == spec_error_text(*self, *mode),
    {
        let mut s = String::new();
        push_chars(&mut s, chars_of("[").as_slice());
        let urn = self.code.urn(mode);
        push_chars(&mut s, chars_of(urn.as_str()).as_slice());
        push_chars(&mut s, chars_of("] ").as_slice());
        push_chars(&mut s, chars_of(self.detail.as_str()).as_slice());
        s
    }
}

// ---------------------------------------------------------------------------
// ApiError builder — typestate
// ---------------------------------------------------------------------------

/// Typestate builder for [`ApiError`]: `build` exists once both the code
/// (`C = ErrorCode`) and the detail (`D = String`) are set.
pub struct ApiErrorBuilder<C, D> {
    code: C,
    detail: D,
    request_id: Option<Uuid>,
    errors: Vec<ValidationError>,
}

impl<C, D> ApiErrorBuilder<C, D> {
    pub closed spec fn spec_code(&self) -> C {
        self.code
    }

    pub closed spec fn spec_detail(&self) -> D {
        self.detail
    }

    pub closed spec fn spec_request_id(&self) -> Option<Uuid> {
        self.request_id
    }

    pub closed spec fn spec_errors(&self) -> Seq<ValidationError> {
        self.errors@
    }

    /// Attach a request id.
    pub fn request_id(self, id: Uuid) -> (r: ApiErrorBuilder<C, D>)
        ensures
            r.spec_code() == self.spec_code(),
            r.spec_detail() == self.spec_detail(),
            r.spec_request_id() == Some(id),
            r.spec_errors() == self.spec_errors(),
    {
        ApiErrorBuilder { request_id: Some(id), ..self }
    }

    /// Attach field-level validation errors.
    pub fn errors(self, errors: Vec<ValidationError>) -> (r: ApiErrorBuilder<C, D>)
        ensures
            r.spec_code() == self.spec_code(),
            r.spec_detail() == self.spec_detail(),
            r.spec_request_id() == self.spec_request_id(),
            r.spec_errors() == errors@,
    {
        ApiErrorBuilder { errors, ..self }
    }
}

impl<D> ApiErrorBuilder<(), D> {
    /// Set the error code.
    pub fn code(self, code: ErrorCode) -> (r: ApiErrorBuilder<ErrorCode, D>)
        ensures
            r.spec_code() == code,
            r.spec_detail() == self.spec_detail(),
            r.spec_request_id() == self.spec_request_id(),
            r.spec_errors() == self.spec_errors(),
    {
        ApiErrorBuilder {
            code,
            detail: self.detail,
            request_id: self.request_id,
            errors: self.errors,
        }
    }
}

impl<C> ApiErrorBuilder<C, ()> {
    /// Set the human-readable detail.
    pub fn detail(self, detail: &str) -> (r: ApiErrorBuilder<C, String>)
        ensures
            r.spec_code() == self.spec_code(),
            r.spec_detail()@ == detail@,
            r.spec_request_id() == self.spec_request_id(),
            r.spec_errors() == self.spec_errors(),
    {
        ApiErrorBuilder {
            code: self.code,
            detail: owned(detail),
            request_id: self.request_id,
            errors: self.errors,
        }
    }
}

impl ApiErrorBuilder<ErrorCode, String> {
    /// Build the error: as `ApiError::new(code, detail)` with the request id
    /// and validation errors that were set (none when unset), whichever order
    /// the code and the detail were set in.
    pub fn build(self) -> (r: ApiError)
        ensures
            error_view(r) == new_error(
                self.spec_code(),
                self.spec_detail()@,
                self.spec_request_id(),
                self.spec_errors(),
            ),
            r.code == self.spec_code(),
            r.title@ == spec_title(self.spec_code()),
            r.status == spec_status(self.spec_code()),
            r.detail@ == self.spec_detail()@,
            r.request_id == self.spec_request_id(),
            r.errors@ == self.spec_errors(),
    {
        let e = ApiError::new(self.code, self.detail.as_str());
        let e = ApiError { request_id: self.request_id, ..e };
        e.with_errors(self.errors)
    }
}

} // verus!
