//! HTTP authentication: schemes, credential newtypes, the `Authorization`
//! header parser and renderer, and OAuth 2.0 scopes and permissions.

use vstd::prelude::*;
use vstd::utf8::*;
use crate::audit::{spec_str_debug, str_debug};
use crate::encoding::{
    b64_standard_decode, b64_standard_encode, decodes_to, is_b64_standard_char,
    spec_b64_standard_decode, spec_b64_standard_encode, utf8_decode,
};
use crate::text::{
    ascii_tokens, ascii_tokens_chars, flush, tokens_from, lemma_trim_id, chars_eq_str, chars_of, is_ascii_ws, is_token, is_ws,
    lemma_tokens_from_wf, owned, push_chars, split_once, split_once_chars, string_from_chars,
    trim, trim_chars, views, trimmed_nonempty, lemma_render_split, lemma_split_once_at,
};

verus! {

// ---------------------------------------------------------------------------
// AuthScheme
// ---------------------------------------------------------------------------

/// An HTTP authentication scheme; unknown schemes are kept as `Custom`.
#[derive(Debug, Clone, PartialEq, Eq, Hash)]
pub enum AuthScheme {
    /// RFC 6750 Bearer token.
    Bearer,
    /// RFC 7617 Basic authentication.
    Basic,
    /// API key in the `Authorization` header.
    ApiKey,
    /// OAuth 2.0 token.
    OAuth2,
    /// RFC 7616 Digest authentication.
    Digest,
    /// Any other scheme.
    Custom(String),
}

/// The abstract value of an [`AuthScheme`].
pub enum SchemeV {
    Bearer,
    Basic,
    ApiKey,
    OAuth2,
    Digest,
    Custom(Seq<char>),
}

impl View for AuthScheme {
    type V = SchemeV;

    open spec fn view(&self) -> SchemeV {
        match self {
            AuthScheme::Bearer => SchemeV::Bearer,
            AuthScheme::Basic => SchemeV::Basic,
            AuthScheme::ApiKey => SchemeV::ApiKey,
            AuthScheme::OAuth2 => SchemeV::OAuth2,
            AuthScheme::Digest => SchemeV::Digest,
            AuthScheme::Custom(s) => SchemeV::Custom(s@),
        }
    }
}

/// The names each well-known scheme is recognised by.
pub open spec fn is_bearer_name(s: Seq<char>) -> bool {
    s == "Bearer"@ || s == "bearer"@
}

pub open spec fn is_basic_name(s: Seq<char>) -> bool {
    s == "Basic"@ || s == "basic"@
}

pub open spec fn is_api_key_name(s: Seq<char>) -> bool {
    s == "ApiKey"@ || s == "apikey"@ || s == "APIKEY"@
}

pub open spec fn is_oauth2_name(s: Seq<char>) -> bool {
    s == "OAuth2"@ || s == "oauth2"@ || s == "OAuth"@
}

pub open spec fn is_digest_name(s: Seq<char>) -> bool {
    s == "Digest"@ || s == "digest"@
}

/// Whether `s` names one of the well-known schemes.
pub open spec fn is_known_scheme(s: Seq<char>) -> bool {
    is_bearer_name(s) || is_basic_name(s) || is_api_key_name(s) || is_oauth2_name(s)
        || is_digest_name(s)
}

/// The scheme a name denotes (case variants as listed; anything else is custom).
pub open spec fn scheme_of(s: Seq<char>) -> SchemeV {
    if is_bearer_name(s) {
        SchemeV::Bearer
    } else if is_basic_name(s) {
        SchemeV::Basic
    } else if is_api_key_name(s) {
        SchemeV::ApiKey
    } else if is_oauth2_name(s) {
        SchemeV::OAuth2
    } else if is_digest_name(s) {
        SchemeV::Digest
    } else {
        SchemeV::Custom(s)
    }
}

/// The canonical name of a scheme.
pub open spec fn scheme_text(v: SchemeV) -> Seq<char> {
    match v {
        SchemeV::Bearer => "Bearer"@,
        SchemeV::Basic => "Basic"@,
        SchemeV::ApiKey => "ApiKey"@,
        SchemeV::OAuth2 => "OAuth2"@,
        SchemeV::Digest => "Digest"@,
        SchemeV::Custom(s) => s,
    }
}

impl AuthScheme {
    /// Parse a scheme name; never fails, unknown names become `Custom`.
    pub fn parse(s: &str) -> (r: AuthScheme)
        ensures
            r@ == scheme_of(s@),
    {
        let v = chars_of(s);
        if chars_eq_str(v.as_slice(), "Bearer") || chars_eq_str(v.as_slice(), "bearer") {
            AuthScheme::Bearer
        } else if chars_eq_str(v.as_slice(), "Basic") || chars_eq_str(v.as_slice(), "basic") {
            AuthScheme::Basic
        } else if chars_eq_str(v.as_slice(), "ApiKey") || chars_eq_str(v.as_slice(), "apikey")
            || chars_eq_str(v.as_slice(), "APIKEY") {
            AuthScheme::ApiKey
        } else if chars_eq_str(v.as_slice(), "OAuth2") || chars_eq_str(v.as_slice(), "oauth2")
            || chars_eq_str(v.as_slice(), "OAuth") {
            AuthScheme::OAuth2
        } else if chars_eq_str(v.as_slice(), "Digest") || chars_eq_str(v.as_slice(), "digest") {
            AuthScheme::Digest
        } else {
            AuthScheme::Custom(owned(s))
        }
    }

    /// The scheme's name.
    pub fn to_string(&self) -> (r: String)
        ensures
            r@ == scheme_text(self@),
    {
        match self {
            AuthScheme::Bearer => owned("Bearer"),
            AuthScheme::Basic => owned("Basic"),
            AuthScheme::ApiKey => owned("ApiKey"),
            AuthScheme::OAuth2 => owned("OAuth2"),
            AuthScheme::Digest => owned("Digest"),
            AuthScheme::Custom(s) => owned(s.as_str()),
        }
    }
}

impl core::str::FromStr for AuthScheme {
    type Err = core::convert::Infallible;

    fn from_str(s: &str) -> (r: Result<AuthScheme, core::convert::Infallible>)
        ensures
            r matches Ok(a) && a@ == scheme_of(s@),
    {
        Ok(AuthScheme::parse(s))
    }
}

/// Rendering a scheme and parsing the name gives the scheme back, for every
/// well-known scheme and every custom name that is not a well-known one.
pub proof fn lemma_scheme_roundtrip(v: SchemeV)
    requires
        v matches SchemeV::Custom(s) ==> !is_known_scheme(s),
    ensures
        scheme_of(scheme_text(v)) == v,
{
    lemma_scheme_names();
}

/// The lengths and first characters of the scheme names, which tell them apart.
proof fn lemma_scheme_names()
    ensures
        "Bearer"@.len() == 6 && "bearer"@.len() == 6 && "Basic"@.len() == 5 && "basic"@.len()
            == 5 && "ApiKey"@.len() == 6 && "apikey"@.len() == 6 && "APIKEY"@.len() == 6
            && "OAuth2"@.len() == 6 && "oauth2"@.len() == 6 && "OAuth"@.len() == 5
            && "Digest"@.len() == 6 && "digest"@.len() == 6,
        "Bearer"@[0] == 'B' && "bearer"@[0] == 'b' && "Basic"@[0] == 'B' && "basic"@[0] == 'b'
            && "ApiKey"@[0] == 'A' && "apikey"@[0] == 'a' && "APIKEY"@[0] == 'A' && "OAuth2"@[0]
            == 'O' && "oauth2"@[0] == 'o' && "OAuth"@[0] == 'O' && "Digest"@[0] == 'D'
            && "digest"@[0] == 'd',
{
    reveal_strlit("Bearer");
    reveal_strlit("bearer");
    reveal_strlit("Basic");
    reveal_strlit("basic");
    reveal_strlit("ApiKey");
    reveal_strlit("apikey");
    reveal_strlit("APIKEY");
    reveal_strlit("OAuth2");
    reveal_strlit("oauth2");
    reveal_strlit("OAuth");
    reveal_strlit("Digest");
    reveal_strlit("digest");
    assert("Bearer"@.len() == 6 && "bearer"@.len() == 6 && "Basic"@.len() == 5 && "basic"@.len()
        == 5 && "ApiKey"@.len() == 6 && "apikey"@.len() == 6 && "APIKEY"@.len() == 6
        && "OAuth2"@.len() == 6 && "oauth2"@.len() == 6 && "OAuth"@.len() == 5 && "Digest"@.len()
        == 6 && "digest"@.len() == 6);
    assert("Bearer"@[0] == 'B' && "bearer"@[0] == 'b' && "ApiKey"@[0] == 'A' && "apikey"@[0]
        == 'a' && "APIKEY"@[0] == 'A' && "OAuth2"@[0] == 'O' && "oauth2"@[0] == 'o'
        && "Digest"@[0] == 'D');
}

// ---------------------------------------------------------------------------
// Credentials
// ---------------------------------------------------------------------------

/// An opaque bearer token; its `Debug` form hides the value.
#[derive(Clone, PartialEq, Eq)]
pub struct BearerToken(String);

impl View for BearerToken {
    type V = Seq<char>;

    closed spec fn view(&self) -> Seq<char> {
        self.0@
    }
}

impl BearerToken {
    /// A token holding `token`.
    pub fn new(token: &str) -> (r: BearerToken)
        ensures
            r@ == token@,
    {
        BearerToken(owned(token))
    }

    /// The raw token.
    pub fn as_str(&self) -> (r: &str)
        ensures
            r@ == self@,
    {
        self.0.as_str()
    }

    /// The raw token, owned.
    pub fn to_string(&self) -> (r: String)
        ensures
            r@ == self@,
    {
        owned(self.0.as_str())
    }

    /// `BearerToken("[REDACTED]")`: the `Debug` text, which never shows the token.
    pub fn debug_text(&self) -> (r: String)
        ensures
            r@ == "BearerToken(\"[REDACTED]\")"@,
    {
        owned("BearerToken(\"[REDACTED]\")")
    }
}

impl core::fmt::Debug for BearerToken {
    /// Writes [`BearerToken::debug_text`].
    fn fmt(&self, f: &mut core::fmt::Formatter<'_>) -> core::fmt::Result {
        let text = self.debug_text();
        crate::text::write_text(f, text.as_str())
    }
}

/// Username and password for HTTP Basic authentication; `Debug` hides the
/// password.
#[derive(Clone, PartialEq, Eq)]
pub struct BasicCredentials {
    username: String,
    password: String,
}

impl View for BasicCredentials {
    type V = (Seq<char>, Seq<char>);

    closed spec fn view(&self) -> (Seq<char>, Seq<char>) {
        (self.username@, self.password@)
    }
}

impl BasicCredentials {
    /// Credentials for `username` with `password`.
    pub fn new(username: &str, password: &str) -> (r: BasicCredentials)
        ensures
            r@ == (username@, password@),
    {
        BasicCredentials { username: owned(username), password: owned(password) }
    }

    /// The username.
    pub fn username(&self) -> (r: &str)
        ensures
            r@ == self@.0,
    {
        self.username.as_str()
    }

    /// The password.
    pub fn password(&self) -> (r: &str)
        ensures
            r@ == self@.1,
    {
        self.password.as_str()
    }

    /// `BasicCredentials { username: <debug of username>, password: "[REDACTED]" }`.
    pub fn debug_text(&self) -> (r: String)
        ensures
            r@ == "BasicCredentials { username: "@ + spec_str_debug(self@.0)
                + ", password: \"[REDACTED]\" }"@,
    {
        let mut s = owned("BasicCredentials { username: ");
        let d = str_debug(self.username.as_str());
        push_chars(&mut s, chars_of(d.as_str()).as_slice());
        push_chars(&mut s, chars_of(", password: \"[REDACTED]\" }").as_slice());
        s
    }
}

impl core::fmt::Debug for BasicCredentials {
    /// Writes [`BasicCredentials::debug_text`].
    fn fmt(&self, f: &mut core::fmt::Formatter<'_>) -> core::fmt::Result {
        let text = self.debug_text();
        crate::text::write_text(f, text.as_str())
    }
}

/// An API key sent in the `Authorization` header; `Debug` hides it.
#[derive(Clone, PartialEq, Eq)]
pub struct ApiKeyCredentials(String);

impl View for ApiKeyCredentials {
    type V = Seq<char>;

    closed spec fn view(&self) -> Seq<char> {
        self.0@
    }
}

impl ApiKeyCredentials {
    /// A key holding `key`.
    pub fn new(key: &str) -> (r: ApiKeyCredentials)
        ensures
            r@ == key@,
    {
        ApiKeyCredentials(owned(key))
    }

    /// The raw key.
    pub fn as_str(&self) -> (r: &str)
        ensures
            r@ == self@,
    {
        self.0.as_str()
    }

    /// `ApiKeyCredentials("[REDACTED]")`.
    pub fn debug_text(&self) -> (r: String)
        ensures
            r@ == "ApiKeyCredentials(\"[REDACTED]\")"@,
    {
        owned("ApiKeyCredentials(\"[REDACTED]\")")
    }
}

impl core::fmt::Debug for ApiKeyCredentials {
    /// Writes [`ApiKeyCredentials::debug_text`].
    fn fmt(&self, f: &mut core::fmt::Formatter<'_>) -> core::fmt::Result {
        let text = self.debug_text();
        crate::text::write_text(f, text.as_str())
    }
}

/// An OAuth 2.0 access token with an optional token type; `Debug` hides the
/// token.
#[derive(Clone, PartialEq, Eq)]
pub struct OAuth2Token {
    access_token: String,
    token_type: Option<String>,
}

/// The view of an optional string.
pub open spec fn opt_str(o: Option<String>) -> Option<Seq<char>> {
    match o {
        Some(s) => Some(s@),
        None => None,
    }
}

/// The view of an optional string slice.
pub open spec fn opt_ref(o: Option<&str>) -> Option<Seq<char>> {
    match o {
        Some(s) => Some(s@),
        None => None,
    }
}

impl View for OAuth2Token {
    type V = (Seq<char>, Option<Seq<char>>);

    closed spec fn view(&self) -> (Seq<char>, Option<Seq<char>>) {
        (self.access_token@, opt_str(self.token_type))
    }
}

impl OAuth2Token {
    /// A token `access_token` of type `token_type`.
    pub fn new(access_token: &str, token_type: Option<&str>) -> (r: OAuth2Token)
        ensures
            r@ == (access_token@, opt_ref(token_type)),
    {
        let tt = match token_type {
            Some(t) => Some(owned(t)),
            None => None,
        };
        OAuth2Token { access_token: owned(access_token), token_type: tt }
    }

    /// The raw access token.
    pub fn as_str(&self) -> (r: &str)
        ensures
            r@ == self@.0,
    {
        self.access_token.as_str()
    }

    /// The token type, if one was given.
    pub fn token_type(&self) -> (r: Option<&str>)
        ensures
            opt_ref(r) == self@.1,
    {
        match &self.token_type {
            Some(t) => Some(t.as_str()),
            None => None,
        }
    }

    /// `OAuth2Token { access_token: "[REDACTED]", token_type: <debug of the type> }`.
    pub fn debug_text(&self) -> (r: String)
        ensures
            r@ == "OAuth2Token { access_token: \"[REDACTED]\", token_type: "@ + (match self@.1 {
                Some(t) => "Some("@ + spec_str_debug(t) + ")"@,
                None => "None"@,
            }) + " }"@,
    {
        let mut s = owned("OAuth2Token { access_token: \"[REDACTED]\", token_type: ");
        match &self.token_type {
            Some(t) => {
                push_chars(&mut s, chars_of("Some(").as_slice());
                let d = str_debug(t.as_str());
                push_chars(&mut s, chars_of(d.as_str()).as_slice());
                push_chars(&mut s, chars_of(")").as_slice());
            },
            None => {
                push_chars(&mut s, chars_of("None").as_slice());
            },
        }
        push_chars(&mut s, chars_of(" }").as_slice());
        s
    }
}

impl core::fmt::Debug for OAuth2Token {
    /// Writes [`OAuth2Token::debug_text`].
    fn fmt(&self, f: &mut core::fmt::Formatter<'_>) -> core::fmt::Result {
        let text = self.debug_text();
        crate::text::write_text(f, text.as_str())
    }
}

// ---------------------------------------------------------------------------
// AuthorizationHeader
// ---------------------------------------------------------------------------

/// Why an `Authorization` header value did not parse.
#[derive(Debug, Clone, PartialEq, Eq)]
pub enum ParseAuthorizationError {
    /// The header value was empty.
    Empty,
    /// No credentials follow the scheme.
    MissingCredentials,
    /// The Basic credentials are not valid base64 (the decoder's message).
    InvalidBase64(String),
    /// The decoded Basic credentials have no `:` separator.
    InvalidBasicFormat,
    /// The decoded Basic credentials are not valid UTF-8.
    InvalidUtf8,
}

/// The abstract value of a [`ParseAuthorizationError`].
pub enum AuthErrorV {
    Empty,
    MissingCredentials,
    InvalidBase64(Seq<char>),
    InvalidBasicFormat,
    InvalidUtf8,
}

impl View for ParseAuthorizationError {
    type V = AuthErrorV;

    open spec fn view(&self) -> AuthErrorV {
        match self {
            ParseAuthorizationError::Empty => AuthErrorV::Empty,
            ParseAuthorizationError::MissingCredentials => AuthErrorV::MissingCredentials,
            ParseAuthorizationError::InvalidBase64(m) => AuthErrorV::InvalidBase64(m@),
            ParseAuthorizationError::InvalidBasicFormat => AuthErrorV::InvalidBasicFormat,
            ParseAuthorizationError::InvalidUtf8 => AuthErrorV::InvalidUtf8,
        }
    }
}

/// The message of each parse error.
pub open spec fn auth_error_text(e: AuthErrorV) -> Seq<char> {
    match e {
        AuthErrorV::Empty => "authorization header is empty"@,
        AuthErrorV::MissingCredentials =>
            "authorization header is missing the credentials after the scheme"@,
        AuthErrorV::InvalidBase64(m) => "basic credentials are not valid base64: "@ + m,
        AuthErrorV::InvalidBasicFormat =>
            "basic credentials must contain a ':' separator between username and password"@,
        AuthErrorV::InvalidUtf8 => "basic credentials are not valid UTF-8"@,
    }
}

impl ParseAuthorizationError {
    /// Human-readable description.
    pub fn to_string(&self) -> (r: String)
        ensures
            r@ == auth_error_text(self@),
    {
        match self {
            ParseAuthorizationError::Empty => owned("authorization header is empty"),
            ParseAuthorizationError::MissingCredentials => owned(
                "authorization header is missing the credentials after the scheme",
            ),
            ParseAuthorizationError::InvalidBase64(m) => {
                let mut s = owned("basic credentials are not valid base64: ");
                push_chars(&mut s, chars_of(m.as_str()).as_slice());
                s
            },
            ParseAuthorizationError::InvalidBasicFormat => owned(
                "basic credentials must contain a ':' separator between username and password",
            ),
            ParseAuthorizationError::InvalidUtf8 => owned("basic credentials are not valid UTF-8"),
        }
    }
}

/// A parsed `Authorization` request-header value.
#[derive(Debug, Clone, PartialEq, Eq)]
pub enum AuthorizationHeader {
    /// `Bearer <token>`
    Bearer(BearerToken),
    /// `Basic <base64(user:pass)>`
    Basic(BasicCredentials),
    /// `ApiKey <key>`
    ApiKey(ApiKeyCredentials),
    /// `OAuth2 <access_token>`
    OAuth2(OAuth2Token),
    /// Any other scheme: `<scheme> <credentials>`.
    Other {
        /// The scheme as written.
        scheme: String,
        /// The credentials after the scheme.
        credentials: String,
    },
}

/// The abstract value of an [`AuthorizationHeader`].
pub enum HeaderV {
    Bearer(Seq<char>),
    Basic(Seq<char>, Seq<char>),
    ApiKey(Seq<char>),
    OAuth2(Seq<char>, Option<Seq<char>>),
    Other(Seq<char>, Seq<char>),
}

impl View for AuthorizationHeader {
    type V = HeaderV;

    open spec fn view(&self) -> HeaderV {
        match self {
            AuthorizationHeader::Bearer(t) => HeaderV::Bearer(t@),
            AuthorizationHeader::Basic(c) => HeaderV::Basic(c@.0, c@.1),
            AuthorizationHeader::ApiKey(k) => HeaderV::ApiKey(k@),
            AuthorizationHeader::OAuth2(t) => HeaderV::OAuth2(t@.0, t@.1),
            AuthorizationHeader::Other { scheme, credentials } => HeaderV::Other(
                scheme@,
                credentials@,
            ),
        }
    }
}

/// The scheme of a header value; any other scheme is custom, as written.
pub open spec fn header_scheme(h: HeaderV) -> SchemeV {
    match h {
        HeaderV::Bearer(_) => SchemeV::Bearer,
        HeaderV::Basic(_, _) => SchemeV::Basic,
        HeaderV::ApiKey(_) => SchemeV::ApiKey,
        HeaderV::OAuth2(_, _) => SchemeV::OAuth2,
        HeaderV::Other(s, _) => SchemeV::Custom(s),
    }
}

/// `user:pass`, the plain text of Basic credentials.
pub open spec fn basic_plain(user: Seq<char>, pass: Seq<char>) -> Seq<char> {
    user + ":"@ + pass
}

/// The rendered header value. Basic credentials are base64-encoded
/// (standard alphabet, padded) from the UTF-8 bytes of `user:pass`.
pub open spec fn header_text(h: HeaderV) -> Seq<char> {
    match h {
        HeaderV::Bearer(t) => "Bearer "@ + t,
        HeaderV::Basic(u, p) => "Basic "@ + spec_b64_standard_encode(
            encode_utf8(basic_plain(u, p)),
        ),
        HeaderV::ApiKey(k) => "ApiKey "@ + k,
        HeaderV::OAuth2(t, _) => "OAuth2 "@ + t,
        HeaderV::Other(s, c) => s + " "@ + c,
    }
}

/// Decoding Basic credentials: base64, then UTF-8, then `user:pass` split at
/// the first `:`.
pub open spec fn spec_parse_basic(cred: Seq<char>) -> Result<HeaderV, AuthErrorV> {
    match spec_b64_standard_decode(encode_utf8(cred)) {
        Err(m) => Err(AuthErrorV::InvalidBase64(m)),
        Ok(bytes) => if !valid_utf8(bytes) {
            Err(AuthErrorV::InvalidUtf8)
        } else {
            match split_once(decode_utf8(bytes), ':') {
                None => Err(AuthErrorV::InvalidBasicFormat),
                Some(up) => Ok(HeaderV::Basic(up.0, up.1)),
            }
        },
    }
}

/// Parsing a header value: trim; the scheme is what precedes the first space
/// and the credentials are the trimmed rest, which must be non-empty.
pub open spec fn spec_parse_authorization(s: Seq<char>) -> Result<HeaderV, AuthErrorV> {
    let t = trim(s);
    if t.len() == 0 {
        Err(AuthErrorV::Empty)
    } else {
        match split_once(t, ' ') {
            None => Err(AuthErrorV::MissingCredentials),
            Some(parts) => {
                let scheme = parts.0;
                let cred = trim(parts.1);
                if cred.len() == 0 {
                    Err(AuthErrorV::MissingCredentials)
                } else if is_bearer_name(scheme) {
                    Ok(HeaderV::Bearer(cred))
                } else if is_basic_name(scheme) {
                    spec_parse_basic(cred)
                } else if is_api_key_name(scheme) {
                    Ok(HeaderV::ApiKey(cred))
                } else if is_oauth2_name(scheme) {
                    Ok(HeaderV::OAuth2(cred, None))
                } else {
                    Ok(HeaderV::Other(scheme, cred))
                }
            },
        }
    }
}

/// The abstract value of a parse result.
pub open spec fn parse_result_view(r: Result<AuthorizationHeader, ParseAuthorizationError>) -> Result<
    HeaderV,
    AuthErrorV,
> {
    match r {
        Ok(h) => Ok(h@),
        Err(e) => Err(e@),
    }
}

/// The header values whose rendering parses back to them: token-like
/// credentials are non-empty without surrounding whitespace, an OAuth 2.0
/// token carries no type (parsing never sets one), a Basic username has no
/// `:` (the first `:` separates it from the password), and a custom scheme is
/// non-empty, has no space, does not start with whitespace and is none of the
/// names parsed as a known scheme.
pub open spec fn round_trips(h: HeaderV) -> bool {
    match h {
        HeaderV::Bearer(t) => trimmed_nonempty(t),
        HeaderV::Basic(u, _) => !u.contains(':'),
        HeaderV::ApiKey(k) => trimmed_nonempty(k),
        HeaderV::OAuth2(t, tt) => trimmed_nonempty(t) && tt is None,
        HeaderV::Other(sch, c) => {
            &&& sch.len() > 0
            &&& !is_ws(sch[0])
            &&& !sch.contains(' ')
            &&& !(is_bearer_name(sch) || is_basic_name(sch) || is_api_key_name(sch)
                || is_oauth2_name(sch))
            &&& trimmed_nonempty(c)
        },
    }
}

/// A credential after a well-known scheme name renders and parses as one
/// would expect: the scheme name and the credential come back.
proof fn lemma_prefixed(name: Seq<char>, c: Seq<char>)
    requires
        name.len() > 0,
        !is_ws(name[0]),
        !name.contains(' '),
        trimmed_nonempty(c),
    ensures
        spec_parse_authorization(name + " "@ + c) == (if is_bearer_name(name) {
            Ok(HeaderV::Bearer(c))
        } else if is_basic_name(name) {
            spec_parse_basic(c)
        } else if is_api_key_name(name) {
            Ok(HeaderV::ApiKey(c))
        } else if is_oauth2_name(name) {
            Ok(HeaderV::OAuth2(c, None))
        } else {
            Ok::<HeaderV, AuthErrorV>(HeaderV::Other(name, c))
        }),
{
    reveal_strlit(" ");
    assert(" "@ =~= seq![' ']);
    lemma_render_split(name, ' ', c);
}

/// A scheme name as a literal has no space and does not start with whitespace.
proof fn lemma_name_shape(name: Seq<char>)
    requires
        name.len() > 0,
        forall|i: int| 0 <= i < name.len() ==> ('A' <= #[trigger] name[i] <= 'Z') || ('a' <= name[i]
            <= 'z') || ('0' <= name[i] <= '9'),
    ensures
        !is_ws(name[0]),
        !name.contains(' '),
{
    if name.contains(' ') {
        let i = choose|i: int| 0 <= i < name.len() && name[i] == ' ';
        assert(name[i] == ' ');
    }
}

/// The UTF-8 encoding of the Basic plain text fits in memory.
pub open spec fn renderable(h: HeaderV) -> bool {
    h matches HeaderV::Basic(u, p) ==> encode_utf8(basic_plain(u, p)).len() <= isize::MAX
}

/// `a` followed by `b`.
fn join(a: &str, b: &str) -> (r: String)
    ensures
        r@ == a@ + b@,
{
    let mut s = owned(a);
    push_chars(&mut s, chars_of(b).as_slice());
    s
}

impl AuthorizationHeader {
    /// The scheme of this header value.
    pub fn scheme(&self) -> (r: AuthScheme)
        ensures
            r@ == header_scheme(self@),
    {
        match self {
            AuthorizationHeader::Bearer(_) => AuthScheme::Bearer,
            AuthorizationHeader::Basic(_) => AuthScheme::Basic,
            AuthorizationHeader::ApiKey(_) => AuthScheme::ApiKey,
            AuthorizationHeader::OAuth2(_) => AuthScheme::OAuth2,
            AuthorizationHeader::Other { scheme, .. } => AuthScheme::Custom(owned(scheme.as_str())),
        }
    }

    /// Render the header value; Basic credentials are re-encoded. For the
    /// values of [`round_trips`], parsing the rendering gives the value back.
    pub fn to_string(&self) -> (r: String)
        requires
            renderable(self@),
        ensures
            r@ == header_text(self@),
            round_trips(self@) ==> spec_parse_authorization(r@) == Ok::<HeaderV, AuthErrorV>(
                self@,
            ),
    {
        proof {
            lemma_scheme_names();
            reveal_strlit("Bearer");
            reveal_strlit("Basic");
            reveal_strlit("ApiKey");
            reveal_strlit("OAuth2");
            reveal_strlit("Bearer ");
            reveal_strlit("Basic ");
            reveal_strlit("ApiKey ");
            reveal_strlit("OAuth2 ");
            reveal_strlit(" ");
            reveal_strlit(":");
        }
        match self {
            AuthorizationHeader::Bearer(tok) => {
                let r = join("Bearer ", tok.as_str());
                proof {
                    if round_trips(self@) {
                        assert("Bearer "@ =~= "Bearer"@ + " "@);
                        lemma_name_shape("Bearer"@);
                        lemma_prefixed("Bearer"@, tok@);
                    }
                }
                r
            },
            AuthorizationHeader::Basic(creds) => {
                let plain = join(creds.username(), ":");
                let plain = join(plain.as_str(), creds.password());
                let encoded = b64_standard_encode(plain.as_str().as_bytes());
                let r = join("Basic ", encoded.as_str());
                proof {
                    if round_trips(self@) {
                        let u = creds@.0;
                        let pw = creds@.1;
                        assert("Basic "@ =~= "Basic"@ + " "@);
                        lemma_name_shape("Basic"@);
                        assert(plain@.len() > 0);
                        assert(encode_utf8(plain@).len() > 0);
                        let e = encoded@;
                        assert(is_b64_standard_char(e[0]));
                        assert(is_b64_standard_char(e[e.len() - 1]));
                        lemma_prefixed("Basic"@, e);
                        encode_utf8_valid_utf8(plain@);
                        encode_utf8_decode_utf8(plain@);
                        assert(":"@ =~= seq![':']);
                        lemma_split_once_at(u, ':', pw);
                    }
                }
                r
            },
            AuthorizationHeader::ApiKey(key) => {
                let r = join("ApiKey ", key.as_str());
                proof {
                    if round_trips(self@) {
                        assert("ApiKey "@ =~= "ApiKey"@ + " "@);
                        lemma_name_shape("ApiKey"@);
                        lemma_prefixed("ApiKey"@, key@);
                    }
                }
                r
            },
            AuthorizationHeader::OAuth2(tok) => {
                let r = join("OAuth2 ", tok.as_str());
                proof {
                    if round_trips(self@) {
                        assert("OAuth2 "@ =~= "OAuth2"@ + " "@);
                        lemma_name_shape("OAuth2"@);
                        lemma_prefixed("OAuth2"@, tok@.0);
                    }
                }
                r
            },
            AuthorizationHeader::Other { scheme, credentials } => {
                let s = join(scheme.as_str(), " ");
                let r = join(s.as_str(), credentials.as_str());
                proof {
                    if round_trips(self@) {
                        lemma_prefixed(scheme@, credentials@);
                    }
                }
                r
            },
        }
    }

    /// Parse an `Authorization` header value.
    pub fn parse(s: &str) -> (r: Result<AuthorizationHeader, ParseAuthorizationError>)
        ensures
            parse_result_view(r) == spec_parse_authorization(s@),
    {
        let v = chars_of(s);
        let t = trim_chars(v.as_slice());
        if t.len() == 0 {
            return Err(ParseAuthorizationError::Empty);
        }
        match split_once_chars(t.as_slice(), ' ') {
            None => Err(ParseAuthorizationError::MissingCredentials),
            Some(parts) => {
                let scheme = parts.0.as_slice();
                let cred = trim_chars(parts.1.as_slice());
                if cred.len() == 0 {
                    return Err(ParseAuthorizationError::MissingCredentials);
                }
                if chars_eq_str(scheme, "Bearer") || chars_eq_str(scheme, "bearer") {
                    Ok(AuthorizationHeader::Bearer(BearerToken(string_from_chars(cred.as_slice()))))
                } else if chars_eq_str(scheme, "Basic") || chars_eq_str(scheme, "basic") {
                    parse_basic(cred.as_slice())
                } else if chars_eq_str(scheme, "ApiKey") || chars_eq_str(scheme, "apikey")
                    || chars_eq_str(scheme, "APIKEY") {
                    Ok(
                        AuthorizationHeader::ApiKey(
                            ApiKeyCredentials(string_from_chars(cred.as_slice())),
                        ),
                    )
                } else if chars_eq_str(scheme, "OAuth2") || chars_eq_str(scheme, "oauth2")
                    || chars_eq_str(scheme, "OAuth") {
                    Ok(
                        AuthorizationHeader::OAuth2(
                            OAuth2Token {
                                access_token: string_from_chars(cred.as_slice()),
                                token_type: None,
                            },
                        ),
                    )
                } else {
                    Ok(
                        AuthorizationHeader::Other {
                            scheme: string_from_chars(scheme),
                            credentials: string_from_chars(cred.as_slice()),
                        },
                    )
                }
            },
        }
    }
}

/// Decode Basic credentials.
fn parse_basic(cred: &[char]) -> (r: Result<AuthorizationHeader, ParseAuthorizationError>)
    ensures
        parse_result_view(r) == spec_parse_basic(cred@),
{
    let text = string_from_chars(cred);
    match b64_standard_decode(text.as_str().as_bytes()) {
        Err(m) => Err(ParseAuthorizationError::InvalidBase64(m)),
        Ok(bytes) => match utf8_decode(bytes) {
            None => Err(ParseAuthorizationError::InvalidUtf8),
            Some(plain) => {
                let pv = chars_of(plain.as_str());
                match split_once_chars(pv.as_slice(), ':') {
                    None => Err(ParseAuthorizationError::InvalidBasicFormat),
                    Some(up) => Ok(
                        AuthorizationHeader::Basic(
                            BasicCredentials {
                                username: string_from_chars(up.0.as_slice()),
                                password: string_from_chars(up.1.as_slice()),
                            },
                        ),
                    ),
                }
            },
        },
    }
}

impl core::str::FromStr for AuthorizationHeader {
    type Err = ParseAuthorizationError;

    fn from_str(s: &str) -> (r: Result<AuthorizationHeader, ParseAuthorizationError>)
        ensures
            parse_result_view(r) == spec_parse_authorization(s@),
    {
        AuthorizationHeader::parse(s)
    }
}

// ---------------------------------------------------------------------------
// Permission
// ---------------------------------------------------------------------------

/// A single permission token (`read`, `orders:write`): non-empty, without
/// ASCII whitespace.
#[derive(Debug, Clone, PartialEq, Eq, PartialOrd, Ord, Hash)]
pub struct Permission(String);

impl View for Permission {
    type V = Seq<char>;

    closed spec fn view(&self) -> Seq<char> {
        self.0@
    }
}

/// Why a permission token was rejected.
#[derive(Debug, Clone, Copy, PartialEq, Eq, Structural)]
pub enum ParsePermissionError {
    /// The input was empty.
    Empty,
    /// The input contains ASCII whitespace.
    ContainsWhitespace,
}

/// Validation of a permission token.
pub open spec fn spec_permission(s: Seq<char>) -> Result<Seq<char>, ParsePermissionError> {
    if s.len() == 0 {
        Err(ParsePermissionError::Empty)
    } else if !is_token(s) {
        Err(ParsePermissionError::ContainsWhitespace)
    } else {
        Ok(s)
    }
}

/// A permission renders as the text it was parsed from, so parsing its
/// rendering gives the same permission back.
pub proof fn lemma_permission_roundtrip(s: Seq<char>)
    ensures
        spec_permission(s) matches Ok(t) ==> t == s && spec_permission(t) == Ok::<
            Seq<char>,
            ParsePermissionError,
        >(t),
{
}

/// The abstract value of a permission result.
pub open spec fn permission_result_view(r: Result<Permission, ParsePermissionError>) -> Result<
    Seq<char>,
    ParsePermissionError,
> {
    match r {
        Ok(p) => Ok(p@),
        Err(e) => Err(e),
    }
}

/// Whether `v` holds an ASCII whitespace character.
fn has_ascii_ws(v: &[char]) -> (r: bool)
    ensures
        r == exists|j: int| 0 <= j < v@.len() && is_ascii_ws(#[trigger] v@[j]),
{
    let mut i: usize = 0;
    while i < v.len()
        invariant
            i <= v@.len(),
            forall|j: int| 0 <= j < i ==> !is_ascii_ws(#[trigger] v@[j]),
        decreases v@.len() - i,
    {
        let c = v[i];
        if c == ' ' || c == '\t' || c == '\n' || c == '\u{c}' || c == '\r' {
            assert(is_ascii_ws(v@[i as int]));
            return true;
        }
        i = i + 1;
    }
    false
}

impl Permission {
    /// A permission from `s`, which must be non-empty and free of ASCII
    /// whitespace.
    pub fn new(s: &str) -> (r: Result<Permission, ParsePermissionError>)
        ensures
            permission_result_view(r) == spec_permission(s@),
    {
        let v = chars_of(s);
        if v.len() == 0 {
            return Err(ParsePermissionError::Empty);
        }
        if has_ascii_ws(v.as_slice()) {
            return Err(ParsePermissionError::ContainsWhitespace);
        }
        Ok(Permission(owned(s)))
    }

    /// The token.
    pub fn as_str(&self) -> (r: &str)
        ensures
            r@ == self@,
    {
        self.0.as_str()
    }

    /// The token, owned.
    pub fn to_string(&self) -> (r: String)
        ensures
            r@ == self@,
    {
        owned(self.0.as_str())
    }

    fn duplicate(&self) -> (r: Permission)
        ensures
            r@ == self@,
    {
        Permission(owned(self.0.as_str()))
    }
}

impl core::str::FromStr for Permission {
    type Err = ParsePermissionError;

    fn from_str(s: &str) -> (r: Result<Permission, ParsePermissionError>)
        ensures
            permission_result_view(r) == spec_permission(s@),
    {
        Permission::new(s)
    }
}

impl ParsePermissionError {
    /// Human-readable description.
    pub fn to_string(&self) -> (r: String)
        ensures
            r@ == (match *self {
                ParsePermissionError::Empty => "permission must not be empty"@,
                ParsePermissionError::ContainsWhitespace =>
                    "permission must not contain whitespace"@,
            }),
    {
        match self {
            ParsePermissionError::Empty => owned("permission must not be empty"),
            ParsePermissionError::ContainsWhitespace => owned(
                "permission must not contain whitespace",
            ),
        }
    }
}

// ---------------------------------------------------------------------------
// Lexicographic order of tokens
// ---------------------------------------------------------------------------

/// `a` sorts before `b`: character by character by code point, a proper
/// prefix first. UTF-8 keeps code-point order, so this is the order of the
/// strings' bytes.
pub open spec fn lex_lt(a: Seq<char>, b: Seq<char>) -> bool
    decreases a.len(),
{
    if a.len() == 0 {
        b.len() > 0
    } else if b.len() == 0 {
        false
    } else if a[0] != b[0] {
        a[0] < b[0]
    } else {
        lex_lt(a.drop_first(), b.drop_first())
    }
}

pub proof fn lemma_lex_irreflexive(a: Seq<char>)
    ensures
        !lex_lt(a, a),
    decreases a.len(),
{
    if a.len() > 0 {
        lemma_lex_irreflexive(a.drop_first());
    }
}

pub proof fn lemma_lex_transitive(a: Seq<char>, b: Seq<char>, c: Seq<char>)
    requires
        lex_lt(a, b),
        lex_lt(b, c),
    ensures
        lex_lt(a, c),
    decreases a.len(),
{
    if a.len() > 0 && b.len() > 0 && c.len() > 0 && a[0] == b[0] && b[0] == c[0] {
        lemma_lex_transitive(a.drop_first(), b.drop_first(), c.drop_first());
    }
}

pub proof fn lemma_lex_total(a: Seq<char>, b: Seq<char>)
    requires
        a != b,
    ensures
        lex_lt(a, b) || lex_lt(b, a),
    decreases a.len(),
{
    if a.len() == 0 && b.len() == 0 {
        assert(a =~= b);
    } else if a.len() > 0 && b.len() > 0 && a[0] == b[0] {
        if a.drop_first() == b.drop_first() {
            assert(a.drop_first().len() == a.len() - 1);
            assert(b.drop_first().len() == b.len() - 1);
            assert(a.len() == b.len());
            assert forall|i: int| 0 <= i < a.len() implies a[i] == b[i] by {
                if i > 0 {
                    assert(a[i] == a.drop_first()[i - 1]);
                    assert(b[i] == b.drop_first()[i - 1]);
                }
            }
            assert(a =~= b);
        }
        lemma_lex_total(a.drop_first(), b.drop_first());
    }
}

pub proof fn lemma_lex_asymmetric(a: Seq<char>, b: Seq<char>)
    requires
        lex_lt(a, b),
    ensures
        !lex_lt(b, a),
{
    if lex_lt(b, a) {
        lemma_lex_transitive(a, b, a);
        lemma_lex_irreflexive(a);
    }
}

/// A common prefix does not change the order.
proof fn lemma_lex_skip(a: Seq<char>, b: Seq<char>, i: int)
    requires
        0 <= i <= a.len(),
        i <= b.len(),
        a.subrange(0, i) == b.subrange(0, i),
    ensures
        lex_lt(a, b) == lex_lt(a.skip(i), b.skip(i)),
    decreases i,
{
    if i > 0 {
        assert(a[0] == a.subrange(0, i)[0]);
        assert(b[0] == b.subrange(0, i)[0]);
        let a1 = a.drop_first();
        let b1 = b.drop_first();
        assert(a1.subrange(0, i - 1) =~= a.subrange(0, i).drop_first());
        assert(b1.subrange(0, i - 1) =~= b.subrange(0, i).drop_first());
        lemma_lex_skip(a1, b1, i - 1);
        assert(a1.skip(i - 1) =~= a.skip(i));
        assert(b1.skip(i - 1) =~= b.skip(i));
    } else {
        assert(a.skip(0) =~= a);
        assert(b.skip(0) =~= b);
    }
}

/// The outcome of comparing two tokens.
#[derive(Debug, Clone, Copy, PartialEq, Eq, Structural)]
pub enum Order {
    Less,
    Equal,
    Greater,
}

/// Compare two character sequences in [`lex_lt`] order.
pub fn compare_chars(a: &[char], b: &[char]) -> (r: Order)
    ensures
        (r == Order::Less) == lex_lt(a@, b@),
        (r == Order::Equal) == (a@ == b@),
        (r == Order::Greater) == lex_lt(b@, a@),
{
    let n = a.len();
    let m = b.len();
    let mut i: usize = 0;
    while i < n && i < m && a[i] == b[i]
        invariant
            n == a@.len(),
            m == b@.len(),
            i <= n,
            i <= m,
            a@.subrange(0, i as int) == b@.subrange(0, i as int),
        decreases n - i,
    {
        assert(a@.subrange(0, i + 1) =~= a@.subrange(0, i as int).push(a@[i as int]));
        assert(b@.subrange(0, i + 1) =~= b@.subrange(0, i as int).push(b@[i as int]));
        i = i + 1;
    }
    proof {
        lemma_lex_skip(a@, b@, i as int);
        lemma_lex_skip(b@, a@, i as int);
    }
    if i == n && i == m {
        assert(a@ =~= b@) by {
            assert(a@.subrange(0, i as int) =~= a@);
            assert(b@.subrange(0, i as int) =~= b@);
        }
        proof {
            lemma_lex_irreflexive(a@);
        }
        Order::Equal
    } else if i == n {
        assert(a@.skip(i as int).len() == 0);
        Order::Less
    } else if i == m {
        assert(b@.skip(i as int).len() == 0);
        Order::Greater
    } else {
        let ghost sa = a@.skip(i as int);
        let ghost sb = b@.skip(i as int);
        assert(sa[0] == a@[i as int]);
        assert(sb[0] == b@[i as int]);
        assert(a@ != b@) by {
            if a@ == b@ {
                assert(a@[i as int] == b@[i as int]);
            }
        }
        if a[i] < b[i] {
            Order::Less
        } else {
            Order::Greater
        }
    }
}

// ---------------------------------------------------------------------------
// Scope
// ---------------------------------------------------------------------------

/// Strictly increasing in [`lex_lt`] order (hence without duplicates).
pub open spec fn strictly_sorted(s: Seq<Seq<char>>) -> bool {
    forall|i: int, j: int| 0 <= i < j < s.len() ==> lex_lt(#[trigger] s[i], #[trigger] s[j])
}

/// The tokens of a permission vector.
pub open spec fn perm_views(v: Seq<Permission>) -> Seq<Seq<char>> {
    v.map_values(|p: Permission| p@)
}

/// A set of OAuth 2.0 scopes, kept sorted and without duplicates.
#[derive(Debug, Clone, PartialEq, Eq)]
pub struct Scope {
    perms: Vec<Permission>,
}

impl View for Scope {
    type V = Seq<Seq<char>>;

    closed spec fn view(&self) -> Seq<Seq<char>> {
        perm_views(self.perms@)
    }
}

/// Where `pv` belongs in the sorted `v`: the first position whose token is not
/// below `pv`, and whether that token is `pv` itself.
fn locate(v: &Vec<Permission>, pv: &[char]) -> (r: (usize, bool))
    requires
        strictly_sorted(perm_views(v@)),
    ensures
        r.0 <= v@.len(),
        forall|j: int| 0 <= j < r.0 ==> lex_lt(#[trigger] perm_views(v@)[j], pv@),
        r.1 ==> r.0 < v@.len() && perm_views(v@)[r.0 as int] == pv@,
        !r.1 && r.0 < v@.len() ==> lex_lt(pv@, perm_views(v@)[r.0 as int]),
{
    let mut i: usize = 0;
    while i < v.len()
        invariant
            i <= v@.len(),
            forall|j: int| 0 <= j < i ==> lex_lt(#[trigger] perm_views(v@)[j], pv@),
        decreases v@.len() - i,
    {
        let cv = chars_of(v[i].as_str());
        match compare_chars(cv.as_slice(), pv) {
            Order::Less => {
                i = i + 1;
            },
            Order::Equal => {
                return (i, true);
            },
            Order::Greater => {
                return (i, false);
            },
        }
    }
    (i, false)
}

/// Insert `p` into the sorted `v`, unless its token is already there.
fn insert_sorted(v: &mut Vec<Permission>, p: Permission)
    requires
        strictly_sorted(perm_views(old(v)@)),
    ensures
        strictly_sorted(perm_views(final(v)@)),
        forall|x: Seq<char>| #[trigger]
            perm_views(final(v)@).contains(x) <==> perm_views(old(v)@).contains(x) || x == p@,
{
    let pv = chars_of(p.as_str());
    let (pos, found) = locate(v, pv.as_slice());
    let ghost old_views = perm_views(v@);
    if found {
        assert forall|x: Seq<char>| #[trigger]
            perm_views(v@).contains(x) <==> old_views.contains(x) || x == p@ by {
            if x == p@ {
                assert(old_views[pos as int] == x);
            }
        }
        return;
    }
    let ghost pval = p@;
    v.insert(pos, p);
    let ghost nv = perm_views(v@);
    assert(nv =~= old_views.insert(pos as int, pval));
    assert forall|i: int, j: int| 0 <= i < j < nv.len() implies lex_lt(
        #[trigger] nv[i],
        #[trigger] nv[j],
    ) by {
        if j < pos {
        } else if j == pos {
        } else if i == pos {
            assert(nv[j] == old_views[j - 1]);
            if j - 1 > pos {
                assert(lex_lt(old_views[pos as int], old_views[j - 1]));
                lemma_lex_transitive(pval, old_views[pos as int], old_views[j - 1]);
            }
        } else if i < pos {
            assert(nv[j] == old_views[j - 1]);
            if j - 1 >= pos {
                assert(lex_lt(old_views[i], old_views[j - 1]));
            }
        } else {
            assert(nv[i] == old_views[i - 1]);
            assert(nv[j] == old_views[j - 1]);
        }
    }
    assert forall|x: Seq<char>| #[trigger]
        nv.contains(x) <==> old_views.contains(x) || x == pval by {
        if nv.contains(x) {
            let k = choose|k: int| 0 <= k < nv.len() && nv[k] == x;
            if k < pos {
                assert(old_views[k] == x);
            } else if k > pos {
                assert(old_views[k - 1] == x);
            }
        }
        if old_views.contains(x) {
            let k = choose|k: int| 0 <= k < old_views.len() && old_views[k] == x;
            if k < pos {
                assert(nv[k] == x);
            } else {
                assert(nv[k + 1] == x);
            }
        }
        if x == pval {
            assert(nv[pos as int] == x);
        }
    }
}

impl Scope {
    /// Sorted without duplicates; every constructor gives such a scope.
    pub open spec fn wf(&self) -> bool {
        strictly_sorted(self@)
    }

    /// The empty scope.
    pub fn empty() -> (r: Scope)
        ensures
            r.wf(),
            r@ == Seq::<Seq<char>>::empty(),
    {
        let r = Scope { perms: Vec::new() };
        assert(r@ =~= Seq::<Seq<char>>::empty());
        r
    }

    /// The scope holding the given permissions (sorted, duplicates dropped).
    pub fn from_permissions(perms: Vec<Permission>) -> (r: Scope)
        ensures
            r.wf(),
            forall|x: Seq<char>| #[trigger] r@.contains(x) <==> perm_views(perms@).contains(x),
    {
        let mut v: Vec<Permission> = Vec::new();
        let mut i: usize = 0;
        let ghost src = perm_views(perms@);
        while i < perms.len()
            invariant
                i <= perms@.len(),
                src == perm_views(perms@),
                strictly_sorted(perm_views(v@)),
                forall|x: Seq<char>| #[trigger]
                    perm_views(v@).contains(x) <==> src.subrange(0, i as int).contains(x),
            decreases perms@.len() - i,
        {
            let p = perms[i].duplicate();
            insert_sorted(&mut v, p);
            proof {
                lemma_prefix_contains(src, i as int);
            }
            i = i + 1;
        }
        assert(src.subrange(0, i as int) =~= src);
        Scope { perms: v }
    }

    /// Number of permissions.
    pub fn len(&self) -> (r: usize)
        ensures
            r == self@.len(),
    {
        self.perms.len()
    }

    /// Whether there are no permissions.
    pub fn is_empty(&self) -> (r: bool)
        ensures
            r == (self@.len() == 0),
    {
        self.perms.len() == 0
    }

    /// Whether the scope holds the permission `perm`.
    pub fn contains(&self, perm: &str) -> (r: bool)
        ensures
            r == self@.contains(perm@),
    {
        let pv = chars_of(perm);
        let mut i: usize = 0;
        while i < self.perms.len()
            invariant
                i <= self@.len(),
                self@.len() == self.perms@.len(),
                pv@ == perm@,
                forall|j: int| 0 <= j < i ==> #[trigger] self@[j] != perm@,
            decreases self@.len() - i,
        {
            let cv = chars_of(self.perms[i].as_str());
            assert(self@[i as int] == self.perms@[i as int]@);
            if crate::text::chars_eq(cv.as_slice(), pv.as_slice()) {
                assert(self@[i as int] == perm@);
                return true;
            }
            i = i + 1;
        }
        false
    }

    /// Whether every permission of `self` is also in `other`.
    pub fn is_subset_of(&self, other: &Scope) -> (r: bool)
        ensures
            r == (forall|x: Seq<char>| #[trigger] self@.contains(x) ==> other@.contains(x)),
    {
        let mut i: usize = 0;
        while i < self.perms.len()
            invariant
                i <= self@.len(),
                self@.len() == self.perms@.len(),
                forall|j: int| 0 <= j < i ==> other@.contains(#[trigger] self@[j]),
            decreases self@.len() - i,
        {
            if !other.contains(self.perms[i].as_str()) {
                assert(self@.contains(self@[i as int]));
                return false;
            }
            i = i + 1;
        }
        assert forall|x: Seq<char>| #[trigger] self@.contains(x) implies other@.contains(x) by {
            let k = choose|k: int| 0 <= k < self@.len() && self@[k] == x;
            assert(other@.contains(self@[k]));
        }
        true
    }

    /// The permissions in `self` or in `other`. For scopes built by this
    /// type's constructors, the union holds at least as many permissions as
    /// either and at most as many as both together.
    pub fn union(&self, other: &Scope) -> (r: Scope)
        ensures
            r.wf(),
            forall|x: Seq<char>| #[trigger] r@.contains(x) <==> self@.contains(x) || other@.contains(x),
            self.wf() && other.wf() ==> self@.len() <= r@.len() && other@.len() <= r@.len()
                && r@.len() <= self@.len() + other@.len(),
    {
        let mut v: Vec<Permission> = Vec::new();
        let mut i: usize = 0;
        while i < self.perms.len()
            invariant
                i <= self@.len(),
                self@.len() == self.perms@.len(),
                strictly_sorted(perm_views(v@)),
                forall|x: Seq<char>| #[trigger]
                    perm_views(v@).contains(x) <==> self@.subrange(0, i as int).contains(x),
            decreases self@.len() - i,
        {
            let p = self.perms[i].duplicate();
            insert_sorted(&mut v, p);
            proof {
                lemma_prefix_contains(self@, i as int);
            }
            i = i + 1;
        }
        assert(self@.subrange(0, i as int) =~= self@);
        let mut j: usize = 0;
        while j < other.perms.len()
            invariant
                j <= other@.len(),
                other@.len() == other.perms@.len(),
                strictly_sorted(perm_views(v@)),
                forall|x: Seq<char>| #[trigger]
                    perm_views(v@).contains(x) <==> self@.contains(x) || other@.subrange(
                        0,
                        j as int,
                    ).contains(x),
            decreases other@.len() - j,
        {
            let p = other.perms[j].duplicate();
            insert_sorted(&mut v, p);
            proof {
                lemma_prefix_contains(other@, j as int);
            }
            j = j + 1;
        }
        assert(other@.subrange(0, j as int) =~= other@);
        let r = Scope { perms: v };
        proof {
            if self.wf() && other.wf() {
                lemma_sorted_union_len(self@, other@, r@);
            }
        }
        r
    }

    /// The permissions in both `self` and `other`.
    pub fn intersection(&self, other: &Scope) -> (r: Scope)
        ensures
            r.wf(),
            forall|x: Seq<char>| #[trigger] r@.contains(x) <==> self@.contains(x) && other@.contains(x),
    {
        let mut v: Vec<Permission> = Vec::new();
        let mut i: usize = 0;
        while i < self.perms.len()
            invariant
                i <= self@.len(),
                self@.len() == self.perms@.len(),
                strictly_sorted(perm_views(v@)),
                forall|x: Seq<char>| #[trigger]
                    perm_views(v@).contains(x) <==> self@.subrange(0, i as int).contains(x)
                        && other@.contains(x),
            decreases self@.len() - i,
        {
            proof {
                lemma_prefix_contains(self@, i as int);
            }
            if other.contains(self.perms[i].as_str()) {
                let p = self.perms[i].duplicate();
                insert_sorted(&mut v, p);
            }
            i = i + 1;
        }
        assert(self@.subrange(0, i as int) =~= self@);
        Scope { perms: v }
    }

    /// The permissions in sorted order.
    pub fn iter(&self) -> (r: &[Permission])
        ensures
            perm_views(r@) == self@,
    {
        self.perms.as_slice()
    }
}

/// Growing a prefix by one element adds exactly that element.
proof fn lemma_prefix_contains(s: Seq<Seq<char>>, i: int)
    requires
        0 <= i < s.len(),
    ensures
        forall|x: Seq<char>| #[trigger]
            s.subrange(0, i + 1).contains(x) <==> s.subrange(0, i).contains(x) || x == s[i],
{
    let long = s.subrange(0, i + 1);
    let short = s.subrange(0, i);
    assert forall|x: Seq<char>| #[trigger] long.contains(x) <==> short.contains(x) || x == s[i] by {
        if long.contains(x) {
            let k = choose|k: int| 0 <= k < long.len() && long[k] == x;
            if k < i {
                assert(short[k] == x);
            }
        }
        if short.contains(x) {
            let k = choose|k: int| 0 <= k < short.len() && short[k] == x;
            assert(long[k] == x);
        }
        if x == s[i] {
            assert(long[i] == x);
        }
    }
}

/// The tokens joined by single spaces.
pub open spec fn join_words(s: Seq<Seq<char>>) -> Seq<char>
    decreases s.len(),
{
    if s.len() == 0 {
        Seq::empty()
    } else if s.len() == 1 {
        s[0]
    } else {
        join_words(s.drop_last()) + seq![' '] + s.last()
    }
}

/// Two ASCII whitespace characters side by side: splitting at each one
/// leaves an empty token between them.
pub open spec fn double_ws(t: Seq<char>) -> bool {
    exists|i: int| 0 <= i && i + 1 < t.len() && #[trigger] is_ascii_ws(t[i]) && is_ascii_ws(t[i + 1])
}

/// Whether two ASCII whitespace characters stand side by side in `v`.
fn has_double_ws(v: &[char]) -> (r: bool)
    ensures
        r == double_ws(v@),
{
    let n = v.len();
    if n < 2 {
        return false;
    }
    let mut i: usize = 0;
    while i + 1 < n
        invariant
            n == v@.len(),
            n >= 2,
            i + 1 <= n,
            forall|j: int| 0 <= j < i ==> !(#[trigger] is_ascii_ws(v@[j]) && is_ascii_ws(v@[j + 1])),
        decreases n - i,
    {
        let a = v[i];
        let b = v[i + 1];
        let wa = a == ' ' || a == '\t' || a == '\n' || a == '\u{c}' || a == '\r';
        let wb = b == ' ' || b == '\t' || b == '\n' || b == '\u{c}' || b == '\r';
        if wa && wb {
            assert(is_ascii_ws(v@[i as int]) && is_ascii_ws(v@[i + 1]));
            return true;
        }
        i = i + 1;
    }
    false
}

/// The rendering of valid tokens never holds two whitespace characters side
/// by side: its only whitespace is the single space between neighbours.
proof fn lemma_join_no_double_ws(s: Seq<Seq<char>>)
    requires
        forall|k: int| 0 <= k < s.len() ==> is_token(#[trigger] s[k]),
    ensures
        !double_ws(join_words(s)),
    decreases s.len(),
{
    if s.len() == 1 {
        let w = join_words(s);
        assert(is_token(s[0]));
        assert forall|i: int| 0 <= i && i + 1 < w.len() implies !(#[trigger] is_ascii_ws(w[i])
            && is_ascii_ws(w[i + 1])) by {
            assert(w[i] == s[0][i]);
        }
    } else if s.len() > 1 {
        let s1 = s.drop_last();
        assert forall|k: int| 0 <= k < s1.len() implies is_token(#[trigger] s1[k]) by {
            assert(s1[k] == s[k]);
        }
        lemma_join_no_double_ws(s1);
        lemma_join_ends(s1);
        let j = join_words(s1);
        let l = s.last();
        assert(is_token(l));
        assert(is_token(s1.last()));
        let w = join_words(s);
        assert(w == j + seq![' '] + l);
        assert forall|i: int| 0 <= i && i + 1 < w.len() implies !(#[trigger] is_ascii_ws(w[i])
            && is_ascii_ws(w[i + 1])) by {
            if i + 1 < j.len() {
                assert(w[i] == j[i] && w[i + 1] == j[i + 1]);
            } else if i + 1 == j.len() {
                assert(w[i] == j.last());
            } else if i == j.len() {
                assert(w[i + 1] == l[0]);
            } else {
                assert(w[i] == l[i - j.len() - 1]);
            }
        }
    }
}

/// Why a scope string did not parse: one of its tokens is not a permission.
#[derive(Debug, Clone, Copy, PartialEq, Eq, Structural)]
pub struct ParseScopeError(ParsePermissionError);

impl ParseScopeError {
    /// The permission error behind this one.
    pub closed spec fn cause(&self) -> ParsePermissionError {
        self.0
    }

    /// `invalid scope token: <permission error>`.
    pub fn to_string(&self) -> (r: String)
        ensures
            r@ == "invalid scope token: "@ + (match self.cause() {
                ParsePermissionError::Empty => "permission must not be empty"@,
                ParsePermissionError::ContainsWhitespace =>
                    "permission must not contain whitespace"@,
            }),
    {
        let mut s = owned("invalid scope token: ");
        let inner = self.0.to_string();
        push_chars(&mut s, chars_of(inner.as_str()).as_slice());
        s
    }
}

impl From<ParsePermissionError> for ParseScopeError {
    fn from(e: ParsePermissionError) -> (r: ParseScopeError)
        ensures
            r.cause() == e,
    {
        ParseScopeError(e)
    }
}

impl vstd::std_specs::convert::FromSpecImpl<ParsePermissionError> for ParseScopeError {
    open spec fn obeys_from_spec() -> bool {
        true
    }

    closed spec fn from_spec(e: ParsePermissionError) -> ParseScopeError {
        ParseScopeError(e)
    }
}

impl Scope {
    /// The permissions in sorted order, separated by single spaces.
    pub fn to_string(&self) -> (r: String)
        ensures
            r@ == join_words(self@),
    {
        let mut out = String::new();
        let mut i: usize = 0;
        assert(self@.subrange(0, 0) =~= Seq::<Seq<char>>::empty());
        while i < self.perms.len()
            invariant
                i <= self@.len(),
                self@.len() == self.perms@.len(),
                out@ == join_words(self@.subrange(0, i as int)),
            decreases self@.len() - i,
        {
            let ghost prev = self@.subrange(0, i as int);
            let ghost next = self@.subrange(0, i + 1);
            assert(next.drop_last() =~= prev);
            assert(next.last() == self@[i as int]);
            assert(self@[i as int] == self.perms@[i as int]@);
            if i > 0 {
                crate::text::push_char(&mut out, ' ');
            }
            let t = chars_of(self.perms[i].as_str());
            push_chars(&mut out, t.as_slice());
            proof {
                if i == 0 {
                    assert(next =~= seq![self@[0]]);
                    assert(out@ =~= join_words(next));
                } else {
                    assert(out@ =~= join_words(prev) + seq![' '] + self@[i as int]);
                }
            }
            i = i + 1;
        }
        assert(self@.subrange(0, i as int) =~= self@);
        out
    }

    /// Parse a space-delimited scope string (RFC 6749 §3.3): after trimming,
    /// the text splits at each ASCII whitespace character. Two of them side
    /// by side leave an empty token, which is no permission (`Empty`); the
    /// other tokens are the runs of non-whitespace, each a valid permission.
    pub fn parse(s: &str) -> (r: Result<Scope, ParseScopeError>)
        ensures
            r is Err <==> double_ws(trim(s@)),
            r matches Err(e) ==> e.cause() == ParsePermissionError::Empty,
            r matches Ok(sc) ==> sc.wf() && forall|x: Seq<char>| #[trigger]
                sc@.contains(x) <==> ascii_tokens(trim(s@)).contains(x),
    {
        let v = chars_of(s);
        let t = trim_chars(v.as_slice());
        if t.len() == 0 {
            let e = Scope::empty();
            proof {
                assert(ascii_tokens(t@) =~= Seq::<Seq<char>>::empty());
            }
            return Ok(e);
        }
        if has_double_ws(t.as_slice()) {
            return Err(ParseScopeError(ParsePermissionError::Empty));
        }
        let toks = ascii_tokens_chars(t.as_slice());
        let ghost tv = ascii_tokens(t@);
        proof {
            lemma_tokens_from_wf(t@, Seq::empty());
        }
        let mut out: Vec<Permission> = Vec::new();
        let mut i: usize = 0;
        while i < toks.len()
            invariant
                i <= toks@.len(),
                views(toks@) == tv,
                forall|k: int| 0 <= k < tv.len() ==> is_token(#[trigger] tv[k]),
                strictly_sorted(perm_views(out@)),
                forall|x: Seq<char>| #[trigger]
                    perm_views(out@).contains(x) <==> tv.subrange(0, i as int).contains(x),
            decreases toks@.len() - i,
        {
            assert(tv[i as int] == toks@[i as int]@);
            let word = string_from_chars(toks[i].as_slice());
            match Permission::new(word.as_str()) {
                Ok(p) => {
                    insert_sorted(&mut out, p);
                },
                Err(e) => {
                    assert(is_token(tv[i as int]));
                    return Err(ParseScopeError(e));
                },
            }
            proof {
                lemma_prefix_contains(tv, i as int);
            }
            i = i + 1;
        }
        assert(tv.subrange(0, i as int) =~= tv);
        Ok(Scope { perms: out })
    }
}

impl core::str::FromStr for Scope {
    type Err = ParseScopeError;

    fn from_str(s: &str) -> (r: Result<Scope, ParseScopeError>)
        ensures
            r is Err <==> double_ws(trim(s@)),
            r matches Err(e) ==> e.cause() == ParsePermissionError::Empty,
            r matches Ok(sc) ==> sc.wf() && forall|x: Seq<char>| #[trigger]
                sc@.contains(x) <==> ascii_tokens(trim(s@)).contains(x),
    {
        Scope::parse(s)
    }
}

impl TryFrom<String> for Scope {
    type Error = ParseScopeError;

    fn try_from(s: String) -> (r: Result<Scope, ParseScopeError>)
        ensures
            r is Err <==> double_ws(trim(s@)),
            r matches Err(e) ==> e.cause() == ParsePermissionError::Empty,
            r matches Ok(sc) ==> sc.wf() && forall|x: Seq<char>| #[trigger]
                sc@.contains(x) <==> ascii_tokens(trim(s@)).contains(x),
    {
        Scope::parse(s.as_str())
    }
}

// Parsing is stated through `Scope::parse`; `try_from_spec` cannot name the
// scope it builds.
impl vstd::std_specs::convert::TryFromSpecImpl<String> for Scope {
    open spec fn obeys_try_from_spec() -> bool {
        false
    }

    open spec fn try_from_spec(s: String) -> Result<Scope, ParseScopeError> {
        arbitrary()
    }
}

impl From<Scope> for String {
    fn from(sc: Scope) -> (r: String)
        ensures
            r@ == join_words(sc@),
    {
        sc.to_string()
    }
}

// The rendering is stated on `from` itself; spec code cannot build a
// `String`, so `from_spec` names none.
impl vstd::std_specs::convert::FromSpecImpl<Scope> for String {
    open spec fn obeys_from_spec() -> bool {
        false
    }

    open spec fn from_spec(sc: Scope) -> String {
        arbitrary()
    }
}

// ---------------------------------------------------------------------------
// Scope laws
// ---------------------------------------------------------------------------

/// A run without ASCII whitespace extends the pending token.
proof fn lemma_tokens_run(x: Seq<char>, y: Seq<char>, cur: Seq<char>)
    requires
        forall|j: int| 0 <= j < x.len() ==> !is_ascii_ws(#[trigger] x[j]),
    ensures
        tokens_from(x + y, cur) == tokens_from(y, cur + x),
    decreases x.len(),
{
    if x.len() == 0 {
        assert(x + y =~= y);
        assert(cur + x =~= cur);
    } else {
        let x1 = x.drop_first();
        assert((x + y)[0] == x[0]);
        assert((x + y).drop_first() =~= x1 + y);
        assert forall|j: int| 0 <= j < x1.len() implies !is_ascii_ws(#[trigger] x1[j]) by {
            assert(x1[j] == x[j + 1]);
        }
        lemma_tokens_run(x1, y, cur.push(x[0]));
        assert(cur.push(x[0]) + x1 =~= cur + x);
    }
}

/// A space ends the pending token.
proof fn lemma_tokens_space(y: Seq<char>, cur: Seq<char>)
    ensures
        tokens_from(seq![' '] + y, cur) == flush(cur) + tokens_from(y, Seq::empty()),
{
    let w = seq![' '] + y;
    assert(w[0] == ' ');
    assert(w.drop_first() =~= y);
}

/// Tokenising joined tokens, followed by more text, gives the tokens back
/// with the last one still pending.
proof fn lemma_tokens_join(s: Seq<Seq<char>>, z: Seq<char>)
    requires
        s.len() > 0,
        forall|k: int| 0 <= k < s.len() ==> is_token(#[trigger] s[k]),
    ensures
        tokens_from(join_words(s) + z, Seq::empty()) == s.drop_last() + tokens_from(z, s.last()),
    decreases s.len(),
{
    assert(is_token(s[0]));
    if s.len() == 1 {
        lemma_tokens_run(s[0], z, Seq::empty());
        assert(Seq::<char>::empty() + s[0] =~= s[0]);
        assert(s.drop_last() =~= Seq::<Seq<char>>::empty());
    } else {
        let s1 = s.drop_last();
        let w = s.last();
        assert(is_token(w));
        assert forall|k: int| 0 <= k < s1.len() implies is_token(#[trigger] s1[k]) by {
            assert(s1[k] == s[k]);
        }
        let rest = seq![' '] + w + z;
        assert(join_words(s) + z =~= join_words(s1) + rest);
        lemma_tokens_join(s1, rest);
        assert(is_token(s1.last()));
        assert(seq![' '] + w + z =~= seq![' '] + (w + z));
        lemma_tokens_space(w + z, s1.last());
        lemma_tokens_run(w, z, Seq::empty());
        assert(Seq::<char>::empty() + w =~= w);
        assert(s1.drop_last() + (flush(s1.last()) + tokens_from(z, w)) =~= s.drop_last()
            + tokens_from(z, w)) by {
            assert(s1.drop_last().push(s1.last()) =~= s1);
        }
    }
}

/// The joined text starts with the first token's first character and ends
/// with the last token's last character.
proof fn lemma_join_ends(s: Seq<Seq<char>>)
    requires
        s.len() > 0,
        forall|k: int| 0 <= k < s.len() ==> is_token(#[trigger] s[k]),
    ensures
        join_words(s).len() > 0,
        join_words(s)[0] == s[0][0],
        join_words(s).last() == s.last().last(),
    decreases s.len(),
{
    assert(is_token(s[0]));
    assert(is_token(s.last()));
    if s.len() > 1 {
        let s1 = s.drop_last();
        assert forall|k: int| 0 <= k < s1.len() implies is_token(#[trigger] s1[k]) by {
            assert(s1[k] == s[k]);
        }
        lemma_join_ends(s1);
        assert(s1[0] == s[0]);
    }
}

/// Two strictly sorted sequences with the same elements are equal.
pub proof fn lemma_sorted_same_elements(a: Seq<Seq<char>>, b: Seq<Seq<char>>)
    requires
        strictly_sorted(a),
        strictly_sorted(b),
        forall|x: Seq<char>| #[trigger] a.contains(x) <==> b.contains(x),
    ensures
        a == b,
    decreases a.len(),
{
    if a.len() == 0 {
        if b.len() > 0 {
            assert(b.contains(b[0]));
            assert(a.contains(b[0]));
        }
        assert(a =~= b);
    } else {
        assert(a.contains(a[0]));
        assert(b.len() > 0);
        assert(b.contains(b[0]));
        if a[0] != b[0] {
            assert(b.contains(a[0]));
            assert(a.contains(b[0]));
            let k = choose|k: int| 0 <= k < b.len() && b[k] == a[0];
            let m = choose|m: int| 0 <= m < a.len() && a[m] == b[0];
            assert(lex_lt(b[0], b[k]));
            assert(lex_lt(a[0], a[m]));
            lemma_lex_asymmetric(a[0], b[0]);
        }
        let a1 = a.drop_first();
        let b1 = b.drop_first();
        assert forall|i: int, j: int| 0 <= i < j < a1.len() implies lex_lt(
            #[trigger] a1[i],
            #[trigger] a1[j],
        ) by {
            assert(a1[i] == a[i + 1] && a1[j] == a[j + 1]);
        }
        assert forall|i: int, j: int| 0 <= i < j < b1.len() implies lex_lt(
            #[trigger] b1[i],
            #[trigger] b1[j],
        ) by {
            assert(b1[i] == b[i + 1] && b1[j] == b[j + 1]);
        }
        assert forall|x: Seq<char>| #[trigger] a1.contains(x) <==> b1.contains(x) by {
            if a1.contains(x) {
                let i = choose|i: int| 0 <= i < a1.len() && a1[i] == x;
                assert(a[i + 1] == x);
                assert(lex_lt(a[0], a[i + 1]));
                lemma_lex_irreflexive(x);
                assert(a.contains(x));
                assert(b.contains(x));
                let j = choose|j: int| 0 <= j < b.len() && b[j] == x;
                assert(j != 0);
                assert(b1[j - 1] == x);
            }
            if b1.contains(x) {
                let i = choose|i: int| 0 <= i < b1.len() && b1[i] == x;
                assert(b[i + 1] == x);
                assert(lex_lt(b[0], b[i + 1]));
                lemma_lex_irreflexive(x);
                assert(b.contains(x));
                assert(a.contains(x));
                let j = choose|j: int| 0 <= j < a.len() && a[j] == x;
                assert(j != 0);
                assert(a1[j - 1] == x);
            }
        }
        lemma_sorted_same_elements(a1, b1);
        assert(a =~= b) by {
            assert forall|i: int| 0 <= i < a.len() implies a[i] == b[i] by {
                if i > 0 {
                    assert(a[i] == a1[i - 1]);
                    assert(b[i] == b1[i - 1]);
                }
            }
        }
    }
}

/// Rendering a scope and parsing the text succeeds and gives the same scope
/// back. `parsed` is any scope that `Scope::parse` may return for the
/// rendered text. Parsing
/// trims the text, so the first token must not start, and the last must not
/// end, with whitespace; the tokens are those every permission satisfies.
pub proof fn lemma_scope_text_roundtrip(s: Seq<Seq<char>>, parsed: Seq<Seq<char>>)
    requires
        strictly_sorted(s),
        forall|k: int| 0 <= k < s.len() ==> is_token(#[trigger] s[k]),
        s.len() > 0 ==> !is_ws(s[0][0]) && !is_ws(s.last().last()),
        strictly_sorted(parsed),
        forall|x: Seq<char>| #[trigger]
            parsed.contains(x) <==> ascii_tokens(trim(join_words(s))).contains(x),
    ensures
        !double_ws(trim(join_words(s))),
        parsed == s,
{
    if s.len() == 0 {
        let t = trim(join_words(s));
        assert(join_words(s) =~= Seq::<char>::empty());
        assert(t.len() == 0);
        assert(t =~= Seq::<char>::empty());
        assert(ascii_tokens(t) =~= Seq::<Seq<char>>::empty());
    } else {
        lemma_join_ends(s);
        lemma_trim_id(join_words(s));
        lemma_join_no_double_ws(s);
        lemma_tokens_join(s, Seq::empty());
        assert(join_words(s) + Seq::<char>::empty() =~= join_words(s));
        assert(is_token(s.last()));
        assert(tokens_from(Seq::<char>::empty(), s.last()) == seq![s.last()]);
        assert(s.drop_last() + seq![s.last()] =~= s);
    }
    lemma_sorted_same_elements(parsed, s);
}

/// A strictly sorted sequence holds no permission twice.
proof fn lemma_sorted_no_duplicates(s: Seq<Seq<char>>)
    requires
        strictly_sorted(s),
    ensures
        s.no_duplicates(),
{
    assert forall|i: int, j: int| 0 <= i < s.len() && 0 <= j < s.len() && i != j implies s[i]
        != s[j] by {
        if i < j {
            assert(lex_lt(s[i], s[j]));
        } else {
            assert(lex_lt(s[j], s[i]));
        }
        lemma_lex_irreflexive(s[i]);
    }
}

/// A union of sorted permission lists is at least as long as either list and
/// at most as long as both together.
proof fn lemma_sorted_union_len(a: Seq<Seq<char>>, b: Seq<Seq<char>>, u: Seq<Seq<char>>)
    requires
        strictly_sorted(a),
        strictly_sorted(b),
        strictly_sorted(u),
        forall|x: Seq<char>| #[trigger] u.contains(x) <==> a.contains(x) || b.contains(x),
    ensures
        a.len() <= u.len(),
        b.len() <= u.len(),
        u.len() <= a.len() + b.len(),
{
    broadcast use vstd::seq_lib::seq_to_set_is_finite;

    lemma_sorted_no_duplicates(a);
    lemma_sorted_no_duplicates(b);
    lemma_sorted_no_duplicates(u);
    a.unique_seq_to_set();
    b.unique_seq_to_set();
    u.unique_seq_to_set();
    assert(u.to_set() =~= a.to_set().union(b.to_set()));
    vstd::set_lib::lemma_len_union(a.to_set(), b.to_set());
    vstd::set_lib::lemma_len_subset(a.to_set(), u.to_set());
    vstd::set_lib::lemma_len_subset(b.to_set(), u.to_set());
}

/// The union of two scopes does not depend on their order (`a ∪ b` and
/// `b ∪ a` are the same scope), and its size lies between the larger of the
/// two sizes and their sum.
pub proof fn lemma_scope_union_laws(
    a: Seq<Seq<char>>,
    b: Seq<Seq<char>>,
    ab: Seq<Seq<char>>,
    ba: Seq<Seq<char>>,
)
    requires
        strictly_sorted(a),
        strictly_sorted(b),
        strictly_sorted(ab),
        strictly_sorted(ba),
        forall|x: Seq<char>| #[trigger] ab.contains(x) <==> a.contains(x) || b.contains(x),
        forall|x: Seq<char>| #[trigger] ba.contains(x) <==> b.contains(x) || a.contains(x),
    ensures
        ab == ba,
        a.len() <= ab.len(),
        b.len() <= ab.len(),
        ab.len() <= a.len() + b.len(),
{
    lemma_sorted_same_elements(ab, ba);
    lemma_sorted_union_len(a, b, ab);
}

} // verus!
