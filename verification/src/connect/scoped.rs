//! Per-call credential scoping: one credential bound to one call, over the
//! transport its parent client owns.

use vstd::prelude::*;
use vstd::utf8::encode_utf8;
use crate::encoding::is_header_value;
use crate::text::{chars_of, owned, push_chars};

verus! {

#[verifier::external_type_specification]
#[verifier::external_body]
pub struct ExCallOptions(connectrpc::client::CallOptions);

/// The request headers a `CallOptions` carries (its `HeaderMap`): for each
/// header name, the bytes of its values in the order they were added (the
/// order `get_all` yields).
pub uninterp spec fn spec_call_headers(options: connectrpc::client::CallOptions) -> Map<
    Seq<char>,
    Seq<Seq<u8>>,
>;

/// `headers` with `value` added under `name`, after any values already there
/// (`HeaderMap::append`).
pub open spec fn append_header(
    headers: Map<Seq<char>, Seq<Seq<u8>>>,
    name: Seq<char>,
    value: Seq<u8>,
) -> Map<Seq<char>, Seq<Seq<u8>>> {
    headers.insert(
        name,
        if headers.dom().contains(name) {
            headers[name].push(value)
        } else {
            seq![value]
        },
    )
}

/// Whether a header map can take one more value without overflowing: it has
/// fewer than 6,554 distinct names. `HeaderMap` can fail to grow only once
/// its index table is at its largest (32,768 slots), and it grows from there
/// only when it holds at least a fifth of that many names.
pub open spec fn has_header_room(headers: Map<Seq<char>, Seq<Seq<u8>>>) -> bool {
    headers.dom().finite() && headers.dom().len() < 6554
}

/// A header map with no headers.
pub open spec fn no_headers() -> Map<Seq<char>, Seq<Seq<u8>>> {
    Map::empty()
}

/// `CallOptions::default()` (a derived `Default`): an empty header map, and
/// no timeout or limit set.
#[verifier::external_body]
fn default_call_options() -> (r: connectrpc::client::CallOptions)
    ensures
        spec_call_headers(r) == no_headers(),
{
    connectrpc::client::CallOptions::default()
}

/// `headers` after an `authorization` header with text `value` is offered:
/// its UTF-8 bytes are added when `http` accepts them as a value (every byte
/// passes `is_valid`), and the offer is otherwise silently ignored.
pub open spec fn with_authorization_header(headers: Map<Seq<char>, Seq<Seq<u8>>>, value: Seq<char>) -> Map<
    Seq<char>,
    Seq<Seq<u8>>,
> {
    if is_header_value(encode_utf8(value)) {
        append_header(headers, "authorization"@, encode_utf8(value))
    } else {
        headers
    }
}

/// `CallOptions::with_header(AUTHORIZATION, value)`. The source converts the
/// value with `HeaderValue::try_from(String)`, which keeps the bytes and
/// fails exactly when some byte fails `is_valid`; on success it calls
/// `HeaderMap::append`, which adds the value after those already held under
/// `authorization`, and on failure it leaves the options unchanged. `append`
/// panics (`size overflows MAX_SIZE`) only when the map cannot grow, which
/// `requires` rules out.
#[verifier::external_body]
pub(crate) fn with_authorization(options: connectrpc::client::CallOptions, value: String) -> (r:
    connectrpc::client::CallOptions)
    requires
        has_header_room(spec_call_headers(options)),
    ensures
        spec_call_headers(r) == with_authorization_header(spec_call_headers(options), value@),
{
    options.with_header(::http::header::AUTHORIZATION, value)
}

/// The `authorization` value that presents `token`: `Bearer <token>`.
pub open spec fn bearer_value(token: Seq<char>) -> Seq<char> {
    "Bearer "@ + token
}

/// `Bearer <token>`.
pub(crate) fn bearer_value_exec(token: &str) -> (r: String)
    ensures
        r@ == bearer_value(token@),
{
    let mut s = String::new();
    let a = chars_of("Bearer ");
    let t = chars_of(token);
    push_chars(&mut s, a.as_slice());
    push_chars(&mut s, t.as_slice());
    s
}

/// Call options for one request, carrying `bearer` as an `authorization`
/// header when there is one, and no other header.
pub fn call_options(bearer: Option<&str>) -> (r: connectrpc::client::CallOptions)
    ensures
        spec_call_headers(r) == match bearer {
            Some(token) => with_authorization_header(no_headers(), bearer_value(token@)),
            None => no_headers(),
        },
{
    match bearer {
        Some(token) => with_authorization(default_call_options(), bearer_value_exec(token)),
        None => default_call_options(),
    }
}

/// One credential bound to one call, borrowing the client that owns the
/// transport (the same TLS configuration and connection pool).
pub struct ScopedClient<'a, C> {
    client: &'a C,
    credential: String,
}

impl<'a, C> ScopedClient<'a, C> {
    /// The client this handle borrows.
    pub closed spec fn spec_client(&self) -> &'a C {
        self.client
    }

    /// The credential bound to this handle.
    pub closed spec fn spec_credential(&self) -> Seq<char> {
        self.credential@
    }

    /// Binds `credential` to calls made through a handle over `client`.
    pub fn new(client: &'a C, credential: &str) -> (r: Self)
        ensures
            r.spec_client() == client,
            r.spec_credential() == credential@,
    {
        let v = chars_of(credential);
        let mut s = String::new();
        push_chars(&mut s, v.as_slice());
        ScopedClient { client, credential: s }
    }

    /// The client this handle borrows: the very instance that produced it.
    pub fn client(&self) -> (r: &'a C)
        ensures
            r == self.spec_client(),
    {
        self.client
    }

    /// The credential bound to this handle.
    pub fn credential(&self) -> (r: &str)
        ensures
            r@ == self.spec_credential(),
    {
        self.credential.as_str()
    }

    /// Call options presenting this handle's credential as
    /// `authorization: Bearer <credential>`, and no other header.
    pub fn call_options(&self) -> (r: connectrpc::client::CallOptions)
        ensures
            spec_call_headers(r) == with_authorization_header(
                no_headers(),
                bearer_value(self.spec_credential()),
            ),
    {
        call_options(Some(self.credential.as_str()))
    }

    /// `ScopedClient { .. }`: the `Debug` text, which never shows the
    /// credential.
    pub fn debug_text(&self) -> (r: String)
        ensures
            r@ == "ScopedClient { .. }"@,
    {
        owned("ScopedClient { .. }")
    }
}

impl<'a, C> Clone for ScopedClient<'a, C> {
    /// Clones the binding, not the transport: both handles borrow the one
    /// client.
    fn clone(&self) -> (r: Self)
        ensures
            r.spec_client() == self.spec_client(),
            r.spec_credential() == self.spec_credential(),
    {
        ScopedClient::new(self.client, self.credential.as_str())
    }
}

impl<'a, C> core::fmt::Debug for ScopedClient<'a, C> {
    /// Writes [`ScopedClient::debug_text`].
    fn fmt(&self, f: &mut core::fmt::Formatter<'_>) -> core::fmt::Result {
        let text = self.debug_text();
        crate::text::write_text(f, text.as_str())
    }
}

/// Lets a client hand out a [`ScopedClient`] over its own transport.
pub trait ScopeCall: Sized {
    /// Binds `credential` to exactly one call over this client's transport.
    fn with_credential(&self, credential: &str) -> (r: ScopedClient<'_, Self>)
        ensures
            r.spec_client() == self,
            r.spec_credential() == credential@,
    {
        ScopedClient::new(self, credential)
    }
}

} // verus!
