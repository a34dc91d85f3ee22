//! Classifying Connect failures by who is at fault.

use vstd::prelude::*;
use vstd::utf8::encode_utf8;
use crate::connect::code::ConnectCode;
use crate::connect::scoped::{
    append_header, bearer_value, bearer_value_exec, has_header_room, spec_call_headers,
    with_authorization, with_authorization_header,
};
use crate::encoding::is_header_value;
use crate::header::spec_is_header_name;
use crate::text::{lower, owned};

verus! {

/// The codes that reject the caller's request (as opposed to a transport or
/// server failure).
pub open spec fn spec_is_caller_rejection(code: ConnectCode) -> bool {
    code == ConnectCode::InvalidArgument || code == ConnectCode::Unauthenticated || code
        == ConnectCode::PermissionDenied || code == ConnectCode::FailedPrecondition || code
        == ConnectCode::NotFound || code == ConnectCode::Unimplemented
}

/// Whether a Connect code is a caller-facing rejection rather than a
/// transport or server failure.
pub fn is_caller_rejection(code: ConnectCode) -> (r: bool)
    ensures
        r == spec_is_caller_rejection(code),
{
    match code {
        ConnectCode::InvalidArgument | ConnectCode::Unauthenticated
        | ConnectCode::PermissionDenied | ConnectCode::FailedPrecondition | ConnectCode::NotFound
        | ConnectCode::Unimplemented => true,
        _ => false,
    }
}

/// Exactly six codes reject the caller's request: `InvalidArgument`,
/// `Unauthenticated`, `PermissionDenied`, `FailedPrecondition`, `NotFound` and
/// `Unimplemented`. Every other code (a deadline, a cancellation, a conflict,
/// a quota, an unavailable or failing server, lost data) is a transport or
/// server failure.
pub proof fn lemma_caller_rejection_codes(code: ConnectCode)
    ensures
        spec_is_caller_rejection(code) <==> match code {
            ConnectCode::InvalidArgument => true,
            ConnectCode::Unauthenticated => true,
            ConnectCode::PermissionDenied => true,
            ConnectCode::FailedPrecondition => true,
            ConnectCode::NotFound => true,
            ConnectCode::Unimplemented => true,
            ConnectCode::Canceled => false,
            ConnectCode::Unknown => false,
            ConnectCode::DeadlineExceeded => false,
            ConnectCode::AlreadyExists => false,
            ConnectCode::ResourceExhausted => false,
            ConnectCode::Aborted => false,
            ConnectCode::OutOfRange => false,
            ConnectCode::Internal => false,
            ConnectCode::Unavailable => false,
            ConnectCode::DataLoss => false,
        },
{
}

#[verifier::external_type_specification]
#[verifier::external_body]
pub struct ExClientConfig(connectrpc::client::ClientConfig);

/// The default headers a `ClientConfig` carries (its `default_headers`
/// map): for each header name, the bytes of its values in the order they were
/// added.
pub uninterp spec fn spec_default_headers(config: connectrpc::client::ClientConfig) -> Map<
    Seq<char>,
    Seq<Seq<u8>>,
>;

/// `headers` after the header `name: value` is offered: the value's UTF-8
/// bytes are added under the name in lower case when `http` accepts both, and
/// the offer is otherwise silently ignored.
pub open spec fn with_header_entry(
    headers: Map<Seq<char>, Seq<Seq<u8>>>,
    name: Seq<char>,
    value: Seq<char>,
) -> Map<Seq<char>, Seq<Seq<u8>>> {
    if spec_is_header_name(name) && is_header_value(encode_utf8(value)) {
        append_header(headers, lower(name), encode_utf8(value))
    } else {
        headers
    }
}

/// `ClientConfig::with_default_header(name, value)`. The source converts the
/// name with `HeaderName::try_from(&str)` (the same `from_bytes` that
/// `parse` uses, lower-casing what it accepts) and the value with
/// `HeaderValue::try_from(String)` (which keeps the bytes); when both
/// succeed it calls `HeaderMap::append` on the default headers, which adds the
/// value after those already held under that name, and otherwise it leaves
/// the configuration unchanged. `append` panics only when the map cannot grow,
/// which `requires` rules out.
#[verifier::external_body]
fn with_default_header(config: connectrpc::client::ClientConfig, name: &'static str, value: String) -> (r:
    connectrpc::client::ClientConfig)
    requires
        has_header_room(spec_default_headers(config)),
    ensures
        spec_default_headers(r) == with_header_entry(spec_default_headers(config), name@, value@),
{
    config.with_default_header(name, value)
}

/// Binds a credential to one call: the call's own `authorization` header,
/// never a default shared by every call of the client.
pub trait ConnectCallExt {
    /// Whether the call's header map can take one more value.
    spec fn header_room(&self) -> bool;

    /// Presents `authorization: Bearer <token>` on this call only.
    fn with_claim(self, token: &str) -> Self
        requires
            self.header_room(),
    ;
}

impl ConnectCallExt for connectrpc::client::CallOptions {
    open spec fn header_room(&self) -> bool {
        has_header_room(spec_call_headers(*self))
    }

    fn with_claim(self, token: &str) -> (r: Self)
        ensures
            spec_call_headers(r) == with_authorization_header(
                spec_call_headers(self),
                bearer_value(token@),
            ),
    {
        with_authorization(self, bearer_value_exec(token))
    }
}

/// Default headers that describe the process's own identity on a client
/// configuration.
pub trait ConnectConfigExt {
    /// Whether the configuration's default-header map can take one more
    /// value.
    spec fn header_room(&self) -> bool;

    /// Adds `authorization: Bearer <token>` as a default header.
    fn with_bearer(self, token: &str) -> Self
        requires
            self.header_room(),
    ;

    /// Adds `x-org-id` as a default header.
    fn with_org(self, org_id: &str) -> Self
        requires
            self.header_room(),
    ;

    /// Adds `x-subject-id` as a default header.
    fn with_subject(self, subject_id: &str) -> Self
        requires
            self.header_room(),
    ;
}

impl ConnectConfigExt for connectrpc::client::ClientConfig {
    open spec fn header_room(&self) -> bool {
        has_header_room(spec_default_headers(*self))
    }

    fn with_bearer(self, token: &str) -> (r: Self)
        ensures
            spec_default_headers(r) == with_header_entry(
                spec_default_headers(self),
                "authorization"@,
                bearer_value(token@),
            ),
    {
        with_default_header(self, "authorization", bearer_value_exec(token))
    }

    fn with_org(self, org_id: &str) -> (r: Self)
        ensures
            spec_default_headers(r) == with_header_entry(
                spec_default_headers(self),
                "x-org-id"@,
                org_id@,
            ),
    {
        with_default_header(self, "x-org-id", owned(org_id))
    }

    fn with_subject(self, subject_id: &str) -> (r: Self)
        ensures
            spec_default_headers(r) == with_header_entry(
                spec_default_headers(self),
                "x-subject-id"@,
                subject_id@,
            ),
    {
        with_default_header(self, "x-subject-id", owned(subject_id))
    }
}

} // verus!
