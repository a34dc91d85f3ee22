//! Mapping a service's domain errors onto Connect failures.

use vstd::prelude::*;
use crate::connect::code::{ConnectCode, ConnectFailure};

verus! {

/// The canonical kinds of domain error that cross the Connect boundary.
#[derive(Debug)]
pub enum DomainErrorKind {
    /// The resource is absent.
    NotFound,
    /// A state conflict (a duplicate key, say), with its message.
    Conflict(String),
    /// An unexpected error, with a detail that is never surfaced.
    Internal(String),
}

/// Implemented by a service's error type to use [`domain_to_connect`].
pub trait IntoDomainErrorKind {
    /// The kind of this error.
    fn kind(&self) -> DomainErrorKind;
}

/// The failure a kind maps to: `NotFound` to `not_found("not found")`,
/// `Conflict(msg)` to `already_exists(msg)`, `Internal(_)` to
/// `internal("internal error")` (the detail is dropped).
pub open spec fn spec_domain_failure(kind: DomainErrorKind) -> (ConnectCode, Seq<char>) {
    match kind {
        DomainErrorKind::NotFound => (ConnectCode::NotFound, "not found"@),
        DomainErrorKind::Conflict(msg) => (ConnectCode::AlreadyExists, msg@),
        DomainErrorKind::Internal(_) => (ConnectCode::Internal, "internal error"@),
    }
}

/// Whether `r` is the failure that `kind` maps to.
pub open spec fn is_domain_failure(r: ConnectFailure, kind: DomainErrorKind) -> bool {
    &&& r.code == spec_domain_failure(kind).0
    &&& r.message is Some
    &&& r.message->0@ == spec_domain_failure(kind).1
}

/// The Connect failure for one domain error kind.
pub fn domain_failure(kind: DomainErrorKind) -> (r: ConnectFailure)
    ensures
        is_domain_failure(r, kind),
{
    match kind {
        DomainErrorKind::NotFound => ConnectFailure::new(ConnectCode::NotFound, "not found"),
        DomainErrorKind::Conflict(msg) => ConnectFailure::new(
            ConnectCode::AlreadyExists,
            msg.as_str(),
        ),
        DomainErrorKind::Internal(_) => ConnectFailure::new(
            ConnectCode::Internal,
            "internal error",
        ),
    }
}

/// Maps any domain error to its Connect failure, through the kind the error
/// reports of itself.
pub fn domain_to_connect<E: IntoDomainErrorKind>(err: &E) -> (r: ConnectFailure)
    ensures
        exists|kind: DomainErrorKind| is_domain_failure(r, kind),
{
    let kind = err.kind();
    let ghost k = kind;
    let r = domain_failure(kind);
    proof {
        assert(is_domain_failure(r, k));
    }
    r
}

/// The detail of an internal error never reaches the caller: whatever the
/// details, internal errors map to the same failure.
pub proof fn lemma_internal_detail_hidden(a: String, b: String)
    ensures
        spec_domain_failure(DomainErrorKind::Internal(a)) == spec_domain_failure(
            DomainErrorKind::Internal(b),
        ),
{
}

} // verus!
