//! Actor identity for audit trails: [`Principal`] and its parts, the
//! rate-limit lease of device principals, and the read-side
//! [`ResolvedPrincipal`].

use vstd::prelude::*;
use crate::text::{chars_of, owned, push_chars, string_from_chars};
use crate::uuid::{Uuid, uuid_text, spec_uuid_parse};

verus! {

// ---------------------------------------------------------------------------
// PrincipalId
// ---------------------------------------------------------------------------

/// Opaque principal identifier: a UUID string for people and devices, a
/// stable name for services, agents and system actors.
#[derive(Clone, PartialEq, Eq, Hash, Debug)]
pub struct PrincipalId(String);

impl View for PrincipalId {
    type V = Seq<char>;

    closed spec fn view(&self) -> Seq<char> {
        self.0@
    }
}

impl PrincipalId {
    /// Wrap a compile-time name.
    pub fn static_str(s: &'static str) -> (r: PrincipalId)
        ensures
            r@ == s@,
    {
        PrincipalId(owned(s))
    }

    /// Wrap an owned string.
    pub fn from_owned(s: String) -> (r: PrincipalId)
        ensures
            r@ == s@,
    {
        PrincipalId(s)
    }

    /// The id as text.
    pub fn as_str(&self) -> (r: &str)
        ensures
            r@ == self@,
    {
        self.0.as_str()
    }

    /// The hyphenated form of a UUID.
    pub fn from_uuid(uuid: Uuid) -> (r: PrincipalId)
        ensures
            r@ == uuid_text(uuid@),
    {
        PrincipalId(uuid.to_string())
    }

    /// The id as an owned string.
    pub fn to_string(&self) -> (r: String)
        ensures
            r@ == self@,
    {
        owned(self.0.as_str())
    }
}

/// The kind of actor a principal represents.
#[derive(Clone, Copy, PartialEq, Eq, Hash, Debug, Structural)]
#[non_exhaustive]
pub enum PrincipalKind {
    /// A person (id is a UUID string).
    User,
    /// A service (id is a service name).
    Service,
    /// A platform-level system actor (id is a static name).
    System,
    /// A hardware-bound identity (id is a UUID string).
    Device,
    /// An autonomous agent (id is a stable agent name).
    Agent,
}

// ---------------------------------------------------------------------------
// DeviceLease
// ---------------------------------------------------------------------------

/// Rate-limit accounting model for a device principal.
#[derive(Clone, Copy, PartialEq, Eq, Hash, Debug, Structural)]
pub enum DeviceLeaseKind {
    /// Concurrent-connection gauge.
    Connection,
    /// Time-windowed request counter.
    RequestStream,
}

/// Rate-limit lease contract for device principals.
#[derive(Clone, Copy, PartialEq, Eq, Hash, Debug, Structural)]
pub struct DeviceLease {
    /// Gauge or counter.
    pub kind: DeviceLeaseKind,
    /// Maximum concurrent connections or burst; `None` means no cap.
    pub max_concurrent: Option<u32>,
    /// Attestation refresh cadence in seconds, at most one hour.
    pub refresh_secs: u32,
}

impl DeviceLease {
    /// Largest permitted `refresh_secs` (one hour).
    pub const MAX_REFRESH_SECS: u32 = 3_600;

    /// A lease whose refresh cadence is clamped to one hour.
    pub fn new(kind: DeviceLeaseKind, max_concurrent: Option<u32>, refresh_secs: u32) -> (r:
        DeviceLease)
        ensures
            r.kind == kind,
            r.max_concurrent == max_concurrent,
            r.refresh_secs == (if refresh_secs <= 3600 {
                refresh_secs
            } else {
                3600
            }),
    {
        let clamped = if refresh_secs <= DeviceLease::MAX_REFRESH_SECS {
            refresh_secs
        } else {
            DeviceLease::MAX_REFRESH_SECS
        };
        DeviceLease { kind, max_concurrent, refresh_secs: clamped }
    }
}

// ---------------------------------------------------------------------------
// OrgId
// ---------------------------------------------------------------------------

/// Identifier of an organisation in the org tree.
#[derive(Clone, Copy, PartialEq, Eq, Hash, Debug, Structural)]
pub struct OrgId(pub Uuid);

impl OrgId {
    /// A fresh random identifier.
    pub fn generate() -> (r: OrgId)
        ensures
            (r.0@ >> 76u128) & 0xf == 4,
    {
        OrgId(Uuid::new_v4())
    }

    /// The hyphenated UUID form.
    pub fn to_string(&self) -> (r: String)
        ensures
            r@ == uuid_text(self.0@),
    {
        self.0.to_string()
    }
}

/// The org path rendered as comma-separated UUIDs.
pub open spec fn join_orgs(path: Seq<OrgId>) -> Seq<char>
    decreases path.len(),
{
    if path.len() == 0 {
        seq![]
    } else if path.len() == 1 {
        uuid_text(path[0].0@)
    } else {
        join_orgs(path.drop_last()) + ","@ + uuid_text(path.last().0@)
    }
}

// ---------------------------------------------------------------------------
// PrincipalParseError
// ---------------------------------------------------------------------------

/// A principal string that is not a UUID.
#[derive(Debug, Clone, PartialEq, Eq)]
pub struct PrincipalParseError {
    /// The rejected input.
    pub input: String,
}

/// What `format!("{:?}", s)` produces for a string.
pub uninterp spec fn spec_str_debug(s: Seq<char>) -> Seq<char>;

/// Formats a string with `str`'s `Debug` (quoted and escaped); only the name
/// `spec_str_debug` is stated of the result.
#[verifier::external_body]
pub(crate) fn str_debug(s: &str) -> (r: String)
    ensures
        r@ == spec_str_debug(s@),
{
    format!("{:?}", s)
}

impl PrincipalParseError {
    /// `invalid Principal: expected a UUID string, got "<input>"`.
    pub fn to_string(&self) -> (r: String)
        ensures
            r@ == "invalid Principal: expected a UUID string, got "@ + spec_str_debug(
                self.input@,
            ),
    {
        let mut s = owned("invalid Principal: expected a UUID string, got ");
        let d = str_debug(self.input.as_str());
        push_chars(&mut s, chars_of(d.as_str()).as_slice());
        s
    }
}

// ---------------------------------------------------------------------------
// Principal
// ---------------------------------------------------------------------------

/// Canonical actor identity: id, kind, and position in the org tree
/// (root to self; empty for platform-scope actors).
#[derive(Clone, PartialEq, Eq, Hash, Debug)]
pub struct Principal {
    /// The opaque identifier.
    pub id: PrincipalId,
    /// The kind of actor.
    pub kind: PrincipalKind,
    /// Org path from the root to the acting org, inclusive.
    pub org_path: Vec<OrgId>,
}

impl Principal {
    /// A person, identified by a UUID.
    pub fn human(uuid: Uuid) -> (r: Principal)
        ensures
            r.id@ == uuid_text(uuid@),
            r.kind == PrincipalKind::User,
            r.org_path@.len() == 0,
    {
        Principal { id: PrincipalId::from_uuid(uuid), kind: PrincipalKind::User, org_path: Vec::new() }
    }

    /// Parse a UUID string (any form the `uuid` crate accepts) into a person.
    pub fn try_parse(s: &str) -> (r: Result<Principal, PrincipalParseError>)
        ensures
            match r {
                Ok(p) => spec_uuid_parse(s@) matches Some(v) && p.id@ == uuid_text(v)
                    && p.kind == PrincipalKind::User && p.org_path@.len() == 0,
                Err(e) => spec_uuid_parse(s@) is None && e.input@ == s@,
            },
    {
        match Uuid::parse_str(s) {
            Some(u) => Ok(Principal::human(u)),
            None => Err(PrincipalParseError { input: owned(s) }),
        }
    }

    /// A hardware-bound device, identified by a UUID.
    pub fn device(uuid: Uuid) -> (r: Principal)
        ensures
            r.id@ == uuid_text(uuid@),
            r.kind == PrincipalKind::Device,
            r.org_path@.len() == 0,
    {
        Principal {
            id: PrincipalId::from_uuid(uuid),
            kind: PrincipalKind::Device,
            org_path: Vec::new(),
        }
    }

    /// An autonomous agent with a stable name.
    pub fn agent(id: &'static str) -> (r: Principal)
        ensures
            r.id@ == id@,
            r.kind == PrincipalKind::Agent,
            r.org_path@.len() == 0,
    {
        Principal { id: PrincipalId::static_str(id), kind: PrincipalKind::Agent, org_path: Vec::new() }
    }

    /// A system actor with a static name.
    pub fn system(id: &'static str) -> (r: Principal)
        ensures
            r.id@ == id@,
            r.kind == PrincipalKind::System,
            r.org_path@.len() == 0,
    {
        Principal {
            id: PrincipalId::static_str(id),
            kind: PrincipalKind::System,
            org_path: Vec::new(),
        }
    }

    /// The id as text.
    pub fn as_str(&self) -> (r: &str)
        ensures
            r@ == self.id@,
    {
        self.id.as_str()
    }

    /// The same principal placed at `org_path`.
    pub fn with_org_path(self, org_path: Vec<OrgId>) -> (r: Principal)
        ensures
            r.id == self.id,
            r.kind == self.kind,
            r.org_path == org_path,
    {
        Principal { org_path, ..self }
    }

    /// The org path as comma-separated UUIDs, root first; empty when the
    /// principal has no org.
    pub fn org_path_display(&self) -> (r: String)
        ensures
            r@ == join_orgs(self.org_path@),
    {
        let mut s = String::new();
        let mut i: usize = 0;
        while i < self.org_path.len()
            invariant
                i <= self.org_path@.len(),
                s@ == join_orgs(self.org_path@.subrange(0, i as int)),
            decreases self.org_path@.len() - i,
        {
            let ghost pre = self.org_path@.subrange(0, i as int);
            let ghost next = self.org_path@.subrange(0, i + 1);
            assert(next.drop_last() =~= pre);
            if i > 0 {
                push_chars(&mut s, chars_of(",").as_slice());
            } else {
                assert(pre =~= Seq::<OrgId>::empty());
            }
            let t = self.org_path[i].to_string();
            push_chars(&mut s, chars_of(t.as_str()).as_slice());
            i = i + 1;
        }
        assert(self.org_path@.subrange(0, i as int) =~= self.org_path@);
        s
    }

    /// The id as an owned string (the principal's display form).
    pub fn to_string(&self) -> (r: String)
        ensures
            r@ == self.id@,
    {
        self.id.to_string()
    }
}

// ---------------------------------------------------------------------------
// ResolvedPrincipal
// ---------------------------------------------------------------------------

/// A principal with an optional display name resolved at read time.
#[derive(Debug, Clone, PartialEq, Eq)]
pub struct ResolvedPrincipal {
    /// The stored identity.
    pub id: Principal,
    /// The resolved display name, if any.
    pub display_name: Option<String>,
}

impl ResolvedPrincipal {
    /// Wrap a principal with an optional display name.
    pub fn new(id: Principal, display_name: Option<String>) -> (r: ResolvedPrincipal)
        ensures
            r.id == id,
            r.display_name == display_name,
    {
        ResolvedPrincipal { id, display_name }
    }

    /// The display name when set, the principal's id otherwise.
    pub fn display(&self) -> (r: &str)
        ensures
            r@ == (match self.display_name {
                Some(n) => n@,
                None => self.id.id@,
            }),
    {
        match &self.display_name {
            Some(n) => n.as_str(),
            None => self.id.as_str(),
        }
    }
}

impl From<Principal> for ResolvedPrincipal {
    fn from(id: Principal) -> (r: ResolvedPrincipal)
        ensures
            r.id == id,
            r.display_name is None,
    {
        ResolvedPrincipal { id, display_name: None }
    }
}

impl vstd::std_specs::convert::FromSpecImpl<Principal> for ResolvedPrincipal {
    open spec fn obeys_from_spec() -> bool {
        true
    }

    open spec fn from_spec(v: Principal) -> ResolvedPrincipal {
        ResolvedPrincipal { id: v, display_name: None }
    }
}

} // verus!
