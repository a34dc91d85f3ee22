//! Default `if-match: *` preconditions for mutating RPCs, driven by the
//! generated method-policy document.

use vstd::prelude::*;
use crate::text::{chars_eq, chars_eq_str, chars_of, owned};

verus! {

/// The wildcard precondition: any current version matches.
pub const IF_MATCH_ANY: &'static str = "*";

/// The declared idempotency contract of one RPC.
#[derive(Debug, Clone, Copy, PartialEq, Eq, Structural)]
pub enum Idempotency {
    /// A read without side effects.
    NoSideEffects,
    /// Safe to repeat.
    Idempotent,
    /// Not declared.
    Unspecified,
}

/// The contract a policy string names.
pub open spec fn idempotency_of(s: Seq<char>) -> Option<Idempotency> {
    if s == "NO_SIDE_EFFECTS"@ {
        Some(Idempotency::NoSideEffects)
    } else if s == "IDEMPOTENT"@ {
        Some(Idempotency::Idempotent)
    } else if s == "UNSPECIFIED"@ {
        Some(Idempotency::Unspecified)
    } else {
        None
    }
}

impl Idempotency {
    /// The contract a policy string names.
    fn parse(s: &str) -> (r: Option<Idempotency>)
        ensures
            r == idempotency_of(s@),
    {
        let v = chars_of(s);
        if chars_eq_str(v.as_slice(), "NO_SIDE_EFFECTS") {
            Some(Idempotency::NoSideEffects)
        } else if chars_eq_str(v.as_slice(), "IDEMPOTENT") {
            Some(Idempotency::Idempotent)
        } else if chars_eq_str(v.as_slice(), "UNSPECIFIED") {
            Some(Idempotency::Unspecified)
        } else {
            None
        }
    }

    /// Whether calls with this contract are preconditioned by default: all
    /// but a declared side-effect-free read.
    pub fn is_preconditioned(self) -> (r: bool)
        ensures
            r == (self != Idempotency::NoSideEffects),
    {
        match self {
            Idempotency::NoSideEffects => false,
            _ => true,
        }
    }
}

// ---------------------------------------------------------------------------
// The policy document
// ---------------------------------------------------------------------------

/// One `methods` entry as read: `rpc`, `procedure` and `idempotency`, each
/// when present as a string.
pub type EntryV = (Option<Seq<char>>, Option<Seq<char>>, Option<Seq<char>>);

/// What the policy document holds, when it is JSON: `schemaVersion` when it
/// is an unsigned integer, and `methods` when it is an array.
pub uninterp spec fn spec_policy_fields(json: Seq<char>) -> Option<
    (Option<u64>, Option<Seq<EntryV>>),
>;

/// The view of an optional string.
pub open spec fn opt_v(o: Option<String>) -> Option<Seq<char>> {
    match o {
        Some(s) => Some(s@),
        None => None,
    }
}

/// The view of one read entry.
pub open spec fn entry_v(e: (Option<String>, Option<String>, Option<String>)) -> EntryV {
    (opt_v(e.0), opt_v(e.1), opt_v(e.2))
}

/// The view of the read document.
pub open spec fn fields_v(
    r: Option<(Option<u64>, Option<Vec<(Option<String>, Option<String>, Option<String>)>>)>,
) -> Option<(Option<u64>, Option<Seq<EntryV>>)> {
    match r {
        None => None,
        Some(d) => Some(
            (
                d.0,
                match d.1 {
                    Some(v) => Some(
                        v@.map_values(
                            |e: (Option<String>, Option<String>, Option<String>)| entry_v(e),
                        ),
                    ),
                    None => None,
                },
            ),
        ),
    }
}

/// Parses `json` with `serde_json::from_str::<Value>` and reads the fields the
/// policy needs with `Value::get`, `as_u64`, `as_array` and `as_str`. What
/// JSON the parser accepts is left to the name `spec_policy_fields`.
#[verifier::external_body]
fn policy_fields(json: &str) -> (r: Option<
    (Option<u64>, Option<Vec<(Option<String>, Option<String>, Option<String>)>>),
>)
    ensures
        fields_v(r) == spec_policy_fields(json@),
{
    let doc: serde_json::Value = serde_json::from_str(json).ok()?;
    let text = |e: &serde_json::Value, k: &str| e.get(k).and_then(|v| v.as_str()).map(str::to_owned);
    let methods = doc.get("methods").and_then(|m| m.as_array()).map(
        |ms| ms.iter().map(|e| (text(e, "rpc"), text(e, "procedure"), text(e, "idempotency"))).collect(),
    );
    Some((doc.get("schemaVersion").and_then(|v| v.as_u64()), methods))
}

/// Whether `key` is one of the indexed RPCs.
pub open spec fn has_key(acc: Seq<(Seq<char>, Idempotency)>, key: Seq<char>) -> bool {
    exists|i: int| 0 <= i < acc.len() && (#[trigger] acc[i]).0 == key
}

/// Indexing the entries after `acc`: every entry must name a unary RPC by a
/// path starting with `/`, with a known contract, and no RPC twice; any
/// other entry empties the whole index.
pub open spec fn index_entries(ms: Seq<EntryV>, acc: Seq<(Seq<char>, Idempotency)>) -> Seq<
    (Seq<char>, Idempotency),
>
    decreases ms.len(),
{
    if ms.len() == 0 {
        acc
    } else {
        let e = ms[0];
        if e.0 is None || e.1 is None || e.2 is None || idempotency_of(e.2->0) is None {
            Seq::empty()
        } else if e.1->0 != "unary"@ || !(e.0->0.len() > 0 && e.0->0[0] == '/') || has_key(
            acc,
            e.0->0,
        ) {
            Seq::empty()
        } else {
            index_entries(ms.drop_first(), acc.push((e.0->0, idempotency_of(e.2->0)->0)))
        }
    }
}

/// The index of the fields read from a policy document: empty unless the
/// document was JSON with `schemaVersion` 1 and a `methods` array of
/// well-formed entries.
pub open spec fn spec_index_fields(doc: Option<(Option<u64>, Option<Seq<EntryV>>)>) -> Seq<
    (Seq<char>, Idempotency),
> {
    match doc {
        None => Seq::empty(),
        Some(d) => if d.0 != Some(1u64) {
            Seq::empty()
        } else {
            match d.1 {
                None => Seq::empty(),
                Some(ms) => index_entries(ms, Seq::empty()),
            }
        },
    }
}

/// The index of a policy document.
pub open spec fn spec_index_policy(json: Seq<char>) -> Seq<(Seq<char>, Idempotency)> {
    spec_index_fields(spec_policy_fields(json))
}

/// RPC path → declared contract, each path once.
#[derive(Debug, Clone, PartialEq, Eq)]
pub struct PolicyIndex {
    entries: Vec<(String, Idempotency)>,
}

impl View for PolicyIndex {
    type V = Seq<(Seq<char>, Idempotency)>;

    closed spec fn view(&self) -> Seq<(Seq<char>, Idempotency)> {
        self.entries@.map_values(|e: (String, Idempotency)| (e.0@, e.1))
    }
}

/// The contract of the first entry for `key`.
pub open spec fn policy_lookup(es: Seq<(Seq<char>, Idempotency)>, key: Seq<char>) -> Option<
    Idempotency,
>
    decreases es.len(),
{
    if es.len() == 0 {
        None
    } else if es[0].0 == key {
        Some(es[0].1)
    } else {
        policy_lookup(es.drop_first(), key)
    }
}

impl PolicyIndex {
    /// No entries.
    pub fn new() -> (r: PolicyIndex)
        ensures
            r@ == Seq::<(Seq<char>, Idempotency)>::empty(),
    {
        let r = PolicyIndex { entries: Vec::new() };
        assert(r@ =~= Seq::<(Seq<char>, Idempotency)>::empty());
        r
    }

    /// Number of indexed RPCs.
    pub fn len(&self) -> (r: usize)
        ensures
            r == self@.len(),
    {
        self.entries.len()
    }

    /// Whether nothing is indexed.
    pub fn is_empty(&self) -> (r: bool)
        ensures
            r == (self@.len() == 0),
    {
        self.entries.len() == 0
    }

    /// The contract declared for `rpc`.
    pub fn get(&self, rpc: &str) -> (r: Option<Idempotency>)
        ensures
            r == policy_lookup(self@, rpc@),
    {
        let k = chars_of(rpc);
        let mut i: usize = 0;
        let ghost es = self@;
        assert(es.skip(0) =~= es);
        while i < self.entries.len()
            invariant
                i <= self.entries@.len(),
                es == self@,
                es.len() == self.entries@.len(),
                k@ == rpc@,
                policy_lookup(es, rpc@) == policy_lookup(es.skip(i as int), rpc@),
            decreases self.entries@.len() - i,
        {
            assert(es.skip(i as int)[0] == (self.entries@[i as int].0@, self.entries@[i as int].1));
            assert(es.skip(i as int).drop_first() =~= es.skip(i + 1));
            let ek = chars_of(self.entries[i].0.as_str());
            if chars_eq(ek.as_slice(), k.as_slice()) {
                return Some(self.entries[i].1);
            }
            i = i + 1;
        }
        None
    }

    /// Whether `rpc` is indexed.
    pub fn contains_key(&self, rpc: &str) -> (r: bool)
        ensures
            r == policy_lookup(self@, rpc@) is Some,
    {
        self.get(rpc).is_some()
    }

    fn contains_chars(&self, k: &[char]) -> (r: bool)
        ensures
            r == has_key(self@, k@),
    {
        let mut i: usize = 0;
        while i < self.entries.len()
            invariant
                i <= self.entries@.len(),
                self@.len() == self.entries@.len(),
                forall|j: int| 0 <= j < i ==> (#[trigger] self@[j]).0 != k@,
            decreases self.entries@.len() - i,
        {
            let ek = chars_of(self.entries[i].0.as_str());
            assert(self@[i as int].0 == self.entries@[i as int].0@);
            if chars_eq(ek.as_slice(), k) {
                return true;
            }
            i = i + 1;
        }
        false
    }
}

/// Index `connect-method-policy.json` by RPC path. Any malformed or repeated
/// entry empties the whole index (fails closed), and an empty index guards
/// nothing.
pub fn index_generated_policy(json: &str) -> (r: PolicyIndex)
    ensures
        r@ == spec_index_policy(json@),
{
    index_policy_fields(policy_fields(json))
}

/// Index the fields read from a policy document (`None` when it was not
/// JSON): `schemaVersion` must be 1 and `methods` an array whose every entry
/// names a distinct unary RPC path with a known contract; otherwise the index
/// is empty.
pub fn index_policy_fields(
    doc: Option<(Option<u64>, Option<Vec<(Option<String>, Option<String>, Option<String>)>>)>,
) -> (r: PolicyIndex)
    ensures
        r@ == spec_index_fields(fields_v(doc)),
{
    let ghost fields = fields_v(doc);
    let d = match doc {
        Some(d) => d,
        None => {
            return PolicyIndex::new();
        },
    };
    match d.0 {
        Some(v) => {
            if v != 1 {
                return PolicyIndex::new();
            }
        },
        None => {
            return PolicyIndex::new();
        },
    }
    let methods = match d.1 {
        Some(m) => m,
        None => {
            return PolicyIndex::new();
        },
    };
    let ghost ms = methods@.map_values(
        |e: (Option<String>, Option<String>, Option<String>)| entry_v(e),
    );
    let mut index = PolicyIndex::new();
    let mut i: usize = 0;
    assert(ms.skip(0) =~= ms);
    while i < methods.len()
        invariant
            i <= methods@.len(),
            ms == methods@.map_values(
                |e: (Option<String>, Option<String>, Option<String>)| entry_v(e),
            ),
            index_entries(ms, Seq::empty()) == index_entries(ms.skip(i as int), index@),
            fields == fields_v(doc),
            spec_index_fields(fields) == index_entries(ms, Seq::empty()),
        decreases methods@.len() - i,
    {
        let ghost here = ms.skip(i as int);
        assert(here[0] == entry_v(methods@[i as int]));
        assert(here.drop_first() =~= ms.skip(i + 1));
        let entry = &methods[i];
        let (rpc, procedure, idem) = match (&entry.0, &entry.1, &entry.2) {
            (Some(a), Some(b), Some(c)) => (a, b, c),
            _ => {
                return PolicyIndex::new();
            },
        };
        let contract = match Idempotency::parse(idem.as_str()) {
            Some(x) => x,
            None => {
                return PolicyIndex::new();
            },
        };
        let rv = chars_of(rpc.as_str());
        let pv = chars_of(procedure.as_str());
        if !chars_eq_str(pv.as_slice(), "unary") || !(rv.len() > 0 && rv[0] == '/')
            || index.contains_chars(rv.as_slice()) {
            return PolicyIndex::new();
        }
        let ghost before = index@;
        index.entries.push((owned(rpc.as_str()), contract));
        assert(index@ =~= before.push((rpc@, contract)));
        i = i + 1;
    }
    assert(ms.skip(i as int) =~= Seq::<EntryV>::empty());
    index
}

// ---------------------------------------------------------------------------
// The transport
// ---------------------------------------------------------------------------

/// A transport wrapper that sets `if-match: *` on mutating calls the caller
/// gave no precondition.
#[derive(Debug, Clone)]
pub struct PreconditionedTransport<T> {
    inner: T,
    policy: PolicyIndex,
}

impl<T> PreconditionedTransport<T> {
    pub closed spec fn spec_inner(&self) -> T {
        self.inner
    }

    pub closed spec fn spec_policy(&self) -> Seq<(Seq<char>, Idempotency)> {
        self.policy@
    }

    /// Wrap `inner`, guarding calls per `policy`.
    pub fn new(inner: T, policy: PolicyIndex) -> (r: PreconditionedTransport<T>)
        ensures
            r.spec_inner() == inner,
            r.spec_policy() == policy@,
    {
        PreconditionedTransport { inner, policy }
    }

    /// The wrapped transport.
    pub fn inner(&self) -> (r: &T)
        ensures
            *r == self.spec_inner(),
    {
        &self.inner
    }

    /// Whether a call to `path` gets `if-match: *`: its RPC is indexed as
    /// preconditioned and the caller set no `if-match` of its own, which is
    /// never overridden.
    pub fn adds_if_match(&self, path: &str, has_if_match: bool) -> (r: bool)
        ensures
            r == (!has_if_match && (match policy_lookup(self.spec_policy(), path@) {
                Some(c) => c != Idempotency::NoSideEffects,
                None => false,
            })),
            has_if_match ==> !r,
    {
        let preconditioned = match self.policy.get(path) {
            Some(c) => c.is_preconditioned(),
            None => false,
        };
        preconditioned && !has_if_match
    }
}

} // verus!
