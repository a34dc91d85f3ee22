//! Health check responses (IETF draft `health-check`): component checks,
//! liveness, and readiness with a status aggregated over every check.

use vstd::prelude::*;
use crate::text::{chars_eq, chars_of, owned};

verus! {

// ---------------------------------------------------------------------------
// HealthStatus
// ---------------------------------------------------------------------------

/// The health of a component or service.
#[derive(Debug, Clone, Copy, PartialEq, Eq, Structural)]
pub enum HealthStatus {
    /// Healthy.
    Pass,
    /// Unhealthy.
    Fail,
    /// Healthy with concerns.
    Warn,
}

impl HealthStatus {
    /// 200 for `Pass` and `Warn`, 503 for `Fail`.
    pub fn http_status(&self) -> (r: u16)
        ensures
            r == (if *self == HealthStatus::Fail {
                503u16
            } else {
                200u16
            }),
    {
        match self {
            HealthStatus::Pass | HealthStatus::Warn => 200,
            HealthStatus::Fail => 503,
        }
    }

    /// Whether the service can take traffic: `Pass` or `Warn`.
    pub fn is_available(&self) -> (r: bool)
        ensures
            r == (*self != HealthStatus::Fail),
    {
        match self {
            HealthStatus::Pass | HealthStatus::Warn => true,
            HealthStatus::Fail => false,
        }
    }

    /// `pass`, `fail` or `warn`.
    pub fn to_string(&self) -> (r: String)
        ensures
            r@ == (match *self {
                HealthStatus::Pass => "pass"@,
                HealthStatus::Fail => "fail"@,
                HealthStatus::Warn => "warn"@,
            }),
    {
        match self {
            HealthStatus::Pass => owned("pass"),
            HealthStatus::Fail => owned("fail"),
            HealthStatus::Warn => owned("warn"),
        }
    }
}

// ---------------------------------------------------------------------------
// HealthCheck
// ---------------------------------------------------------------------------

/// The result of checking one component.
#[derive(Debug, Clone)]
pub struct HealthCheck {
    /// Component kind (e.g. `datastore`, `system`).
    pub component_type: String,
    /// The component's status.
    pub status: HealthStatus,
    /// What went wrong, for `Fail` and `Warn`.
    pub output: Option<String>,
    /// When the check ran (RFC 3339).
    pub time: Option<String>,
}

/// The abstract value of a [`HealthCheck`].
pub struct CheckV {
    pub component_type: Seq<char>,
    pub status: HealthStatus,
    pub output: Option<Seq<char>>,
    pub time: Option<Seq<char>>,
}

/// The view of an optional string.
pub open spec fn opt_s(o: Option<String>) -> Option<Seq<char>> {
    match o {
        Some(s) => Some(s@),
        None => None,
    }
}

impl View for HealthCheck {
    type V = CheckV;

    open spec fn view(&self) -> CheckV {
        CheckV {
            component_type: self.component_type@,
            status: self.status,
            output: opt_s(self.output),
            time: opt_s(self.time),
        }
    }
}

impl HealthCheck {
    /// A passing check.
    pub fn pass(component_type: &str) -> (r: HealthCheck)
        ensures
            r@ == (CheckV {
                component_type: component_type@,
                status: HealthStatus::Pass,
                output: None,
                time: None,
            }),
    {
        HealthCheck {
            component_type: owned(component_type),
            status: HealthStatus::Pass,
            output: None,
            time: None,
        }
    }

    /// A failing check with its output.
    pub fn fail(component_type: &str, output: &str) -> (r: HealthCheck)
        ensures
            r@ == (CheckV {
                component_type: component_type@,
                status: HealthStatus::Fail,
                output: Some(output@),
                time: None,
            }),
    {
        HealthCheck {
            component_type: owned(component_type),
            status: HealthStatus::Fail,
            output: Some(owned(output)),
            time: None,
        }
    }

    /// A warning check with its output.
    pub fn warn(component_type: &str, output: &str) -> (r: HealthCheck)
        ensures
            r@ == (CheckV {
                component_type: component_type@,
                status: HealthStatus::Warn,
                output: Some(output@),
                time: None,
            }),
    {
        HealthCheck {
            component_type: owned(component_type),
            status: HealthStatus::Warn,
            output: Some(owned(output)),
            time: None,
        }
    }

    /// Attach the time of the check.
    pub fn with_time(self, time: &str) -> (r: HealthCheck)
        ensures
            r@ == (CheckV { time: Some(time@), ..self@ }),
    {
        HealthCheck { time: Some(owned(time)), ..self }
    }

    /// A typestate builder; `build` needs the component type and the status.
    pub fn builder() -> (r: HealthCheckBuilder<(), ()>)
        ensures
            r.spec_output() is None,
            r.spec_time() is None,
    {
        HealthCheckBuilder { component_type: (), status: (), output: None, time: None }
    }
}

/// Typestate builder for [`HealthCheck`].
pub struct HealthCheckBuilder<CT, ST> {
    component_type: CT,
    status: ST,
    output: Option<String>,
    time: Option<String>,
}

impl<CT, ST> HealthCheckBuilder<CT, ST> {
    pub closed spec fn spec_component_type(&self) -> CT {
        self.component_type
    }

    pub closed spec fn spec_status(&self) -> ST {
        self.status
    }

    pub closed spec fn spec_output(&self) -> Option<Seq<char>> {
        opt_s(self.output)
    }

    pub closed spec fn spec_time(&self) -> Option<Seq<char>> {
        opt_s(self.time)
    }

    /// Set the output.
    pub fn output(self, output: &str) -> (r: HealthCheckBuilder<CT, ST>)
        ensures
            r.spec_component_type() == self.spec_component_type(),
            r.spec_status() == self.spec_status(),
            r.spec_output() == Some(output@),
            r.spec_time() == self.spec_time(),
    {
        HealthCheckBuilder { output: Some(owned(output)), ..self }
    }

    /// Set the time.
    pub fn time(self, time: &str) -> (r: HealthCheckBuilder<CT, ST>)
        ensures
            r.spec_component_type() == self.spec_component_type(),
            r.spec_status() == self.spec_status(),
            r.spec_output() == self.spec_output(),
            r.spec_time() == Some(time@),
    {
        HealthCheckBuilder { time: Some(owned(time)), ..self }
    }
}

impl<ST> HealthCheckBuilder<(), ST> {
    /// Set the component type.
    pub fn component_type(self, component_type: &str) -> (r: HealthCheckBuilder<String, ST>)
        ensures
            r.spec_component_type()@ == component_type@,
            r.spec_status() == self.spec_status(),
            r.spec_output() == self.spec_output(),
            r.spec_time() == self.spec_time(),
    {
        HealthCheckBuilder {
            component_type: owned(component_type),
            status: self.status,
            output: self.output,
            time: self.time,
        }
    }
}

impl<CT> HealthCheckBuilder<CT, ()> {
    /// Set the status.
    pub fn status(self, status: HealthStatus) -> (r: HealthCheckBuilder<CT, HealthStatus>)
        ensures
            r.spec_component_type() == self.spec_component_type(),
            r.spec_status() == status,
            r.spec_output() == self.spec_output(),
            r.spec_time() == self.spec_time(),
    {
        HealthCheckBuilder {
            component_type: self.component_type,
            status,
            output: self.output,
            time: self.time,
        }
    }
}

impl HealthCheckBuilder<String, HealthStatus> {
    /// The check with the fields that were set.
    pub fn build(self) -> (r: HealthCheck)
        ensures
            r@ == (CheckV {
                component_type: self.spec_component_type()@,
                status: self.spec_status(),
                output: self.spec_output(),
                time: self.spec_time(),
            }),
    {
        HealthCheck {
            component_type: self.component_type,
            status: self.status,
            output: self.output,
            time: self.time,
        }
    }
}

// ---------------------------------------------------------------------------
// LivenessResponse
// ---------------------------------------------------------------------------

/// The liveness response: the process is up.
#[derive(Debug, Clone)]
pub struct LivenessResponse {
    /// Always `Pass` when built by [`LivenessResponse::pass`].
    pub status: HealthStatus,
    /// The service version.
    pub version: String,
    /// The service identifier.
    pub service_id: String,
}

impl LivenessResponse {
    /// A passing liveness response.
    pub fn pass(version: &str, service_id: &str) -> (r: LivenessResponse)
        ensures
            r.status == HealthStatus::Pass,
            r.version@ == version@,
            r.service_id@ == service_id@,
    {
        LivenessResponse {
            status: HealthStatus::Pass,
            version: owned(version),
            service_id: owned(service_id),
        }
    }
}

// ---------------------------------------------------------------------------
// HealthChecks: checks keyed by `component:measurement`
// ---------------------------------------------------------------------------

/// Checks keyed by name (e.g. `postgres:connection`); each key occurs once.
#[derive(Debug, Clone)]
pub struct HealthChecks {
    entries: Vec<(String, Vec<HealthCheck>)>,
}

/// The views of a list of checks.
pub open spec fn checks_view(v: Seq<HealthCheck>) -> Seq<CheckV> {
    v.map_values(|c: HealthCheck| c@)
}

/// The views of keyed entries.
pub open spec fn entries_view(v: Seq<(String, Vec<HealthCheck>)>) -> Seq<(Seq<char>, Seq<CheckV>)> {
    v.map_values(|e: (String, Vec<HealthCheck>)| (e.0@, checks_view(e.1@)))
}

fn copy_opt(o: &Option<String>) -> (r: Option<String>)
    ensures
        opt_s(r) == opt_s(*o),
{
    match o {
        Some(s) => Some(owned(s.as_str())),
        None => None,
    }
}

fn copy_check(c: &HealthCheck) -> (r: HealthCheck)
    ensures
        r@ == c@,
{
    HealthCheck {
        component_type: owned(c.component_type.as_str()),
        status: c.status,
        output: copy_opt(&c.output),
        time: copy_opt(&c.time),
    }
}

fn copy_checks(v: &Vec<HealthCheck>) -> (r: Vec<HealthCheck>)
    ensures
        checks_view(r@) == checks_view(v@),
{
    let mut r: Vec<HealthCheck> = Vec::new();
    let mut i: usize = 0;
    while i < v.len()
        invariant
            i <= v@.len(),
            checks_view(r@) == checks_view(v@).subrange(0, i as int),
        decreases v@.len() - i,
    {
        let ghost before = checks_view(r@);
        let c = copy_check(&v[i]);
        r.push(c);
        assert(checks_view(r@) =~= before.push(v@[i as int]@));
        assert(checks_view(v@).subrange(0, i + 1) =~= checks_view(v@).subrange(0, i as int).push(
            v@[i as int]@,
        ));
        i = i + 1;
    }
    assert(checks_view(v@).subrange(0, i as int) =~= checks_view(v@));
    r
}

/// No key occurs twice.
pub open spec fn keys_distinct(es: Seq<(Seq<char>, Seq<CheckV>)>) -> bool {
    forall|i: int, j: int| 0 <= i < j < es.len() ==> (#[trigger] es[i]).0 != (#[trigger] es[j]).0
}

/// The checks under `key`.
pub open spec fn lookup(es: Seq<(Seq<char>, Seq<CheckV>)>, key: Seq<char>) -> Option<Seq<CheckV>> {
    if exists|i: int| 0 <= i < es.len() && (#[trigger] es[i]).0 == key {
        Some(es[choose|i: int| 0 <= i < es.len() && (#[trigger] es[i]).0 == key].1)
    } else {
        None
    }
}

impl View for HealthChecks {
    type V = Seq<(Seq<char>, Seq<CheckV>)>;

    closed spec fn view(&self) -> Seq<(Seq<char>, Seq<CheckV>)> {
        entries_view(self.entries@)
    }
}

/// With distinct keys, the entry at `i` is what its key looks up.
proof fn lemma_lookup_at(es: Seq<(Seq<char>, Seq<CheckV>)>, i: int)
    requires
        keys_distinct(es),
        0 <= i < es.len(),
    ensures
        lookup(es, es[i].0) == Some(es[i].1),
{
    let key = es[i].0;
    assert(0 <= i < es.len() && es[i].0 == key);
    let j = choose|j: int| 0 <= j < es.len() && (#[trigger] es[j]).0 == key;
    if j != i {
        if j < i {
            assert(es[j].0 != es[i].0);
        } else {
            assert(es[i].0 != es[j].0);
        }
    }
}

impl HealthChecks {
    /// Every key occurs once.
    pub open spec fn wf(&self) -> bool {
        keys_distinct(self@)
    }

    /// No checks.
    pub fn new() -> (r: HealthChecks)
        ensures
            r.wf(),
            r@ == Seq::<(Seq<char>, Seq<CheckV>)>::empty(),
    {
        let r = HealthChecks { entries: Vec::new() };
        assert(r@ =~= Seq::<(Seq<char>, Seq<CheckV>)>::empty());
        r
    }

    /// Number of keys.
    pub fn len(&self) -> (r: usize)
        ensures
            r == self@.len(),
    {
        self.entries.len()
    }

    /// Whether there are no keys.
    pub fn is_empty(&self) -> (r: bool)
        ensures
            r == (self@.len() == 0),
    {
        self.entries.len() == 0
    }

    /// The entries, each key with its checks, in insertion order.
    pub fn entries(&self) -> (r: &[(String, Vec<HealthCheck>)])
        ensures
            entries_view(r@) == self@,
    {
        self.entries.as_slice()
    }

    /// Position of `key`, if present.
    fn position(&self, key: &str) -> (r: Option<usize>)
        ensures
            match r {
                Some(i) => i < self@.len() && self@[i as int].0 == key@,
                None => forall|i: int| 0 <= i < self@.len() ==> (#[trigger] self@[i]).0 != key@,
            },
    {
        let kv = chars_of(key);
        let mut i: usize = 0;
        while i < self.entries.len()
            invariant
                i <= self@.len(),
                self@.len() == self.entries@.len(),
                kv@ == key@,
                forall|j: int| 0 <= j < i ==> (#[trigger] self@[j]).0 != key@,
            decreases self@.len() - i,
        {
            let ev = chars_of(self.entries[i].0.as_str());
            assert(self@[i as int].0 == self.entries@[i as int].0@);
            if chars_eq(ev.as_slice(), kv.as_slice()) {
                return Some(i);
            }
            i = i + 1;
        }
        None
    }

    /// Whether `key` is present.
    pub fn contains_key(&self, key: &str) -> (r: bool)
        requires
            self.wf(),
        ensures
            r == lookup(self@, key@) is Some,
    {
        match self.position(key) {
            Some(i) => {
                proof {
                    lemma_lookup_at(self@, i as int);
                }
                true
            },
            None => false,
        }
    }

    /// The checks under `key`.
    pub fn get(&self, key: &str) -> (r: Option<&Vec<HealthCheck>>)
        requires
            self.wf(),
        ensures
            match r {
                Some(v) => lookup(self@, key@) == Some(checks_view(v@)),
                None => lookup(self@, key@) is None,
            },
    {
        match self.position(key) {
            Some(i) => {
                proof {
                    lemma_lookup_at(self@, i as int);
                }
                Some(&self.entries[i].1)
            },
            None => None,
        }
    }

    /// Set the checks under `key`, replacing any already there.
    pub fn insert(&mut self, key: &str, checks: Vec<HealthCheck>)
        requires
            old(self).wf(),
        ensures
            final(self).wf(),
            lookup(final(self)@, key@) == Some(checks_view(checks@)),
            forall|k: Seq<char>| k != key@ ==> lookup(final(self)@, k) == lookup(old(self)@, k),
    {
        let ghost before = self@;
        let ghost cv = checks_view(checks@);
        match self.position(key) {
            Some(i) => {
                self.entries.set(i, (owned(key), checks));
                assert(self@ =~= before.update(i as int, (key@, cv)));
                proof {
                    self.lemma_update_lookup(before, i as int, key@, cv);
                }
            },
            None => {
                self.entries.push((owned(key), checks));
                assert(self@ =~= before.push((key@, cv)));
                proof {
                    self.lemma_push_lookup(before, key@, cv);
                }
            },
        }
    }

    /// Add `check` under `key`, after those already there.
    pub fn add(&mut self, key: &str, check: HealthCheck)
        requires
            old(self).wf(),
        ensures
            final(self).wf(),
            lookup(final(self)@, key@) == Some(
                match lookup(old(self)@, key@) {
                    Some(v) => v,
                    None => Seq::<CheckV>::empty(),
                }.push(check@),
            ),
            forall|k: Seq<char>| k != key@ ==> lookup(final(self)@, k) == lookup(old(self)@, k),
            forall|st: HealthStatus|
                any_status(final(self)@, st) <==> any_status(old(self)@, st) || st == check@.status,
    {
        let ghost before = self@;
        let ghost cs = check@;
        match self.position(key) {
            Some(i) => {
                proof {
                    lemma_lookup_at(before, i as int);
                }
                let mut list = copy_checks(&self.entries[i].1);
                let ghost old_list = checks_view(list@);
                list.push(check);
                let ghost cv = checks_view(list@);
                assert(cv =~= old_list.push(check@));
                self.entries.set(i, (owned(key), list));
                assert(self@ =~= before.update(i as int, (key@, cv)));
                proof {
                    self.lemma_update_lookup(before, i as int, key@, cv);
                    assert(old_list == before[i as int].1);
                    assert(cv == before[i as int].1.push(cs));
                    lemma_statuses_update(self@, before, i as int, key@, cs);
                }
            },
            None => {
                let mut list: Vec<HealthCheck> = Vec::new();
                list.push(check);
                let ghost cv = checks_view(list@);
                assert(cv =~= Seq::<CheckV>::empty().push(check@));
                self.entries.push((owned(key), list));
                assert(self@ =~= before.push((key@, cv)));
                proof {
                    self.lemma_push_lookup(before, key@, cv);
                    assert(cv =~= seq![cs]);
                    lemma_statuses_push(self@, before, key@, cs);
                }
            },
        }
    }

    proof fn lemma_update_lookup(
        &self,
        before: Seq<(Seq<char>, Seq<CheckV>)>,
        i: int,
        key: Seq<char>,
        cv: Seq<CheckV>,
    )
        requires
            keys_distinct(before),
            0 <= i < before.len(),
            before[i].0 == key,
            self@ == before.update(i, (key, cv)),
        ensures
            keys_distinct(self@),
            lookup(self@, key) == Some(cv),
            forall|k: Seq<char>| k != key ==> lookup(self@, k) == lookup(before, k),
    {
        let es = self@;
        assert forall|a: int, b: int| 0 <= a < b < es.len() implies (#[trigger] es[a]).0 != (
        #[trigger] es[b]).0 by {
            assert(es[a].0 == before[a].0);
            assert(es[b].0 == before[b].0);
            assert(before[a].0 != before[b].0);
        }
        lemma_lookup_at(es, i);
        assert forall|k: Seq<char>| k != key implies lookup(es, k) == lookup(before, k) by {
            if exists|j: int| 0 <= j < before.len() && (#[trigger] before[j]).0 == k {
                let j = choose|j: int| 0 <= j < before.len() && (#[trigger] before[j]).0 == k;
                lemma_lookup_at(before, j);
                assert(es[j] == before[j]);
                lemma_lookup_at(es, j);
            } else {
                assert forall|j: int| 0 <= j < es.len() implies (#[trigger] es[j]).0 != k by {
                    assert(es[j].0 == before[j].0);
                }
            }
        }
    }

    proof fn lemma_push_lookup(
        &self,
        before: Seq<(Seq<char>, Seq<CheckV>)>,
        key: Seq<char>,
        cv: Seq<CheckV>,
    )
        requires
            keys_distinct(before),
            forall|j: int| 0 <= j < before.len() ==> (#[trigger] before[j]).0 != key,
            self@ == before.push((key, cv)),
        ensures
            keys_distinct(self@),
            lookup(self@, key) == Some(cv),
            forall|k: Seq<char>| k != key ==> lookup(self@, k) == lookup(before, k),
    {
        let es = self@;
        assert forall|a: int, b: int| 0 <= a < b < es.len() implies (#[trigger] es[a]).0 != (
        #[trigger] es[b]).0 by {
            if b == before.len() {
                assert(es[a] == before[a]);
            } else {
                assert(es[a] == before[a]);
                assert(es[b] == before[b]);
            }
        }
        lemma_lookup_at(es, before.len() as int);
        assert forall|k: Seq<char>| k != key implies lookup(es, k) == lookup(before, k) by {
            if exists|j: int| 0 <= j < before.len() && (#[trigger] before[j]).0 == k {
                let j = choose|j: int| 0 <= j < before.len() && (#[trigger] before[j]).0 == k;
                lemma_lookup_at(before, j);
                assert(es[j] == before[j]);
                lemma_lookup_at(es, j);
            } else {
                assert forall|j: int| 0 <= j < es.len() implies (#[trigger] es[j]).0 != k by {
                    if j < before.len() {
                        assert(es[j] == before[j]);
                    }
                }
            }
        }
    }
}

// ---------------------------------------------------------------------------
// Aggregation
// ---------------------------------------------------------------------------

/// Whether some check, under some key, has status `st`.
pub open spec fn any_status(es: Seq<(Seq<char>, Seq<CheckV>)>, st: HealthStatus) -> bool {
    exists|i: int, j: int|
        0 <= i < es.len() && 0 <= j < es[i].1.len() && (#[trigger] es[i].1[j]).status == st
}

/// The overall status: `Fail` if any check fails, else `Warn` if any warns,
/// else `Pass` (also when there are no checks).
pub open spec fn aggregate(es: Seq<(Seq<char>, Seq<CheckV>)>) -> HealthStatus {
    if any_status(es, HealthStatus::Fail) {
        HealthStatus::Fail
    } else if any_status(es, HealthStatus::Warn) {
        HealthStatus::Warn
    } else {
        HealthStatus::Pass
    }
}

/// The worse of two statuses: `Fail`, then `Warn`, then `Pass`.
pub open spec fn worse(a: HealthStatus, b: HealthStatus) -> HealthStatus {
    if a == HealthStatus::Fail || b == HealthStatus::Fail {
        HealthStatus::Fail
    } else if a == HealthStatus::Warn || b == HealthStatus::Warn {
        HealthStatus::Warn
    } else {
        HealthStatus::Pass
    }
}

/// Appending a check to the list at `i`.
proof fn lemma_statuses_update(
    es: Seq<(Seq<char>, Seq<CheckV>)>,
    before: Seq<(Seq<char>, Seq<CheckV>)>,
    i: int,
    key: Seq<char>,
    c: CheckV,
)
    requires
        0 <= i < before.len(),
        es == before.update(i, (key, before[i].1.push(c))),
    ensures
        forall|st: HealthStatus| any_status(es, st) <==> any_status(before, st) || st == c.status,
{
    assert forall|st: HealthStatus| any_status(es, st) <==> any_status(before, st) || st
        == c.status by {
        if any_status(es, st) {
            let (a, b) = choose|a: int, b: int|
                0 <= a < es.len() && 0 <= b < es[a].1.len() && (#[trigger] es[a].1[b]).status
                    == st;
            if a != i {
                assert(before[a].1[b] == es[a].1[b]);
            } else if b < before[i].1.len() {
                assert(before[i].1[b] == es[i].1[b]);
            }
        }
        if any_status(before, st) {
            let (a, b) = choose|a: int, b: int|
                0 <= a < before.len() && 0 <= b < before[a].1.len() && (#[trigger] before[a].1[
                    b]).status == st;
            if a != i {
                assert(es[a].1[b] == before[a].1[b]);
            } else {
                assert(es[i].1[b] == before[i].1[b]);
            }
        }
        if st == c.status {
            assert(es[i].1[before[i].1.len() as int] == c);
        }
    }
}

/// Adding a key with a single check.
proof fn lemma_statuses_push(
    es: Seq<(Seq<char>, Seq<CheckV>)>,
    before: Seq<(Seq<char>, Seq<CheckV>)>,
    key: Seq<char>,
    c: CheckV,
)
    requires
        es == before.push((key, seq![c])),
    ensures
        forall|st: HealthStatus| any_status(es, st) <==> any_status(before, st) || st == c.status,
{
    assert forall|st: HealthStatus| any_status(es, st) <==> any_status(before, st) || st
        == c.status by {
        if any_status(es, st) {
            let (a, b) = choose|a: int, b: int|
                0 <= a < es.len() && 0 <= b < es[a].1.len() && (#[trigger] es[a].1[b]).status
                    == st;
            if a < before.len() {
                assert(before[a].1[b] == es[a].1[b]);
            }
        }
        if any_status(before, st) {
            let (a, b) = choose|a: int, b: int|
                0 <= a < before.len() && 0 <= b < before[a].1.len() && (#[trigger] before[a].1[
                    b]).status == st;
            assert(es[a].1[b] == before[a].1[b]);
        }
        if st == c.status {
            assert(es[before.len() as int].1[0] == c);
        }
    }
}

/// Adding a check makes the overall status the worse of the status before
/// and the check's: a failing check always fails the service, and no check
/// ever improves it.
pub proof fn lemma_aggregate_add(
    before: Seq<(Seq<char>, Seq<CheckV>)>,
    after: Seq<(Seq<char>, Seq<CheckV>)>,
    added: HealthStatus,
)
    requires
        forall|st: HealthStatus| any_status(after, st) <==> any_status(before, st) || st == added,
    ensures
        aggregate(after) == worse(aggregate(before), added),
{
    assert(any_status(after, HealthStatus::Fail) <==> any_status(before, HealthStatus::Fail)
        || HealthStatus::Fail == added);
    assert(any_status(after, HealthStatus::Warn) <==> any_status(before, HealthStatus::Warn)
        || HealthStatus::Warn == added);
}

/// The overall status of `checks`.
fn aggregate_status(checks: &HealthChecks) -> (r: HealthStatus)
    ensures
        r == aggregate(checks@),
{
    let ghost es = checks@;
    let mut has_warn = false;
    let mut i: usize = 0;
    while i < checks.entries.len()
        invariant
            es == checks@,
            i <= es.len(),
            es.len() == checks.entries@.len(),
            forall|a: int, b: int|
                0 <= a < i && 0 <= b < es[a].1.len() ==> (#[trigger] es[a].1[b]).status
                    != HealthStatus::Fail,
            has_warn == exists|a: int, b: int|
                0 <= a < i && 0 <= b < es[a].1.len() && (#[trigger] es[a].1[b]).status
                    == HealthStatus::Warn,
        decreases es.len() - i,
    {
        let list = &checks.entries[i].1;
        assert(es[i as int].1 == checks_view(list@));
        let mut j: usize = 0;
        while j < list.len()
            invariant
                es == checks@,
                i < es.len(),
                es[i as int].1 == checks_view(list@),
                j <= list@.len(),
                forall|a: int, b: int|
                    (0 <= a < i && 0 <= b < es[a].1.len()) || (a == i && 0 <= b < j) ==> (
                    #[trigger] es[a].1[b]).status != HealthStatus::Fail,
                has_warn == exists|a: int, b: int|
                    ((0 <= a < i && 0 <= b < es[a].1.len()) || (a == i && 0 <= b < j)) && (
                    #[trigger] es[a].1[b]).status == HealthStatus::Warn,
            decreases list@.len() - j,
        {
            let st = list[j].status;
            assert(es[i as int].1[j as int].status == st);
            if st == HealthStatus::Fail {
                return HealthStatus::Fail;
            }
            if st == HealthStatus::Warn {
                has_warn = true;
            }
            j = j + 1;
        }
        i = i + 1;
    }
    if has_warn {
        HealthStatus::Warn
    } else {
        HealthStatus::Pass
    }
}

// ---------------------------------------------------------------------------
// ReadinessResponse
// ---------------------------------------------------------------------------

/// The readiness response: every check, and the status aggregated over them.
#[derive(Debug, Clone)]
pub struct ReadinessResponse {
    /// The aggregated status.
    pub status: HealthStatus,
    /// The service version.
    pub version: String,
    /// The service identifier.
    pub service_id: String,
    /// The checks, keyed by `component:measurement`.
    pub checks: HealthChecks,
}

/// A response as its status, version, service id and checks.
pub open spec fn readiness_view(r: ReadinessResponse) -> (
    HealthStatus,
    Seq<char>,
    Seq<char>,
    Seq<(Seq<char>, Seq<CheckV>)>,
) {
    (r.status, r.version@, r.service_id@, r.checks@)
}

/// The response `ReadinessResponse::new(version, service_id, checks)` gives.
pub open spec fn new_readiness(
    version: Seq<char>,
    service_id: Seq<char>,
    checks: Seq<(Seq<char>, Seq<CheckV>)>,
) -> (HealthStatus, Seq<char>, Seq<char>, Seq<(Seq<char>, Seq<CheckV>)>) {
    (aggregate(checks), version, service_id, checks)
}

/// With no checks at all, the aggregated status is `Pass`.
pub proof fn lemma_no_checks_pass()
    ensures
        aggregate(Seq::<(Seq<char>, Seq<CheckV>)>::empty()) == HealthStatus::Pass,
{
}

impl ReadinessResponse {
    /// A response whose status is aggregated over `checks`.
    pub fn new(version: &str, service_id: &str, checks: HealthChecks) -> (r: ReadinessResponse)
        ensures
            readiness_view(r) == new_readiness(version@, service_id@, checks@),
            r.status == aggregate(checks@),
            r.version@ == version@,
            r.service_id@ == service_id@,
            r.checks@ == checks@,
    {
        let status = aggregate_status(&checks);
        ReadinessResponse {
            status,
            version: owned(version),
            service_id: owned(service_id),
            checks,
        }
    }

    /// The HTTP status of the aggregated status.
    pub fn http_status(&self) -> (r: u16)
        ensures
            r == (if self.status == HealthStatus::Fail {
                503u16
            } else {
                200u16
            }),
    {
        self.status.http_status()
    }

    /// A typestate builder; `build` needs the version and the service id.
    pub fn builder() -> (r: ReadinessResponseBuilder<(), ()>)
        ensures
            r.spec_checks().wf(),
            r.spec_checks()@ == Seq::<(Seq<char>, Seq<CheckV>)>::empty(),
    {
        ReadinessResponseBuilder { version: (), service_id: (), checks: HealthChecks::new() }
    }
}

/// Typestate builder for [`ReadinessResponse`].
pub struct ReadinessResponseBuilder<V, S> {
    version: V,
    service_id: S,
    checks: HealthChecks,
}

impl<V, S> ReadinessResponseBuilder<V, S> {
    pub closed spec fn spec_version(&self) -> V {
        self.version
    }

    pub closed spec fn spec_service_id(&self) -> S {
        self.service_id
    }

    pub closed spec fn spec_checks(&self) -> HealthChecks {
        self.checks
    }

    /// Add `check` under `key`, after any already there.
    pub fn add_check(self, key: &str, check: HealthCheck) -> (r: ReadinessResponseBuilder<V, S>)
        requires
            self.spec_checks().wf(),
        ensures
            r.spec_version() == self.spec_version(),
            r.spec_service_id() == self.spec_service_id(),
            r.spec_checks().wf(),
            lookup(r.spec_checks()@, key@) == Some(
                match lookup(self.spec_checks()@, key@) {
                    Some(v) => v,
                    None => Seq::<CheckV>::empty(),
                }.push(check@),
            ),
            forall|k: Seq<char>|
                k != key@ ==> lookup(r.spec_checks()@, k) == lookup(self.spec_checks()@, k),
            forall|st: HealthStatus|
                any_status(r.spec_checks()@, st) <==> any_status(self.spec_checks()@, st) || st
                    == check@.status,
    {
        let mut b = self;
        b.checks.add(key, check);
        b
    }
}

impl<S> ReadinessResponseBuilder<(), S> {
    /// Set the version.
    pub fn version(self, version: &str) -> (r: ReadinessResponseBuilder<String, S>)
        ensures
            r.spec_version()@ == version@,
            r.spec_service_id() == self.spec_service_id(),
            r.spec_checks() == self.spec_checks(),
    {
        ReadinessResponseBuilder {
            version: owned(version),
            service_id: self.service_id,
            checks: self.checks,
        }
    }
}

impl<V> ReadinessResponseBuilder<V, ()> {
    /// Set the service id.
    pub fn service_id(self, service_id: &str) -> (r: ReadinessResponseBuilder<V, String>)
        ensures
            r.spec_version() == self.spec_version(),
            r.spec_service_id()@ == service_id@,
            r.spec_checks() == self.spec_checks(),
    {
        ReadinessResponseBuilder {
            version: self.version,
            service_id: owned(service_id),
            checks: self.checks,
        }
    }
}

impl ReadinessResponseBuilder<String, String> {
    /// The response: the one [`ReadinessResponse::new`] gives for the version,
    /// service id and checks that were set, whichever order they were set in.
    pub fn build(self) -> (r: ReadinessResponse)
        ensures
            readiness_view(r) == new_readiness(
                self.spec_version()@,
                self.spec_service_id()@,
                self.spec_checks()@,
            ),
            r.status == aggregate(self.spec_checks()@),
            r.version@ == self.spec_version()@,
            r.service_id@ == self.spec_service_id()@,
            r.checks@ == self.spec_checks()@,
    {
        ReadinessResponse::new(self.version.as_str(), self.service_id.as_str(), self.checks)
    }
}

} // verus!
