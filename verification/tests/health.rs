use api_bones::health::{HealthCheck, HealthChecks, HealthStatus, LivenessResponse, ReadinessResponse};

#[test]
fn health_status_http_codes() {
    assert_eq!(HealthStatus::Pass.http_status(), 200);
    assert_eq!(HealthStatus::Warn.http_status(), 200);
    assert_eq!(HealthStatus::Fail.http_status(), 503);
}

#[test]
fn health_status_is_available() {
    assert!(HealthStatus::Pass.is_available());
    assert!(HealthStatus::Warn.is_available());
    assert!(!HealthStatus::Fail.is_available());
}

#[test]
fn health_status_display() {
    assert_eq!(HealthStatus::Pass.to_string(), "pass");
    assert_eq!(HealthStatus::Fail.to_string(), "fail");
    assert_eq!(HealthStatus::Warn.to_string(), "warn");
}

#[test]
fn readiness_aggregate_pass() {
    let mut checks = HealthChecks::new();
    checks.insert("postgres:connection", vec![HealthCheck::pass("datastore")]);
    let r = ReadinessResponse::new("1.0.0", "svc", checks);
    assert_eq!(r.status, HealthStatus::Pass);
    assert_eq!(r.http_status(), 200);
}

#[test]
fn readiness_aggregate_fail_wins() {
    let mut checks = HealthChecks::new();
    checks.insert("postgres:connection", vec![HealthCheck::pass("datastore")]);
    checks.insert("redis:ping", vec![HealthCheck::fail("datastore", "timeout")]);
    let r = ReadinessResponse::new("1.0.0", "svc", checks);
    assert_eq!(r.status, HealthStatus::Fail);
    assert_eq!(r.http_status(), 503);
}

#[test]
fn readiness_aggregate_warn() {
    let mut checks = HealthChecks::new();
    checks.insert("postgres:connection", vec![HealthCheck::pass("datastore")]);
    checks.insert("redis:latency", vec![HealthCheck::warn("datastore", "slow")]);
    let r = ReadinessResponse::new("1.0.0", "svc", checks);
    assert_eq!(r.status, HealthStatus::Warn);
    assert_eq!(r.http_status(), 200);
}

#[test]
fn health_check_builder_basic() {
    let check = HealthCheck::builder()
        .component_type("datastore")
        .status(HealthStatus::Pass)
        .build();
    assert_eq!(check.component_type, "datastore");
    assert_eq!(check.status, HealthStatus::Pass);
    assert!(check.output.is_none());
    assert!(check.time.is_none());
}

#[test]
fn health_check_builder_equivalence_with_pass() {
    let via_factory = HealthCheck::pass("datastore");
    let via_builder = HealthCheck::builder()
        .component_type("datastore")
        .status(HealthStatus::Pass)
        .build();
    assert_eq!(via_factory.component_type, via_builder.component_type);
    assert_eq!(via_factory.status, via_builder.status);
    assert_eq!(via_factory.output, via_builder.output);
    assert_eq!(via_factory.time, via_builder.time);
}

#[test]
fn health_check_builder_chaining_optionals() {
    let check = HealthCheck::builder()
        .component_type("system")
        .status(HealthStatus::Warn)
        .output("high latency")
        .time("2026-04-06T00:00:00Z")
        .build();
    assert_eq!(check.status, HealthStatus::Warn);
    assert_eq!(check.output.as_deref(), Some("high latency"));
    assert_eq!(check.time.as_deref(), Some("2026-04-06T00:00:00Z"));
}

#[test]
fn health_check_builder_status_before_component_type() {
    let check = HealthCheck::builder()
        .status(HealthStatus::Fail)
        .component_type("component")
        .build();
    assert_eq!(check.status, HealthStatus::Fail);
    assert_eq!(check.component_type, "component");
}

#[test]
fn readiness_builder_empty_checks_is_pass() {
    let resp = ReadinessResponse::builder()
        .version("1.0.0")
        .service_id("my-service")
        .build();
    assert_eq!(resp.version, "1.0.0");
    assert_eq!(resp.service_id, "my-service");
    assert_eq!(resp.status, HealthStatus::Pass);
    assert!(resp.checks.is_empty());
}

#[test]
fn readiness_builder_add_check() {
    let resp = ReadinessResponse::builder()
        .version("1.0.0")
        .service_id("svc")
        .add_check("postgres:connection", HealthCheck::pass("datastore"))
        .build();
    assert!(resp.checks.contains_key("postgres:connection"));
    assert_eq!(resp.status, HealthStatus::Pass);
}

#[test]
fn readiness_builder_add_multiple_checks_same_key() {
    let resp = ReadinessResponse::builder()
        .version("1.0.0")
        .service_id("svc")
        .add_check("db:ping", HealthCheck::pass("datastore"))
        .add_check("db:ping", HealthCheck::warn("datastore", "slow"))
        .build();
    assert_eq!(resp.checks.get("db:ping").unwrap().len(), 2);
    assert_eq!(resp.status, HealthStatus::Warn);
}

#[test]
fn readiness_builder_aggregate_fail() {
    let resp = ReadinessResponse::builder()
        .version("1.0.0")
        .service_id("svc")
        .add_check("redis:ping", HealthCheck::fail("datastore", "timeout"))
        .build();
    assert_eq!(resp.status, HealthStatus::Fail);
    assert_eq!(resp.http_status(), 503);
}

#[test]
fn readiness_builder_equivalence_with_new() {
    let mut checks = HealthChecks::new();
    checks.insert("postgres:connection", vec![HealthCheck::pass("datastore")]);
    let via_new = ReadinessResponse::new("1.0.0", "svc", checks);
    let via_builder = ReadinessResponse::builder()
        .version("1.0.0")
        .service_id("svc")
        .add_check("postgres:connection", HealthCheck::pass("datastore"))
        .build();
    assert_eq!(via_new.status, via_builder.status);
    assert_eq!(via_new.version, via_builder.version);
    assert_eq!(via_new.service_id, via_builder.service_id);
    assert_eq!(via_new.checks.len(), via_builder.checks.len());
}

// Own tests.

#[test]
fn liveness_pass_fields() {
    let r = LivenessResponse::pass("1.0.0", "my-service");
    assert_eq!(r.status, HealthStatus::Pass);
    assert_eq!(r.version, "1.0.0");
    assert_eq!(r.service_id, "my-service");
}

#[test]
fn health_checks_map_operations() {
    let mut m = HealthChecks::new();
    assert!(m.is_empty());
    m.insert("a", vec![HealthCheck::pass("x")]);
    m.add("a", HealthCheck::warn("x", "w"));
    m.add("b", HealthCheck::fail("y", "f"));
    assert_eq!(m.len(), 2);
    assert_eq!(m.get("a").unwrap().len(), 2);
    assert_eq!(m.get("b").unwrap()[0].status, HealthStatus::Fail);
    assert!(m.get("c").is_none());
    m.insert("a", vec![]);
    assert_eq!(m.get("a").unwrap().len(), 0);
    assert_eq!(m.len(), 2);
}

#[test]
fn fail_and_warn_set_output_and_with_time() {
    let f = HealthCheck::fail("db", "down").with_time("t");
    assert_eq!(f.output.as_deref(), Some("down"));
    assert_eq!(f.time.as_deref(), Some("t"));
    let w = HealthCheck::warn("db", "slow");
    assert_eq!(w.status, HealthStatus::Warn);
}

#[test]
fn health_checks_entries_in_insertion_order() {
    let mut m = HealthChecks::new();
    m.add("b", HealthCheck::pass("x"));
    m.add("a", HealthCheck::pass("y"));
    m.add("b", HealthCheck::warn("x", "w"));
    let keys: Vec<&str> = m.entries().iter().map(|(k, _)| k.as_str()).collect();
    assert_eq!(keys, vec!["b", "a"]);
    assert_eq!(m.entries()[0].1.len(), 2);
}
