use api_bones::audit::{
    DeviceLease, DeviceLeaseKind, OrgId, Principal, PrincipalId, PrincipalKind,
    PrincipalParseError, ResolvedPrincipal,
};
use api_bones::uuid::Uuid;
use std::collections::hash_map::DefaultHasher;
use std::hash::{Hash, Hasher};

#[test]
fn principal_id_static_str() {
    let id = PrincipalId::static_str("foo");
    assert_eq!(id.as_str(), "foo");
}

#[test]
fn principal_id_from_owned() {
    let id = PrincipalId::from_owned("bar".to_owned());
    assert_eq!(id.as_str(), "bar");
}

#[test]
fn principal_id_from_uuid() {
    let id = PrincipalId::from_uuid(Uuid::nil());
    assert_eq!(id.as_str(), "00000000-0000-0000-0000-000000000000");
}

#[test]
fn principal_id_display() {
    let id = PrincipalId::static_str("test");
    assert_eq!(id.to_string(), "test");
}

#[test]
fn principal_kind_copy_and_eq() {
    let k1 = PrincipalKind::User;
    let k2 = k1;
    assert_eq!(k1, k2);
}

#[test]
fn principal_kind_all_variants() {
    let _ = PrincipalKind::User;
    let _ = PrincipalKind::Service;
    let _ = PrincipalKind::System;
    let _ = PrincipalKind::Device;
    let _ = PrincipalKind::Agent;
}

#[test]
fn principal_human_has_user_kind() {
    let p = Principal::human(Uuid::nil());
    assert_eq!(p.kind, PrincipalKind::User);
}

#[test]
fn principal_human_has_empty_org_path() {
    let p = Principal::human(Uuid::nil());
    assert!(p.org_path.is_empty());
}

#[test]
fn principal_system_has_system_kind() {
    let p = Principal::system("s");
    assert_eq!(p.kind, PrincipalKind::System);
}

#[test]
fn principal_system_has_empty_org_path() {
    let p = Principal::system("s");
    assert!(p.org_path.is_empty());
}

#[test]
fn principal_device_has_device_kind() {
    let p = Principal::device(Uuid::nil());
    assert_eq!(p.kind, PrincipalKind::Device);
}

#[test]
fn principal_device_id_is_uuid_string() {
    let id = Uuid::new_v4();
    let p = Principal::device(id);
    assert_eq!(p.as_str(), id.to_string());
}

#[test]
fn principal_device_has_empty_org_path() {
    let p = Principal::device(Uuid::nil());
    assert!(p.org_path.is_empty());
}

#[test]
fn principal_agent_has_agent_kind() {
    let p = Principal::agent("ops.triage-agent");
    assert_eq!(p.kind, PrincipalKind::Agent);
}

#[test]
fn principal_agent_preserves_static_id() {
    let p = Principal::agent("sdr.outreach-bot");
    assert_eq!(p.as_str(), "sdr.outreach-bot");
}

#[test]
fn principal_agent_has_empty_org_path() {
    let p = Principal::agent("svc");
    assert!(p.org_path.is_empty());
}

#[test]
fn principal_with_org_path_builder() {
    let org_id = OrgId::generate();
    let p = Principal::system("test").with_org_path(vec![org_id]);
    assert_eq!(p.org_path.len(), 1);
    assert_eq!(p.org_path[0], org_id);
}

#[test]
fn org_path_display_empty_for_system_principal() {
    let p = Principal::system("svc");
    assert_eq!(p.org_path_display(), "");
}

#[test]
fn org_path_display_single_org() {
    let org_id = OrgId::generate();
    let p = Principal::system("svc").with_org_path(vec![org_id]);
    assert_eq!(p.org_path_display(), org_id.to_string());
}

#[test]
fn org_path_display_multiple_orgs_comma_separated() {
    let root = OrgId::generate();
    let child = OrgId::generate();
    let p = Principal::system("svc").with_org_path(vec![root, child]);
    assert_eq!(
        p.org_path_display(),
        format!("{},{}", root.to_string(), child.to_string())
    );
}

#[test]
fn principal_try_parse_accepts_valid_uuid() {
    let s = "550e8400-e29b-41d4-a716-446655440000";
    let p = Principal::try_parse(s).expect("valid UUID should parse");
    assert_eq!(p.as_str(), s);
}

#[test]
fn principal_try_parse_sets_user_kind() {
    let p = Principal::try_parse("550e8400-e29b-41d4-a716-446655440000").unwrap();
    assert_eq!(p.kind, PrincipalKind::User);
}

#[test]
fn principal_try_parse_rejects_email_string() {
    let err = Principal::try_parse("alice@example.com").expect_err("email must be rejected");
    assert_eq!(err.input, "alice@example.com");
    assert!(err.to_string().contains("alice@example.com"));
}

#[test]
fn principal_try_parse_rejects_empty_string() {
    let err = Principal::try_parse("").expect_err("empty string must be rejected");
    assert_eq!(err.input, "");
}

#[test]
fn principal_as_str_returns_id_str() {
    let p = Principal::system("x");
    assert_eq!(p.as_str(), "x");
}

#[test]
fn principal_display_forwards_to_as_str() {
    let p = Principal::human(Uuid::nil());
    let s = p.to_string();
    assert_eq!(s, Uuid::nil().to_string());
}

#[test]
fn principal_debug_is_not_redacted() {
    let p = Principal::human(Uuid::nil());
    let s = format!("{p:?}");
    assert!(
        s.contains(&Uuid::nil().to_string()),
        "debug must not redact: {s}"
    );
    assert!(s.contains("Principal"), "debug must name the type: {s}");
}

#[test]
fn principal_equality_and_hash_across_owned_and_borrowed() {
    let p1 = Principal::system("orders.bootstrap");
    let p2 = Principal::system("orders.bootstrap");
    assert_eq!(p1, p2);

    let mut h1 = DefaultHasher::new();
    p1.hash(&mut h1);
    let mut h2 = DefaultHasher::new();
    p2.hash(&mut h2);
    assert_eq!(h1.finish(), h2.finish());
}

#[test]
fn principal_clone_roundtrip() {
    let p = Principal::human(Uuid::nil());
    let q = p.clone();
    assert_eq!(p, q);
}

#[test]
fn principal_parse_error_display_contains_input() {
    let err = PrincipalParseError {
        input: "bad-value".to_owned(),
    };
    assert!(err.to_string().contains("bad-value"));
}

#[test]
fn resolved_principal_new_and_display_with_name() {
    let p = Principal::human(Uuid::nil());
    let r = ResolvedPrincipal::new(p, Some("Alice Martin".to_owned()));
    assert_eq!(r.display(), "Alice Martin");
}

#[test]
fn resolved_principal_display_falls_back_to_uuid() {
    let p = Principal::human(Uuid::nil());
    let r = ResolvedPrincipal::new(p.clone(), None);
    assert_eq!(r.display(), p.as_str());
}

#[test]
fn resolved_principal_from_principal() {
    let p = Principal::human(Uuid::nil());
    let r = ResolvedPrincipal::from(p.clone());
    assert_eq!(r.id, p);
    assert!(r.display_name.is_none());
}

#[test]
fn device_lease_kind_variants_distinct() {
    assert_ne!(DeviceLeaseKind::Connection, DeviceLeaseKind::RequestStream);
}

#[test]
fn device_lease_kind_copy() {
    let k = DeviceLeaseKind::Connection;
    let k2 = k;
    assert_eq!(k, k2);
}

#[test]
fn device_lease_new_stores_fields() {
    let lease = DeviceLease::new(DeviceLeaseKind::RequestStream, Some(100), 1800);
    assert_eq!(lease.kind, DeviceLeaseKind::RequestStream);
    assert_eq!(lease.max_concurrent, Some(100));
    assert_eq!(lease.refresh_secs, 1800);
}

#[test]
fn device_lease_new_clamps_refresh_to_max() {
    let lease = DeviceLease::new(DeviceLeaseKind::Connection, None, 9999);
    assert_eq!(lease.refresh_secs, DeviceLease::MAX_REFRESH_SECS);
}

#[test]
fn device_lease_max_refresh_secs_is_one_hour() {
    assert_eq!(DeviceLease::MAX_REFRESH_SECS, 3_600);
}

#[test]
fn device_lease_new_no_cap() {
    let lease = DeviceLease::new(DeviceLeaseKind::Connection, None, 600);
    assert_eq!(lease.max_concurrent, None);
    assert_eq!(lease.refresh_secs, 600);
}

// Own tests.

#[test]
fn device_lease_refresh_at_limit_is_kept() {
    let lease = DeviceLease::new(DeviceLeaseKind::Connection, None, 3_600);
    assert_eq!(lease.refresh_secs, 3_600);
    let lease = DeviceLease::new(DeviceLeaseKind::Connection, None, 3_601);
    assert_eq!(lease.refresh_secs, 3_600);
}

#[test]
fn principal_parse_error_message_quotes_input() {
    let err = PrincipalParseError {
        input: "a\"b".to_owned(),
    };
    assert_eq!(
        err.to_string(),
        "invalid Principal: expected a UUID string, got \"a\\\"b\""
    );
}

#[test]
fn principal_try_parse_accepts_uppercase_and_renders_lowercase() {
    let p = Principal::try_parse("550E8400-E29B-41D4-A716-446655440000").unwrap();
    assert_eq!(p.as_str(), "550e8400-e29b-41d4-a716-446655440000");
}
