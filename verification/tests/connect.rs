use api_bones::connect::{
    build_offset_page, build_page, check_if_match, domain_to_connect, etag_from_millis,
    etag_from_updated_at, parse_rfc3339,
    index_generated_policy, index_policy_fields, invalid_field, is_caller_rejection, is_connection_write_failure,
    is_replayable_transport_failure, is_unprompted_retryable, parse_uuid, ConnectCode,
    ConnectFailure, DomainErrorKind, IntoDomainErrorKind, PreconditionedTransport,
    ConnectOptionExt, ScopeCall, DEFAULT_LIMIT, MAX_LIMIT,
};
use api_bones::common::Timestamp;
use api_bones::connect::precondition_client::{PolicyIndex, IF_MATCH_ANY};
use api_bones::connect::transport::{ConnectCallExt, ConnectConfigExt};

// -- domain errors ----------------------------------------------------------

struct TestErr(DomainErrorKind);

impl IntoDomainErrorKind for TestErr {
    fn kind(&self) -> DomainErrorKind {
        match &self.0 {
            DomainErrorKind::NotFound => DomainErrorKind::NotFound,
            DomainErrorKind::Conflict(s) => DomainErrorKind::Conflict(s.clone()),
            DomainErrorKind::Internal(s) => DomainErrorKind::Internal(s.clone()),
        }
    }
}

fn debug_str(e: &ConnectFailure) -> String {
    format!("{e:?}")
}

#[test]
fn not_found_maps_to_not_found() {
    let err = domain_to_connect(&TestErr(DomainErrorKind::NotFound));
    let s = debug_str(&err);
    assert!(
        s.contains("not_found") || s.contains("NotFound"),
        "expected not_found code, got: {s}"
    );
}

#[test]
fn conflict_maps_to_already_exists() {
    let err = domain_to_connect(&TestErr(DomainErrorKind::Conflict("dup key".into())));
    let s = debug_str(&err);
    assert!(
        s.contains("already_exists") || s.contains("AlreadyExists"),
        "expected already_exists code, got: {s}"
    );
}

#[test]
fn internal_maps_to_internal_without_detail() {
    let err = domain_to_connect(&TestErr(DomainErrorKind::Internal("secret detail".into())));
    let s = debug_str(&err);
    assert!(
        s.contains("internal") || s.contains("Internal"),
        "expected internal code, got: {s}"
    );
    assert!(
        !s.contains("secret detail"),
        "internal detail must not be surfaced to caller"
    );
}

#[test]
fn domain_failures_carry_exact_messages() {
    let e = domain_to_connect(&TestErr(DomainErrorKind::NotFound));
    assert_eq!(e, ConnectFailure { code: ConnectCode::NotFound, message: Some("not found".to_owned()) });
    let e = domain_to_connect(&TestErr(DomainErrorKind::Conflict("dup key".into())));
    assert_eq!(e, ConnectFailure { code: ConnectCode::AlreadyExists, message: Some("dup key".to_owned()) });
    let e = domain_to_connect(&TestErr(DomainErrorKind::Internal("x".into())));
    assert_eq!(e, ConnectFailure { code: ConnectCode::Internal, message: Some("internal error".to_owned()) });
}

// -- etag -------------------------------------------------------------------

fn at_millis(ms: i64) -> Timestamp {
    Timestamp { secs: ms.div_euclid(1000), nanos: (ms.rem_euclid(1000) as u32) * 1_000_000 }
}

#[test]
fn etag_is_weak_and_hex_encoded() {
    let tag = etag_from_updated_at(at_millis(1_700_000_000_000));
    assert!(tag.weak);
    assert_eq!(tag.to_string(), format!("W/\"{:x}\"", 1_700_000_000_000i64));
}

#[test]
fn etag_from_updated_at_counts_milliseconds() {
    let t = Timestamp { secs: 1_700_000_000, nanos: 123_999_999 };
    assert_eq!(t.timestamp_millis(), 1_700_000_000_123);
    assert_eq!(etag_from_updated_at(t), etag_from_millis(1_700_000_000_123));
    let before_epoch = Timestamp { secs: -1, nanos: 500_000_000 };
    assert_eq!(before_epoch.timestamp_millis(), -500);
    assert_eq!(etag_from_updated_at(before_epoch).value, format!("{:x}", -500i64));
}

// -- RFC 3339 fields --------------------------------------------------------

#[test]
fn parse_valid_rfc3339() {
    let dt = parse_rfc3339("2024-01-15T10:30:00Z", "start_at").unwrap();
    assert_eq!(dt.secs, 1_705_314_600);
}

#[test]
fn parse_invalid_returns_invalid_argument() {
    let err = parse_rfc3339("not-a-date", "start_at").unwrap_err();
    assert_eq!(err.code, ConnectCode::InvalidArgument);
    assert_eq!(err.message.as_deref(), Some("invalid `start_at`"));
}

#[test]
fn parse_with_offset() {
    let dt = parse_rfc3339("2024-01-15T10:30:00+02:00", "end_at").unwrap();
    assert_eq!(dt.secs, 1_705_307_400);
}

#[test]
fn parse_rfc3339_keeps_fractions() {
    let dt = parse_rfc3339("2024-01-15T10:30:00.250Z", "at").unwrap();
    assert_eq!(dt, Timestamp { secs: 1_705_314_600, nanos: 250_000_000 });
    assert!(parse_rfc3339("2024-01-15 10:30:00", "at").is_err());
}

#[test]
fn check_if_match_absent_header() {
    let current = etag_from_updated_at(at_millis(1_700_000_000_000));
    let err = check_if_match(None, &current).unwrap_err();
    assert_eq!(err.code, ConnectCode::FailedPrecondition);
}

#[test]
fn check_if_match_empty_header() {
    let current = etag_from_updated_at(at_millis(1_700_000_000_000));
    let err = check_if_match(Some(""), &current).unwrap_err();
    assert_eq!(err.code, ConnectCode::FailedPrecondition);
}

#[test]
fn check_if_match_wildcard() {
    let current = etag_from_updated_at(at_millis(1_700_000_000_000));
    check_if_match(Some("*"), &current).unwrap();
}

#[test]
fn check_if_match_exact_match() {
    let current = etag_from_updated_at(at_millis(1_700_000_000_000));
    check_if_match(Some(&current.to_string()), &current).unwrap();
}

#[test]
fn check_if_match_matches_weakly_across_strength() {
    let current = etag_from_updated_at(at_millis(1_700_000_000_000));
    let strong = format!("\"{}\"", current.value);
    check_if_match(Some(&strong), &current).unwrap();
}

#[test]
fn check_if_match_mismatch() {
    let current = etag_from_updated_at(at_millis(1_700_000_000_000));
    let other = etag_from_updated_at(at_millis(1_700_000_001_000));
    let err = check_if_match(Some(&other.to_string()), &current).unwrap_err();
    assert_eq!(err.code, ConnectCode::Aborted);
}

#[test]
fn check_if_match_malformed_header() {
    let current = etag_from_updated_at(at_millis(1_700_000_000_000));
    let err = check_if_match(Some("not-a-valid-etag"), &current).unwrap_err();
    assert_eq!(err.code, ConnectCode::InvalidArgument);
}

#[test]
fn check_if_match_messages_and_lists() {
    let current = etag_from_millis(255);
    assert_eq!(current.value, "ff");
    let err = check_if_match(Some("   "), &current).unwrap_err();
    assert_eq!(err.message.as_deref(), Some("If-Match header required"));
    let err = check_if_match(Some("\"aa\""), &current).unwrap_err();
    assert_eq!(
        err.message.as_deref(),
        Some("ETag does not match; the resource has been modified")
    );
    check_if_match(Some("\"aa\", W/\"ff\""), &current).unwrap();
    let negative = etag_from_millis(-1);
    assert_eq!(negative.value, "ffffffffffffffff");
}

// -- invalid_field / parse_uuid ---------------------------------------------

#[test]
fn invalid_field_code_and_message() {
    let err = invalid_field("org_id");
    assert_eq!(err.code, ConnectCode::InvalidArgument);
    let msg = err.message.as_deref().unwrap_or("");
    assert!(msg.contains("org_id"), "message: {msg}");
    assert_eq!(msg, "invalid `org_id`");
}

#[test]
fn valid_uuid_parses() {
    let s = "550e8400-e29b-41d4-a716-446655440000";
    let id = parse_uuid(s, "id").unwrap();
    assert_eq!(id.to_string(), s);
}

#[test]
fn nil_uuid_parses() {
    let id = parse_uuid("00000000-0000-0000-0000-000000000000", "id").unwrap();
    assert!(id.is_nil());
}

#[test]
fn invalid_returns_error() {
    let err = parse_uuid("not-a-uuid", "org_id").unwrap_err();
    let msg = format!("{err:?}");
    assert!(msg.contains("org_id"));
    assert_eq!(err.code, ConnectCode::InvalidArgument);
    assert_eq!(err.message.as_deref(), Some("invalid UUID in field `org_id`"));
}

#[test]
fn empty_string_returns_error() {
    assert!(parse_uuid("", "id").is_err());
}

// -- pages ------------------------------------------------------------------

#[test]
fn zero_limit_uses_default() {
    let p = build_page(0, 0, 5, 100);
    assert_eq!(p.limit(), DEFAULT_LIMIT);
}

#[test]
fn oversized_limit_clamped() {
    let p = build_page(9999, 0, 5, 100);
    assert_eq!(p.limit(), MAX_LIMIT);
}

#[test]
fn explicit_limit_preserved() {
    let p = build_page(50, 0, 5, 100);
    assert_eq!(p.limit(), 50);
}

#[test]
fn has_more_true_when_items_remain() {
    let p = build_page(20, 0, 20, 100);
    assert!(p.has_more());
}

#[test]
fn has_more_false_on_last_page() {
    let p = build_page(20, 80, 20, 100);
    assert!(!p.has_more());
}

#[test]
fn has_more_false_on_exact_fit() {
    let p = build_page(20, 0, 100, 100);
    assert!(!p.has_more());
}

#[test]
fn empty_result_no_more() {
    let p = build_page(20, 0, 0, 0);
    assert!(!p.has_more());
    assert_eq!(p.total_count(), 0);
}

#[test]
fn into_parts_destructures() {
    let p = build_page(10, 5, 10, 50);
    let (total, has_more, limit, offset) = p.into_parts();
    assert_eq!(total, 50);
    assert!(has_more);
    assert_eq!(limit, 10);
    assert_eq!(offset, 5);
}

#[test]
fn page_limits_are_exact() {
    assert_eq!(DEFAULT_LIMIT, 20);
    assert_eq!(MAX_LIMIT, 200);
    assert_eq!(build_page(200, 0, 0, 0).limit(), 200);
    assert_eq!(build_page(201, 0, 0, 0).limit(), 200);
    let p = build_offset_page(7, 3, 2, 10, 5, 50);
    assert_eq!(p.into_parts(), (10, true, 7, 3));
    let p = build_offset_page(0, 3, 7, 10, 5, 50);
    assert_eq!(p.into_parts(), (10, false, 5, 3));
}

// -- precondition policy ----------------------------------------------------

fn policy_json() -> &'static str {
    r#"{
        "schemaVersion": 1,
        "methods": [
            {"rpc": "/pkg.v1.Svc/Update", "procedure": "unary", "idempotency": "IDEMPOTENT"},
            {"rpc": "/pkg.v1.Svc/Get", "procedure": "unary", "idempotency": "NO_SIDE_EFFECTS"}
        ]
    }"#
}

#[test]
fn indexes_a_well_formed_policy() {
    let index = index_generated_policy(policy_json());
    assert_eq!(index.len(), 2);
    assert!(index.get("/pkg.v1.Svc/Update").unwrap().is_preconditioned());
    assert!(!index.get("/pkg.v1.Svc/Get").unwrap().is_preconditioned());
}

fn entry(rpc: &str, procedure: &str, idem: &str) -> (Option<String>, Option<String>, Option<String>) {
    (Some(rpc.to_string()), Some(procedure.to_string()), Some(idem.to_string()))
}

#[test]
fn indexes_read_policy_fields() {
    let ok = index_policy_fields(Some((
        Some(1),
        Some(vec![
            entry("/pkg.v1.Svc/Update", "unary", "IDEMPOTENT"),
            entry("/pkg.v1.Svc/Get", "unary", "NO_SIDE_EFFECTS"),
        ]),
    )));
    assert_eq!(ok.len(), 2);
    assert!(ok.get("/pkg.v1.Svc/Update").unwrap().is_preconditioned());
    assert!(index_policy_fields(None).is_empty());
    assert!(index_policy_fields(Some((None, Some(vec![])))).is_empty());
    assert!(index_policy_fields(Some((Some(1), None))).is_empty());
    let streaming = vec![entry("/pkg.v1.Svc/Watch", "server_streaming", "IDEMPOTENT")];
    assert!(index_policy_fields(Some((Some(1), Some(streaming)))).is_empty());
    let relative = vec![entry("pkg.v1.Svc/Update", "unary", "IDEMPOTENT")];
    assert!(index_policy_fields(Some((Some(1), Some(relative)))).is_empty());
    let missing = vec![(Some("/pkg.v1.Svc/Update".to_string()), None, Some("IDEMPOTENT".to_string()))];
    assert!(index_policy_fields(Some((Some(1), Some(missing)))).is_empty());
}

#[test]
fn fails_closed_on_malformed_or_duplicate_entries() {
    assert!(index_generated_policy("not json").is_empty());
    assert!(index_generated_policy(r#"{"schemaVersion": 2, "methods": []}"#).is_empty());
    let dup = r#"{"schemaVersion": 1, "methods": [
        {"rpc": "/pkg.v1.Svc/Update", "procedure": "unary", "idempotency": "IDEMPOTENT"},
        {"rpc": "/pkg.v1.Svc/Update", "procedure": "unary", "idempotency": "IDEMPOTENT"}
    ]}"#;
    assert!(index_generated_policy(dup).is_empty());
}

#[test]
fn attaches_if_match_any_to_a_mutating_call_by_default() {
    let transport = PreconditionedTransport::new((), index_generated_policy(policy_json()));
    assert!(transport.adds_if_match("/pkg.v1.Svc/Update", false));
    assert_eq!(IF_MATCH_ANY, "*");
}

#[test]
fn sends_no_if_match_on_a_no_side_effects_read() {
    let transport = PreconditionedTransport::new((), index_generated_policy(policy_json()));
    assert!(!transport.adds_if_match("/pkg.v1.Svc/Get", false));
}

#[test]
fn never_overrides_a_caller_supplied_precondition() {
    let transport = PreconditionedTransport::new((), index_generated_policy(policy_json()));
    assert!(!transport.adds_if_match("/pkg.v1.Svc/Update", true));
}

#[test]
fn leaves_an_unannotated_method_untouched() {
    let transport = PreconditionedTransport::new((), PolicyIndex::new());
    assert!(!transport.adds_if_match("/pkg.v1.Svc/Unknown", false));
}

// -- retry eligibility ------------------------------------------------------

fn failure(code: ConnectCode, message: &str) -> ConnectFailure {
    ConnectFailure::new(code, message)
}

#[test]
fn only_unavailable_retries_without_server_instruction() {
    assert!(is_unprompted_retryable(ConnectCode::Unavailable));
    for code in [
        ConnectCode::Aborted,
        ConnectCode::ResourceExhausted,
        ConnectCode::DeadlineExceeded,
        ConnectCode::Internal,
        ConnectCode::FailedPrecondition,
    ] {
        assert!(!is_unprompted_retryable(code), "{code:?} must not retry");
    }
}

#[test]
fn a_rejected_write_is_replayable_but_a_semantic_internal_is_not() {
    assert!(is_connection_write_failure(&failure(ConnectCode::Internal, "write EPIPE")));
    assert!(is_connection_write_failure(&failure(
        ConnectCode::Internal,
        "received GOAWAY from peer",
    )));
    assert!(!is_connection_write_failure(&failure(ConnectCode::Internal, "invariant failed")));
    assert!(!is_connection_write_failure(&failure(ConnectCode::Unknown, "broken pipe")));
}

#[test]
fn aborted_is_never_a_replayable_transport_failure() {
    assert!(!is_replayable_transport_failure(&failure(
        ConnectCode::Aborted,
        "registry changed during reconciliation",
    )));
    assert!(is_replayable_transport_failure(&failure(
        ConnectCode::Unavailable,
        "connection refused",
    )));
}

#[test]
fn write_failure_needs_a_message_and_matches_any_case() {
    let no_message = ConnectFailure { code: ConnectCode::Internal, message: None };
    assert!(!is_connection_write_failure(&no_message));
    assert!(is_connection_write_failure(&failure(ConnectCode::Internal, "Socket Hang Up")));
    assert!(is_connection_write_failure(&failure(ConnectCode::Internal, "x: ECONNRESET")));
    assert!(is_replayable_transport_failure(&failure(ConnectCode::Internal, "HTTP2 stream closed")));
}

// -- transport --------------------------------------------------------------

#[test]
fn is_caller_rejection_true_for_rejection_codes() {
    let rejection_codes = [
        ConnectCode::InvalidArgument,
        ConnectCode::Unauthenticated,
        ConnectCode::PermissionDenied,
        ConnectCode::FailedPrecondition,
        ConnectCode::NotFound,
        ConnectCode::Unimplemented,
    ];
    for code in rejection_codes {
        assert!(is_caller_rejection(code), "{code:?} should be a caller rejection");
    }
}

#[test]
fn is_caller_rejection_false_for_server_codes() {
    assert!(!is_caller_rejection(ConnectCode::Internal));
    assert!(!is_caller_rejection(ConnectCode::Unavailable));
}

// -- scoped clients ---------------------------------------------------------

struct Client {
    name: &'static str,
}

impl ScopeCall for Client {}

#[test]
fn cloning_a_handle_keeps_borrowing_the_same_client() {
    let client = Client { name: "c" };
    let scoped = client.with_credential("call-credential");
    let clone = scoped.clone();

    assert!(std::ptr::eq(scoped.client(), clone.client()));
    assert_eq!(clone.credential(), "call-credential");
    assert_eq!(clone.client().name, "c");
}

#[test]
fn scoping_borrows_the_parent_client_rather_than_rebuilding_it() {
    let client = Client { name: "c" };

    let first = client.with_credential("first");
    let second = client.with_credential("second");

    assert!(std::ptr::eq(first.client(), &client));
    assert!(std::ptr::eq(second.client(), &client));
    assert_eq!(first.credential(), "first");
    assert_eq!(second.credential(), "second");
}

#[test]
fn scoped_debug_never_shows_the_credential() {
    let client = Client { name: "c" };
    let scoped = client.with_credential("also-secret");
    let rendered = format!("{scoped:?}");
    assert!(!rendered.contains("secret"));
    assert_eq!(rendered, "ScopedClient { .. }");
}

// -- header conventions -----------------------------------------------------

#[test]
fn a_call_scoped_claim_rides_the_call_not_the_client() {
    let a = connectrpc::client::CallOptions::default().with_claim("claim-a");
    let b = connectrpc::client::CallOptions::default().with_claim("claim-b");
    assert_eq!(
        a.headers().get("authorization").and_then(|v| v.to_str().ok()),
        Some("Bearer claim-a")
    );
    assert_eq!(
        b.headers().get("authorization").and_then(|v| v.to_str().ok()),
        Some("Bearer claim-b")
    );
}

#[test]
fn claims_that_are_not_header_values_are_ignored() {
    let opts = connectrpc::client::CallOptions::default().with_claim("bad\ntoken");
    assert!(opts.headers().get("authorization").is_none());
    let twice = connectrpc::client::CallOptions::default().with_claim("a").with_claim("b");
    let all: Vec<&str> = twice
        .headers()
        .get_all("authorization")
        .iter()
        .filter_map(|v| v.to_str().ok())
        .collect();
    assert_eq!(all, vec!["Bearer a", "Bearer b"]);
    let uri: http::Uri = "http://localhost:8080".parse().unwrap();
    let cfg = connectrpc::client::ClientConfig::new(uri).with_org("bad\u{7f}org");
    assert!(cfg.default_headers().get("x-org-id").is_none());
}

#[test]
fn default_headers_keep_each_names_values_in_order() {
    let uri: http::Uri = "http://localhost:8080".parse().unwrap();
    let cfg = connectrpc::client::ClientConfig::new(uri)
        .with_bearer("t1")
        .with_org("o")
        .with_bearer("t2");
    let headers = cfg.default_headers();
    let auth: Vec<&str> =
        headers.get_all("authorization").iter().filter_map(|v| v.to_str().ok()).collect();
    assert_eq!(auth, vec!["Bearer t1", "Bearer t2"]);
    assert_eq!(headers.keys_len(), 2);
    assert_eq!(headers.len(), 3);
}

#[test]
fn connect_config_ext_with_bearer() {
    let uri: http::Uri = "http://localhost:8080".parse().unwrap();
    let cfg = connectrpc::client::ClientConfig::new(uri).with_bearer("tok123");
    let headers = cfg.default_headers();
    let auth = headers.get("authorization").and_then(|v| v.to_str().ok());
    assert_eq!(auth, Some("Bearer tok123"));
}

#[test]
fn connect_config_ext_with_org() {
    let uri: http::Uri = "http://localhost:8080".parse().unwrap();
    let cfg = connectrpc::client::ClientConfig::new(uri).with_org("org-abc");
    let headers = cfg.default_headers();
    let val = headers.get("x-org-id").and_then(|v| v.to_str().ok());
    assert_eq!(val, Some("org-abc"));
}

#[test]
fn connect_config_ext_with_subject() {
    let uri: http::Uri = "http://localhost:8080".parse().unwrap();
    let cfg = connectrpc::client::ClientConfig::new(uri).with_subject("sub-xyz");
    let headers = cfg.default_headers();
    let val = headers.get("x-subject-id").and_then(|v| v.to_str().ok());
    assert_eq!(val, Some("sub-xyz"));
}

#[test]
fn connect_config_ext_chained() {
    let uri: http::Uri = "http://localhost:8080".parse().unwrap();
    let cfg = connectrpc::client::ClientConfig::new(uri)
        .with_bearer("tok")
        .with_org("org")
        .with_subject("sub");
    let headers = cfg.default_headers();
    assert!(headers.contains_key("authorization"));
    assert!(headers.contains_key("x-org-id"));
    assert!(headers.contains_key("x-subject-id"));
}

#[test]
fn call_options_for_an_optional_bearer() {
    let with = api_bones::connect::scoped::call_options(Some("tok"));
    assert_eq!(
        with.headers().get("authorization").and_then(|v| v.to_str().ok()),
        Some("Bearer tok")
    );
    assert_eq!(with.headers().len(), 1);
    let without = api_bones::connect::scoped::call_options(None);
    assert!(without.headers().is_empty());
}

#[test]
fn scoped_call_options_carry_the_bearer() {
    let client = Client { name: "c" };
    let scoped = client.with_credential("this-call-only");
    let options = scoped.call_options();
    assert_eq!(
        options.headers().get("authorization").and_then(|v| v.to_str().ok()),
        Some("Bearer this-call-only")
    );
}

// -- not-found shaping ------------------------------------------------------

#[test]
fn some_returns_value() {
    let res: Result<Option<u32>, ConnectFailure> = Ok(Some(42));
    assert_eq!(res.or_not_found("gone").unwrap(), 42);
}

#[test]
fn none_returns_not_found() {
    let res: Result<Option<u32>, ConnectFailure> = Ok(None);
    let err = res.or_not_found("thing not found").unwrap_err();
    let msg = format!("{err:?}");
    assert!(msg.contains("not_found") || msg.contains("NotFound") || msg.contains("thing not found"));
    assert_eq!(err.code, ConnectCode::NotFound);
}

#[test]
fn err_propagates() {
    let res: Result<Option<u32>, ConnectFailure> =
        Err(ConnectFailure::new(ConnectCode::Internal, "boom"));
    let err = res.or_not_found("whatever").unwrap_err();
    assert_eq!(err.code, ConnectCode::Internal);
}
