use api_bones::error::{
    mode_urn_namespace, resolve_error_type_mode, ApiError, ErrorCode, ErrorTypeMode, ErrorTypeModeStore,
    ValidationError,
};
use api_bones::uuid::Uuid;

fn default_mode() -> ErrorTypeMode {
    ErrorTypeMode::default()
}

#[test]
fn status_codes() {
    assert_eq!(ApiError::bad_request("x").status_code(), 400);
    assert_eq!(ApiError::unauthorized("x").status_code(), 401);
    assert_eq!(ApiError::invalid_credentials().status_code(), 401);
    assert_eq!(ApiError::token_expired().status_code(), 401);
    assert_eq!(ApiError::forbidden("x").status_code(), 403);
    assert_eq!(ApiError::not_found("x").status_code(), 404);
    assert_eq!(ApiError::conflict("x").status_code(), 409);
    assert_eq!(ApiError::already_exists("x").status_code(), 409);
    assert_eq!(ApiError::unprocessable("x").status_code(), 422);
    assert_eq!(ApiError::rate_limited(30).status_code(), 429);
    assert_eq!(ApiError::internal("x").status_code(), 500);
    assert_eq!(ApiError::unavailable("x").status_code(), 503);
}

#[test]
fn status_in_valid_http_range() {
    for err in [
        ApiError::bad_request("x"),
        ApiError::unauthorized("x"),
        ApiError::forbidden("x"),
        ApiError::not_found("x"),
        ApiError::conflict("x"),
        ApiError::unprocessable("x"),
        ApiError::rate_limited(30),
        ApiError::internal("x"),
        ApiError::unavailable("x"),
    ] {
        assert!(
            (100..=599).contains(&err.status),
            "status {} out of RFC 9457 §3.1.3 range",
            err.status
        );
    }
}

#[test]
fn error_code_urn() {
    let m = default_mode();
    assert_eq!(
        ErrorCode::ResourceNotFound.urn(&m),
        "urn:api-bones:error:resource-not-found"
    );
    assert_eq!(
        ErrorCode::ValidationFailed.urn(&m),
        "urn:api-bones:error:validation-failed"
    );
    assert_eq!(
        ErrorCode::InternalServerError.urn(&m),
        "urn:api-bones:error:internal-server-error"
    );
}

#[test]
fn error_code_from_type_uri_roundtrip() {
    let m = default_mode();
    let codes = [
        ErrorCode::BadRequest,
        ErrorCode::ValidationFailed,
        ErrorCode::Unauthorized,
        ErrorCode::ResourceNotFound,
        ErrorCode::InternalServerError,
        ErrorCode::ServiceUnavailable,
    ];
    for code in &codes {
        let urn = code.urn(&m);
        assert_eq!(ErrorCode::from_type_uri(&urn, &m).as_ref(), Some(code));
    }
}

#[test]
fn error_code_from_type_uri_unknown() {
    let m = default_mode();
    assert!(ErrorCode::from_type_uri("urn:api-bones:error:unknown-thing", &m).is_none());
    assert!(ErrorCode::from_type_uri("RESOURCE_NOT_FOUND", &m).is_none());
}

#[test]
fn display_format() {
    let e = ApiError::not_found("booking 123 not found");
    assert_eq!(
        e.to_string_with(&default_mode()),
        "[urn:api-bones:error:resource-not-found] booking 123 not found"
    );
}

#[test]
fn title_populated() {
    let e = ApiError::not_found("x");
    assert_eq!(e.title, "Resource Not Found");
}

#[test]
fn with_request_id() {
    let id = Uuid::new_v4();
    let e = ApiError::internal("oops").with_request_id(id);
    assert_eq!(e.request_id, Some(id));
}

#[test]
fn with_errors() {
    let e = ApiError::validation_failed("invalid input").with_errors(vec![ValidationError {
        field: "/email".to_owned(),
        message: "invalid format".to_owned(),
        rule: Some("format".to_owned()),
    }]);
    assert!(!e.errors.is_empty());
    assert_eq!(e.errors[0].field, "/email");
}

#[test]
fn client_vs_server() {
    assert!(ApiError::not_found("x").is_client_error());
    assert!(!ApiError::not_found("x").is_server_error());
    assert!(ApiError::internal("x").is_server_error());
}

#[test]
fn error_type_mode_render_url() {
    let mode = ErrorTypeMode::Url {
        base_url: "https://docs.example.com/errors".into(),
    };
    assert_eq!(
        mode.render("resource-not-found"),
        "https://docs.example.com/errors/resource-not-found"
    );
    let mode_slash = ErrorTypeMode::Url {
        base_url: "https://docs.example.com/errors/".into(),
    };
    assert_eq!(
        mode_slash.render("bad-request"),
        "https://docs.example.com/errors/bad-request"
    );
}

#[test]
fn set_error_type_mode_url_and_urn_namespace_fallback() {
    let mode = ErrorTypeMode::Url {
        base_url: "https://docs.test.com/errors".into(),
    };
    assert_eq!(mode_urn_namespace(&mode), "api-bones");
}

#[test]
fn urn_namespace_urn_mode_returns_namespace() {
    assert_eq!(mode_urn_namespace(&default_mode()), "api-bones");
}

#[test]
fn error_type_mode_url_from_runtime_env() {
    let mode = resolve_error_type_mode(None, Some("https://env.example.com/errors"), None, None);
    assert!(
        matches!(mode, ErrorTypeMode::Url { base_url } if base_url == "https://env.example.com/errors")
    );
}

#[test]
fn error_type_mode_urn_from_runtime_env() {
    let mode = resolve_error_type_mode(None, None, None, Some("testapp"));
    assert!(matches!(mode, ErrorTypeMode::Urn { namespace } if namespace == "testapp"));
}

#[test]
fn from_type_uri_url_mode_paths() {
    let m = ErrorTypeMode::Url {
        base_url: "https://docs.test.com/errors".into(),
    };
    assert_eq!(
        ErrorCode::from_type_uri("https://docs.test.com/errors/resource-not-found", &m),
        Some(ErrorCode::ResourceNotFound)
    );
    assert_eq!(
        ErrorCode::from_type_uri("urn:api-bones:error:bad-request", &m),
        Some(ErrorCode::BadRequest)
    );
    assert!(ErrorCode::from_type_uri("https://docs.test.com/errors/totally-unknown", &m).is_none());
    assert!(ErrorCode::from_type_uri("not-a-url-or-urn", &m).is_none());
}

#[test]
fn all_error_code_variants_title_slug_status() {
    let m = default_mode();
    let cases: &[(ErrorCode, &str, &str, u16)] = &[
        (ErrorCode::BadRequest, "Bad Request", "bad-request", 400),
        (ErrorCode::ValidationFailed, "Validation Failed", "validation-failed", 400),
        (ErrorCode::Unauthorized, "Unauthorized", "unauthorized", 401),
        (ErrorCode::InvalidCredentials, "Invalid Credentials", "invalid-credentials", 401),
        (ErrorCode::TokenExpired, "Token Expired", "token-expired", 401),
        (ErrorCode::TokenInvalid, "Token Invalid", "token-invalid", 401),
        (ErrorCode::Forbidden, "Forbidden", "forbidden", 403),
        (
            ErrorCode::InsufficientPermissions,
            "Insufficient Permissions",
            "insufficient-permissions",
            403,
        ),
        (ErrorCode::ResourceNotFound, "Resource Not Found", "resource-not-found", 404),
        (ErrorCode::Conflict, "Conflict", "conflict", 409),
        (
            ErrorCode::ResourceAlreadyExists,
            "Resource Already Exists",
            "resource-already-exists",
            409,
        ),
        (
            ErrorCode::UnprocessableEntity,
            "Unprocessable Entity",
            "unprocessable-entity",
            422,
        ),
        (ErrorCode::RateLimited, "Rate Limited", "rate-limited", 429),
        (
            ErrorCode::InternalServerError,
            "Internal Server Error",
            "internal-server-error",
            500,
        ),
        (ErrorCode::ServiceUnavailable, "Service Unavailable", "service-unavailable", 503),
    ];
    for (code, title, slug, status) in cases {
        assert_eq!(code.title(), *title, "title mismatch for {slug}");
        assert_eq!(code.urn_slug(), *slug, "slug mismatch");
        assert_eq!(code.status_code(), *status, "status mismatch for {slug}");
        let urn = code.urn(&m);
        assert_eq!(
            ErrorCode::from_type_uri(&urn, &m).as_ref(),
            Some(code),
            "from_type_uri roundtrip failed for {urn}"
        );
    }
}

#[test]
fn insufficient_permissions_constructor() {
    let e = ApiError::insufficient_permissions("missing admin role");
    assert_eq!(e.status_code(), 403);
    assert_eq!(e.title, "Insufficient Permissions");
    assert!(e.is_client_error());
}

#[test]
fn builder_basic() {
    let err = ApiError::builder()
        .code(ErrorCode::ResourceNotFound)
        .detail("Booking 123 not found")
        .build();
    assert_eq!(err.status, 404);
    assert_eq!(err.title, "Resource Not Found");
    assert_eq!(err.detail, "Booking 123 not found");
    assert!(err.request_id.is_none());
    assert!(err.errors.is_empty());
}

#[test]
fn builder_equivalence_with_new() {
    let via_new = ApiError::new(ErrorCode::BadRequest, "bad");
    let via_builder = ApiError::builder()
        .code(ErrorCode::BadRequest)
        .detail("bad")
        .build();
    assert_eq!(via_new, via_builder);
}

#[test]
fn builder_chaining_all_optionals() {
    let id = Uuid::parse_str("550e8400-e29b-41d4-a716-446655440000").unwrap();
    let errs = vec![ValidationError {
        field: "/email".to_owned(),
        message: "invalid".to_owned(),
        rule: None,
    }];
    let err = ApiError::builder()
        .code(ErrorCode::ValidationFailed)
        .detail("invalid input")
        .request_id(id)
        .errors(errs.clone())
        .build();
    assert_eq!(err.request_id, Some(id));
    assert_eq!(err.errors, errs);
}

#[test]
fn builder_detail_before_code() {
    let err = ApiError::builder()
        .detail("forbidden action")
        .code(ErrorCode::Forbidden)
        .build();
    assert_eq!(err.status, 403);
    assert_eq!(err.detail, "forbidden action");
}

#[test]
fn validation_error_display_with_rule() {
    let ve = ValidationError {
        field: "/email".to_owned(),
        message: "invalid format".to_owned(),
        rule: Some("format".to_owned()),
    };
    assert_eq!(ve.to_string(), "/email: invalid format (rule: format)");
}

#[test]
fn validation_error_display_without_rule() {
    let ve = ValidationError {
        field: "/name".to_owned(),
        message: "required".to_owned(),
        rule: None,
    };
    assert_eq!(ve.to_string(), "/name: required");
}

// Own tests.

#[test]
fn rate_limited_detail_names_the_seconds() {
    let e = ApiError::rate_limited(30);
    assert_eq!(e.detail, "Rate limited, retry after 30s");
    assert_eq!(e.code, ErrorCode::RateLimited);
}

#[test]
fn resolve_mode_precedence() {
    let m = resolve_error_type_mode(Some("https://b"), Some("https://r"), Some("bn"), Some("rn"));
    assert_eq!(m, ErrorTypeMode::Url { base_url: "https://b".into() });
    let m = resolve_error_type_mode(Some(""), None, Some("bn"), Some("rn"));
    assert_eq!(m, ErrorTypeMode::Urn { namespace: "bn".into() });
    let m = resolve_error_type_mode(None, None, None, None);
    assert_eq!(m, ErrorTypeMode::default());
    assert_eq!(mode_urn_namespace(&ErrorTypeMode::Urn { namespace: "x".into() }), "x");
}

#[test]
fn urn_roundtrip_under_custom_namespace_and_url() {
    let urn = ErrorTypeMode::Urn { namespace: "acme".into() };
    let url = ErrorTypeMode::Url { base_url: "https://e.com/err//".into() };
    for m in [urn, url] {
        let t = ErrorCode::TokenExpired.urn(&m);
        assert_eq!(ErrorCode::from_type_uri(&t, &m), Some(ErrorCode::TokenExpired));
    }
    assert_eq!(
        ErrorCode::Conflict.urn(&ErrorTypeMode::Url { base_url: "https://e.com/err//".into() }),
        "https://e.com/err/conflict"
    );
}

#[test]
fn client_and_server_error_ranges() {
    let mut e = ApiError::not_found("x");
    e.status = 302;
    assert!(!e.is_client_error());
    assert!(!e.is_server_error());
    e.status = 499;
    assert!(e.is_client_error());
    e.status = 599;
    assert!(e.is_server_error());
    e.status = 600;
    assert!(!e.is_server_error());
}

#[test]
fn mode_store_resolves_once_and_keeps_what_is_set() {
    let mut store = ErrorTypeModeStore::new();
    assert!(store.get().is_none());
    let first = store.get_or_resolve(None, None, None, Some("first"));
    assert_eq!(first, ErrorTypeMode::Urn { namespace: "first".into() });
    let again = store.get_or_resolve(Some("https://ignored.example"), None, None, None);
    assert_eq!(again, first);
    store.set(ErrorTypeMode::Url { base_url: "https://docs.example/errors".into() });
    assert_eq!(store.get(), Some(ErrorTypeMode::Url { base_url: "https://docs.example/errors".into() }));
    store.reset();
    assert!(store.get().is_none());
    assert_eq!(store.get_or_resolve(None, None, None, None), ErrorTypeMode::Urn { namespace: "api-bones".into() });
}
