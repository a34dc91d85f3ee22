use api_bones::axum_extractors::Authorization;

fn extract_auth(header_val: Option<&str>) -> Result<Authorization, api_bones::error::ApiError> {
    Authorization::from_header_value(header_val.map(str::as_bytes))
}

#[test]
fn authorization_bearer() {
    let auth = extract_auth(Some("Bearer my.jwt.token")).unwrap();
    assert_eq!(auth.scheme, "Bearer");
    assert_eq!(auth.credentials, "my.jwt.token");
}

#[test]
fn authorization_missing_rejects_401() {
    let err = extract_auth(None).unwrap_err();
    assert_eq!(err.status, 401);
}

#[test]
fn authorization_require_scheme_ok() {
    let auth = extract_auth(Some("Bearer token")).unwrap();
    assert!(auth.require_scheme("Bearer").is_ok());
}

#[test]
fn authorization_require_scheme_mismatch_401() {
    let auth = extract_auth(Some("Basic dXNlcjpwYXNz")).unwrap();
    let err = auth.require_scheme("Bearer").unwrap_err();
    assert_eq!(err.status, 401);
}

#[test]
fn authorization_non_utf8_header_rejects_401() {
    let err = Authorization::from_header_value(Some(b"\xff\xfe")).unwrap_err();
    assert_eq!(err.status, 401);
}

#[test]
fn authorization_empty_scheme_rejects_401() {
    let err = extract_auth(Some(" token-only")).unwrap_err();
    assert_eq!(err.status, 401);
}

// Own tests.

#[test]
fn authorization_messages_and_trimming() {
    assert_eq!(extract_auth(None).unwrap_err().detail, "missing Authorization header");
    assert_eq!(
        extract_auth(Some(" x")).unwrap_err().detail,
        "malformed Authorization header"
    );
    let auth = extract_auth(Some("Bearer   spaced  ")).unwrap();
    assert_eq!(auth.credentials, "spaced");
    let auth = extract_auth(Some("Token")).unwrap();
    assert_eq!(auth.scheme, "Token");
    assert_eq!(auth.credentials, "");
}

#[test]
fn require_scheme_ignores_ascii_case_and_names_both() {
    let auth = extract_auth(Some("bearer t")).unwrap();
    assert!(auth.require_scheme("Bearer").is_ok());
    let auth = extract_auth(Some("Basic t")).unwrap();
    let err = auth.require_scheme("Bearer").unwrap_err();
    assert_eq!(err.detail, "expected Bearer authorization scheme, got Basic");
}
