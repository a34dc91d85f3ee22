use api_bones::cors::{CorsHeaders, CorsOrigin};

#[test]
fn default_all_none() {
    let cors = CorsHeaders::new();
    assert!(cors.allow_origin.is_none());
    assert!(cors.allow_methods.is_none());
    assert!(cors.allow_headers.is_none());
    assert!(cors.expose_headers.is_none());
    assert!(cors.max_age.is_none());
    assert!(cors.allow_credentials.is_none());
}

#[test]
fn builder_allow_origin_any() {
    let cors = CorsHeaders::new().allow_origin(CorsOrigin::Any);
    assert_eq!(cors.allow_origin.unwrap().to_string(), "*");
}

#[test]
fn builder_allow_origin_specific() {
    let cors = CorsHeaders::new().allow_origin(CorsOrigin::Origin("https://example.com".into()));
    assert_eq!(cors.allow_origin.unwrap().to_string(), "https://example.com");
}

#[test]
fn builder_allow_methods() {
    let cors = CorsHeaders::new().allow_methods(&["GET", "POST", "DELETE"]);
    let methods = cors.allow_methods.unwrap();
    assert!(methods.contains(&"GET".to_string()));
    assert!(methods.contains(&"POST".to_string()));
    assert_eq!(methods.len(), 3);
}

#[test]
fn builder_allow_headers() {
    let cors = CorsHeaders::new().allow_headers(&["Content-Type", "Authorization"]);
    let hdrs = cors.allow_headers.unwrap();
    assert!(hdrs.contains(&"Content-Type".to_string()));
}

#[test]
fn builder_expose_headers() {
    let cors = CorsHeaders::new().expose_headers(&["X-Request-Id"]);
    assert_eq!(cors.expose_headers_header().unwrap(), "X-Request-Id");
}

#[test]
fn builder_max_age() {
    let cors = CorsHeaders::new().max_age(3600);
    assert_eq!(cors.max_age, Some(3600));
}

#[test]
fn builder_allow_credentials() {
    let cors = CorsHeaders::new().allow_credentials(true);
    assert_eq!(cors.allow_credentials, Some(true));
}

#[test]
fn header_value_accessors() {
    let cors = CorsHeaders::new()
        .allow_methods(&["GET", "POST"])
        .allow_headers(&["Content-Type"]);
    assert_eq!(cors.allow_methods_header().unwrap(), "GET, POST");
    assert_eq!(cors.allow_headers_header().unwrap(), "Content-Type");
    assert!(cors.expose_headers_header().is_none());
}

#[test]
fn preflight_constructor() {
    let p = CorsHeaders::preflight(
        CorsOrigin::Origin("https://app.example.com".into()),
        &["GET", "POST"],
        &["Content-Type", "Authorization"],
    );
    assert!(p.allow_origin.is_some());
    assert_eq!(p.allow_methods.as_ref().unwrap().len(), 2);
    assert_eq!(p.allow_headers.as_ref().unwrap().len(), 2);
    assert!(p.allow_credentials.is_none());
}

#[test]
fn cors_origin_display() {
    assert_eq!(CorsOrigin::Any.to_string(), "*");
    assert_eq!(
        CorsOrigin::Origin("https://x.com".into()).to_string(),
        "https://x.com"
    );
}

#[test]
fn into_response_parts_sets_headers() {
    let cors = CorsHeaders::new()
        .allow_origin(CorsOrigin::Any)
        .allow_methods(&["GET"])
        .max_age(600);
    let headers = cors.response_headers();
    let get = |name: &str| {
        headers
            .iter()
            .find(|(n, _)| n == name)
            .map(|(_, v)| v.clone())
    };
    assert_eq!(get("access-control-allow-origin").as_deref(), Some("*"));
    assert_eq!(get("access-control-max-age").as_deref(), Some("600"));
}

// Own tests.

#[test]
fn response_headers_in_order_and_invalid_values_dropped() {
    let cors = CorsHeaders::new()
        .allow_origin(CorsOrigin::Origin("bad\nvalue".into()))
        .allow_methods(&["GET", "PUT"])
        .expose_headers(&["X-A", "X-B"])
        .allow_credentials(false);
    let headers = cors.response_headers();
    let names: Vec<&str> = headers.iter().map(|(n, _)| n.as_str()).collect();
    assert_eq!(
        names,
        vec![
            "access-control-allow-methods",
            "access-control-expose-headers",
            "access-control-allow-credentials"
        ]
    );
    assert_eq!(headers[0].1, "GET, PUT");
    assert_eq!(headers[1].1, "X-A, X-B");
    assert_eq!(headers[2].1, "false");
}
