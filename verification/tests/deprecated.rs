use api_bones::deprecated::Deprecated;

#[test]
fn new_sets_sunset() {
    let d = Deprecated::new("2025-12-31");
    assert_eq!(d.sunset, "2025-12-31");
    assert!(d.link.is_none());
}

#[test]
fn with_link() {
    let d = Deprecated::new("2025-12-31").with_link("https://example.com/v2");
    assert_eq!(d.link.as_deref(), Some("https://example.com/v2"));
}

#[test]
fn header_values() {
    let d = Deprecated::new("2025-12-31");
    assert_eq!(d.deprecation_header_value(), "true");
    assert_eq!(d.sunset_header_value(), "2025-12-31");
}

#[test]
fn link_header_value_format() {
    let d = Deprecated::new("2025-12-31").with_link("https://example.com/v2");
    assert_eq!(
        d.link_header_value().as_deref(),
        Some("<https://example.com/v2>; rel=\"successor-version\"")
    );
}

#[test]
fn link_header_value_none() {
    let d = Deprecated::new("2025-12-31");
    assert!(d.link_header_value().is_none());
}

// Own tests.

#[test]
fn headers_to_inject_in_order() {
    let d = Deprecated::new("Wed, 31 Dec 2025 23:59:59 GMT").with_link("https://e.com/v2");
    let (headers, failed) = d.headers_to_inject();
    assert!(!failed);
    assert_eq!(
        headers,
        vec![
            ("deprecation".to_owned(), "true".to_owned()),
            ("sunset".to_owned(), "Wed, 31 Dec 2025 23:59:59 GMT".to_owned()),
            (
                "link".to_owned(),
                "<https://e.com/v2>; rel=\"successor-version\"".to_owned()
            ),
        ]
    );
}

#[test]
fn headers_to_inject_stops_at_an_invalid_value() {
    let d = Deprecated::new("bad\nsunset").with_link("https://e.com/v2");
    let (headers, failed) = d.headers_to_inject();
    assert!(failed);
    assert_eq!(headers, vec![("deprecation".to_owned(), "true".to_owned())]);
    let d = Deprecated::new("2025-12-31").with_link("bad\nlink");
    let (headers, failed) = d.headers_to_inject();
    assert!(failed);
    assert_eq!(headers.len(), 2);
}

#[test]
fn deprecated_text() {
    assert_eq!(Deprecated::new("x").to_string(), "Deprecated(sunset=x)");
}
