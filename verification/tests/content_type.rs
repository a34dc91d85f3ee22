use api_bones::content_type::{ContentType, ParseContentTypeError};

#[test]
fn display_no_params() {
    assert_eq!(ContentType::application_json().to_string(), "application/json");
    assert_eq!(
        ContentType::application_problem_json().to_string(),
        "application/problem+json"
    );
    assert_eq!(
        ContentType::application_octet_stream().to_string(),
        "application/octet-stream"
    );
}

#[test]
fn display_with_params() {
    let ct = ContentType::text_plain_utf8();
    assert_eq!(ct.to_string(), "text/plain; charset=utf-8");
}

#[test]
fn display_multipart() {
    let ct = ContentType::multipart_form_data("abc123");
    assert_eq!(ct.to_string(), "multipart/form-data; boundary=abc123");
}

#[test]
fn essence_strips_params() {
    let ct = ContentType::text_plain_utf8();
    assert_eq!(ct.essence(), "text/plain");
}

#[test]
fn param_lookup() {
    let ct = ContentType::text_plain_utf8();
    assert_eq!(ct.param("charset"), Some("utf-8"));
    assert_eq!(ct.param("boundary"), None);
}

#[test]
fn parse_simple() {
    let ct: ContentType = "application/json".parse().unwrap();
    assert_eq!(ct.type_, "application");
    assert_eq!(ct.subtype, "json");
    assert!(ct.params.is_empty());
}

#[test]
fn parse_with_charset() {
    let ct: ContentType = "text/plain; charset=utf-8".parse().unwrap();
    assert_eq!(ct.type_, "text");
    assert_eq!(ct.subtype, "plain");
    assert_eq!(ct.param("charset"), Some("utf-8"));
}

#[test]
fn parse_case_insensitive_type() {
    let ct: ContentType = "Application/JSON".parse().unwrap();
    assert_eq!(ct.type_, "application");
    assert_eq!(ct.subtype, "json");
}

#[test]
fn parse_invalid_no_slash() {
    assert_eq!("application".parse::<ContentType>(), Err(ParseContentTypeError));
}

#[test]
fn parse_invalid_empty() {
    assert_eq!("".parse::<ContentType>(), Err(ParseContentTypeError));
}

#[test]
fn round_trip() {
    let ct = ContentType::text_plain_utf8();
    let s = ct.to_string();
    let back: ContentType = s.parse().unwrap();
    assert_eq!(back, ct);
}

// Own tests.

#[test]
fn parse_params_lowercases_names_and_keeps_values() {
    let ct: ContentType = "Multipart/Form-Data; Boundary=AbC".parse().unwrap();
    assert_eq!(ct.essence(), "multipart/form-data");
    assert_eq!(ct.param("boundary"), Some("AbC"));
    assert_eq!(ct.to_string(), "multipart/form-data; boundary=AbC");
}

#[test]
fn other_constructors() {
    assert_eq!(ContentType::text_plain().to_string(), "text/plain");
    assert_eq!(ContentType::text_html().to_string(), "text/html");
    assert_eq!(ContentType::new("image", "png").essence(), "image/png");
    let ct = ContentType::with_params(
        "text",
        "csv",
        vec![("header".to_owned(), "present".to_owned())],
    );
    assert_eq!(ct.to_string(), "text/csv; header=present");
}

#[test]
fn parse_error_message() {
    assert_eq!(ParseContentTypeError.to_string(), "invalid Content-Type value");
    assert_eq!("text/plain; =x".parse::<ContentType>(), Err(ParseContentTypeError));
    assert_eq!("/json".parse::<ContentType>(), Err(ParseContentTypeError));
    assert_eq!("text/".parse::<ContentType>(), Err(ParseContentTypeError));
}
