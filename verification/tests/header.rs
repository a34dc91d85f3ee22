use api_bones::etag::ETag;
use api_bones::header::{HeaderName, HeaderValue, InvalidHeaderValue};

#[test]
fn header_name_from_static() {
    let n = HeaderName::from_static("content-type");
    assert_eq!(n.as_str(), "content-type");
}

#[test]
fn header_name_from_str_valid() {
    let n = HeaderName::parse("x-request-id").unwrap();
    assert_eq!(n.as_str(), "x-request-id");
}

#[test]
fn header_name_from_str_invalid() {
    assert!(HeaderName::parse("bad header!").is_err());
}

#[test]
fn header_name_display() {
    let n = HeaderName::from_static("accept");
    assert_eq!(n.to_string(), "accept");
}

#[test]
fn header_value_from_str_valid() {
    let v = HeaderValue::parse("application/json").unwrap();
    assert_eq!(v.to_str().unwrap(), "application/json");
}

#[test]
fn header_value_from_static() {
    let v = HeaderValue::from_static("application/json");
    assert_eq!(v.to_str().unwrap(), "application/json");
}

#[test]
fn header_value_from_str_invalid() {
    assert!(HeaderValue::parse("\0invalid").is_err());
}

#[test]
fn header_value_as_bytes() {
    let v = HeaderValue::from_static("hello");
    assert_eq!(v.as_bytes(), b"hello");
}

#[test]
fn header_value_display() {
    let v = HeaderValue::from_static("hello");
    assert_eq!(v.to_string(), "hello");
}

#[test]
fn etag_into_header_value() {
    let tag = ETag::strong("abc123");
    let val: HeaderValue = tag.try_into().unwrap();
    assert_eq!(val.to_str().unwrap(), "\"abc123\"");
}

#[test]
fn header_value_parse_trait() {
    let v: HeaderValue = "application/json".parse().unwrap();
    assert_eq!(v.to_str().unwrap(), "application/json");
    assert!("\0bad".parse::<HeaderValue>().is_err());
}

// Own tests.

#[test]
fn header_names_are_lower_cased() {
    let n = HeaderName::parse("X-Request-Id").unwrap();
    assert_eq!(n.as_str(), "x-request-id");
    assert!(HeaderName::parse("").is_err());
}

#[test]
fn non_ascii_values_are_kept_but_not_text() {
    let v = HeaderValue::parse("caf\u{e9}").unwrap();
    assert_eq!(v.as_bytes(), "caf\u{e9}".as_bytes());
    assert!(v.to_str().is_err());
    assert_eq!(v.to_string(), format!("{:?}", "caf\u{e9}".as_bytes()));
    let w = v.clone();
    assert_eq!(w, v);
}

#[test]
fn tab_is_text_and_control_bytes_are_rejected() {
    let v = HeaderValue::parse("a\tb").unwrap();
    assert_eq!(v.to_str().unwrap(), "a\tb");
    assert_eq!(HeaderValue::parse("a\nb"), Err(InvalidHeaderValue));
    assert_eq!(HeaderValue::parse("\u{7f}"), Err(InvalidHeaderValue));
    let bad = ETag::strong("a\nb");
    assert_eq!(HeaderValue::try_from(bad), Err(InvalidHeaderValue));
}

#[test]
fn try_from_static_checks_first() {
    assert_eq!(HeaderName::try_from_static("accept").unwrap().as_str(), "accept");
    assert!(HeaderName::try_from_static("no good").is_none());
}

#[test]
fn header_names_are_token_characters_only() {
    assert!(HeaderName::parse("x-a!#$%&'*+.^_`|~9").is_ok());
    assert!(HeaderName::parse("a:b").is_err());
    assert!(HeaderName::parse("caf\u{e9}").is_err());
    let long = "a".repeat(65_535);
    assert_eq!(HeaderName::parse(&long).unwrap().as_str().len(), 65_535);
    assert!(HeaderName::parse(&"a".repeat(65_536)).is_err());
}

#[test]
fn non_text_values_display_as_decimal_bytes() {
    let v = HeaderValue::parse("x\u{ff}").unwrap();
    assert_eq!(v.to_string(), format!("{:?}", v.as_bytes()));
    assert_eq!(HeaderValue::parse("\u{e9}").unwrap().to_string(), "[195, 169]");
}
