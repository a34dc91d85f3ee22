use api_bones::correlation_id::{CorrelationId, CorrelationIdError};

#[test]
fn valid_id_is_accepted() {
    assert!(CorrelationId::new("flow-abc").is_ok());
    assert!(CorrelationId::new("x").is_ok());
    assert!(CorrelationId::new("abc 123").is_ok());
}

#[test]
fn correlation_id_empty_is_rejected() {
    assert_eq!(CorrelationId::new(""), Err(CorrelationIdError::Empty));
}

#[test]
fn correlation_id_too_long_is_rejected() {
    let s: String = "a".repeat(256);
    assert_eq!(CorrelationId::new(&s), Err(CorrelationIdError::TooLong));
}

#[test]
fn correlation_id_exactly_255_chars_is_accepted() {
    let s: String = "a".repeat(255);
    assert!(CorrelationId::new(&s).is_ok());
}

#[test]
fn correlation_id_control_char_is_rejected() {
    assert_eq!(
        CorrelationId::new("ab\x00c"),
        Err(CorrelationIdError::InvalidChars)
    );
}

#[test]
fn correlation_id_non_ascii_is_rejected() {
    assert_eq!(
        CorrelationId::new("héllo"),
        Err(CorrelationIdError::InvalidChars)
    );
}

#[test]
fn new_uuid_produces_valid_id() {
    let id = CorrelationId::new_uuid();
    assert_eq!(id.as_str().len(), 36);
    assert!(CorrelationId::new(id.as_str()).is_ok());
}

#[test]
fn header_name() {
    let id = CorrelationId::new("x").unwrap();
    assert_eq!(id.header_name(), "X-Correlation-Id");
}

#[test]
fn correlation_id_display() {
    let id = CorrelationId::new("corr-01").unwrap();
    assert_eq!(id.to_string(), "corr-01");
}

#[test]
fn correlation_id_deref_to_str() {
    let id = CorrelationId::new("abc").unwrap();
    let s: &str = &id;
    assert_eq!(s, "abc");
}

#[test]
fn from_str() {
    let id: CorrelationId = "corr-abc".parse().unwrap();
    assert_eq!(id.as_str(), "corr-abc");
}

#[test]
fn correlation_id_try_from_str() {
    assert!(CorrelationId::try_from("valid").is_ok());
    assert!(CorrelationId::try_from("").is_err());
}

#[test]
fn correlation_id_try_from_string() {
    assert!(CorrelationId::try_from("valid".to_owned()).is_ok());
}

#[test]
fn correlation_id_into_string() {
    let id = CorrelationId::new("abc").unwrap();
    assert_eq!(id.into_string(), "abc");
}

// Own tests.

#[test]
fn correlation_id_length_counts_characters() {
    // 128 two-byte characters are 256 bytes but 128 characters: not too long,
    // and not printable ASCII.
    let s: String = "é".repeat(128);
    assert_eq!(CorrelationId::new(&s), Err(CorrelationIdError::InvalidChars));
    let s: String = "é".repeat(256);
    assert_eq!(CorrelationId::new(&s), Err(CorrelationIdError::TooLong));
    assert_eq!(CorrelationId::new("~"), Ok(CorrelationId::new("~").unwrap()));
    assert_eq!(CorrelationId::new("\x7f"), Err(CorrelationIdError::InvalidChars));
}

#[test]
fn correlation_id_error_messages() {
    assert_eq!(CorrelationIdError::Empty.to_string(), "correlation ID must not be empty");
    assert_eq!(
        CorrelationIdError::TooLong.to_string(),
        "correlation ID must not exceed 255 characters"
    );
    assert_eq!(
        CorrelationIdError::InvalidChars.to_string(),
        "correlation ID may only contain printable ASCII characters (0x20–0x7E)"
    );
}

#[test]
fn correlation_id_random_ids_are_valid_and_distinct() {
    let a = CorrelationId::new_random();
    let b = CorrelationId::new_id();
    assert_eq!(a.as_str().len(), 36);
    assert_ne!(a, b);
    let r: &str = a.as_ref();
    assert_eq!(r, a.as_str());
}
