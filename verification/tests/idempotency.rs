use api_bones::idempotency::{IdempotencyKey, IdempotencyKeyError};

#[test]
fn valid_key_is_accepted() {
    assert!(IdempotencyKey::new("abc-123").is_ok());
    assert!(IdempotencyKey::new("x").is_ok());
    assert!(IdempotencyKey::new("Hello World!").is_ok());
    assert!(IdempotencyKey::new(" ").is_ok());
    assert!(IdempotencyKey::new("~").is_ok());
}

#[test]
fn idempotency_empty_is_rejected() {
    assert_eq!(IdempotencyKey::new(""), Err(IdempotencyKeyError::Empty));
}

#[test]
fn idempotency_too_long_is_rejected() {
    let s: String = "a".repeat(256);
    assert_eq!(IdempotencyKey::new(&s), Err(IdempotencyKeyError::TooLong));
}

#[test]
fn idempotency_exactly_255_chars_is_accepted() {
    let s: String = "a".repeat(255);
    assert!(IdempotencyKey::new(&s).is_ok());
}

#[test]
fn idempotency_control_char_is_rejected() {
    assert_eq!(
        IdempotencyKey::new("ab\x00cd"),
        Err(IdempotencyKeyError::InvalidChars)
    );
    assert_eq!(
        IdempotencyKey::new("ab\ncd"),
        Err(IdempotencyKeyError::InvalidChars)
    );
}

#[test]
fn idempotency_non_ascii_is_rejected() {
    assert_eq!(
        IdempotencyKey::new("héllo"),
        Err(IdempotencyKeyError::InvalidChars)
    );
}

#[test]
fn from_uuid_produces_valid_key() {
    let key = IdempotencyKey::from_uuid();
    assert_eq!(key.as_str().len(), 36);
    assert!(IdempotencyKey::new(key.as_str()).is_ok());
}

#[test]
fn idempotency_deref_to_str() {
    let key = IdempotencyKey::new("hello").unwrap();
    let s: &str = &key;
    assert_eq!(s, "hello");
}

#[test]
fn idempotency_display() {
    let key = IdempotencyKey::new("test-key").unwrap();
    assert_eq!(key.to_string(), "test-key");
}

#[test]
fn idempotency_try_from_str() {
    assert!(IdempotencyKey::try_from("valid").is_ok());
    assert!(IdempotencyKey::try_from("").is_err());
}

#[test]
fn idempotency_try_from_string() {
    assert!(IdempotencyKey::try_from("valid".to_owned()).is_ok());
}

#[test]
fn idempotency_into_string() {
    let key = IdempotencyKey::new("abc").unwrap();
    assert_eq!(key.into_string(), "abc");
}

// Own tests.

#[test]
fn idempotency_error_messages_and_parse() {
    assert_eq!(
        IdempotencyKeyError::Empty.to_string(),
        "idempotency key must not be empty"
    );
    assert_eq!(
        IdempotencyKeyError::TooLong.to_string(),
        "idempotency key must not exceed 255 characters"
    );
    assert_eq!(
        "".parse::<IdempotencyKey>(),
        Err(IdempotencyKeyError::Empty)
    );
    let k: IdempotencyKey = "k-1".parse().unwrap();
    assert_eq!(k.as_str(), "k-1");
}

#[test]
fn idempotency_length_counts_characters() {
    let s: String = "é".repeat(200);
    assert_eq!(IdempotencyKey::new(&s), Err(IdempotencyKeyError::InvalidChars));
    let s: String = "é".repeat(256);
    assert_eq!(IdempotencyKey::new(&s), Err(IdempotencyKeyError::TooLong));
}
