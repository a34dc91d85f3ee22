use api_bones::correlation_id::CorrelationId;
use api_bones::header_id::HeaderId;
use api_bones::idempotency::IdempotencyKey;
use std::borrow::Cow;

fn trait_as_str<T: HeaderId>(v: &T) -> Cow<'_, str> {
    v.as_str()
}

#[test]
fn as_str_correlation_id() {
    let id = CorrelationId::new("corr-abc").unwrap();
    assert_eq!(trait_as_str(&id), "corr-abc");
}

#[test]
fn as_str_idempotency_key() {
    let key = IdempotencyKey::new("my-key").unwrap();
    assert_eq!(trait_as_str(&key), "my-key");
}

#[test]
fn header_id_names() {
    fn header_name_of<T: HeaderId>() -> &'static str {
        T::HEADER_NAME
    }
    assert_eq!(header_name_of::<CorrelationId>(), "X-Correlation-Id");
    assert_eq!(header_name_of::<IdempotencyKey>(), "Idempotency-Key");
}
