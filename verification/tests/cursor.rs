use api_bones::cursor::{Cursor, CursorError};
use base64::Engine as _;

#[test]
fn encode_decode_round_trip() {
    let payload = b"user:42:2024-01-01";
    let encoded = Cursor::encode(payload);
    let decoded = Cursor::decode(&encoded).unwrap();
    assert_eq!(decoded, payload);
}

#[test]
fn encode_uses_url_safe_alphabet() {
    for i in 0u8..=255 {
        let encoded = Cursor::encode(&[i]);
        assert!(
            encoded
                .chars()
                .all(|ch| ch.is_alphanumeric() || ch == '-' || ch == '_'),
            "non-url-safe character in {encoded}"
        );
    }
}

#[test]
fn decode_invalid_base64_error() {
    let result = Cursor::decode("!!!not-base64!!!");
    assert_eq!(result.unwrap_err(), CursorError::InvalidBase64);
}

#[test]
fn encode_empty_payload() {
    let encoded = Cursor::encode(b"");
    assert_eq!(encoded, "");
    let decoded = Cursor::decode(&encoded).unwrap();
    assert_eq!(decoded, b"");
}

#[test]
fn signed_round_trip() {
    let key = b"test-key-very-secret";
    let payload = b"id=99&sort=asc";
    let signed = Cursor::encode_signed(payload, key);
    let out = Cursor::decode_signed(&signed, key).unwrap();
    assert_eq!(out, payload);
}

#[test]
fn signed_wrong_key_fails() {
    let signed = Cursor::encode_signed(b"id=1", b"right-key");
    let result = Cursor::decode_signed(&signed, b"wrong-key");
    assert_eq!(result.unwrap_err(), CursorError::InvalidSignature);
}

#[test]
fn signed_tampered_payload_fails() {
    let signed = Cursor::encode_signed(b"id=1", b"key");
    let mut raw = base64::engine::general_purpose::URL_SAFE_NO_PAD
        .decode(&signed)
        .unwrap();
    raw[0] ^= 0xFF;
    let tampered = base64::engine::general_purpose::URL_SAFE_NO_PAD.encode(&raw);
    let result = Cursor::decode_signed(&tampered, b"key");
    assert_eq!(result.unwrap_err(), CursorError::InvalidSignature);
}

#[test]
fn signed_too_short_error() {
    let short = Cursor::encode(b"tiny");
    let result = Cursor::decode_signed(&short, b"key");
    assert_eq!(result.unwrap_err(), CursorError::TooShort);
}

#[test]
fn cursor_error_display_all_variants() {
    assert!(!CursorError::InvalidBase64.to_string().is_empty());
    assert!(!CursorError::InvalidSignature.to_string().is_empty());
    assert!(!CursorError::TooShort.to_string().is_empty());
}

// Own tests.

#[test]
fn encode_is_unpadded_url_safe_base64() {
    assert_eq!(Cursor::encode(b"\xfb\xff"), "-_8");
    assert_eq!(Cursor::encode(b"ab"), "YWI");
}

#[test]
fn signed_cursor_is_payload_then_mac() {
    let signed = Cursor::encode_signed(b"p", b"k");
    let raw = base64::engine::general_purpose::URL_SAFE_NO_PAD
        .decode(&signed)
        .unwrap();
    assert_eq!(raw.len(), 1 + 32);
    assert_eq!(raw[0], b'p');
    // Exactly 32 bytes: an empty payload with its tag.
    let empty = Cursor::encode_signed(b"", b"k");
    assert_eq!(Cursor::decode_signed(&empty, b"k").unwrap(), b"");
    assert_eq!(
        Cursor::decode_signed("!!", b"k").unwrap_err(),
        CursorError::InvalidBase64
    );
}

#[test]
fn cursor_error_messages() {
    assert_eq!(
        CursorError::InvalidBase64.to_string(),
        "cursor: invalid base64 encoding"
    );
}

#[test]
fn encode_gives_six_bits_per_character() {
    assert_eq!(Cursor::encode(b"Man"), "TWFu");
    assert_eq!(Cursor::encode(b"Ma"), "TWE");
    assert_eq!(Cursor::encode(&[251, 255]), "-_8");
}
