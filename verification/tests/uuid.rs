use api_bones::uuid::Uuid;

#[test]
fn uuid_text_form_round_trips() {
    let u = Uuid::from_u128(0x550e8400_e29b_41d4_a716_446655440000);
    assert_eq!(u.to_string(), "550e8400-e29b-41d4-a716-446655440000");
    assert_eq!(Uuid::parse_str(&u.to_string()), Some(u));
    assert_eq!(u.as_u128(), 0x550e8400_e29b_41d4_a716_446655440000);
    assert_eq!(u.get_version_num(), 4);
}

#[test]
fn uuid_nil_and_random() {
    assert!(Uuid::nil().is_nil());
    assert_eq!(Uuid::nil().to_string(), "00000000-0000-0000-0000-000000000000");
    let r = Uuid::new_v4();
    assert_eq!(r.get_version_num(), 4);
    assert!(!r.is_nil());
    assert!(Uuid::parse_str("not-a-uuid").is_none());
}
