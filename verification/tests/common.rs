use api_bones::common::{new_resource_id, parse_timestamp, Timestamp};

#[test]
fn resource_id_is_v4() {
    let id = new_resource_id();
    assert_eq!(id.get_version_num(), 4);
}

#[test]
fn resource_ids_render_as_hyphenated_lowercase() {
    let id = new_resource_id();
    let s = id.to_string();
    assert_eq!(s.len(), 36);
    assert_eq!(&s[14..15], "4");
    assert!(s.chars().all(|c| c == '-' || c.is_ascii_hexdigit() && !c.is_ascii_uppercase()));
    assert_ne!(new_resource_id(), id);
}

#[test]
fn timestamp_parses_rfc3339() {
    // RFC 3339 format: YYYY-MM-DDTHH:MM:SSZ
    let ts = parse_timestamp("2026-03-09T15:00:00Z").unwrap();
    let dt = chrono::DateTime::from_timestamp(ts.secs, ts.nanos).unwrap();
    assert_eq!(dt.to_rfc3339(), "2026-03-09T15:00:00+00:00");
    assert_eq!(ts, Timestamp { secs: 1_773_068_400, nanos: 0 });
}

#[test]
fn timestamp_rejects_non_dates() {
    assert!(parse_timestamp("yesterday").is_err());
    assert!(parse_timestamp("").is_err());
    let ts = parse_timestamp("1970-01-01T00:00:01.5+01:00").unwrap();
    assert_eq!(ts, Timestamp { secs: -3599, nanos: 500_000_000 });
    assert_eq!(ts.timestamp_millis(), -3_598_500);
}
