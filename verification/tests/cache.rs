use api_bones::cache::CacheControl;

#[test]
fn default_is_empty() {
    let cc = CacheControl::new();
    assert_eq!(cc.to_string(), "");
}

#[test]
fn builder_public_max_age_immutable() {
    let cc = CacheControl::new().public().max_age(31_536_000).immutable();
    assert_eq!(cc.to_string(), "public, immutable, max-age=31536000");
}

#[test]
fn builder_no_store() {
    let cc = CacheControl::no_caching();
    assert_eq!(cc.to_string(), "no-store");
}

#[test]
fn builder_private_no_cache() {
    let cc = CacheControl::private_no_cache();
    assert!(cc.private);
    assert!(cc.no_cache);
    assert!(cc.no_store);
}

#[test]
fn parse_simple_flags() {
    let cc: CacheControl = "no-store, no-cache".parse().unwrap();
    assert!(cc.no_store);
    assert!(cc.no_cache);
}

#[test]
fn parse_numeric_directives() {
    let cc: CacheControl = "public, max-age=3600, s-maxage=7200".parse().unwrap();
    assert!(cc.public);
    assert_eq!(cc.max_age, Some(3600));
    assert_eq!(cc.s_maxage, Some(7200));
}

#[test]
fn parse_unknown_directive_ignored() {
    let cc: CacheControl = "no-store, x-custom-thing=42".parse().unwrap();
    assert!(cc.no_store);
}

#[test]
fn roundtrip_complex() {
    let original = CacheControl::new()
        .public()
        .max_age(600)
        .must_revalidate()
        .stale_if_error(86_400);
    let s = original.to_string();
    let parsed: CacheControl = s.parse().unwrap();
    assert_eq!(parsed.public, original.public);
    assert_eq!(parsed.max_age, original.max_age);
    assert_eq!(parsed.must_revalidate, original.must_revalidate);
    assert_eq!(parsed.stale_if_error, original.stale_if_error);
}

#[test]
fn parse_case_insensitive() {
    let cc: CacheControl = "No-Store, Max-Age=60".parse().unwrap();
    assert!(cc.no_store);
    assert_eq!(cc.max_age, Some(60));
}

#[test]
fn parse_max_stale_no_value() {
    let cc: CacheControl = "max-stale".parse().unwrap();
    assert_eq!(cc.max_stale, Some(0));
}

#[test]
fn parse_max_stale_with_value() {
    let cc: CacheControl = "max-stale=300".parse().unwrap();
    assert_eq!(cc.max_stale, Some(300));
}

// Own tests.

#[test]
fn every_directive_round_trips_exactly() {
    let cc = CacheControl::new()
        .public()
        .private()
        .no_cache()
        .no_store()
        .no_transform()
        .must_revalidate()
        .proxy_revalidate()
        .immutable()
        .only_if_cached()
        .max_age(1)
        .s_maxage(2)
        .stale_while_revalidate(3)
        .stale_if_error(4)
        .max_stale(5)
        .min_fresh(6);
    let parsed: CacheControl = cc.to_string().parse().unwrap();
    assert_eq!(parsed, cc);
}

#[test]
fn numeric_directive_errors() {
    let e = "max-age".parse::<CacheControl>().unwrap_err();
    assert_eq!(e.to_string(), "invalid Cache-Control header: max-age requires a value");
    let e = "s-maxage=abc".parse::<CacheControl>().unwrap_err();
    assert_eq!(e.to_string(), "invalid Cache-Control header: s-maxage value is not a valid integer");
}

#[test]
fn later_directive_overrides_earlier() {
    let cc: CacheControl = "max-age=10, max-age=20".parse().unwrap();
    assert_eq!(cc.max_age, Some(20));
}
