use api_bones::etag::{parse_if_match, parse_if_none_match, ETag, IfMatch, IfNoneMatch, ParseETagError};

#[test]
fn etag_strong_construction() {
    let t = ETag::strong("abc");
    assert_eq!(t.value, "abc");
    assert!(!t.weak);
}

#[test]
fn etag_weak_construction() {
    let t = ETag::weak("xyz");
    assert_eq!(t.value, "xyz");
    assert!(t.weak);
}

#[test]
fn etag_strong_display() {
    assert_eq!(ETag::strong("v1").to_string(), "\"v1\"");
}

#[test]
fn etag_weak_display() {
    assert_eq!(ETag::weak("v1").to_string(), "W/\"v1\"");
}

#[test]
fn etag_strong_matches_same_strong() {
    let a = ETag::strong("abc");
    let b = ETag::strong("abc");
    assert!(a.matches(&b));
}

#[test]
fn etag_strong_does_not_match_different_value() {
    let a = ETag::strong("abc");
    let b = ETag::strong("def");
    assert!(!a.matches(&b));
}

#[test]
fn etag_strong_does_not_match_weak() {
    let a = ETag::strong("abc");
    let b = ETag::weak("abc");
    assert!(!a.matches(&b));
}

#[test]
fn etag_weak_does_not_match_strong() {
    let a = ETag::weak("abc");
    let b = ETag::strong("abc");
    assert!(!a.matches(&b));
}

#[test]
fn etag_weak_does_not_match_weak_strong_comparison() {
    let a = ETag::weak("abc");
    let b = ETag::weak("abc");
    assert!(!a.matches(&b));
}

#[test]
fn etag_weak_matches_same_value_weak_comparison() {
    let a = ETag::weak("abc");
    let b = ETag::strong("abc");
    assert!(a.matches_weak(&b));
}

#[test]
fn etag_weak_comparison_both_weak() {
    let a = ETag::weak("abc");
    let b = ETag::weak("abc");
    assert!(a.matches_weak(&b));
}

#[test]
fn etag_weak_comparison_different_values() {
    let a = ETag::weak("abc");
    let b = ETag::weak("def");
    assert!(!a.matches_weak(&b));
}

#[test]
fn if_match_any_always_matches() {
    assert!(IfMatch::Any.matches(&ETag::strong("x")));
    assert!(IfMatch::Any.matches(&ETag::weak("x")));
}

#[test]
fn if_match_tags_strong_match() {
    let cond = IfMatch::Tags(vec![ETag::strong("abc"), ETag::strong("def")]);
    assert!(cond.matches(&ETag::strong("abc")));
    assert!(cond.matches(&ETag::strong("def")));
}

#[test]
fn if_match_tags_no_match() {
    let cond = IfMatch::Tags(vec![ETag::strong("abc")]);
    assert!(!cond.matches(&ETag::strong("xyz")));
}

#[test]
fn if_match_tags_weak_etag_does_not_match() {
    let cond = IfMatch::Tags(vec![ETag::strong("abc")]);
    assert!(!cond.matches(&ETag::weak("abc")));
}

#[test]
fn if_none_match_any_never_satisfied() {
    assert!(!IfNoneMatch::Any.matches(&ETag::strong("x")));
}

#[test]
fn if_none_match_tags_satisfied_when_not_present() {
    let cond = IfNoneMatch::Tags(vec![ETag::strong("abc")]);
    assert!(cond.matches(&ETag::strong("xyz")));
}

#[test]
fn if_none_match_tags_not_satisfied_when_present_strong() {
    let cond = IfNoneMatch::Tags(vec![ETag::strong("abc")]);
    assert!(!cond.matches(&ETag::strong("abc")));
}

#[test]
fn if_none_match_tags_not_satisfied_weak_comparison() {
    let cond = IfNoneMatch::Tags(vec![ETag::weak("abc")]);
    assert!(!cond.matches(&ETag::strong("abc")));
}

#[test]
fn if_none_match_tags_not_satisfied_both_weak() {
    let cond = IfNoneMatch::Tags(vec![ETag::weak("abc")]);
    assert!(!cond.matches(&ETag::weak("abc")));
}

#[test]
fn etag_from_str_strong() {
    let t: ETag = "\"v1\"".parse().unwrap();
    assert_eq!(t, ETag::strong("v1"));
}

#[test]
fn etag_from_str_weak() {
    let t: ETag = "W/\"v1\"".parse().unwrap();
    assert_eq!(t, ETag::weak("v1"));
}

#[test]
fn etag_from_str_rejects_unquoted() {
    assert_eq!("v1".parse::<ETag>(), Err(ParseETagError::Unquoted));
}

#[test]
fn etag_from_str_rejects_empty() {
    assert_eq!("".parse::<ETag>(), Err(ParseETagError::Empty));
    assert_eq!("   ".parse::<ETag>(), Err(ParseETagError::Empty));
}

#[test]
fn etag_from_str_rejects_missing_closing_quote() {
    assert!("\"v1".parse::<ETag>().is_err());
}

#[test]
fn etag_from_str_rejects_embedded_quote() {
    assert_eq!("\"a\"b\"".parse::<ETag>(), Err(ParseETagError::Malformed));
}

#[test]
fn etag_from_str_trims_whitespace() {
    let t: ETag = "  \"v1\"  ".parse().unwrap();
    assert_eq!(t, ETag::strong("v1"));
}

#[test]
fn etag_round_trip_strong() {
    let t = ETag::strong("abc123");
    assert_eq!(t.to_string().parse::<ETag>(), Ok(t));
}

#[test]
fn etag_round_trip_weak() {
    let t = ETag::weak("xyz");
    assert_eq!(t.to_string().parse::<ETag>(), Ok(t));
}

#[test]
fn etag_parse_list_multiple() {
    let tags = ETag::parse_list("\"a\", W/\"b\", \"c\"").unwrap();
    assert_eq!(tags.len(), 3);
    assert_eq!(tags[0], ETag::strong("a"));
    assert_eq!(tags[1], ETag::weak("b"));
    assert_eq!(tags[2], ETag::strong("c"));
}

#[test]
fn etag_parse_list_single() {
    let tags = ETag::parse_list("\"only\"").unwrap();
    assert_eq!(tags, vec![ETag::strong("only")]);
}

#[test]
fn etag_parse_list_empty_errors() {
    assert!(ETag::parse_list("").is_err());
    assert!(ETag::parse_list("   ").is_err());
}

#[test]
fn etag_parse_list_propagates_bad_entry() {
    assert!(ETag::parse_list("\"a\", bad, \"c\"").is_err());
}

#[test]
fn if_match_wildcard() {
    let r = parse_if_match("*").unwrap();
    assert_eq!(r, IfMatch::Any);
}

#[test]
fn if_match_tag_list() {
    let r = parse_if_match("\"a\", W/\"b\"").unwrap();
    assert_eq!(r, IfMatch::Tags(vec![ETag::strong("a"), ETag::weak("b")]));
}

#[test]
fn if_match_malformed_is_bad_request() {
    let err = parse_if_match("not-a-tag").unwrap_err();
    assert_eq!(err.status, 400);
}

#[test]
fn if_none_match_wildcard() {
    let r = parse_if_none_match("*").unwrap();
    assert_eq!(r, IfNoneMatch::Any);
}

#[test]
fn if_none_match_tag_list() {
    let r = parse_if_none_match("\"v1\"").unwrap();
    assert_eq!(r, IfNoneMatch::Tags(vec![ETag::strong("v1")]));
}

// Own tests.

#[test]
fn parse_error_messages() {
    assert_eq!(ParseETagError::Empty.to_string(), "ETag is empty");
    assert_eq!(
        ParseETagError::Unquoted.to_string(),
        "ETag must be enclosed in double quotes"
    );
    assert_eq!(ParseETagError::Malformed.to_string(), "ETag is malformed");
}

#[test]
fn etag_text_round_trips_for_many_values() {
    for v in ["", "a", "v-1.2", "W/", "xyz/abc"] {
        for t in [ETag::strong(v), ETag::weak(v)] {
            assert_eq!(t.to_string().parse::<ETag>(), Ok(t.clone()));
        }
    }
}

#[test]
fn weak_comparison_is_symmetric_and_strong_implies_weak() {
    let tags = [ETag::strong("a"), ETag::weak("a"), ETag::strong("b"), ETag::weak("b")];
    for x in &tags {
        for y in &tags {
            assert_eq!(x.matches_weak(y), y.matches_weak(x));
            assert_eq!(x.matches(y), y.matches(x));
            if x.matches(y) {
                assert!(x.matches_weak(y));
            }
        }
    }
}
