use api_bones::auth::{
    ApiKeyCredentials, AuthScheme, AuthorizationHeader, BasicCredentials, BearerToken,
    OAuth2Token, ParseAuthorizationError, ParsePermissionError, Permission, Scope,
};
use base64::Engine as _;

#[test]
fn auth_scheme_display() {
    assert_eq!(AuthScheme::Bearer.to_string(), "Bearer");
    assert_eq!(AuthScheme::Basic.to_string(), "Basic");
    assert_eq!(AuthScheme::ApiKey.to_string(), "ApiKey");
    assert_eq!(AuthScheme::OAuth2.to_string(), "OAuth2");
    assert_eq!(AuthScheme::Digest.to_string(), "Digest");
    assert_eq!(AuthScheme::Custom("NTLM".to_owned()).to_string(), "NTLM");
}

#[test]
fn auth_scheme_from_str_known() {
    assert_eq!("Bearer".parse::<AuthScheme>().unwrap(), AuthScheme::Bearer);
    assert_eq!("bearer".parse::<AuthScheme>().unwrap(), AuthScheme::Bearer);
    assert_eq!("Basic".parse::<AuthScheme>().unwrap(), AuthScheme::Basic);
    assert_eq!("Digest".parse::<AuthScheme>().unwrap(), AuthScheme::Digest);
}

#[test]
fn auth_scheme_from_str_custom() {
    let s = "NTLM".parse::<AuthScheme>().unwrap();
    assert_eq!(s, AuthScheme::Custom("NTLM".to_owned()));
}

#[test]
fn bearer_token_as_str() {
    let t = BearerToken::new("tok");
    assert_eq!(t.as_str(), "tok");
}

#[test]
fn bearer_token_debug_redacts() {
    let t = BearerToken::new("super-secret");
    let dbg = format!("{t:?}");
    assert!(dbg.contains("[REDACTED]"));
    assert!(!dbg.contains("super-secret"));
}

#[test]
fn bearer_token_display() {
    let t = BearerToken::new("tok");
    assert_eq!(t.to_string(), "tok");
}

#[test]
fn basic_credentials_fields() {
    let c = BasicCredentials::new("alice", "s3cr3t");
    assert_eq!(c.username(), "alice");
    assert_eq!(c.password(), "s3cr3t");
}

#[test]
fn basic_credentials_debug_redacts_password() {
    let c = BasicCredentials::new("alice", "s3cr3t");
    let dbg = format!("{c:?}");
    assert!(dbg.contains("alice"));
    assert!(dbg.contains("[REDACTED]"));
    assert!(!dbg.contains("s3cr3t"));
}

#[test]
fn api_key_as_str() {
    let k = ApiKeyCredentials::new("key-123");
    assert_eq!(k.as_str(), "key-123");
}

#[test]
fn api_key_debug_redacts() {
    let k = ApiKeyCredentials::new("key-123");
    let dbg = format!("{k:?}");
    assert!(dbg.contains("[REDACTED]"));
    assert!(!dbg.contains("key-123"));
}

#[test]
fn oauth2_token_fields() {
    let t = OAuth2Token::new("access", Some("Bearer"));
    assert_eq!(t.as_str(), "access");
    assert_eq!(t.token_type(), Some("Bearer"));
}

#[test]
fn oauth2_token_debug_redacts() {
    let t = OAuth2Token::new("super-secret-tok", Some("Bearer"));
    let dbg = format!("{t:?}");
    assert!(dbg.contains("[REDACTED]"));
    assert!(!dbg.contains("super-secret-tok"));
}

#[test]
fn parse_bearer() {
    let h: AuthorizationHeader = "Bearer mytoken".parse().unwrap();
    assert_eq!(h, AuthorizationHeader::Bearer(BearerToken::new("mytoken")));
    assert_eq!(h.to_string(), "Bearer mytoken");
}

#[test]
fn parse_basic_roundtrip() {
    let h: AuthorizationHeader = "Basic dXNlcjpwYXNz".parse().unwrap();
    if let AuthorizationHeader::Basic(c) = &h {
        assert_eq!(c.username(), "user");
        assert_eq!(c.password(), "pass");
    } else {
        panic!("expected Basic");
    }
    assert_eq!(h.to_string(), "Basic dXNlcjpwYXNz");
}

#[test]
fn parse_apikey() {
    let h: AuthorizationHeader = "ApiKey abc-def".parse().unwrap();
    assert_eq!(h, AuthorizationHeader::ApiKey(ApiKeyCredentials::new("abc-def")));
    assert_eq!(h.to_string(), "ApiKey abc-def");
}

#[test]
fn parse_oauth2() {
    let h: AuthorizationHeader = "OAuth2 access123".parse().unwrap();
    assert_eq!(h.to_string(), "OAuth2 access123");
}

#[test]
fn parse_other_scheme() {
    let h: AuthorizationHeader = "NTLM TlRMTVNTUAAB".parse().unwrap();
    assert_eq!(h.to_string(), "NTLM TlRMTVNTUAAB");
    assert_eq!(h.scheme(), AuthScheme::Custom("NTLM".to_owned()));
}

#[test]
fn parse_empty_is_error() {
    assert_eq!(
        "".parse::<AuthorizationHeader>(),
        Err(ParseAuthorizationError::Empty)
    );
}

#[test]
fn parse_missing_credentials_is_error() {
    assert_eq!(
        "Bearer".parse::<AuthorizationHeader>(),
        Err(ParseAuthorizationError::MissingCredentials)
    );
}

#[test]
fn parse_invalid_base64_is_error() {
    assert!(matches!(
        "Basic !!!".parse::<AuthorizationHeader>(),
        Err(ParseAuthorizationError::InvalidBase64(_))
    ));
}

#[test]
fn parse_basic_missing_colon_is_error() {
    let encoded = base64::engine::general_purpose::STANDARD.encode(b"userpass");
    let input = format!("Basic {encoded}");
    assert_eq!(
        input.parse::<AuthorizationHeader>(),
        Err(ParseAuthorizationError::InvalidBasicFormat)
    );
}

#[test]
fn permission_valid() {
    let p = Permission::new("orders:read").unwrap();
    assert_eq!(p.as_str(), "orders:read");
}

#[test]
fn permission_empty_is_error() {
    assert_eq!(Permission::new(""), Err(ParsePermissionError::Empty));
}

#[test]
fn permission_whitespace_is_error() {
    assert_eq!(
        Permission::new("bad token"),
        Err(ParsePermissionError::ContainsWhitespace)
    );
}

#[test]
fn permission_display_and_from_str_roundtrip() {
    let p = Permission::new("admin").unwrap();
    let s = p.to_string();
    let back: Permission = s.parse().unwrap();
    assert_eq!(back, p);
}

#[test]
fn scope_parse_and_display() {
    let s: Scope = "read write openid".parse().unwrap();
    assert_eq!(s.len(), 3);
    assert!(s.contains("read"));
    assert!(s.contains("write"));
    assert!(s.contains("openid"));
}

#[test]
fn scope_empty() {
    let s: Scope = "".parse().unwrap();
    assert!(s.is_empty());
}

#[test]
fn scope_deduplicates() {
    let s: Scope = "read read write".parse().unwrap();
    assert_eq!(s.len(), 2);
}

#[test]
fn scope_is_subset_of() {
    let full: Scope = "read write admin".parse().unwrap();
    let partial: Scope = "read write".parse().unwrap();
    assert!(partial.is_subset_of(&full));
    assert!(!full.is_subset_of(&partial));
}

#[test]
fn scope_self_is_subset_of_self() {
    let s: Scope = "read write".parse().unwrap();
    assert!(s.is_subset_of(&s));
}

#[test]
fn scope_union() {
    let a: Scope = "read".parse().unwrap();
    let b: Scope = "write".parse().unwrap();
    let c = a.union(&b);
    assert!(c.contains("read"));
    assert!(c.contains("write"));
    assert_eq!(c.len(), 2);
}

#[test]
fn scope_intersection() {
    let a: Scope = "read write".parse().unwrap();
    let b: Scope = "write admin".parse().unwrap();
    let c = a.intersection(&b);
    assert_eq!(c.len(), 1);
    assert!(c.contains("write"));
    assert!(!c.contains("read"));
}

#[test]
fn scope_display_is_sorted() {
    let s: Scope = "z a m".parse().unwrap();
    assert_eq!(s.to_string(), "a m z");
}

// Own tests.

#[test]
fn authorization_header_text_round_trips() {
    for text in ["Bearer abc", "ApiKey k-1", "OAuth2 t", "Digest x=1", "Basic dXNlcjpwYXNz"] {
        let h: AuthorizationHeader = text.parse().unwrap();
        let again: AuthorizationHeader = h.to_string().parse().unwrap();
        assert_eq!(again, h);
    }
}

#[test]
fn basic_credentials_are_base64_decoded_by_the_crate() {
    // "aGVsbG86d29ybGQ=" is base64 of "hello:world".
    let h: AuthorizationHeader = "Basic aGVsbG86d29ybGQ=".parse().unwrap();
    match h {
        AuthorizationHeader::Basic(c) => {
            assert_eq!(c.username(), "hello");
            assert_eq!(c.password(), "world");
        }
        _ => panic!("expected Basic"),
    }
}

#[test]
fn basic_non_utf8_is_error() {
    let encoded = base64::engine::general_purpose::STANDARD.encode([0xffu8, b':', b'a']);
    let input = format!("Basic {encoded}");
    assert_eq!(
        input.parse::<AuthorizationHeader>(),
        Err(ParseAuthorizationError::InvalidUtf8)
    );
}

#[test]
fn permission_error_messages() {
    assert_eq!(
        ParsePermissionError::Empty.to_string(),
        "permission must not be empty"
    );
    assert_eq!(
        ParsePermissionError::ContainsWhitespace.to_string(),
        "permission must not contain whitespace"
    );
}

#[test]
fn scope_union_and_intersection_laws() {
    let a: Scope = "b a c".parse().unwrap();
    let b: Scope = "c d".parse().unwrap();
    let u = a.union(&b);
    let i = a.intersection(&b);
    assert_eq!(u.to_string(), "a b c d");
    assert_eq!(i.to_string(), "c");
    assert!(i.is_subset_of(&a) && i.is_subset_of(&b));
    assert!(a.is_subset_of(&u) && b.is_subset_of(&u));
}

#[test]
fn scope_from_permissions_sorts_and_dedups() {
    let perms = vec![
        Permission::new("write").unwrap(),
        Permission::new("read").unwrap(),
        Permission::new("write").unwrap(),
    ];
    let s = Scope::from_permissions(perms);
    assert_eq!(s.len(), 2);
    assert_eq!(s.to_string(), "read write");
    let names: Vec<&str> = s.iter().iter().map(|p| p.as_str()).collect();
    assert_eq!(names, vec!["read", "write"]);
}

#[test]
fn scope_string_conversions() {
    let s = Scope::try_from("b a".to_owned()).unwrap();
    let text: String = s.into();
    assert_eq!(text, "a b");
}

#[test]
fn scope_consecutive_whitespace_is_an_empty_token() {
    let e = "read  write".parse::<Scope>().unwrap_err();
    assert_eq!(e.to_string(), "invalid scope token: permission must not be empty");
    assert!("read\t\nwrite".parse::<Scope>().is_err());
    assert!("  read write  ".parse::<Scope>().is_ok());
    assert!(Scope::try_from("a  b".to_owned()).is_err());
}
