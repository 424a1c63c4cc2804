//! Tests of the provider-facing helpers: wide strings and credential
//! splitting.

use http_negotiate::credentials::{Credentials, NegotiateConfig};
use http_negotiate::provider::{split_user_domain, to_wide};

#[test]
fn test_to_wide() {
    let wide = to_wide("Negotiate");
    assert_eq!(wide.last(), Some(&0)); // null-terminated
    assert_eq!(wide.len(), 10); // 9 chars + null
}

#[test]
fn test_to_wide_exact_units() {
    assert_eq!(to_wide("A"), vec![65, 0]);
    // U+10348 is above the basic plane and becomes a surrogate pair.
    assert_eq!(to_wide("\u{10348}"), vec![0xD800, 0xDF48, 0]);
}

#[test]
fn test_split_user_domain_at_form() {
    let (user, domain) = split_user_domain("user@DOMAIN");
    assert_eq!(user, "user");
    assert_eq!(domain, "DOMAIN");
}

#[test]
fn test_split_user_domain_backslash_form() {
    let (user, domain) = split_user_domain("DOMAIN\\user");
    assert_eq!(user, "user");
    assert_eq!(domain, "DOMAIN");
}

#[test]
fn test_split_user_domain_plain() {
    let (user, domain) = split_user_domain("justuser");
    assert_eq!(user, "justuser");
    assert_eq!(domain, "");
}

#[test]
fn test_split_user_domain_at_precedes_backslash() {
    let (user, domain) = split_user_domain("a@b\\c");
    assert_eq!(user, "a");
    assert_eq!(domain, "b\\c");
}

#[test]
fn test_uses_ambient_identity() {
    assert!(Credentials::CurrentUser.uses_ambient_identity());
    assert!(Credentials::Explicit { username: String::new(), password: String::new() }
        .uses_ambient_identity());
    assert!(!Credentials::Explicit {
        username: "u".to_string(),
        password: "p".to_string(),
    }
    .uses_ambient_identity());
}

#[test]
fn test_negotiate_config_constructors() {
    let c = NegotiateConfig::current_user();
    assert!(matches!(c.credentials, Credentials::CurrentUser));

    let c = NegotiateConfig::with_credentials("u".to_string(), "p".to_string());
    match c.credentials {
        Credentials::Explicit { username, password } => {
            assert_eq!(username, "u");
            assert_eq!(password, "p");
        }
        Credentials::CurrentUser => panic!("expected explicit credentials"),
    }
}
