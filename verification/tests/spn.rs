//! Tests of SPN derivation.

use http_negotiate::spn::{derive_spn, spn_from_host, SpnError};

#[test]
fn test_derive_spn() {
    let url = url::Url::parse("http://example.com/path").unwrap();
    assert_eq!(derive_spn(&url).unwrap(), "HTTP/example.com");

    let url = url::Url::parse("https://server.corp.com:8080/api").unwrap();
    assert_eq!(derive_spn(&url).unwrap(), "HTTP/server.corp.com");
}

#[test]
fn test_derive_spn_no_host() {
    let url = url::Url::parse("unix:/run/foo.socket").unwrap();
    assert_eq!(derive_spn(&url), Err(SpnError::NoHost));
}

#[test]
fn test_spn_from_host() {
    assert_eq!(spn_from_host(Some("proxy.example.com")).unwrap(), "HTTP/proxy.example.com");
    assert_eq!(spn_from_host(None), Err(SpnError::NoHost));
}
