//! Availability of the Negotiate scheme in this build.

use http_negotiate::challenge::{parse_www_authenticate, Challenge};
use http_negotiate::orchestrator::Scheme;

#[test]
fn test_negotiate_feature_enabled() {
    // The negotiate scheme is supported: its package name is exposed and a
    // bare challenge for it is recognized.
    assert!(Scheme::Negotiate.label().eq_ignore_ascii_case("negotiate"));
    let mut headers = http::HeaderMap::new();
    headers.insert(
        http::header::WWW_AUTHENTICATE,
        http::HeaderValue::from_static("Negotiate"),
    );
    assert_eq!(parse_www_authenticate(&headers).negotiate, Challenge::OfferedNoToken);
}
