//! Tests of `WWW-Authenticate` parsing.

use http::HeaderValue;
use http_negotiate::challenge::{parse_www_authenticate, Challenge};

#[test]
fn test_parse_www_authenticate_negotiate() {
    let mut headers = http::HeaderMap::new();
    headers.insert(
        http::header::WWW_AUTHENTICATE,
        HeaderValue::from_static("Negotiate"),
    );

    let cs = parse_www_authenticate(&headers);
    assert_eq!(cs.negotiate, Challenge::OfferedNoToken);
}

#[test]
fn test_parse_www_authenticate_with_token() {
    let mut headers = http::HeaderMap::new();
    headers.insert(
        http::header::WWW_AUTHENTICATE,
        HeaderValue::from_static("Negotiate YIIFzgYGKwYBBQUCoIIFwjCCBb4="),
    );

    let cs = parse_www_authenticate(&headers);
    assert!(cs.negotiate != Challenge::NotOffered);
    assert!(matches!(cs.negotiate, Challenge::OfferedWithToken(_)));
}

#[test]
fn test_parse_www_authenticate_basic() {
    let mut headers = http::HeaderMap::new();
    headers.insert(
        http::header::WWW_AUTHENTICATE,
        HeaderValue::from_static("Basic realm=\"test\""),
    );

    let cs = parse_www_authenticate(&headers);
    assert!(cs.has_basic);
}

#[test]
fn test_parse_www_authenticate_multiple() {
    let mut headers = http::HeaderMap::new();
    headers.insert(
        http::header::WWW_AUTHENTICATE,
        HeaderValue::from_static("Negotiate"),
    );
    headers.append(
        http::header::WWW_AUTHENTICATE,
        HeaderValue::from_static("NTLM"),
    );
    headers.append(
        http::header::WWW_AUTHENTICATE,
        HeaderValue::from_static("Basic realm=\"test\""),
    );

    let cs = parse_www_authenticate(&headers);
    assert_eq!(cs.negotiate, Challenge::OfferedNoToken);
    assert_eq!(cs.ntlm, Challenge::OfferedNoToken);
    assert!(cs.has_basic);
}

#[test]
fn test_parse_token_decodes_to_bytes() {
    // "aGVsbG8=" is the standard base64 of "hello": the parsed challenge
    // must carry the decoded bytes, not the encoded text.
    let mut headers = http::HeaderMap::new();
    headers.insert(
        http::header::WWW_AUTHENTICATE,
        HeaderValue::from_static("Negotiate aGVsbG8="),
    );

    let cs = parse_www_authenticate(&headers);
    assert_eq!(cs.negotiate, Challenge::OfferedWithToken(b"hello".to_vec()));
}

#[test]
fn test_parse_ntlm_token() {
    let mut headers = http::HeaderMap::new();
    headers.insert(
        http::header::WWW_AUTHENTICATE,
        HeaderValue::from_static("NTLM aGk="),
    );

    let cs = parse_www_authenticate(&headers);
    assert_eq!(cs.ntlm, Challenge::OfferedWithToken(b"hi".to_vec()));
    assert_eq!(cs.negotiate, Challenge::NotOffered);
    assert!(!cs.has_basic);
}

#[test]
fn test_parse_malformed_token_is_bare_offer() {
    // A token that is not valid base64 counts as an offer without a token.
    let mut headers = http::HeaderMap::new();
    headers.insert(
        http::header::WWW_AUTHENTICATE,
        HeaderValue::from_static("Negotiate !!!not-base64!!!"),
    );

    let cs = parse_www_authenticate(&headers);
    assert_eq!(cs.negotiate, Challenge::OfferedNoToken);
}

#[test]
fn test_parse_case_insensitive() {
    let mut headers = http::HeaderMap::new();
    headers.insert(
        http::header::WWW_AUTHENTICATE,
        HeaderValue::from_static("  negotiate  "),
    );
    headers.append(
        http::header::WWW_AUTHENTICATE,
        HeaderValue::from_static("ntlm"),
    );
    headers.append(
        http::header::WWW_AUTHENTICATE,
        HeaderValue::from_static("BASIC realm=\"x\""),
    );

    let cs = parse_www_authenticate(&headers);
    assert_eq!(cs.negotiate, Challenge::OfferedNoToken);
    assert_eq!(cs.ntlm, Challenge::OfferedNoToken);
    assert!(cs.has_basic);
}

#[test]
fn test_parse_first_occurrence_wins() {
    // Two Negotiate headers with different tokens: the first is kept.
    let mut headers = http::HeaderMap::new();
    headers.insert(
        http::header::WWW_AUTHENTICATE,
        HeaderValue::from_static("Negotiate aGVsbG8="),
    );
    headers.append(
        http::header::WWW_AUTHENTICATE,
        HeaderValue::from_static("Negotiate aGk="),
    );

    let cs = parse_www_authenticate(&headers);
    assert_eq!(cs.negotiate, Challenge::OfferedWithToken(b"hello".to_vec()));
}

#[test]
fn test_parse_order_independent_merge() {
    // The same three challenges in two different header orders parse to the
    // same set.
    let mut a = http::HeaderMap::new();
    a.insert(
        http::header::WWW_AUTHENTICATE,
        HeaderValue::from_static("Negotiate"),
    );
    a.append(http::header::WWW_AUTHENTICATE, HeaderValue::from_static("NTLM"));
    a.append(
        http::header::WWW_AUTHENTICATE,
        HeaderValue::from_static("Basic realm=\"x\""),
    );

    let mut b = http::HeaderMap::new();
    b.insert(
        http::header::WWW_AUTHENTICATE,
        HeaderValue::from_static("Basic realm=\"x\""),
    );
    b.append(http::header::WWW_AUTHENTICATE, HeaderValue::from_static("NTLM"));
    b.append(
        http::header::WWW_AUTHENTICATE,
        HeaderValue::from_static("Negotiate"),
    );

    assert_eq!(parse_www_authenticate(&a), parse_www_authenticate(&b));
    assert_eq!(parse_www_authenticate(&a).negotiate, Challenge::OfferedNoToken);
    assert_eq!(parse_www_authenticate(&a).ntlm, Challenge::OfferedNoToken);
    assert!(parse_www_authenticate(&a).has_basic);
}

#[test]
fn test_parse_only_basic_leaves_schemes_absent() {
    let mut headers = http::HeaderMap::new();
    headers.insert(
        http::header::WWW_AUTHENTICATE,
        HeaderValue::from_static("Basic realm=\"test\""),
    );

    let cs = parse_www_authenticate(&headers);
    assert!(cs.has_basic);
    assert_eq!(cs.negotiate, Challenge::NotOffered);
    assert_eq!(cs.ntlm, Challenge::NotOffered);
}

#[test]
fn test_parse_unreadable_value_skipped() {
    // A value with a byte outside the visible-ASCII range cannot be read as
    // text and is skipped, as the header machinery's `to_str` rejects it.
    let mut headers = http::HeaderMap::new();
    headers.insert(
        http::header::WWW_AUTHENTICATE,
        HeaderValue::from_bytes(b"Negotiate \xff").unwrap(),
    );

    let cs = parse_www_authenticate(&headers);
    assert_eq!(cs.negotiate, Challenge::NotOffered);
}

#[test]
fn test_parse_no_headers_offers_nothing() {
    let headers = http::HeaderMap::new();
    let cs = parse_www_authenticate(&headers);
    assert_eq!(cs.negotiate, Challenge::NotOffered);
    assert_eq!(cs.ntlm, Challenge::NotOffered);
    assert!(!cs.has_basic);
}

#[test]
fn test_parse_unknown_scheme_ignored() {
    let mut headers = http::HeaderMap::new();
    headers.insert(
        http::header::WWW_AUTHENTICATE,
        HeaderValue::from_static("Bearer abc"),
    );

    let cs = parse_www_authenticate(&headers);
    assert_eq!(cs.negotiate, Challenge::NotOffered);
    assert_eq!(cs.ntlm, Challenge::NotOffered);
    assert!(!cs.has_basic);
}
