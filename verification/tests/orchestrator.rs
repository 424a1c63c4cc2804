//! Scenario tests driving the negotiation state machine.

use base64::Engine;
use http_negotiate::challenge::{parse_www_authenticate, Challenge};
use http_negotiate::credentials::Credentials;
use http_negotiate::error::AuthError;
use http_negotiate::orchestrator::{
    basic_authorization_value, scheme_authorization_value, Action, Event, Orchestrator, Scheme,
    MAX_ROUNDTRIPS,
};

fn explicit(u: &str, p: &str) -> Credentials {
    Credentials::Explicit { username: u.to_string(), password: p.to_string() }
}

fn response(status: u16, values: &[&[u8]]) -> Event {
    Event::Response {
        status,
        www_authenticate: values.iter().map(|v| v.to_vec()).collect(),
    }
}

#[test]
fn test_first_response_ok_returned_directly() {
    // A 200 to the very first unauthenticated request ends the call with
    // that response; no further request is asked for.
    let mut o = Orchestrator::new(Credentials::CurrentUser, Some("example.com".to_string()));
    assert_eq!(o.initial_action(), Action::CloneTemplate);
    assert_eq!(o.step(Event::TemplateCloned), Action::SendInitial);
    assert_eq!(o.step(response(200, &[])), Action::ReturnResponse);
    assert!(o.is_finished());
    assert!(o.attempt_failures().is_empty());
}

#[test]
fn test_non_401_returned_verbatim() {
    let mut o = Orchestrator::new(explicit("u", "p"), Some("example.com".to_string()));
    o.step(Event::TemplateCloned);
    assert_eq!(o.step(response(302, &[b"Negotiate"])), Action::ReturnResponse);
    assert!(o.is_finished());
}

#[test]
fn test_not_replayable_fails_before_any_request() {
    // A one-shot body cannot be cloned: the call fails at once, before any
    // request goes out.
    let mut o = Orchestrator::new(explicit("u", "p"), Some("example.com".to_string()));
    assert_eq!(o.initial_action(), Action::CloneTemplate);
    assert_eq!(o.step(Event::CloneFailed), Action::Fail(AuthError::NotReplayable));
    assert!(o.is_finished());
}

#[test]
fn test_spn_derivation_failure() {
    let mut o = Orchestrator::new(Credentials::CurrentUser, None);
    o.step(Event::TemplateCloned);
    assert_eq!(
        o.step(response(401, &[b"Negotiate"])),
        Action::Fail(AuthError::SpnDerivationFailed)
    );
    assert!(o.is_finished());
}

#[test]
fn test_basic_fallback_single_request() {
    // 401 offering only Basic, explicit credentials "u"/"p": exactly one
    // more request, with the exact header value `Basic dTpw`.
    let mut o = Orchestrator::new(explicit("u", "p"), Some("example.com".to_string()));
    o.step(Event::TemplateCloned);
    let a = o.step(response(401, &[b"Basic realm=\"test\""]));
    assert_eq!(
        a,
        Action::SendAuthorized { authorization: "Basic dTpw".to_string() }
    );
    assert_eq!(o.step(response(200, &[])), Action::ReturnResponse);
    assert!(o.is_finished());
}

#[test]
fn test_basic_failure_returned_verbatim() {
    // Basic never loops: even another 401 is handed back as the outcome.
    let mut o = Orchestrator::new(explicit("u", "wrong"), Some("example.com".to_string()));
    o.step(Event::TemplateCloned);
    o.step(response(401, &[b"Basic realm=\"test\""]));
    assert_eq!(
        o.step(response(401, &[b"Basic realm=\"test\""])),
        Action::ReturnResponse
    );
    assert!(o.is_finished());
}

#[test]
fn test_current_user_never_sends_basic() {
    // Ambient credentials and a server offering only Basic: the call fails
    // with AllMethodsFailed and no Authorization header is ever sent.
    let mut o = Orchestrator::new(Credentials::CurrentUser, Some("example.com".to_string()));
    o.step(Event::TemplateCloned);
    let a = o.step(response(401, &[b"Basic realm=\"test\""]));
    assert_eq!(a, Action::Fail(AuthError::AllMethodsFailed));
    assert!(o.is_finished());
}

#[test]
fn test_negotiate_two_round_handshake() {
    // 401 with a Negotiate challenge, one continuation with a fresh token,
    // then 200: three requests in all (initial + two rounds).
    let mut o = Orchestrator::new(Credentials::CurrentUser, Some("example.com".to_string()));
    let mut requests = 0;
    assert_eq!(o.step(Event::TemplateCloned), Action::SendInitial);
    requests += 1;
    let a = o.step(response(401, &[b"Negotiate"]));
    assert_eq!(a, Action::AcquireCredentials { scheme: Scheme::Negotiate });
    let a = o.step(Event::CredentialsAcquired);
    assert_eq!(
        a,
        Action::InitializeContext {
            scheme: Scheme::Negotiate,
            spn: "HTTP/example.com".to_string(),
            input_token: None,
        }
    );
    let a = o.step(Event::ContextToken { token: b"tok1".to_vec(), complete: false });
    let expected = base64::engine::general_purpose::STANDARD.encode(b"tok1");
    assert_eq!(
        a,
        Action::SendAuthorized { authorization: format!("Negotiate {}", expected) }
    );
    requests += 1;

    let continuation = format!(
        "Negotiate {}",
        base64::engine::general_purpose::STANDARD.encode(b"tok2")
    );
    let a = o.step(response(401, &[continuation.as_bytes()]));
    assert_eq!(
        a,
        Action::InitializeContext {
            scheme: Scheme::Negotiate,
            spn: "HTTP/example.com".to_string(),
            input_token: Some(b"tok2".to_vec()),
        }
    );
    let a = o.step(Event::ContextToken { token: b"tok3".to_vec(), complete: true });
    assert!(matches!(a, Action::SendAuthorized { .. }));
    requests += 1;

    assert_eq!(o.step(response(200, &[])), Action::ReturnResponse);
    assert!(o.is_finished());
    assert_eq!(requests, 3);
    assert!(o.attempt_failures().is_empty());
}

#[test]
fn test_round_limit_stops_after_five_requests() {
    // A server that keeps answering 401 with fresh tokens: the scheme sends
    // exactly MAX_ROUNDTRIPS requests, then fails with TooManyRoundtrips
    // and, with nothing to fall back to, the call ends.
    let mut o = Orchestrator::new(Credentials::CurrentUser, Some("example.com".to_string()));
    o.step(Event::TemplateCloned);
    let a = o.step(response(401, &[b"Negotiate"]));
    assert_eq!(a, Action::AcquireCredentials { scheme: Scheme::Negotiate });
    let mut a = o.step(Event::CredentialsAcquired);
    let mut scheme_requests = 0;
    loop {
        match a {
            Action::InitializeContext { scheme, .. } => {
                assert_eq!(scheme, Scheme::Negotiate);
                a = o.step(Event::ContextToken { token: b"out".to_vec(), complete: false });
            }
            Action::SendAuthorized { .. } => {
                scheme_requests += 1;
                let continuation = format!(
                    "Negotiate {}",
                    base64::engine::general_purpose::STANDARD.encode(b"challenge")
                );
                a = o.step(response(401, &[continuation.as_bytes()]));
            }
            other => {
                a = other;
                break;
            }
        }
        assert!(scheme_requests <= MAX_ROUNDTRIPS);
    }
    assert_eq!(scheme_requests, MAX_ROUNDTRIPS);
    assert_eq!(a, Action::Fail(AuthError::AllMethodsFailed));
    assert!(o.is_finished());
    assert_eq!(o.attempt_failures(), &vec![AuthError::TooManyRoundtrips]);
}

#[test]
fn test_missing_challenge_token_fails_attempt() {
    // A continued 401 without a fresh token is a protocol violation: the
    // attempt ends and is recorded.
    let mut o = Orchestrator::new(Credentials::CurrentUser, Some("example.com".to_string()));
    o.step(Event::TemplateCloned);
    o.step(response(401, &[b"Negotiate"]));
    o.step(Event::CredentialsAcquired);
    o.step(Event::ContextToken { token: b"out".to_vec(), complete: false });
    let a = o.step(response(401, &[b"Negotiate"]));
    assert_eq!(a, Action::Fail(AuthError::AllMethodsFailed));
    assert_eq!(o.attempt_failures(), &vec![AuthError::MissingChallengeToken]);
}

#[test]
fn test_provider_errors_fall_through_schemes() {
    // Negotiate and NTLM both offered; the provider fails each acquire in
    // turn; then, with explicit credentials and Basic offered, the Basic
    // fallback is used.
    let mut o = Orchestrator::new(explicit("u", "p"), Some("example.com".to_string()));
    o.step(Event::TemplateCloned);
    let a = o.step(response(401, &[b"Negotiate", b"NTLM", b"Basic realm=\"x\""]));
    assert_eq!(a, Action::AcquireCredentials { scheme: Scheme::Negotiate });
    let a = o.step(Event::AcquireFailed(5));
    assert_eq!(a, Action::AcquireCredentials { scheme: Scheme::Ntlm });
    let a = o.step(Event::AcquireFailed(7));
    assert_eq!(
        a,
        Action::SendAuthorized { authorization: "Basic dTpw".to_string() }
    );
    assert_eq!(
        o.attempt_failures(),
        &vec![AuthError::ProviderError(5), AuthError::ProviderError(7)]
    );
    assert_eq!(o.step(response(200, &[])), Action::ReturnResponse);
}

#[test]
fn test_initialize_failure_falls_back() {
    let mut o = Orchestrator::new(Credentials::CurrentUser, Some("example.com".to_string()));
    o.step(Event::TemplateCloned);
    o.step(response(401, &[b"Negotiate", b"NTLM"]));
    o.step(Event::CredentialsAcquired);
    let a = o.step(Event::InitializeFailed(-3));
    assert_eq!(a, Action::AcquireCredentials { scheme: Scheme::Ntlm });
    assert_eq!(o.attempt_failures(), &vec![AuthError::ProviderError(-3)]);
}

#[test]
fn test_ntlm_attempted_when_negotiate_absent() {
    let mut o = Orchestrator::new(Credentials::CurrentUser, Some("example.com".to_string()));
    o.step(Event::TemplateCloned);
    let a = o.step(response(401, &[b"NTLM"]));
    assert_eq!(a, Action::AcquireCredentials { scheme: Scheme::Ntlm });
    let a = o.step(Event::CredentialsAcquired);
    assert_eq!(
        a,
        Action::InitializeContext {
            scheme: Scheme::Ntlm,
            spn: "HTTP/example.com".to_string(),
            input_token: None,
        }
    );
    let a = o.step(Event::ContextToken { token: b"nt".to_vec(), complete: false });
    let expected = base64::engine::general_purpose::STANDARD.encode(b"nt");
    assert_eq!(
        a,
        Action::SendAuthorized { authorization: format!("NTLM {}", expected) }
    );
}

#[test]
fn test_clone_failure_mid_attempt_is_fatal() {
    let mut o = Orchestrator::new(Credentials::CurrentUser, Some("example.com".to_string()));
    o.step(Event::TemplateCloned);
    o.step(response(401, &[b"Negotiate"]));
    o.step(Event::CredentialsAcquired);
    o.step(Event::ContextToken { token: b"t".to_vec(), complete: false });
    assert_eq!(o.step(Event::CloneFailed), Action::Fail(AuthError::NotReplayable));
    assert!(o.is_finished());
}

#[test]
fn test_rejected_authorization_recorded() {
    // The header machinery refusing the Basic value ends the call with
    // AllMethodsFailed and records the malformed header.
    let mut o = Orchestrator::new(explicit("u", "p"), Some("example.com".to_string()));
    o.step(Event::TemplateCloned);
    o.step(response(401, &[b"Basic realm=\"x\""]));
    assert_eq!(
        o.step(Event::AuthorizationRejected),
        Action::Fail(AuthError::AllMethodsFailed)
    );
    assert_eq!(
        o.attempt_failures(),
        &vec![AuthError::MalformedAuthorizationHeader]
    );
}

#[test]
fn test_other_status_mid_attempt_returned() {
    // A non-401, non-2xx response during a handshake is returned as-is.
    let mut o = Orchestrator::new(Credentials::CurrentUser, Some("example.com".to_string()));
    o.step(Event::TemplateCloned);
    o.step(response(401, &[b"Negotiate"]));
    o.step(Event::CredentialsAcquired);
    o.step(Event::ContextToken { token: b"t".to_vec(), complete: false });
    assert_eq!(o.step(response(403, &[])), Action::ReturnResponse);
    assert!(o.is_finished());
}

#[test]
fn test_scheme_labels() {
    assert_eq!(Scheme::Negotiate.label(), "Negotiate");
    assert_eq!(Scheme::Ntlm.label(), "NTLM");
}

#[test]
fn test_authorization_values_match_base64_engine() {
    // The library's header values agree with the base64 crate used
    // directly.
    let token: &[u8] = &[1, 2, 254, 0, 77];
    let expected = base64::engine::general_purpose::STANDARD.encode(token);
    assert_eq!(
        scheme_authorization_value(Scheme::Negotiate, token),
        format!("Negotiate {}", expected)
    );
    assert_eq!(basic_authorization_value("u", "p"), "Basic dTpw");
    assert_eq!(
        basic_authorization_value("testuser", "testpass"),
        format!(
            "Basic {}",
            base64::engine::general_purpose::STANDARD.encode(b"testuser:testpass")
        )
    );
}

#[test]
fn test_built_header_parses_back() {
    // A header value the library builds, offered back as a challenge,
    // parses to the very token it carries.
    let token: &[u8] = &[9, 8, 7, 255, 5];
    let auth = scheme_authorization_value(Scheme::Ntlm, token);
    let mut headers = http::HeaderMap::new();
    headers.insert(
        http::header::WWW_AUTHENTICATE,
        http::HeaderValue::from_str(&auth).unwrap(),
    );
    let cs = parse_www_authenticate(&headers);
    assert_eq!(cs.ntlm, Challenge::OfferedWithToken(token.to_vec()));
}

#[test]
fn test_base64_round_trip() {
    // Encoding then decoding a token through the standard base64 engine
    // yields the original bytes, including through the library's header
    // construction.
    let token: &[u8] = &[0, 1, 2, 250, 251, 252];
    let auth = scheme_authorization_value(Scheme::Negotiate, token);
    let suffix = auth.strip_prefix("Negotiate ").unwrap();
    let decoded = base64::engine::general_purpose::STANDARD
        .decode(suffix.as_bytes())
        .unwrap();
    assert_eq!(decoded, token);
}
