//! The negotiation orchestrator: a state machine driving the bounded,
//! multi-round authentication handshake.
//!
//! The orchestrator decides; the caller performs. Each call to
//! [`Orchestrator::step`] consumes one event (a response, a provider
//! outcome, a clone outcome) and yields the next [`Action`]: what to send,
//! what to ask the provider, or how the call ends. The transition relation
//! is captured exactly by [`step_spec`].
//!
//! Scheme priority is fixed: `Negotiate`, then `NTLM`, then — only with
//! explicit credentials — `Basic`. Each handshake is bounded by
//! [`MAX_ROUNDTRIPS`]; per-attempt failures are recorded and answered by
//! falling back to the next candidate scheme.

use vstd::prelude::*;
use vstd::string::StringExecFns;
use vstd::utf8::is_ascii_chars;
use crate::credentials::{Credentials, CredentialsView};
use crate::challenge::{
    byte_is_visible, byte_is_ws, lemma_single_token_value, lower_bytes, negotiate_kw, ntlm_kw,
    offered_from_token, Challenge, ChallengeSet, ChallengeSetView, ChallengeView,
    parse_challenges, parse_challenge_values, spec_no_challenges,
};
use crate::encoding::{b64_decoding, b64_encode, b64_encoding, is_b64_text_char};
use crate::error::AuthError;
use crate::spn::{spec_spn, spn_from_host};

verus! {

/// A handshake may take at most this many request/response rounds within
/// one scheme; exceeding it fails the attempt with
/// [`AuthError::TooManyRoundtrips`].
pub const MAX_ROUNDTRIPS: usize = 5;

/// A machine limit: explicit usernames and passwords longer than this are
/// not accepted, so that the Basic payload's encoding cannot overflow. The
/// figure is what overflow prevention needs: the colon-joined pair takes at
/// most four UTF-8 bytes per character, and the base64 encoder admits up to
/// a quarter of the address space.
pub const MAX_CREDENTIAL_LEN: usize = usize::MAX / 64;

/// A machine limit: provider tokens longer than this are not accepted, so
/// that their base64 encoding cannot overflow.
pub const MAX_TOKEN_LEN: usize = 0x0FFF_FFFF;

/// The two handshake schemes, in priority order.
#[derive(Clone, Copy, Debug, PartialEq, Eq, Structural)]
pub enum Scheme {
    Negotiate,
    Ntlm,
}

/// The scheme's name as it appears on the wire.
pub open spec fn scheme_label(s: Scheme) -> Seq<char> {
    match s {
        Scheme::Negotiate => "Negotiate"@,
        Scheme::Ntlm => "NTLM"@,
    }
}

impl Scheme {
    /// The scheme's name as it appears on the wire, and as the provider's
    /// security-package name.
    pub fn label(&self) -> (r: &'static str)
        ensures
            r@ == scheme_label(*self),
    {
        match self {
            Scheme::Negotiate => "Negotiate",
            Scheme::Ntlm => "NTLM",
        }
    }
}

/// What the caller reports back to the orchestrator.
#[derive(Clone, Debug, PartialEq, Eq)]
pub enum Event {
    /// The original request was duplicated; the copy is kept as the replay
    /// template.
    TemplateCloned,
    /// A request could not be duplicated.
    CloneFailed,
    /// A constructed `Authorization` value was rejected by the header
    /// machinery.
    AuthorizationRejected,
    /// A response arrived: its status code and the byte strings of its
    /// `WWW-Authenticate` values.
    Response { status: u16, www_authenticate: Vec<Vec<u8>> },
    /// The provider produced a credential handle for the running scheme.
    CredentialsAcquired,
    /// The provider could not produce a credential handle.
    AcquireFailed(i32),
    /// The provider advanced the handshake and produced a token.
    ContextToken { token: Vec<u8>, complete: bool },
    /// The provider could not advance the handshake.
    InitializeFailed(i32),
}

/// Spec-level image of [`Event`].
#[verifier::ext_equal]
pub enum EventView {
    TemplateCloned,
    CloneFailed,
    AuthorizationRejected,
    Response { status: u16, www_authenticate: Seq<Seq<u8>> },
    CredentialsAcquired,
    AcquireFailed(i32),
    ContextToken { token: Seq<u8>, complete: bool },
    InitializeFailed(i32),
}

impl View for Event {
    type V = EventView;

    open spec fn view(&self) -> EventView {
        match self {
            Event::TemplateCloned => EventView::TemplateCloned,
            Event::CloneFailed => EventView::CloneFailed,
            Event::AuthorizationRejected => EventView::AuthorizationRejected,
            Event::Response { status, www_authenticate } => EventView::Response {
                status: *status,
                www_authenticate: www_authenticate.deep_view(),
            },
            Event::CredentialsAcquired => EventView::CredentialsAcquired,
            Event::AcquireFailed(code) => EventView::AcquireFailed(*code),
            Event::ContextToken { token, complete } => EventView::ContextToken {
                token: token@,
                complete: *complete,
            },
            Event::InitializeFailed(code) => EventView::InitializeFailed(*code),
        }
    }
}

/// What the orchestrator asks the caller to do next.
#[derive(Clone, Debug, PartialEq, Eq)]
pub enum Action {
    /// Duplicate the original request and keep the copy as the replay
    /// template; report `TemplateCloned` or `CloneFailed`.
    CloneTemplate,
    /// Send the original request, unauthenticated; report the response.
    SendInitial,
    /// Ask the provider for a credential handle for this scheme's package;
    /// report `CredentialsAcquired` or `AcquireFailed`.
    AcquireCredentials { scheme: Scheme },
    /// Ask the provider to advance the handshake. `input_token` is the
    /// server's latest challenge token, absent on a scheme's first round;
    /// report `ContextToken` or `InitializeFailed`.
    InitializeContext { scheme: Scheme, spn: String, input_token: Option<Vec<u8>> },
    /// Duplicate the template, set its `Authorization` header to this value,
    /// and send it; report the response, `CloneFailed`, or
    /// `AuthorizationRejected`.
    SendAuthorized { authorization: String },
    /// Terminal: hand the response just received to the caller, unchanged.
    ReturnResponse,
    /// Terminal: the call failed.
    Fail(AuthError),
}

/// Spec-level image of [`Action`].
#[verifier::ext_equal]
pub enum ActionView {
    CloneTemplate,
    SendInitial,
    AcquireCredentials { scheme: Scheme },
    InitializeContext { scheme: Scheme, spn: Seq<char>, input_token: Option<Seq<u8>> },
    SendAuthorized { authorization: Seq<char> },
    ReturnResponse,
    Fail(AuthError),
}

impl View for Action {
    type V = ActionView;

    open spec fn view(&self) -> ActionView {
        match self {
            Action::CloneTemplate => ActionView::CloneTemplate,
            Action::SendInitial => ActionView::SendInitial,
            Action::AcquireCredentials { scheme } => ActionView::AcquireCredentials {
                scheme: *scheme,
            },
            Action::InitializeContext { scheme, spn, input_token } => {
                ActionView::InitializeContext {
                    scheme: *scheme,
                    spn: spn@,
                    input_token: input_token.deep_view(),
                }
            },
            Action::SendAuthorized { authorization } => ActionView::SendAuthorized {
                authorization: authorization@,
            },
            Action::ReturnResponse => ActionView::ReturnResponse,
            Action::Fail(e) => ActionView::Fail(*e),
        }
    }
}

/// Where the orchestration stands between two steps.
#[derive(Clone, Copy, Debug, PartialEq, Eq, Structural)]
pub enum Phase {
    /// Waiting for the initial duplication of the request.
    AwaitClone,
    /// The unauthenticated request is in flight.
    AwaitInitialResponse,
    /// Waiting for the provider's credential handle.
    AwaitAcquire { scheme: Scheme },
    /// Waiting for the provider's next handshake token.
    AwaitToken { scheme: Scheme, round: usize },
    /// A scheme's authenticated request is in flight; `round` counts the
    /// completed continuations.
    AwaitAuthResponse { scheme: Scheme, round: usize },
    /// The single Basic request is in flight.
    AwaitBasicResponse,
    /// Terminal: a response was handed to the caller.
    Returned,
    /// Terminal: the call failed.
    Failed,
}

/// Spec-level image of [`Orchestrator`].
#[verifier::ext_equal]
pub struct OrchestratorView {
    pub credentials: CredentialsView,
    pub host: Option<Seq<char>>,
    pub challenges: ChallengeSetView,
    pub spn: Seq<char>,
    pub failures: Seq<AuthError>,
    pub phase: Phase,
}

/// The negotiation orchestrator.
///
/// Construct it with the credentials and the request target's host, then
/// feed it events with [`step`](Orchestrator::step), performing each
/// returned [`Action`], until [`is_finished`](Orchestrator::is_finished).
pub struct Orchestrator {
    credentials: Credentials,
    host: Option<String>,
    challenges: ChallengeSet,
    spn: String,
    failures: Vec<AuthError>,
    phase: Phase,
}

impl View for Orchestrator {
    type V = OrchestratorView;

    closed spec fn view(&self) -> OrchestratorView {
        OrchestratorView {
            credentials: self.credentials@,
            host: self.host.deep_view(),
            challenges: self.challenges@,
            spn: self.spn@,
            failures: self.failures@,
            phase: self.phase,
        }
    }
}

// --- the transition relation, spec level ----------------------------------

/// The freshly constructed orchestrator: nothing known yet, clone pending.
pub open spec fn spec_new(credentials: CredentialsView, host: Option<Seq<char>>) -> OrchestratorView {
    OrchestratorView {
        credentials,
        host,
        challenges: spec_no_challenges(),
        spn: Seq::empty(),
        failures: Seq::empty(),
        phase: Phase::AwaitClone,
    }
}

/// Which events answer which pending action.
pub open spec fn event_fits(phase: Phase, ev: EventView) -> bool {
    match phase {
        Phase::AwaitClone => ev is TemplateCloned || ev is CloneFailed,
        Phase::AwaitInitialResponse => ev is Response,
        Phase::AwaitAcquire { .. } => ev is CredentialsAcquired || ev is AcquireFailed,
        Phase::AwaitToken { .. } => ev is ContextToken || ev is InitializeFailed,
        Phase::AwaitAuthResponse { .. } => ev is Response || ev is CloneFailed
            || ev is AuthorizationRejected,
        Phase::AwaitBasicResponse => ev is Response || ev is CloneFailed
            || ev is AuthorizationRejected,
        Phase::Returned => false,
        Phase::Failed => false,
    }
}

/// The orchestrator's internal invariant.
pub open spec fn spec_inv(o: OrchestratorView) -> bool {
    &&& (o.credentials matches CredentialsView::Explicit { username, password } ==> username.len()
        <= MAX_CREDENTIAL_LEN && password.len() <= MAX_CREDENTIAL_LEN)
    &&& (o.phase matches Phase::AwaitToken { round, .. } ==> round < MAX_ROUNDTRIPS)
    &&& (o.phase matches Phase::AwaitAuthResponse { round, .. } ==> round < MAX_ROUNDTRIPS)
    &&& (o.phase is AwaitBasicResponse ==> o.credentials is Explicit)
}

/// The text placed before the colon-joined credentials of a Basic header.
pub open spec fn basic_credentials_text(username: Seq<char>, password: Seq<char>) -> Seq<char> {
    username + ":"@ + password
}

/// The full `Authorization` value of a Basic attempt.
pub open spec fn basic_authorization(username: Seq<char>, password: Seq<char>) -> Seq<char> {
    "Basic "@ + b64_encoding(vstd::utf8::encode_utf8(basic_credentials_text(username, password)))
}

/// The full `Authorization` value of a handshake round.
pub open spec fn scheme_authorization(s: Scheme, token: Seq<u8>) -> Seq<char> {
    scheme_label(s) + " "@ + b64_encoding(token)
}

/// The challenge state the set holds for one scheme.
pub open spec fn scheme_challenge(cs: ChallengeSetView, s: Scheme) -> ChallengeView {
    match s {
        Scheme::Negotiate => cs.negotiate,
        Scheme::Ntlm => cs.ntlm,
    }
}

pub open spec fn is_offered(c: ChallengeView) -> bool {
    !(c is NotOffered)
}

/// Records a per-attempt failure.
pub open spec fn spec_record(o: OrchestratorView, e: AuthError) -> OrchestratorView {
    OrchestratorView { failures: o.failures.push(e), ..o }
}

/// Starts a handshake attempt for one scheme.
pub open spec fn spec_enter_attempt(o: OrchestratorView, s: Scheme) -> (
    OrchestratorView,
    ActionView,
) {
    (
        OrchestratorView { phase: Phase::AwaitAcquire { scheme: s }, ..o },
        ActionView::AcquireCredentials { scheme: s },
    )
}

/// The last resort: a single Basic attempt when the server offers it and
/// the credentials are explicit, otherwise the terminal failure.
pub open spec fn spec_basic_or_fail(o: OrchestratorView) -> (OrchestratorView, ActionView) {
    match o.credentials {
        CredentialsView::Explicit { username, password } => {
            if o.challenges.has_basic {
                (
                    OrchestratorView { phase: Phase::AwaitBasicResponse, ..o },
                    ActionView::SendAuthorized {
                        authorization: basic_authorization(username, password),
                    },
                )
            } else {
                (
                    OrchestratorView { phase: Phase::Failed, ..o },
                    ActionView::Fail(AuthError::AllMethodsFailed),
                )
            }
        },
        CredentialsView::CurrentUser => (
            OrchestratorView { phase: Phase::Failed, ..o },
            ActionView::Fail(AuthError::AllMethodsFailed),
        ),
    }
}

/// The next candidate after `after` (`None`: nothing tried yet), in the
/// fixed priority order Negotiate, NTLM, Basic.
pub open spec fn spec_next_candidate(o: OrchestratorView, after: Option<Scheme>) -> (
    OrchestratorView,
    ActionView,
) {
    if after is None && is_offered(o.challenges.negotiate) {
        spec_enter_attempt(o, Scheme::Negotiate)
    } else if (after is None || after == Some(Scheme::Negotiate)) && is_offered(o.challenges.ntlm) {
        spec_enter_attempt(o, Scheme::Ntlm)
    } else {
        spec_basic_or_fail(o)
    }
}

/// One step of an in-flight scheme attempt, on a response.
pub open spec fn spec_attempt_response(
    o: OrchestratorView,
    s: Scheme,
    round: usize,
    status: u16,
    values: Seq<Seq<u8>>,
) -> (OrchestratorView, ActionView) {
    if status == 401 {
        match scheme_challenge(parse_challenges(values), s) {
            ChallengeView::OfferedWithToken(tok) => {
                if round + 1 >= MAX_ROUNDTRIPS {
                    spec_next_candidate(spec_record(o, AuthError::TooManyRoundtrips), Some(s))
                } else {
                    (
                        OrchestratorView {
                            phase: Phase::AwaitToken { scheme: s, round: (round + 1) as usize },
                            ..o
                        },
                        ActionView::InitializeContext {
                            scheme: s,
                            spn: o.spn,
                            input_token: Some(tok),
                        },
                    )
                }
            },
            _ => spec_next_candidate(spec_record(o, AuthError::MissingChallengeToken), Some(s)),
        }
    } else {
        (OrchestratorView { phase: Phase::Returned, ..o }, ActionView::ReturnResponse)
    }
}

/// The whole transition relation: what one step does, given the phase and
/// the event. Unreachable combinations (the precondition of `step` excludes
/// them) are mapped to the terminal failure.
pub open spec fn step_spec(o: OrchestratorView, ev: EventView) -> (OrchestratorView, ActionView) {
    match (o.phase, ev) {
        (Phase::AwaitClone, EventView::TemplateCloned) => (
            OrchestratorView { phase: Phase::AwaitInitialResponse, ..o },
            ActionView::SendInitial,
        ),
        (Phase::AwaitClone, EventView::CloneFailed) => (
            OrchestratorView { phase: Phase::Failed, ..o },
            ActionView::Fail(AuthError::NotReplayable),
        ),
        (Phase::AwaitInitialResponse, EventView::Response { status, www_authenticate }) => {
            if status != 401 {
                (OrchestratorView { phase: Phase::Returned, ..o }, ActionView::ReturnResponse)
            } else {
                let challenged = OrchestratorView {
                    challenges: parse_challenges(www_authenticate),
                    ..o
                };
                match o.host {
                    None => (
                        OrchestratorView { phase: Phase::Failed, ..challenged },
                        ActionView::Fail(AuthError::SpnDerivationFailed),
                    ),
                    Some(h) => spec_next_candidate(
                        OrchestratorView { spn: spec_spn(h), ..challenged },
                        None,
                    ),
                }
            }
        },
        (Phase::AwaitAcquire { scheme }, EventView::CredentialsAcquired) => (
            OrchestratorView { phase: Phase::AwaitToken { scheme, round: 0 }, ..o },
            ActionView::InitializeContext { scheme, spn: o.spn, input_token: None },
        ),
        (Phase::AwaitAcquire { scheme }, EventView::AcquireFailed(code)) => spec_next_candidate(
            spec_record(o, AuthError::ProviderError(code)),
            Some(scheme),
        ),
        (Phase::AwaitToken { scheme, round }, EventView::ContextToken { token, .. }) => (
            OrchestratorView { phase: Phase::AwaitAuthResponse { scheme, round }, ..o },
            ActionView::SendAuthorized { authorization: scheme_authorization(scheme, token) },
        ),
        (Phase::AwaitToken { scheme, .. }, EventView::InitializeFailed(code)) => {
            spec_next_candidate(spec_record(o, AuthError::ProviderError(code)), Some(scheme))
        },
        (
            Phase::AwaitAuthResponse { scheme, round },
            EventView::Response { status, www_authenticate },
        ) => spec_attempt_response(o, scheme, round, status, www_authenticate),
        (Phase::AwaitAuthResponse { .. }, EventView::CloneFailed) => (
            OrchestratorView { phase: Phase::Failed, ..o },
            ActionView::Fail(AuthError::NotReplayable),
        ),
        (Phase::AwaitAuthResponse { scheme, .. }, EventView::AuthorizationRejected) => {
            spec_next_candidate(
                spec_record(o, AuthError::MalformedAuthorizationHeader),
                Some(scheme),
            )
        },
        (Phase::AwaitBasicResponse, EventView::Response { .. }) => (
            OrchestratorView { phase: Phase::Returned, ..o },
            ActionView::ReturnResponse,
        ),
        (Phase::AwaitBasicResponse, EventView::CloneFailed) => (
            OrchestratorView { phase: Phase::Failed, ..o },
            ActionView::Fail(AuthError::NotReplayable),
        ),
        (Phase::AwaitBasicResponse, EventView::AuthorizationRejected) => (
            OrchestratorView {
                phase: Phase::Failed,
                ..spec_record(o, AuthError::MalformedAuthorizationHeader)
            },
            ActionView::Fail(AuthError::AllMethodsFailed),
        ),
        _ => (
            OrchestratorView { phase: Phase::Failed, ..o },
            ActionView::Fail(AuthError::AllMethodsFailed),
        ),
    }
}

// --- laws of the transition relation --------------------------------------

/// A response to the initial unauthenticated request whose status is not
/// 401 ends the call at once: the orchestrator only hands that response
/// back, unchanged — it records nothing, parses nothing, and asks the
/// caller for no clone, no request and no provider call.
pub proof fn lemma_non_401_returned_unchanged(o: OrchestratorView, ev: EventView)
    requires
        o.phase is AwaitInitialResponse,
        ev matches EventView::Response { status, .. } && status != 401,
    ensures
        step_spec(o, ev).0 == (OrchestratorView { phase: Phase::Returned, ..o }),
        step_spec(o, ev).1 == ActionView::ReturnResponse,
{
}

/// Within one scheme attempt, a continued 401 carrying a fresh token for
/// that scheme advances the round counter by exactly one, and the next
/// handshake request uses exactly that token.
pub proof fn lemma_round_counter_increments(
    o: OrchestratorView,
    s: Scheme,
    round: usize,
    values: Seq<Seq<u8>>,
)
    requires
        o.phase == (Phase::AwaitAuthResponse { scheme: s, round }),
        round + 1 < MAX_ROUNDTRIPS,
        scheme_challenge(parse_challenges(values), s) is OfferedWithToken,
    ensures
        ({
            let (post, action) = step_spec(
                o,
                EventView::Response { status: 401, www_authenticate: values },
            );
            &&& post.phase == (Phase::AwaitToken { scheme: s, round: (round + 1) as usize })
            &&& action == (ActionView::InitializeContext {
                scheme: s,
                spn: o.spn,
                input_token: Some(scheme_challenge(parse_challenges(values), s)->0),
            })
        }),
{
}

/// Once the round counter would reach [`MAX_ROUNDTRIPS`], a continued 401
/// — even one carrying a fresh token — no longer produces a handshake
/// request for that scheme: the attempt fails with `TooManyRoundtrips`,
/// recorded, and the orchestrator falls back.
pub proof fn lemma_round_limit_stops_attempt(
    o: OrchestratorView,
    s: Scheme,
    round: usize,
    values: Seq<Seq<u8>>,
)
    requires
        o.phase == (Phase::AwaitAuthResponse { scheme: s, round }),
        round + 1 >= MAX_ROUNDTRIPS,
        scheme_challenge(parse_challenges(values), s) is OfferedWithToken,
    ensures
        ({
            let (post, action) = step_spec(
                o,
                EventView::Response { status: 401, www_authenticate: values },
            );
            &&& post.failures == o.failures.push(AuthError::TooManyRoundtrips)
            &&& !(action is InitializeContext)
            &&& !(post.phase matches Phase::AwaitToken { scheme, .. } && scheme == s)
            &&& !(post.phase matches Phase::AwaitAuthResponse { scheme, .. } && scheme == s)
        }),
{
}

/// A Basic attempt is only ever entered — and so a Basic `Authorization`
/// value only ever sent — when the credentials are explicit: with the
/// ambient identity the orchestrator never falls back to Basic.
pub proof fn lemma_basic_only_with_explicit(o: OrchestratorView, ev: EventView)
    ensures
        step_spec(o, ev).0.phase is AwaitBasicResponse ==> o.credentials is Explicit,
{
}

/// With ambient credentials and a 401 that offers neither Negotiate nor
/// NTLM, the call fails at once with `AllMethodsFailed`: no request with a
/// Basic `Authorization` value is ever issued.
pub proof fn lemma_current_user_basic_only_fails(o: OrchestratorView, values: Seq<Seq<u8>>)
    requires
        o.phase is AwaitInitialResponse,
        o.credentials is CurrentUser,
        o.host is Some,
        !is_offered(parse_challenges(values).negotiate),
        !is_offered(parse_challenges(values).ntlm),
    ensures
        step_spec(o, EventView::Response { status: 401, www_authenticate: values }).0.phase
            is Failed,
        step_spec(o, EventView::Response { status: 401, www_authenticate: values }).1
            == ActionView::Fail(AuthError::AllMethodsFailed),
{
}

// --- building Authorization values ----------------------------------------

proof fn lemma_encode_utf8_len(s: Seq<char>)
    ensures
        vstd::utf8::encode_utf8(s).len() <= 4 * s.len(),
    decreases s.len(),
{
    if s.len() == 0 {
    } else {
        lemma_encode_utf8_len(s.drop_first());
        assert(vstd::utf8::encode_scalar(s[0] as u32).len() <= 4);
    }
}

/// Builds the `Authorization` value of a Basic attempt:
/// `"Basic " + base64(username ":" password)`.
pub fn basic_authorization_value(username: &str, password: &str) -> (r: String)
    requires
        username@.len() <= MAX_CREDENTIAL_LEN,
        password@.len() <= MAX_CREDENTIAL_LEN,
    ensures
        r@ == basic_authorization(username@, password@),
        b64_decoding(vstd::utf8::encode_utf8(r@.skip(6))) == Some(
            vstd::utf8::encode_utf8(basic_credentials_text(username@, password@)),
        ),
{
    let mut text = username.to_owned();
    text.append(":");
    text.append(password);
    proof {
        reveal_strlit(":");
        assert(text@ =~= basic_credentials_text(username@, password@));
        lemma_encode_utf8_len(text@);
    }
    let encoded = b64_encode(text.as_str().as_bytes());
    let mut r = "Basic ".to_owned();
    r.append(encoded.as_str());
    proof {
        reveal_strlit("Basic ");
        assert(r@ =~= basic_authorization(username@, password@));
        assert(r@.skip(6) =~= encoded@);
    }
    r
}

/// Builds the `Authorization` value of one handshake round: the scheme's
/// name, a space, and the base64 of the provider's token. The token part
/// decodes back to the token; moreover the whole value, read back as a
/// challenge header, parses as this scheme's token challenge carrying
/// exactly the token (an empty token reads back as a bare offer, so it is
/// left out of that clause).
pub fn scheme_authorization_value(scheme: Scheme, token: &[u8]) -> (r: String)
    requires
        token@.len() <= MAX_TOKEN_LEN,
    ensures
        r@ == scheme_authorization(scheme, token@),
        b64_decoding(vstd::utf8::encode_utf8(r@.skip(scheme_label(scheme).len() + 1 as int))) == Some(
            token@,
        ),
        token@.len() > 0 ==> scheme_challenge(
            parse_challenges(seq![vstd::utf8::encode_utf8(r@)]),
            scheme,
        ) == ChallengeView::OfferedWithToken(token@),
{
    let mut r = scheme.label().to_owned();
    r.append(" ");
    let encoded = b64_encode(token);
    r.append(encoded.as_str());
    proof {
        reveal_strlit(" ");
        assert(r@ =~= scheme_authorization(scheme, token@));
        assert(r@.skip(scheme_label(scheme).len() + 1 as int) =~= encoded@);
        if token@.len() > 0 {
            lemma_value_parses_back(scheme, token@, encoded@, r@);
        }
    }
    r
}

/// The heart of the read-back clause: a freshly built authorization value,
/// taken as header bytes, parses as its scheme's token challenge.
proof fn lemma_value_parses_back(scheme: Scheme, token: Seq<u8>, e: Seq<char>, rv: Seq<char>)
    requires
        token.len() > 0,
        rv == scheme_label(scheme) + " "@ + e,
        vstd::utf8::is_ascii_chars(e),
        forall|i: int| 0 <= i < e.len() ==> is_b64_text_char(#[trigger] e[i]),
        e.len() == ((token.len() + 2) / 3) * 4,
        b64_decoding(vstd::utf8::encode_utf8(e)) == Some(token),
    ensures
        scheme_challenge(parse_challenges(seq![vstd::utf8::encode_utf8(rv)]), scheme)
            == ChallengeView::OfferedWithToken(token),
{
    reveal_strlit(" ");
    reveal_strlit("Negotiate");
    reveal_strlit("NTLM");
    let lbl = scheme_label(scheme);
    assert(is_ascii_chars(lbl)) by {
        assert forall|i: int| 0 <= i < lbl.len() implies '\0' <= #[trigger] lbl[i] <= '\u{7f}' by {
        }
    }
    assert(is_ascii_chars(rv)) by {
        assert forall|i: int| 0 <= i < rv.len() implies '\0' <= #[trigger] rv[i] <= '\u{7f}' by {
            if i < lbl.len() {
                assert(rv[i] == lbl[i]);
            } else if i == lbl.len() {
                assert(rv[i] == ' ');
            } else {
                assert(rv[i] == e[i - lbl.len() - 1]);
            }
        }
    }
    vstd::utf8::is_ascii_chars_encode_utf8(rv);
    vstd::utf8::is_ascii_chars_encode_utf8(e);
    let bytes = vstd::utf8::encode_utf8(rv);
    let kwbytes = Seq::new(lbl.len(), |i: int| lbl[i] as u8);
    let ebytes = Seq::new(e.len(), |i: int| e[i] as u8);
    assert(vstd::utf8::encode_utf8(e) =~= ebytes);
    assert(bytes =~= kwbytes + seq![32u8] + ebytes) by {
        assert(' ' as u8 == 32);
        assert forall|i: int| 0 <= i < bytes.len() implies bytes[i] == (kwbytes + seq![32u8]
            + ebytes)[i] by {
            assert(bytes[i] == rv[i] as u8);
            if i < lbl.len() {
                assert(rv[i] == lbl[i]);
            } else if i == lbl.len() {
                assert(rv[i] == ' ');
            } else {
                assert(rv[i] == e[i - lbl.len() - 1]);
            }
        }
    }
    assert(forall|i: int| 0 <= i < kwbytes.len() ==> byte_is_visible(#[trigger] kwbytes[i])
        && !byte_is_ws(kwbytes[i]));
    assert forall|i: int| 0 <= i < ebytes.len() implies byte_is_visible(#[trigger] ebytes[i])
        && !byte_is_ws(ebytes[i]) by {
        assert(is_b64_text_char(e[i]));
        assert(ebytes[i] == e[i] as u8);
    }
    match scheme {
        Scheme::Negotiate => {
            assert(lower_bytes(kwbytes) =~= negotiate_kw());
        },
        Scheme::Ntlm => {
            assert(lower_bytes(kwbytes) =~= ntlm_kw());
        },
    }
    assert(ebytes.len() > 0);
    lemma_single_token_value(kwbytes, ebytes);
    assert(b64_decoding(ebytes) == Some(token));
    assert(offered_from_token(ebytes) == ChallengeView::OfferedWithToken(token));
}

// --- the orchestrator, exec level -----------------------------------------

fn offered(c: &Challenge) -> (r: bool)
    ensures
        r == is_offered(c@),
{
    !matches!(c, Challenge::NotOffered)
}

impl Orchestrator {
    /// A fresh orchestration call: `host` is the request target's host
    /// component, used to derive the SPN once a challenge arrives.
    pub fn new(credentials: Credentials, host: Option<String>) -> (r: Self)
        requires
            credentials@ matches CredentialsView::Explicit { username, password } ==> username.len()
                <= MAX_CREDENTIAL_LEN && password.len() <= MAX_CREDENTIAL_LEN,
        ensures
            r@ == spec_new(credentials@, host.deep_view()),
            spec_inv(r@),
    {
        let r = Orchestrator {
            credentials,
            host,
            challenges: ChallengeSet::none(),
            spn: String::new(),
            failures: Vec::new(),
            phase: Phase::AwaitClone,
        };
        proof {
            assert(r@ =~= spec_new(r.credentials@, r.host.deep_view()));
        }
        r
    }

    /// The first thing to do: duplicate the request, so that it can be
    /// replayed with credentials attached.
    pub fn initial_action(&self) -> (a: Action)
        requires
            self@.phase is AwaitClone,
        ensures
            a@ is CloneTemplate,
    {
        Action::CloneTemplate
    }

    /// True once a step has returned a terminal action.
    pub fn is_finished(&self) -> (r: bool)
        ensures
            r == (self@.phase is Returned || self@.phase is Failed),
    {
        matches!(self.phase, Phase::Returned | Phase::Failed)
    }

    /// Where the orchestration stands.
    pub fn current_phase(&self) -> (p: Phase)
        ensures
            p == self@.phase,
    {
        self.phase
    }

    /// The per-attempt failures recorded so far, oldest first.
    pub fn attempt_failures(&self) -> (r: &Vec<AuthError>)
        ensures
            r@ == self@.failures,
    {
        &self.failures
    }

    fn record(&mut self, e: AuthError)
        ensures
            final(self)@ == spec_record(old(self)@, e),
    {
        self.failures.push(e);
        proof {
            assert(self@ =~= spec_record(old(self)@, e));
        }
    }

    fn enter_next_candidate(&mut self, after: Option<Scheme>) -> (a: Action)
        requires
            old(self)@.credentials matches CredentialsView::Explicit { username, password }
                ==> username.len() <= MAX_CREDENTIAL_LEN && password.len() <= MAX_CREDENTIAL_LEN,
        ensures
            (final(self)@, a@) == spec_next_candidate(old(self)@, after),
    {
        let after_none = after.is_none();
        if after_none && offered(&self.challenges.negotiate) {
            self.phase = Phase::AwaitAcquire { scheme: Scheme::Negotiate };
            return Action::AcquireCredentials { scheme: Scheme::Negotiate };
        }
        let before_ntlm = match after {
            None => true,
            Some(Scheme::Negotiate) => true,
            Some(Scheme::Ntlm) => false,
        };
        if before_ntlm && offered(&self.challenges.ntlm) {
            self.phase = Phase::AwaitAcquire { scheme: Scheme::Ntlm };
            return Action::AcquireCredentials { scheme: Scheme::Ntlm };
        }
        let explicit: Option<(String, String)> = match &self.credentials {
            Credentials::Explicit { username, password } => Some(
                (username.clone(), password.clone()),
            ),
            Credentials::CurrentUser => None,
        };
        match explicit {
            Some((username, password)) => {
                if self.challenges.has_basic {
                    let authorization = basic_authorization_value(
                        username.as_str(),
                        password.as_str(),
                    );
                    self.phase = Phase::AwaitBasicResponse;
                    Action::SendAuthorized { authorization }
                } else {
                    self.phase = Phase::Failed;
                    Action::Fail(AuthError::AllMethodsFailed)
                }
            },
            None => {
                self.phase = Phase::Failed;
                Action::Fail(AuthError::AllMethodsFailed)
            },
        }
    }

    /// Consumes one event and decides the next action. The transition is
    /// exactly [`step_spec`].
    pub fn step(&mut self, event: Event) -> (a: Action)
        requires
            spec_inv(old(self)@),
            event_fits(old(self)@.phase, event@),
            event@ matches EventView::ContextToken { token, .. } ==> token.len() <= MAX_TOKEN_LEN,
        ensures
            final(self)@ == step_spec(old(self)@, event@).0,
            a@ == step_spec(old(self)@, event@).1,
            spec_inv(final(self)@),
    {
        let phase = self.phase;
        match (phase, event) {
            (Phase::AwaitClone, Event::TemplateCloned) => {
                self.phase = Phase::AwaitInitialResponse;
                Action::SendInitial
            },
            (Phase::AwaitClone, Event::CloneFailed) => {
                self.phase = Phase::Failed;
                Action::Fail(AuthError::NotReplayable)
            },
            (Phase::AwaitInitialResponse, Event::Response { status, www_authenticate }) => {
                if status != 401 {
                    self.phase = Phase::Returned;
                    Action::ReturnResponse
                } else {
                    self.challenges = parse_challenge_values(&www_authenticate);
                    let host_ref = match &self.host {
                        Some(h) => Some(h.as_str()),
                        None => None,
                    };
                    match spn_from_host(host_ref) {
                        Ok(spn) => {
                            self.spn = spn;
                            self.enter_next_candidate(None)
                        },
                        Err(_) => {
                            self.phase = Phase::Failed;
                            Action::Fail(AuthError::SpnDerivationFailed)
                        },
                    }
                }
            },
            (Phase::AwaitAcquire { scheme }, Event::CredentialsAcquired) => {
                self.phase = Phase::AwaitToken { scheme, round: 0 };
                Action::InitializeContext { scheme, spn: self.spn.clone(), input_token: None }
            },
            (Phase::AwaitAcquire { scheme }, Event::AcquireFailed(code)) => {
                self.record(AuthError::ProviderError(code));
                self.enter_next_candidate(Some(scheme))
            },
            (Phase::AwaitToken { scheme, round }, Event::ContextToken { token, complete: _ }) => {
                self.phase = Phase::AwaitAuthResponse { scheme, round };
                let authorization = scheme_authorization_value(scheme, token.as_slice());
                Action::SendAuthorized { authorization }
            },
            (Phase::AwaitToken { scheme, round: _ }, Event::InitializeFailed(code)) => {
                self.record(AuthError::ProviderError(code));
                self.enter_next_candidate(Some(scheme))
            },
            (
                Phase::AwaitAuthResponse { scheme, round },
                Event::Response { status, www_authenticate },
            ) => {
                if status == 401 {
                    let cs = parse_challenge_values(&www_authenticate);
                    let c = match scheme {
                        Scheme::Negotiate => cs.negotiate,
                        Scheme::Ntlm => cs.ntlm,
                    };
                    match c {
                        Challenge::OfferedWithToken(tok) => {
                            if round + 1 >= MAX_ROUNDTRIPS {
                                self.record(AuthError::TooManyRoundtrips);
                                self.enter_next_candidate(Some(scheme))
                            } else {
                                self.phase = Phase::AwaitToken { scheme, round: round + 1 };
                                Action::InitializeContext {
                                    scheme,
                                    spn: self.spn.clone(),
                                    input_token: Some(tok),
                                }
                            }
                        },
                        _ => {
                            self.record(AuthError::MissingChallengeToken);
                            self.enter_next_candidate(Some(scheme))
                        },
                    }
                } else {
                    self.phase = Phase::Returned;
                    Action::ReturnResponse
                }
            },
            (Phase::AwaitAuthResponse { .. }, Event::CloneFailed) => {
                self.phase = Phase::Failed;
                Action::Fail(AuthError::NotReplayable)
            },
            (Phase::AwaitAuthResponse { scheme, .. }, Event::AuthorizationRejected) => {
                self.record(AuthError::MalformedAuthorizationHeader);
                self.enter_next_candidate(Some(scheme))
            },
            (Phase::AwaitBasicResponse, Event::Response { .. }) => {
                self.phase = Phase::Returned;
                Action::ReturnResponse
            },
            (Phase::AwaitBasicResponse, Event::CloneFailed) => {
                self.phase = Phase::Failed;
                Action::Fail(AuthError::NotReplayable)
            },
            (Phase::AwaitBasicResponse, Event::AuthorizationRejected) => {
                self.record(AuthError::MalformedAuthorizationHeader);
                self.phase = Phase::Failed;
                Action::Fail(AuthError::AllMethodsFailed)
            },
            _ => {
                proof {
                    assert(false);
                }
                vstd::pervasive::unreached()
            },
        }
    }
}

} // verus!
