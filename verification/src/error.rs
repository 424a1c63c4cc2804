//! The error taxonomy of the negotiation orchestrator.

use vstd::prelude::*;

verus! {

/// Why an authentication attempt, or the whole call, failed.
///
/// `NotReplayable` and `SpnDerivationFailed` are fatal for the whole call.
/// The per-attempt failures (`ProviderError`, `TooManyRoundtrips`,
/// `MalformedAuthorizationHeader`, `MissingChallengeToken`) are recorded and
/// answered by advancing to the next candidate scheme; only when every
/// avenue is exhausted does the call end with `AllMethodsFailed`.
#[derive(Clone, Copy, Debug, PartialEq, Eq, Structural)]
pub enum AuthError {
    /// The request body cannot be duplicated for replay.
    NotReplayable,
    /// The request target has no host to derive a service principal name
    /// from.
    SpnDerivationFailed,
    /// The security-context provider failed with the given status code.
    ProviderError(i32),
    /// A scheme's handshake did not converge within
    /// [`MAX_ROUNDTRIPS`](crate::orchestrator::MAX_ROUNDTRIPS) rounds.
    TooManyRoundtrips,
    /// A constructed `Authorization` value was rejected by the header
    /// machinery.
    MalformedAuthorizationHeader,
    /// A continued 401 carried no fresh challenge token for the running
    /// scheme: a protocol violation by the server.
    MissingChallengeToken,
    /// Every offered scheme was tried and none succeeded.
    AllMethodsFailed,
}

} // verus!
