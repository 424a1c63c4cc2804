//! The credential model: who is authenticating.

use vstd::prelude::*;

verus! {

/// Credentials for Negotiate authentication: either the ambient session
/// identity (single sign-on), or an explicit principal with a secret.
#[derive(Clone, Debug)]
pub enum Credentials {
    /// Use the currently logged-in user's session identity.
    CurrentUser,
    /// Use an explicit username/password pair. Only with these does the
    /// orchestrator ever fall back to Basic authentication.
    Explicit { username: String, password: String },
}

/// Spec-level image of [`Credentials`].
#[verifier::ext_equal]
pub enum CredentialsView {
    CurrentUser,
    Explicit { username: Seq<char>, password: Seq<char> },
}

impl View for Credentials {
    type V = CredentialsView;

    open spec fn view(&self) -> CredentialsView {
        match self {
            Credentials::CurrentUser => CredentialsView::CurrentUser,
            Credentials::Explicit { username, password } => CredentialsView::Explicit {
                username: username@,
                password: password@,
            },
        }
    }
}

/// Configuration handed to the orchestrator.
#[derive(Clone, Debug)]
pub struct NegotiateConfig {
    pub credentials: Credentials,
}

impl NegotiateConfig {
    /// Authenticate as the current session identity.
    pub fn current_user() -> (c: Self)
        ensures
            c.credentials@ is CurrentUser,
    {
        Self { credentials: Credentials::CurrentUser }
    }

    /// Authenticate with an explicit username and password.
    pub fn with_credentials(username: String, password: String) -> (c: Self)
        ensures
            c.credentials@ == (CredentialsView::Explicit {
                username: username@,
                password: password@,
            }),
    {
        Self { credentials: Credentials::Explicit { username, password } }
    }
}

/// True when a provider must use the ambient session identity for these
/// credentials: either `CurrentUser`, or `Explicit` with an empty username.
pub open spec fn spec_uses_ambient_identity(c: CredentialsView) -> bool {
    match c {
        CredentialsView::CurrentUser => true,
        CredentialsView::Explicit { username, .. } => username.len() == 0,
    }
}

impl Credentials {
    /// Decides whether a security-context provider should rely on the
    /// ambient session identity (single sign-on) rather than explicit
    /// credential material.
    pub fn uses_ambient_identity(&self) -> (r: bool)
        ensures
            r == spec_uses_ambient_identity(self@),
    {
        match self {
            Credentials::CurrentUser => true,
            Credentials::Explicit { username, .. } => username.as_str().is_empty(),
        }
    }
}

} // verus!
