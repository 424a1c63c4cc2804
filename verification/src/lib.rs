//! HTTP Negotiate authentication (RFC 4559) with automatic fallback to NTLM
//! and Basic: challenge parsing, service-principal-name derivation, and the
//! bounded negotiation state machine, with machine-checked contracts.
//!
//! The actual security-context provider (token generation) and the HTTP
//! transport are external capabilities: the library decides, callers perform.

pub mod credentials;
pub mod encoding;
pub mod challenge;
pub mod spn;
pub mod provider;
pub mod error;
pub mod orchestrator;
