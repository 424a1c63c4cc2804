//! Deriving the Service Principal Name (SPN) from a request target.
//!
//! For HTTP authentication the SPN is `"HTTP/" + host`, with no scheme,
//! port or path. A target without a host has no SPN.

use vstd::prelude::*;
use vstd::string::StringExecFns;

verus! {

#[verifier::external_type_specification]
#[verifier::external_body]
pub struct ExUrl(url::Url);

/// Why an SPN could not be derived.
#[derive(Clone, Copy, Debug, PartialEq, Eq, Structural)]
pub enum SpnError {
    /// The request target has no host component.
    NoHost,
}

/// The SPN string for a given host.
pub open spec fn spec_spn(host: Seq<char>) -> Seq<char> {
    "HTTP/"@ + host
}

/// Builds the SPN from the request target's host component, when there is
/// one.
pub fn spn_from_host(host: Option<&str>) -> (r: Result<String, SpnError>)
    ensures
        match host {
            Some(h) => r matches Ok(s) && s@ == spec_spn(h@),
            None => r matches Err(e) && e is NoHost,
        },
{
    match host {
        Some(h) => {
            let prefix: String = "HTTP/".to_owned();
            Ok(prefix.concat(h))
        },
        None => Err(SpnError::NoHost),
    }
}

/// The host component a URL holds, if any: what `url::Url::host_str`
/// yields, a function of the URL value alone.
pub uninterp spec fn url_host_of(u: url::Url) -> Option<Seq<char>>;

/// Relies on `url::Url::host_str`: the URL's host component, when the URL
/// has one (no port, no scheme, no path). The result depends on the URL
/// value alone.
#[verifier::external_body]
fn url_host(url: &url::Url) -> (r: Option<String>)
    ensures
        r.deep_view() == url_host_of(*url),
{
    url.host_str().map(|h| h.to_owned())
}

/// Derives the SPN from a request URL: `"HTTP/" + host` exactly when the
/// URL has a host component, `NoHost` otherwise.
pub fn derive_spn(url: &url::Url) -> (r: Result<String, SpnError>)
    ensures
        match url_host_of(*url) {
            Some(h) => r matches Ok(s) && s@ == spec_spn(h),
            None => r matches Err(e) && e is NoHost,
        },
{
    let host = url_host(url);
    let host_ref = match &host {
        Some(h) => Some(h.as_str()),
        None => None,
    };
    spn_from_host(host_ref)
}

} // verus!
