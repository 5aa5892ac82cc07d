//! The posture of outbound HTTP requests: read from the runtime settings on
//! every request, and how a refusal is explained. The guarded client itself
//! lives outside the library.

use vstd::prelude::*;

use crate::api::{ALLOW_PRIVATE_NETWORK_SETTING, RuntimeSettings};
use crate::text::{append_str, chars_contains, chars_of, contains, string_of};

verus! {

/// What the guard says when it refuses a target.
pub const BLOCKED: &'static str = "private or special-use network target is blocked";

/// The posture of one outbound request.
#[derive(Clone, Debug, PartialEq, Eq)]
pub struct OutboundPolicy {
    pub timeout_secs: u64,
    pub allow_private_network: bool,
    pub allow_invalid_certificates: bool,
    /// A per-request proxy; the server sets none.
    pub proxy: Option<String>,
}

impl OutboundPolicy {
    /// The closed posture: both relaxations off, no proxy.
    pub fn closed(timeout_secs: u64) -> (r: Self)
        ensures
            r.timeout_secs == timeout_secs,
            !r.allow_private_network,
            !r.allow_invalid_certificates,
            r.proxy is None,
    {
        OutboundPolicy {
            timeout_secs,
            allow_private_network: false,
            allow_invalid_certificates: false,
            proxy: None,
        }
    }
}

/// The server's outbound client: its default timeout. The settings it reads
/// are handed to each call, so no holder keeps a posture older than the
/// switches.
#[derive(Clone, Copy, Debug, PartialEq, Eq, Structural)]
pub struct OutboundHttp {
    pub timeout_secs: u64,
}

impl OutboundHttp {
    pub fn new(timeout_secs: u64) -> (r: Self)
        ensures
            r.timeout_secs == timeout_secs,
    {
        OutboundHttp { timeout_secs }
    }

    /// A client for code with no configuration: 30 seconds.
    pub fn standalone() -> (r: Self)
        ensures
            r.timeout_secs == 30,
    {
        OutboundHttp { timeout_secs: 30 }
    }

    /// The posture for one request, as the settings are now.
    pub fn policy(&self, settings: &RuntimeSettings) -> (r: OutboundPolicy)
        ensures
            r.timeout_secs == self.timeout_secs,
            r.allow_private_network == settings.allow_private_network,
            r.allow_invalid_certificates == settings.allow_invalid_certificates,
            r.proxy is None,
    {
        OutboundPolicy {
            timeout_secs: self.timeout_secs,
            allow_private_network: settings.allow_private_network,
            allow_invalid_certificates: settings.allow_invalid_certificates,
            proxy: None,
        }
    }
}

/// The context a failed request gets: when the private-network switch is
/// off and the guard's refusal is in the error chain, it names the setting
/// that lifts it; otherwise it says the URL could not be reached.
pub open spec fn refusal_context(url: Seq<char>, private_allowed: bool, chain: Seq<char>) -> Seq<char> {
    if !private_allowed && contains(chain, BLOCKED@) {
        url + " is on a private or special-use network, which the outbound policy blocks; an administrator can allow it with the "@
            + ALLOW_PRIVATE_NETWORK_SETTING@ + " setting"@
    } else {
        "cannot reach "@ + url
    }
}

/// Explain why a request to `url` failed, given the error chain's text.
pub fn explain_refusal(url: &str, private_allowed: bool, chain: &str) -> (r: String)
    ensures
        r@ == refusal_context(url@, private_allowed, chain@),
{
    let c = chars_of(chain);
    let b = chars_of(BLOCKED);
    let mut out: Vec<char> = Vec::new();
    if !private_allowed && chars_contains(c.as_slice(), b.as_slice()) {
        append_str(&mut out, url);
        append_str(
            &mut out,
            " is on a private or special-use network, which the outbound policy blocks; an administrator can allow it with the ",
        );
        append_str(&mut out, ALLOW_PRIVATE_NETWORK_SETTING);
        append_str(&mut out, " setting");
    } else {
        append_str(&mut out, "cannot reach ");
        append_str(&mut out, url);
    }
    string_of(out.as_slice())
}

} // verus!
