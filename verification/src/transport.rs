//! The WebSocket transport of the relay connections: a handshake that
//! carries a `User-Agent` header, which some relays demand (they answer
//! HTTP 403 without it).
use vstd::prelude::*;

verus! {

/// The `User-Agent` header value sent in the handshake by the package at
/// version `version`.
pub open spec fn user_agent_text(version: Seq<char>) -> Seq<char> {
    "rs_tg_nostr/"@ + version
}

/// What a connection attempt does.
#[derive(Debug)]
pub enum ConnectPlan {
    /// Open the WebSocket with this `User-Agent` header.
    Handshake { user_agent: String },
    /// Give up with this reason.
    Refuse { reason: String },
}

/// A WebSocket transport that adds a `User-Agent` header to the handshake.
/// It connects directly only: no proxy, no Tor.
#[derive(Debug, Clone, Copy, Default)]
pub struct UserAgentTransport;

impl UserAgentTransport {
    /// Relays may be pinged over this transport.
    pub fn support_ping(&self) -> (r: bool)
        ensures
            r,
    {
        true
    }

    /// The `User-Agent` header value of the package at version `version`.
    pub fn user_agent(&self, version: &str) -> (r: String)
        ensures
            r@ == user_agent_text(version@),
    {
        String::from_str("rs_tg_nostr/").concat(version)
    }

    /// What to do for a connection whose mode is direct (`direct`) or goes
    /// through a proxy or Tor (`!direct`): a handshake with the header of the
    /// package at version `version`, or a refusal.
    pub fn plan(&self, direct: bool, version: &str) -> (r: ConnectPlan)
        ensures
            match r {
                ConnectPlan::Handshake { user_agent } => direct && user_agent@ == user_agent_text(version@),
                ConnectPlan::Refuse { reason } => !direct && reason@
                    == "UserAgentTransport only supports Direct mode"@,
            },
    {
        if direct {
            ConnectPlan::Handshake { user_agent: self.user_agent(version) }
        } else {
            ConnectPlan::Refuse {
                reason: String::from_str("UserAgentTransport only supports Direct mode"),
            }
        }
    }
}

} // verus!
