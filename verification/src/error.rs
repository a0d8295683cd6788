//! Error taxonomy of the networking core.

use vstd::prelude::*;

verus! {

/// Failures the networking core reports. A bind failure is fatal to node
/// construction; the others are non-fatal and reported per call.
#[derive(Debug, Clone)]
pub enum NetworkError {
    Bind(String),
    Send(String),
    Stun(String),
    Upnp(String),
}

impl NetworkError {
    /// A short description of the failure, with its detail string.
    pub fn describe(&self) -> (r: String)
        ensures
            match self {
                NetworkError::Bind(e) => r@ == "failed to bind socket: "@ + e@,
                NetworkError::Send(e) => r@ == "failed to send: "@ + e@,
                NetworkError::Stun(e) => r@ == "STUN error: "@ + e@,
                NetworkError::Upnp(e) => r@ == "UPnP error: "@ + e@,
            },
    {
        let mut out: String;
        match self {
            NetworkError::Bind(e) => {
                out = "failed to bind socket: ".to_owned();
                out.append(e.as_str());
            }
            NetworkError::Send(e) => {
                out = "failed to send: ".to_owned();
                out.append(e.as_str());
            }
            NetworkError::Stun(e) => {
                out = "STUN error: ".to_owned();
                out.append(e.as_str());
            }
            NetworkError::Upnp(e) => {
                out = "UPnP error: ".to_owned();
                out.append(e.as_str());
            }
        }
        out
    }
}

/// Peer lifecycle events surfaced to the application.
#[derive(Debug, Clone)]
pub enum PeerEvent {
    Joined { name: String, addr: crate::node::NetAddr },
    Left { name: String, addr: crate::node::NetAddr },
}

} // verus!
