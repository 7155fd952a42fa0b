//! Peer-to-peer sharing over the local network: protocol types and frame codec, per-peer
//! access rules, and the decisions the request handlers make.
use vstd::prelude::*;

pub mod auth;
pub mod discovery;
pub mod protocol;
pub mod server;

use crate::error::{with_prefix, IpcError};
use crate::text::{chars_of, decimal, extend_chars, push_decimal, string_from_chars};

verus! {

/// Largest frame payload, in bytes (16 MB).
pub const MAX_FRAME_SIZE: usize = 16777216;

/// Seconds allowed to connect to a peer.
pub const CONNECT_TIMEOUT_SECS: u64 = 5;

/// Seconds allowed for one request and its answer.
pub const RPC_TIMEOUT_SECS: u64 = 10;

/// Seconds allowed to transfer an attachment.
pub const ATTACHMENT_TIMEOUT_SECS: u64 = 60;

/// A peer found on the local network.
#[derive(Debug, Clone)]
pub struct PeerInfo {
    pub peer_id: String,
    pub display_name: String,
    pub addrs: Vec<String>,
    pub relay_url: Option<String>,
    pub last_seen: i64,
}

/// Errors of the sharing module; errors of the transport and of JSON decoding carry their
/// message.
#[derive(Debug, Clone, PartialEq, Eq)]
pub enum LanError {
    Endpoint(String),
    ConnectTimeout,
    RpcTimeout,
    ConnectionClosed,
    FrameTooLarge(usize),
    Json(String),
    Remote(u16, String),
    LocalStore(String),
    Io(String),
}


/// The message of a sharing error.
pub open spec fn lan_message(e: LanError) -> Seq<char> {
    match e {
        LanError::Endpoint(m) => "iroh endpoint error: "@ + m@,
        LanError::ConnectTimeout => "connect timeout"@,
        LanError::RpcTimeout => "rpc timeout"@,
        LanError::ConnectionClosed => "connection closed"@,
        LanError::FrameTooLarge(n) => "frame too large: "@ + decimal(n as nat) + " bytes"@,
        LanError::Json(m) => "json error: "@ + m@,
        LanError::Remote(c, m) => "remote error "@ + decimal(c as nat) + ": "@ + m@,
        LanError::LocalStore(m) => "local store error: "@ + m@,
        LanError::Io(m) => "io error: "@ + m@,
    }
}

impl LanError {
    /// The message the error is shown with.
    pub fn message(&self) -> (r: String)
        ensures
            r@ == lan_message(*self),
    {
        match self {
            LanError::Endpoint(m) => with_prefix("iroh endpoint error: ", m),
            LanError::ConnectTimeout => String::from_str("connect timeout"),
            LanError::RpcTimeout => String::from_str("rpc timeout"),
            LanError::ConnectionClosed => String::from_str("connection closed"),
            LanError::FrameTooLarge(n) => {
                let mut v = chars_of("frame too large: ");
                push_decimal(&mut v, *n as u64);
                let t = chars_of(" bytes");
                extend_chars(&mut v, t.as_slice());
                string_from_chars(v.as_slice())
            },
            LanError::Json(m) => with_prefix("json error: ", m),
            LanError::Remote(c, m) => {
                let mut v = chars_of("remote error ");
                push_decimal(&mut v, *c as u64);
                let t = chars_of(": ");
                extend_chars(&mut v, t.as_slice());
                let w = chars_of(m.as_str());
                extend_chars(&mut v, w.as_slice());
                string_from_chars(v.as_slice())
            },
            LanError::LocalStore(m) => with_prefix("local store error: ", m),
            LanError::Io(m) => with_prefix("io error: ", m),
        }
    }
}

/// The command error for a sharing error: its message as a sharing error.
pub fn ipc_from_lan(e: &LanError) -> (r: IpcError)
    ensures
        r matches IpcError::Lan(m) && m@ == lan_message(*e),
{
    IpcError::Lan(e.message())
}

} // verus!
