//! One-to-one calls: where each side publishes, and how a call ended.

use vstd::prelude::*;
use vstd::string::*;

use crate::encoding;
use crate::endpoint::EndpointId;
use crate::text;

verus! {

/// The path a peer publishes its side of a call on: `calls/<endpoint id>`, so
/// that two peers in a call each publish under their own id.
pub open spec fn path_of(publisher: Seq<u8>) -> Seq<char> {
    "calls"@ + "/"@ + encoding::hex(publisher)
}

/// A one-to-one call.
#[derive(Debug)]
pub struct Call;

impl Call {
    /// The path a node publishes its side of a call on.
    pub fn path(publisher: EndpointId) -> (r: String)
        ensures
            r@ == path_of(publisher@),
            r@ == "calls/"@ + encoding::hex(publisher@),
    {
        proof {
            reveal_strlit("calls");
            reveal_strlit("/");
            reveal_strlit("calls/");
            assert("calls"@ + "/"@ =~= "calls/"@);
        }
        text::join3("calls", "/", publisher.to_text().as_str())
    }
}

/// No two peers publish their sides of a call on one path, so concurrent calls
/// do not collide.
pub proof fn call_paths_do_not_collide(a: Seq<u8>, b: Seq<u8>)
    requires
        path_of(a) == path_of(b),
    ensures
        a == b,
{
    let prefix = "calls"@ + "/"@;
    assert(path_of(a).skip(prefix.len() as int) =~= encoding::hex(a));
    assert(path_of(b).skip(prefix.len() as int) =~= encoding::hex(b));
    encoding::hex_injective(a, b);
}

/// Why a connection ended, as the transport reports it.
#[derive(Debug, Clone, Copy, PartialEq, Eq, Structural)]
pub enum CloseReason {
    /// This end closed it.
    LocallyClosed,
    /// The application at the other end closed it.
    ApplicationClosed,
    /// The transport at the other end closed it.
    ConnectionClosed,
    /// The other end no longer knows the connection.
    Reset,
    /// Anything else.
    Other,
}

/// Why a call ended.
#[derive(Debug, Clone, Copy, PartialEq, Eq, Structural)]
pub enum DisconnectReason {
    /// This side hung up.
    LocalClose,
    /// The other side hung up.
    RemoteClose,
    /// The connection failed.
    TransportError,
}

/// Why a call ended, from the reason its connection was closed for. A session
/// that closed before its connection gave a reason was most likely closed by
/// the other side.
pub fn disconnect_reason(reason: Option<CloseReason>) -> (r: DisconnectReason)
    ensures
        r == (match reason {
            Some(CloseReason::LocallyClosed) => DisconnectReason::LocalClose,
            Some(CloseReason::Other) => DisconnectReason::TransportError,
            _ => DisconnectReason::RemoteClose,
        }),
{
    match reason {
        Some(CloseReason::LocallyClosed) => DisconnectReason::LocalClose,
        Some(CloseReason::ApplicationClosed) | Some(CloseReason::ConnectionClosed) => {
            DisconnectReason::RemoteClose
        },
        Some(CloseReason::Reset) => DisconnectReason::RemoteClose,
        Some(CloseReason::Other) => DisconnectReason::TransportError,
        None => DisconnectReason::RemoteClose,
    }
}

} // verus!
