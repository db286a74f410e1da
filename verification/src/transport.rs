//! What a node says about the broadcast it serves.

use vstd::prelude::*;
use vstd::string::*;

use crate::args::TransportArgs;
use crate::encoding;
use crate::endpoint::EndpointId;
use crate::text;
use crate::ticket;
use crate::ticket::{LiveTicket, TicketView};

verus! {

/// How long a peer is given before a window stops waiting for it, in seconds.
pub const PEER_TIMEOUT_SECS: u64 = 20;

/// How long a headless subscription waits before it says that nothing has
/// arrived yet, in seconds.
pub const QUIET_SUBSCRIBE_SECS: u64 = 10;

/// How subscribers reach a broadcast.
#[derive(Debug, Clone, Copy, PartialEq, Eq, Structural)]
pub enum Reach {
    /// Nobody can dial this node, and the relay is the only way out.
    RelayOnly,
    /// This node neither accepts subscribers nor pushes to a relay.
    Nothing,
    /// Anybody with the ticket dials this node, which also shows a QR code of
    /// it where `qr` is set.
    Direct {
        /// Whether to draw the QR code.
        qr: bool,
    },
}

/// How a broadcast is advertised.
#[derive(Debug)]
pub struct Advertisement {
    /// The broadcast's ticket.
    pub ticket: String,
    /// How subscribers reach it.
    pub reach: Reach,
    /// The relay to connect to, if one was named.
    pub relay: Option<EndpointId>,
}

/// The ticket for a broadcast that a node publishes.
pub fn ticket(id: EndpointId, name: &str) -> (r: String)
    ensures
        r@ == ticket::uri(TicketView { id: id@, name: name@ }),
{
    LiveTicket::new(id, name.to_owned()).serialize()
}

/// Decides how a broadcast is advertised: what its ticket is, whether to hand it
/// out, and which relay to connect to.
pub fn advertise(id: EndpointId, args: &TransportArgs) -> (r: Advertisement)
    ensures
        r.ticket@ == ticket::uri(TicketView { id: id@, name: args.name@ }),
        r.relay == args.relay,
        r.reach == (if args.no_serve {
            if args.relay is Some {
                Reach::RelayOnly
            } else {
                Reach::Nothing
            }
        } else {
            Reach::Direct { qr: !args.no_qr }
        }),
{
    let reach = match (args.no_serve, args.relay) {
        (true, Some(_)) => Reach::RelayOnly,
        (true, None) => Reach::Nothing,
        (false, _) => Reach::Direct { qr: !args.no_qr },
    };
    Advertisement { ticket: ticket(id, args.name.as_str()), reach, relay: args.relay }
}

impl Advertisement {
    /// The line that tells somebody at the terminal how the broadcast is
    /// reached, and whether it is a warning.
    pub fn notice(&self) -> (r: (String, bool))
        ensures
            match self.reach {
                Reach::RelayOnly => r.0@
                    == "not serving: subscribers reach this broadcast by relay"@ && !r.1,
                Reach::Nothing => r.0@
                    == "--no-serve without --relay: nothing can reach this broadcast, since this node neither accepts subscribers nor pushes to a relay"@
                    && r.1,
                Reach::Direct { .. } => r.0@ == "publishing at "@ + self.ticket@ && !r.1,
            },
    {
        match self.reach {
            Reach::RelayOnly => (
                "not serving: subscribers reach this broadcast by relay".to_owned(),
                false,
            ),
            Reach::Nothing => (
                "--no-serve without --relay: nothing can reach this broadcast, since this node neither accepts subscribers nor pushes to a relay".to_owned(),
                true,
            ),
            Reach::Direct { .. } => (text::join2("publishing at ", self.ticket.as_str()), false),
        }
    }
}

/// What a subscriber that has been waiting for a while is told.
pub fn still_waiting(ticket: &LiveTicket) -> (r: String)
    ensures
        r@ == "still waiting for '"@ + ticket@.name + "' on "@ + encoding::hex(ticket@.id.take(5))
            + ": is the publisher running? press Ctrl+C to give up"@,
{
    text::join5(
        "still waiting for '",
        ticket.broadcast_name.as_str(),
        "' on ",
        ticket.endpoint.id.fmt_short().as_str(),
        ": is the publisher running? press Ctrl+C to give up",
    )
}

} // verus!
