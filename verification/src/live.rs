//! How a node is put together before it starts.

use vstd::prelude::*;

verus! {

/// Where the gossip instance comes from, if there is one.
///
/// One choice rather than an optional instance beside a flag, so that the last
/// call wins and no combination of calls can mean two things at once.
#[derive(Debug, PartialEq, Eq)]
pub enum GossipChoice<G> {
    /// Rooms are not in use, so nothing is spawned or mounted.
    Disabled,
    /// Spawn one on the endpoint.
    Internal,
    /// Use the caller's, which they already spawned.
    External(G),
}

/// What a node is to be made of: an endpoint, perhaps a gossip instance, and
/// perhaps a router that accepts incoming sessions.
#[derive(Debug)]
pub struct LiveBuilder<E, G> {
    endpoint: E,
    gossip: GossipChoice<G>,
    with_router: bool,
}

impl<E, G> LiveBuilder<E, G> {
    /// The endpoint to build on.
    pub closed spec fn on(self) -> E {
        self.endpoint
    }

    /// Where gossip comes from.
    pub closed spec fn gossip_from(self) -> GossipChoice<G> {
        self.gossip
    }

    /// Whether incoming sessions are accepted.
    pub closed spec fn routes(self) -> bool {
        self.with_router
    }

    /// A builder for an existing endpoint: no gossip, and nothing accepted.
    pub fn new(endpoint: E) -> (r: LiveBuilder<E, G>)
        ensures
            r.on() == endpoint,
            r.gossip_from() == GossipChoice::<G>::Disabled,
            !r.routes(),
    {
        LiveBuilder { endpoint, gossip: GossipChoice::Disabled, with_router: false }
    }

    /// Enables gossip, which rooms need. Overrides an earlier
    /// [`gossip`](Self::gossip).
    pub fn with_gossip(self) -> (r: LiveBuilder<E, G>)
        ensures
            r.on() == self.on(),
            r.gossip_from() == GossipChoice::<G>::Internal,
            r.routes() == self.routes(),
    {
        LiveBuilder {
            endpoint: self.endpoint,
            gossip: GossipChoice::Internal,
            with_router: self.with_router,
        }
    }

    /// Uses a gossip instance the caller already spawned. Overrides an earlier
    /// [`with_gossip`](Self::with_gossip).
    pub fn gossip(self, gossip: G) -> (r: LiveBuilder<E, G>)
        ensures
            r.on() == self.on(),
            r.gossip_from() == GossipChoice::External(gossip),
            r.routes() == self.routes(),
    {
        LiveBuilder {
            endpoint: self.endpoint,
            gossip: GossipChoice::External(gossip),
            with_router: self.with_router,
        }
    }

    /// Accepts incoming sessions. Without this, only outbound connections work.
    pub fn with_router(self) -> (r: LiveBuilder<E, G>)
        ensures
            r.on() == self.on(),
            r.gossip_from() == self.gossip_from(),
            r.routes(),
    {
        LiveBuilder { endpoint: self.endpoint, gossip: self.gossip, with_router: true }
    }

    /// Takes the builder apart into what the node is made of.
    pub fn into_parts(self) -> (r: (E, GossipChoice<G>, bool))
        ensures
            r.0 == self.on(),
            r.1 == self.gossip_from(),
            r.2 == self.routes(),
    {
        (self.endpoint, self.gossip, self.with_router)
    }
}

} // verus!
