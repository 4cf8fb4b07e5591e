//! Which side of the monitored connection a frame came from.

use crate::frame_meta::SessionMeta;
use vstd::prelude::*;

verus! {

/// The side of the connection that sent a frame or a message.
#[derive(Clone, Copy, Debug, PartialEq, Eq, Structural, Hash)]
pub enum Direction {
    /// Sent by the client, towards the service port.
    ClientOrigin,
    /// Sent by the server, from the service port.
    ServerOrigin,
}

/// The direction that the port rule gives a frame sent from `src_port`:
/// the server's when the port is the service port, the client's otherwise.
pub open spec fn direction_of_port(src_port: u16, service_port: u16) -> Direction {
    if src_port == service_port {
        Direction::ServerOrigin
    } else {
        Direction::ClientOrigin
    }
}

/// A rule that tells the direction of a frame from its addressing.
pub trait DirectionStrategy {
    /// The direction this rule gives to `meta`.
    spec fn direction_of(&self, meta: SessionMeta) -> Direction;

    /// Classifies one frame by its addressing.
    fn classify(&self, meta: &SessionMeta) -> (dir: Direction)
        ensures
            dir == self.direction_of(*meta),
    ;
}

/// Classification by a single well-known port: only the server is assumed
/// to send from the service port. A client whose ephemeral port happens to
/// be the service port is taken for the server; the rule accepts that.
#[derive(Clone, Copy, Debug, PartialEq, Eq, Structural)]
pub struct PortHeuristic {
    /// The TCP port the service listens on.
    pub service_port: u16,
}

impl PortHeuristic {
    /// A rule keyed on `service_port`.
    pub fn new(service_port: u16) -> (rule: PortHeuristic)
        ensures
            rule.service_port == service_port,
    {
        PortHeuristic { service_port }
    }
}

impl DirectionStrategy for PortHeuristic {
    open spec fn direction_of(&self, meta: SessionMeta) -> Direction {
        direction_of_port(meta.src_port, self.service_port)
    }

    fn classify(&self, meta: &SessionMeta) -> (dir: Direction) {
        classify_direction(meta, self.service_port)
    }
}

/// Classifies a frame by the port rule.
pub fn classify_direction(meta: &SessionMeta, service_port: u16) -> (dir: Direction)
    ensures
        dir == direction_of_port(meta.src_port, service_port),
        dir == Direction::ServerOrigin <==> meta.src_port == service_port,
        dir == Direction::ClientOrigin <==> meta.src_port != service_port,
{
    if meta.src_port == service_port {
        Direction::ServerOrigin
    } else {
        Direction::ClientOrigin
    }
}

} // verus!
