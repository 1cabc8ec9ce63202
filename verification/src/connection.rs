//! Endpoints of connections and their normalisation into links.

use vstd::prelude::*;

verus! {

/// The semantic role of a socket on a node.
#[derive(Clone, Copy, Debug, PartialEq, Eq, Hash, Structural)]
pub enum SocketRole {
    /// The socket receives a connection.
    In,
    /// The socket is the origin of a connection.
    Out,
}

/// A stable reference to one socket: the node's position in the host's node
/// list, the socket's role and its position among the node's sockets of that
/// role.
#[derive(Clone, Copy, Debug, PartialEq, Eq, Hash, Structural)]
pub struct LogicalEndpoint {
    pub node_index: usize,
    pub role: SocketRole,
    pub socket_index: usize,
}

/// One end of a connection: a socket, or a free point on the canvas (the end
/// of a connection that is being dragged follows the cursor).
///
/// `P` is the host's point type; the library only carries it along.
#[derive(Clone, Copy, Debug, PartialEq)]
pub enum Endpoint<P> {
    Socket(LogicalEndpoint),
    Absolute(P),
}

/// A pair of endpoints in drawing direction: where both roles are known the
/// `Out` socket is `start` and the `In` socket is `end`.
#[derive(Clone, Copy, Debug, PartialEq)]
pub struct Link<P> {
    pub start: Endpoint<P>,
    pub end: Endpoint<P>,
}

impl<P> Endpoint<P> {
    /// Whether this endpoint is a socket of the given role.
    pub open spec fn has_role(self, role: SocketRole) -> bool {
        self matches Endpoint::Socket(e) && e.role == role
    }

    /// Position of the endpoint in a link: `Out` sockets come before free
    /// points, free points before `In` sockets.
    pub open spec fn rank(self) -> int {
        match self {
            Endpoint::Socket(e) => match e.role {
                SocketRole::Out => 0,
                SocketRole::In => 2,
            },
            Endpoint::Absolute(_) => 1,
        }
    }

    /// Whether this endpoint is a socket of the given role.
    pub fn is_socket_with_role(&self, role: SocketRole) -> (yes: bool)
        ensures
            yes == self.has_role(role),
    {
        match self {
            Endpoint::Socket(e) => e.role == role,
            Endpoint::Absolute(_) => false,
        }
    }
}

impl<P> Link<P> {
    /// The link that two endpoints given in any order form: if exactly one of
    /// them is an `Out` socket it comes first; otherwise, if exactly one is an
    /// `In` socket, it comes last; otherwise the given order is kept.
    pub open spec fn normalized(a: Endpoint<P>, b: Endpoint<P>) -> Link<P> {
        if a.has_role(SocketRole::Out) != b.has_role(SocketRole::Out) {
            if a.has_role(SocketRole::Out) {
                Link { start: a, end: b }
            } else {
                Link { start: b, end: a }
            }
        } else if a.has_role(SocketRole::In) != b.has_role(SocketRole::In) {
            if a.has_role(SocketRole::In) {
                Link { start: b, end: a }
            } else {
                Link { start: a, end: b }
            }
        } else {
            Link { start: a, end: b }
        }
    }

    /// Builds the link between two endpoints given in any order.
    pub fn from_unordered(a: Endpoint<P>, b: Endpoint<P>) -> (link: Link<P>)
        ensures
            link == Self::normalized(a, b),
    {
        let a_is_out = a.is_socket_with_role(SocketRole::Out);
        let b_is_out = b.is_socket_with_role(SocketRole::Out);
        let swap = if a_is_out != b_is_out {
            b_is_out
        } else {
            a.is_socket_with_role(SocketRole::In) && !b.is_socket_with_role(SocketRole::In)
        };
        if swap {
            Link { start: b, end: a }
        } else {
            Link { start: a, end: b }
        }
    }

    /// Normalising is a stable sort of the two endpoints by rank: the result
    /// holds the same two endpoints, never a higher rank before a lower one,
    /// and endpoints of equal rank in the given order.
    pub proof fn lemma_normalized_sorts_by_rank(a: Endpoint<P>, b: Endpoint<P>)
        ensures
            Self::normalized(a, b).start.rank() <= Self::normalized(a, b).end.rank(),
            a.rank() <= b.rank() ==> Self::normalized(a, b) == (Link { start: a, end: b }),
            a.rank() > b.rank() ==> Self::normalized(a, b) == (Link { start: b, end: a }),
    {
    }

    /// Two endpoints of different rank give the same link in either order.
    pub proof fn lemma_normalized_ignores_order(a: Endpoint<P>, b: Endpoint<P>)
        requires
            a.rank() != b.rank(),
        ensures
            Self::normalized(a, b) == Self::normalized(b, a),
    {
    }

    /// An `Out` socket and an `In` socket form the same link whichever is
    /// named first, and the `Out` socket is its start.
    pub proof fn lemma_out_socket_comes_first(out: LogicalEndpoint, inp: LogicalEndpoint)
        requires
            out.role == SocketRole::Out,
            inp.role == SocketRole::In,
        ensures
            Self::normalized(Endpoint::Socket(out), Endpoint::Socket(inp)) == Self::normalized(
                Endpoint::Socket(inp),
                Endpoint::Socket(out),
            ),
            Self::normalized(Endpoint::<P>::Socket(out), Endpoint::Socket(inp)) == (Link {
                start: Endpoint::<P>::Socket(out),
                end: Endpoint::Socket(inp),
            }),
    {
    }

    /// Whenever one of the two endpoints is an `Out` socket, the link starts
    /// at an `Out` socket.
    pub proof fn lemma_start_is_out_when_present(a: Endpoint<P>, b: Endpoint<P>)
        requires
            a.has_role(SocketRole::Out) || b.has_role(SocketRole::Out),
        ensures
            Self::normalized(a, b).start.has_role(SocketRole::Out),
    {
    }

    /// Normalising a link that is already normalised changes nothing.
    pub proof fn lemma_normalized_idempotent(a: Endpoint<P>, b: Endpoint<P>)
        ensures
            Self::normalized(Self::normalized(a, b).start, Self::normalized(a, b).end)
                == Self::normalized(a, b),
    {
    }
}

} // verus!
