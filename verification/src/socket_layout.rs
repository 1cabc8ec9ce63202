//! The socket buffer: where the sockets of each node ended up in the last
//! layout pass.
//!
//! Nodes record the hit regions of their sockets while they are laid out; the
//! container reads them back to find the socket under the cursor and the
//! connections read them to find their ends. The regions are values of the
//! host's rectangle type `R`, in container coordinates before the viewport
//! translation is applied.

use vstd::prelude::*;
use crate::connection::{Endpoint, Link, LogicalEndpoint, SocketRole};

verus! {

/// The hit region of one socket, as a node's layout computed it.
#[derive(Clone, Copy, Debug, PartialEq)]
pub struct SocketBlob<R> {
    pub role: SocketRole,
    pub rect: R,
}

/// Where one end of a connection is drawn: at the region of a socket, or at
/// a free point. Both are in the frame of the socket buffer.
#[derive(Clone, Copy, Debug, PartialEq)]
pub enum Anchor<R, P> {
    Blob(R),
    Point(P),
}

/// The regions of one node's sockets, by role, each in declaration order.
struct NodeSockets<R> {
    inputs: Vec<R>,
    outputs: Vec<R>,
}

/// The socket regions of all nodes of one layout pass.
pub struct SocketLayoutState<R> {
    nodes: Vec<NodeSockets<R>>,
    done: bool,
}

/// What a [`SocketLayoutState`] holds: for each node, in layout order, the
/// regions of its `In` sockets and of its `Out` sockets, and whether the pass
/// that recorded them has finished.
pub struct SocketLayoutView<R> {
    pub inputs: Seq<Seq<R>>,
    pub outputs: Seq<Seq<R>>,
    pub done: bool,
}

/// The regions of those blobs that have the given role, in the order of the
/// blobs.
pub open spec fn rects_with_role<R>(blobs: Seq<SocketBlob<R>>, role: SocketRole) -> Seq<R>
    decreases blobs.len(),
{
    if blobs.len() == 0 {
        seq![]
    } else if blobs.last().role == role {
        rects_with_role(blobs.drop_last(), role).push(blobs.last().rect)
    } else {
        rects_with_role(blobs.drop_last(), role)
    }
}

/// The order in which the sockets are tested against the cursor: all `In`
/// sockets before all `Out` sockets, within a role by node, within a node by
/// socket. Of several sockets under the cursor the last one in this order is
/// the hovered one.
pub open spec fn tested_before(a: LogicalEndpoint, b: LogicalEndpoint) -> bool {
    if a.role != b.role {
        a.role == SocketRole::In
    } else if a.node_index != b.node_index {
        a.node_index < b.node_index
    } else {
        a.socket_index < b.socket_index
    }
}

impl<R> View for SocketLayoutState<R> {
    type V = SocketLayoutView<R>;

    closed spec fn view(&self) -> SocketLayoutView<R> {
        SocketLayoutView {
            inputs: Seq::new(self.nodes@.len(), |i: int| self.nodes@[i].inputs@),
            outputs: Seq::new(self.nodes@.len(), |i: int| self.nodes@[i].outputs@),
            done: self.done,
        }
    }
}

impl<R> SocketLayoutView<R> {
    /// The buffer before anything is recorded.
    pub open spec fn empty() -> Self {
        SocketLayoutView { inputs: seq![], outputs: seq![], done: false }
    }

    /// The regions of the sockets of one role, by node.
    pub open spec fn rows(self, role: SocketRole) -> Seq<Seq<R>> {
        match role {
            SocketRole::In => self.inputs,
            SocketRole::Out => self.outputs,
        }
    }

    /// Whether the buffer holds a region for the socket.
    pub open spec fn has_socket(self, socket: LogicalEndpoint) -> bool {
        &&& socket.node_index < self.rows(socket.role).len()
        &&& socket.socket_index < self.rows(socket.role)[socket.node_index as int].len()
    }

    /// The region recorded for the socket.
    pub open spec fn rect(self, socket: LogicalEndpoint) -> R
        recommends
            self.has_socket(socket),
    {
        self.rows(socket.role)[socket.node_index as int][socket.socket_index as int]
    }

    /// Where an endpoint is drawn, if that can be said: a free point always
    /// can, a socket only once the layout pass has finished and only if the
    /// buffer holds a region for it.
    pub open spec fn anchor<P>(self, endpoint: Endpoint<P>) -> Option<Anchor<R, P>> {
        match endpoint {
            Endpoint::Socket(socket) => if self.done && self.has_socket(socket) {
                Some(Anchor::Blob(self.rect(socket)))
            } else {
                None
            },
            Endpoint::Absolute(point) => Some(Anchor::Point(point)),
        }
    }

    /// This buffer after one more node has recorded the given blobs.
    pub open spec fn with_node(self, blobs: Seq<SocketBlob<R>>) -> Self {
        SocketLayoutView {
            inputs: self.inputs.push(rects_with_role(blobs, SocketRole::In)),
            outputs: self.outputs.push(rects_with_role(blobs, SocketRole::Out)),
            done: self.done,
        }
    }
}

impl<R> SocketLayoutState<R> {
    /// An empty buffer on which no layout pass has run.
    pub fn new() -> (state: Self)
        ensures
            state@ == SocketLayoutView::<R>::empty(),
    {
        let state = SocketLayoutState { nodes: Vec::new(), done: false };
        assert(state@.inputs =~= seq![]);
        assert(state@.outputs =~= seq![]);
        state
    }

    /// Forgets everything; a layout pass starts with this.
    pub fn clear(&mut self)
        ensures
            final(self)@ == SocketLayoutView::<R>::empty(),
    {
        self.nodes.clear();
        self.done = false;
        assert(self@.inputs =~= seq![]);
        assert(self@.outputs =~= seq![]);
    }

    /// Marks the layout pass as finished: from now on the buffer describes
    /// what is on screen.
    pub fn finish(&mut self)
        ensures
            final(self)@ == (SocketLayoutView { done: true, ..old(self)@ }),
    {
        self.done = true;
    }

    /// The inputs and the outputs are recorded node by node: both have one
    /// entry for every node.
    pub proof fn lemma_roles_are_parallel(&self)
        ensures
            self@.inputs.len() == self@.outputs.len(),
    {
    }

    /// Whether a layout pass has finished since the buffer was last cleared.
    pub fn is_done(&self) -> (done: bool)
        ensures
            done == self@.done,
    {
        self.done
    }

    /// The number of nodes that have recorded their sockets.
    pub fn node_count(&self) -> (count: usize)
        ensures
            count == self@.inputs.len(),
            count == self@.outputs.len(),
    {
        self.nodes.len()
    }
}

impl<R: Copy> SocketLayoutState<R> {
    /// Records the sockets of the next node: each blob's region goes to the
    /// inputs or to the outputs of the node by its role, in the order given.
    pub fn push_node(&mut self, blobs: &Vec<SocketBlob<R>>)
        ensures
            final(self)@ == old(self)@.with_node(blobs@),
    {
        let mut inputs: Vec<R> = Vec::new();
        let mut outputs: Vec<R> = Vec::new();
        for i in 0..blobs.len()
            invariant
                inputs@ == rects_with_role(blobs@.take(i as int), SocketRole::In),
                outputs@ == rects_with_role(blobs@.take(i as int), SocketRole::Out),
        {
            assert(blobs@.take(i + 1).drop_last() =~= blobs@.take(i as int));
            let blob = &blobs[i];
            match blob.role {
                SocketRole::In => inputs.push(blob.rect),
                SocketRole::Out => outputs.push(blob.rect),
            }
        }
        assert(blobs@.take(blobs.len() as int) =~= blobs@);
        self.nodes.push(NodeSockets { inputs, outputs });
        assert(self@.inputs =~= old(self)@.inputs.push(rects_with_role(blobs@, SocketRole::In)));
        assert(self@.outputs =~= old(self)@.outputs.push(
            rects_with_role(blobs@, SocketRole::Out),
        ));
    }

    /// Runs a whole layout pass over nodes whose socket regions are known:
    /// the buffer is cleared, every node records its blobs in turn, and the
    /// pass is marked as finished. Afterwards the inputs and outputs of the
    /// node at each index are exactly that node's `In` and `Out` sockets, in
    /// declaration order.
    pub fn layout(&mut self, nodes: &Vec<Vec<SocketBlob<R>>>)
        ensures
            final(self)@.done,
            final(self)@.inputs.len() == nodes.len(),
            final(self)@.outputs.len() == nodes.len(),
            forall|i: int|
                0 <= i < nodes.len() ==> #[trigger] final(self)@.inputs[i] == rects_with_role(
                    nodes[i]@,
                    SocketRole::In,
                ),
            forall|i: int|
                0 <= i < nodes.len() ==> #[trigger] final(self)@.outputs[i] == rects_with_role(
                    nodes[i]@,
                    SocketRole::Out,
                ),
    {
        self.clear();
        for n in 0..nodes.len()
            invariant
                !self@.done,
                self@.inputs.len() == n,
                self@.outputs.len() == n,
                forall|i: int|
                    0 <= i < n ==> #[trigger] self@.inputs[i] == rects_with_role(
                        nodes[i]@,
                        SocketRole::In,
                    ),
                forall|i: int|
                    0 <= i < n ==> #[trigger] self@.outputs[i] == rects_with_role(
                        nodes[i]@,
                        SocketRole::Out,
                    ),
        {
            self.push_node(&nodes[n]);
        }
        self.finish();
    }

    /// The region of a socket, for a connection that ends there. There is
    /// none while no layout pass has finished, for a node that is not in the
    /// buffer, and for a socket that the node does not have.
    pub fn blob(&self, socket: LogicalEndpoint) -> (rect: Option<R>)
        ensures
            rect == if self@.done && self@.has_socket(socket) {
                Some(self@.rect(socket))
            } else {
                None
            },
    {
        if !self.done || socket.node_index >= self.nodes.len() {
            return None;
        }
        let node = &self.nodes[socket.node_index];
        let row = match socket.role {
            SocketRole::In => &node.inputs,
            SocketRole::Out => &node.outputs,
        };
        if socket.socket_index < row.len() {
            Some(row[socket.socket_index])
        } else {
            None
        }
    }

    /// Where one end of a connection is drawn, or `None` if it is a socket
    /// that cannot be found.
    pub fn anchor<P: Copy>(&self, endpoint: &Endpoint<P>) -> (anchor: Option<Anchor<R, P>>)
        ensures
            anchor == self@.anchor(*endpoint),
    {
        match endpoint {
            Endpoint::Socket(socket) => match self.blob(*socket) {
                Some(rect) => Some(Anchor::Blob(rect)),
                None => None,
            },
            Endpoint::Absolute(point) => Some(Anchor::Point(*point)),
        }
    }

    /// Where the two ends of a connection are drawn. A connection of which
    /// one end cannot be found is not drawn at all: the result is `None`.
    pub fn anchors<P: Copy>(&self, link: &Link<P>) -> (ends: Option<(Anchor<R, P>, Anchor<R, P>)>)
        ensures
            ends == match (self@.anchor(link.start), self@.anchor(link.end)) {
                (Some(start), Some(end)) => Some((start, end)),
                _ => None,
            },
    {
        match self.anchor(&link.start) {
            Some(start) => match self.anchor(&link.end) {
                Some(end) => Some((start, end)),
                None => None,
            },
            None => None,
        }
    }
}

/// Every blob is recorded exactly once: the regions of a node's `In`
/// sockets and those of its `Out` sockets are together as many as the node
/// has sockets.
pub proof fn lemma_each_blob_has_one_role<R>(blobs: Seq<SocketBlob<R>>)
    ensures
        rects_with_role(blobs, SocketRole::In).len() + rects_with_role(
            blobs,
            SocketRole::Out,
        ).len() == blobs.len(),
    decreases blobs.len(),
{
    if blobs.len() > 0 {
        lemma_each_blob_has_one_role(blobs.drop_last());
    }
}

/// The regions recorded for a role are those of the blobs of that role, in
/// the order of the blobs: `position` maps each place in the row to the blob
/// it came from, and later places come from later blobs.
pub proof fn lemma_rects_keep_declared_order<R>(
    blobs: Seq<SocketBlob<R>>,
    role: SocketRole,
) -> (position: Seq<int>)
    ensures
        position.len() == rects_with_role(blobs, role).len(),
        forall|k: int|
            0 <= k < position.len() ==> 0 <= #[trigger] position[k] < blobs.len()
                && blobs[position[k]].role == role && blobs[position[k]].rect == rects_with_role(
                blobs,
                role,
            )[k],
        forall|j: int, k: int|
            0 <= j < k < position.len() ==> #[trigger] position[j] < #[trigger] position[k],
        forall|i: int|
            0 <= i < blobs.len() && blobs[i].role == role ==> exists|k: int|
                0 <= k < position.len() && #[trigger] position[k] == i,
    decreases blobs.len(),
{
    if blobs.len() == 0 {
        seq![]
    } else {
        let front = lemma_rects_keep_declared_order(blobs.drop_last(), role);
        let last = blobs.len() - 1;
        if blobs.last().role == role {
            let position = front.push(last);
            assert forall|i: int| 0 <= i < blobs.len() && blobs[i].role == role implies exists|
                k: int,
            |
                0 <= k < position.len() && #[trigger] position[k] == i by {
                if i < last {
                    assert(blobs.drop_last()[i].role == role);
                    let k = choose|k: int| 0 <= k < front.len() && #[trigger] front[k] == i;
                    assert(position[k] == i);
                } else {
                    assert(position[front.len() as int] == i);
                }
            }
            position
        } else {
            assert forall|i: int| 0 <= i < blobs.len() && blobs[i].role == role implies exists|
                k: int,
            |
                0 <= k < front.len() && #[trigger] front[k] == i by {
                assert(blobs.drop_last()[i].role == role);
            }
            front
        }
    }
}

impl<R> SocketLayoutView<R> {
    /// Whether `hovered` is what the hit test `contains` finds in this
    /// buffer for the point `point`: the last socket, in testing order, whose
    /// region the test accepts, and `None` if it accepts none.
    pub open spec fn finds<P, F: Fn(&R, &P) -> bool>(
        self,
        contains: F,
        point: P,
        hovered: Option<LogicalEndpoint>,
    ) -> bool {
        match hovered {
            Some(hit) => {
                &&& self.has_socket(hit)
                &&& call_ensures(contains, (&self.rect(hit), &point), true)
                &&& forall|other: LogicalEndpoint|
                    #![trigger self.has_socket(other)]
                    self.has_socket(other) && tested_before(hit, other) ==> call_ensures(
                        contains,
                        (&self.rect(other), &point),
                        false,
                    )
            },
            None => forall|other: LogicalEndpoint|
                #![trigger self.has_socket(other)]
                self.has_socket(other) ==> call_ensures(
                    contains,
                    (&self.rect(other), &point),
                    false,
                ),
        }
    }

    /// Whether the hit test `contains` may be asked about every region in
    /// this buffer together with `point`.
    pub open spec fn testable<P, F: Fn(&R, &P) -> bool>(self, contains: F, point: P) -> bool {
        forall|socket: LogicalEndpoint|
            #![trigger self.has_socket(socket)]
            self.has_socket(socket) ==> call_requires(contains, (&self.rect(socket), &point))
    }

    /// Whether the hit test `contains` gives one answer only for every
    /// region in this buffer together with `point`.
    pub open spec fn decided<P, F: Fn(&R, &P) -> bool>(self, contains: F, point: P) -> bool {
        forall|socket: LogicalEndpoint|
            #![trigger self.has_socket(socket)]
            self.has_socket(socket) ==> !(call_ensures(
                contains,
                (&self.rect(socket), &point),
                true,
            ) && call_ensures(contains, (&self.rect(socket), &point), false))
    }

    /// A hit test that gives one answer only finds one thing only: what is
    /// hovered is determined by the buffer, the test and the point.
    pub proof fn lemma_hovered_socket_is_unique<P, F: Fn(&R, &P) -> bool>(
        self,
        contains: F,
        point: P,
        first: Option<LogicalEndpoint>,
        second: Option<LogicalEndpoint>,
    )
        requires
            self.decided(contains, point),
            self.finds(contains, point, first),
            self.finds(contains, point, second),
        ensures
            first == second,
    {
        match (first, second) {
            (Some(a), Some(b)) => {
                if a != b {
                    assert(tested_before(a, b) || tested_before(b, a));
                }
            },
            _ => {},
        }
    }
}

impl<R> SocketLayoutState<R> {
    /// Whether `best` is the last accepted socket among those of the role
    /// that come before socket `s` of node `n`.
    spec fn last_hit_before<P, F: Fn(&R, &P) -> bool>(
        self,
        role: SocketRole,
        contains: F,
        point: P,
        n: int,
        s: int,
        best: Option<LogicalEndpoint>,
    ) -> bool {
        match best {
            Some(hit) => {
                &&& hit.role == role
                &&& self@.has_socket(hit)
                &&& call_ensures(contains, (&self@.rect(hit), &point), true)
                &&& forall|other: LogicalEndpoint|
                    #![trigger self@.has_socket(other)]
                    other.role == role && self@.has_socket(other) && tested_before(hit, other) && (
                    other.node_index < n || (other.node_index == n && other.socket_index < s))
                        ==> call_ensures(contains, (&self@.rect(other), &point), false)
            },
            None => forall|other: LogicalEndpoint|
                #![trigger self@.has_socket(other)]
                other.role == role && self@.has_socket(other) && (other.node_index < n || (
                other.node_index == n && other.socket_index < s)) ==> call_ensures(
                    contains,
                    (&self@.rect(other), &point),
                    false,
                ),
        }
    }

    /// The last socket of one role, by node and socket, whose region the
    /// test accepts.
    fn last_hit<P, F: Fn(&R, &P) -> bool>(
        &self,
        role: SocketRole,
        point: &P,
        contains: &F,
    ) -> (hit: Option<LogicalEndpoint>)
        requires
            self@.testable(*contains, *point),
        ensures
            self.last_hit_before(role, *contains, *point, self@.rows(role).len() as int, 0, hit),
    {
        let mut best: Option<LogicalEndpoint> = None;
        for n in 0..self.nodes.len()
            invariant
                self@.testable(*contains, *point),
                self.last_hit_before(role, *contains, *point, n as int, 0, best),
        {
            let node = &self.nodes[n];
            let row = match role {
                SocketRole::In => &node.inputs,
                SocketRole::Out => &node.outputs,
            };
            assert(row@ == self@.rows(role)[n as int]);
            for s in 0..row.len()
                invariant
                    n < self.nodes.len(),
                    row@ == self@.rows(role)[n as int],
                    self@.testable(*contains, *point),
                    self.last_hit_before(role, *contains, *point, n as int, s as int, best),
            {
                let socket = LogicalEndpoint { node_index: n, role, socket_index: s };
                assert(self@.has_socket(socket));
                if contains(&row[s], point) {
                    best = Some(socket);
                }
            }
        }
        best
    }

    /// The socket under `point`, where `contains` says whether a region
    /// holds a point. Every region is tested, `In` sockets before `Out`
    /// sockets, by node and by socket, and the last match wins.
    pub fn hovered_socket<P, F: Fn(&R, &P) -> bool>(
        &self,
        point: &P,
        contains: F,
    ) -> (hovered: Option<LogicalEndpoint>)
        requires
            self@.testable(contains, *point),
        ensures
            self@.finds(contains, *point, hovered),
    {
        let input = self.last_hit(SocketRole::In, point, &contains);
        let output = self.last_hit(SocketRole::Out, point, &contains);
        match output {
            Some(hit) => Some(hit),
            None => input,
        }
    }
}

} // verus!
