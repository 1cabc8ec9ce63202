//! The interaction core of a node-graph editor.
//!
//! A node editor shows nodes with sockets on a canvas that can be panned and
//! zoomed, and lets the user drag nodes and draw connections between sockets.
//! This crate holds what such an editor decides, free of any toolkit:
//!
//! - [`connection`]: the ends of a connection and the link they form;
//! - [`socket_layout`]: the buffer in which nodes record where their sockets
//!   are, the hit test over it and the lookup of a connection's ends;
//! - [`graph_container`]: what a pointer event means to the container, given
//!   the sockets, the viewport drag and the children;
//! - [`node`]: the drag of a node;
//! - [`guidelines`]: the scale at which the guideline grids are drawn;
//! - [`event`]: the events that come in and the intents that go out.
//!
//! Coordinates are the host's business. Points, regions and scroll amounts
//! are type parameters that the crate stores and hands back but never
//! computes with; where a decision needs geometry, as the hit test does, the
//! host passes the test in.

pub mod connection;
pub mod event;
pub mod graph_container;
pub mod guidelines;
pub mod node;
pub mod socket_layout;

pub use connection::{Endpoint, Link, LogicalEndpoint, SocketRole};
pub use event::{CursorPosition, Intent, PointerEvent, Status, Step};
pub use graph_container::{graph_container, GraphContainer, GraphContainerState};
pub use guidelines::normalize_scale;
pub use node::NodeState;
pub use socket_layout::{Anchor, SocketBlob, SocketLayoutState};
