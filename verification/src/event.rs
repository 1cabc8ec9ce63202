//! Pointer events as the container sees them, and the intents it publishes.

use vstd::prelude::*;
use crate::connection::{Link, LogicalEndpoint};

verus! {

/// Whether a widget consumed an event.
#[derive(Clone, Copy, Debug, PartialEq, Eq, Structural)]
pub enum Status {
    /// Nobody reacted to the event.
    Ignored,
    /// The event was consumed.
    Captured,
}

/// The events the container distinguishes. `S` is the host's scalar type for
/// a scroll amount.
#[derive(Clone, Copy, Debug, PartialEq)]
pub enum PointerEvent<S> {
    /// The left button went down.
    LeftPressed,
    /// The left button went up.
    LeftReleased,
    /// The cursor moved.
    CursorMoved,
    /// The wheel was turned by the given vertical amount.
    WheelScrolled(S),
    /// Any other event; the container itself never reacts to it.
    Other,
}

/// Where the cursor is, for a cursor that is inside the container's bounds:
/// one point in three frames.
#[derive(Clone, Copy, Debug, PartialEq)]
pub struct CursorPosition<P> {
    /// The cursor relative to the origin of the container's bounds.
    pub local: P,
    /// `local` with the viewport translation subtracted: the frame in which
    /// the socket buffer holds its regions.
    pub pre_translation: P,
    /// `pre_translation` divided by the viewport scale: the frame in which
    /// the host keeps its nodes.
    pub world: P,
}

/// What the container asks of the host. The host owns the graph and the
/// viewport transform, so every change is published as one of these.
#[derive(Clone, Copy, Debug, PartialEq)]
pub enum Intent<P, S> {
    /// Shift what is being dragged by the way of the cursor, from `from` to
    /// `to`; both are in screen units.
    Translate { from: P, to: P },
    /// Zoom about the point `at`, which is relative to the origin of the
    /// container's bounds, in or out as the scroll amount `delta` says.
    Scale { at: P, delta: S },
    /// Add the connection.
    Connect(Link<P>),
    /// Remove the connection that ends in the socket; the point is the cursor
    /// in world coordinates.
    Disconnect(LogicalEndpoint, P),
    /// A connection is being drafted from the socket and currently looks like
    /// the link, or, with `None`, drafting has ended.
    Dangling(Option<(LogicalEndpoint, Link<P>)>),
}

/// What the caller of the container's event handling does next.
#[derive(Clone, Copy, Debug, PartialEq, Eq, Structural)]
pub enum Step {
    /// Offer the event to the child at this index and report its status back.
    Forward(usize),
    /// The event has been dealt with; this is its status.
    Done(Status),
}

} // verus!
