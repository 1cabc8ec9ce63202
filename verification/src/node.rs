//! Dragging a node.
//!
//! A node that is pressed on its body follows the cursor until the button is
//! released. The node does not move itself: each cursor move is published as
//! a translation in screen units, which the host divides by the viewport
//! scale before it updates the node's position.

use vstd::prelude::*;
use crate::event::{Intent, PointerEvent, Status};

verus! {

/// What a node keeps between events: where the cursor was when the drag of
/// the node began or last moved, while one is going on.
#[derive(Clone, Copy, Debug, PartialEq)]
pub struct NodeState<P> {
    pub drag_start_position: Option<P>,
}

/// A node's answer to one event: whether it captured the event, the intents
/// to publish and the drag state afterwards.
pub struct NodeReaction<P, S> {
    pub status: Status,
    pub intents: Seq<Intent<P, S>>,
    pub drag_start_position: Option<P>,
}

/// The reaction of a node to an event that its content did not capture.
///
/// `cursor` is the cursor position, if there is one, and `over` says whether
/// it is inside the node's bounds. A left press inside the bounds starts a
/// drag and is captured. During a drag every cursor move is captured,
/// publishes the way from the last position to the cursor if the host listens
/// (`on_translate`), and makes the cursor the new last position; a left
/// release ends the drag without capturing.
pub open spec fn node_reaction<P, S>(
    drag: Option<P>,
    on_translate: bool,
    event: PointerEvent<S>,
    cursor: Option<P>,
    over: bool,
) -> NodeReaction<P, S> {
    match (drag, event, cursor) {
        (Some(start), PointerEvent::CursorMoved, Some(position)) => NodeReaction {
            status: Status::Captured,
            intents: if on_translate {
                seq![Intent::Translate { from: start, to: position }]
            } else {
                seq![]
            },
            drag_start_position: Some(position),
        },
        (Some(_), PointerEvent::LeftReleased, _) => NodeReaction {
            status: Status::Ignored,
            intents: seq![],
            drag_start_position: None,
        },
        (None, PointerEvent::LeftPressed, Some(position)) => if over {
            NodeReaction {
                status: Status::Captured,
                intents: seq![],
                drag_start_position: Some(position),
            }
        } else {
            NodeReaction { status: Status::Ignored, intents: seq![], drag_start_position: drag }
        },
        _ => NodeReaction { status: Status::Ignored, intents: seq![], drag_start_position: drag },
    }
}

impl<P: Copy> NodeState<P> {
    /// The state of a node that is not being dragged.
    pub fn new() -> (state: Self)
        ensures
            state.drag_start_position is None,
    {
        NodeState { drag_start_position: None }
    }

    /// Handles an event that the node's content did not capture. What the
    /// node publishes is appended to `intents`.
    pub fn on_event<S: Copy>(
        &mut self,
        on_translate: bool,
        event: PointerEvent<S>,
        cursor: Option<P>,
        over: bool,
        intents: &mut Vec<Intent<P, S>>,
    ) -> (status: Status)
        ensures
            status == node_reaction(
                old(self).drag_start_position,
                on_translate,
                event,
                cursor,
                over,
            ).status,
            final(intents)@ == old(intents)@ + node_reaction(
                old(self).drag_start_position,
                on_translate,
                event,
                cursor,
                over,
            ).intents,
            final(self).drag_start_position == node_reaction::<P, S>(
                old(self).drag_start_position,
                on_translate,
                event,
                cursor,
                over,
            ).drag_start_position,
    {
        match self.drag_start_position {
            Some(start) => match event {
                PointerEvent::CursorMoved => match cursor {
                    Some(position) => {
                        self.drag_start_position = Some(position);
                        if on_translate {
                            intents.push(Intent::Translate { from: start, to: position });
                        }
                        Status::Captured
                    },
                    None => Status::Ignored,
                },
                PointerEvent::LeftReleased => {
                    self.drag_start_position = None;
                    Status::Ignored
                },
                _ => Status::Ignored,
            },
            None => match (event, cursor) {
                (PointerEvent::LeftPressed, Some(position)) => {
                    if over {
                        self.drag_start_position = Some(position);
                        Status::Captured
                    } else {
                        Status::Ignored
                    }
                },
                _ => Status::Ignored,
            },
        }
    }
}

} // verus!
