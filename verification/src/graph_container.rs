//! The graph container: arbitration of pointer events between sockets, the
//! viewport and the children.
//!
//! The container owns no graph. On every event it decides, in this order of
//! priority, whether the event is a socket interaction, the continuation of a
//! viewport drag, something for one of its children, or the start of a
//! viewport gesture, and it publishes what it decided as [`Intent`]s. Running
//! a child's own event handling is the caller's part: the container says which
//! child is next ([`Step::Forward`]) and is told what the child answered.

use vstd::prelude::*;
use crate::connection::{Endpoint, Link, LogicalEndpoint, SocketRole};
use crate::event::{CursorPosition, Intent, PointerEvent, Status, Step};
use crate::socket_layout::SocketLayoutState;

verus! {

/// The container's configuration: its children in paint order, which intents
/// the host listens to, and the socket a connection is currently being drafted
/// from.
pub struct GraphContainer<E> {
    content: Vec<E>,
    on_translate: bool,
    on_scale: bool,
    on_connect: bool,
    on_disconnect: bool,
    on_dangling: bool,
    dangling_source: Option<LogicalEndpoint>,
}

/// What a [`GraphContainer`] holds, as a mathematical value.
pub struct GraphContainerView<E> {
    pub content: Seq<E>,
    pub on_translate: bool,
    pub on_scale: bool,
    pub on_connect: bool,
    pub on_disconnect: bool,
    pub on_dangling: bool,
    pub dangling_source: Option<LogicalEndpoint>,
}

/// The one piece of state the container keeps between events: where the
/// cursor was when a viewport drag began or last moved, while one is going on.
#[derive(Clone, Copy, Debug, PartialEq)]
pub struct GraphContainerState<P> {
    pub drag_start_position: Option<P>,
}

/// The container's answer to one event: what the caller does next, the
/// intents to publish, in order, and the drag state afterwards.
pub struct Reaction<P, S> {
    pub step: Step,
    pub intents: Seq<Intent<P, S>>,
    pub drag_start_position: Option<P>,
}

/// The handling of an event by the children, topmost first, and what it
/// ends in.
pub struct Dispatch<P, S> {
    /// The children that were offered the event, in the order of the offers.
    pub asked: Seq<usize>,
    /// The reaction that ended the handling of the event.
    pub reaction: Reaction<P, S>,
}

impl<E> View for GraphContainer<E> {
    type V = GraphContainerView<E>;

    closed spec fn view(&self) -> GraphContainerView<E> {
        GraphContainerView {
            content: self.content@,
            on_translate: self.on_translate,
            on_scale: self.on_scale,
            on_connect: self.on_connect,
            on_disconnect: self.on_disconnect,
            on_dangling: self.on_dangling,
            dangling_source: self.dangling_source,
        }
    }
}

impl<P, S> Reaction<P, S> {
    /// The event is captured, the intents are published and the drag state
    /// becomes `drag`.
    pub open spec fn captured(intents: Seq<Intent<P, S>>, drag: Option<P>) -> Self {
        Reaction { step: Step::Done(Status::Captured), intents, drag_start_position: drag }
    }

    /// The event is ignored, nothing is published and the drag state becomes
    /// `drag`.
    pub open spec fn ignored(drag: Option<P>) -> Self {
        Reaction { step: Step::Done(Status::Ignored), intents: seq![], drag_start_position: drag }
    }

    /// The event goes to the child at index `child`; nothing is published
    /// and the drag state stays `drag`.
    pub open spec fn forward(child: usize, drag: Option<P>) -> Self {
        Reaction { step: Step::Forward(child), intents: seq![], drag_start_position: drag }
    }

    /// Whether this reaction is what a call did: it returned `step`, it
    /// appended the intents to those that were there before, and it left the
    /// drag state in `state`.
    pub open spec fn describes(
        self,
        step: Step,
        before: Seq<Intent<P, S>>,
        after: Seq<Intent<P, S>>,
        state: GraphContainerState<P>,
    ) -> bool {
        &&& step == self.step
        &&& after =~= before + self.intents
        &&& state.drag_start_position == self.drag_start_position
    }
}

/// Whether a draft from `source` may end in `target`: the roles differ and
/// the sockets sit on different nodes.
pub open spec fn connectable(source: LogicalEndpoint, target: LogicalEndpoint) -> bool {
    source.role != target.role && source.node_index != target.node_index
}

impl<E> GraphContainerView<E> {
    /// A container of the given children that publishes nothing and has no
    /// draft going on.
    pub open spec fn silent(content: Seq<E>) -> Self {
        GraphContainerView {
            content,
            on_translate: false,
            on_scale: false,
            on_connect: false,
            on_disconnect: false,
            on_dangling: false,
            dangling_source: None,
        }
    }

    /// The draft from `source` to the cursor.
    pub open spec fn draft<P, S>(source: LogicalEndpoint, world: P) -> Intent<P, S> {
        Intent::Dangling(
            Some((source, Link::normalized(Endpoint::Socket(source), Endpoint::Absolute(world)))),
        )
    }

    /// The report of a draft from `source` to the cursor, if the host listens
    /// for it.
    pub open spec fn dangling_intents<P, S>(self, source: LogicalEndpoint, world: P) -> Seq<
        Intent<P, S>,
    > {
        if self.on_dangling {
            seq![Self::draft(source, world)]
        } else {
            seq![]
        }
    }

    /// What a left press over the socket `hovered` publishes: a disconnect
    /// for an `In` socket, the start of a draft for an `Out` socket.
    pub open spec fn press_intents<P, S>(self, hovered: LogicalEndpoint, world: P) -> Seq<
        Intent<P, S>,
    > {
        match hovered.role {
            SocketRole::In => if self.on_disconnect {
                seq![Intent::Disconnect(hovered, world)]
            } else {
                seq![]
            },
            SocketRole::Out => self.dangling_intents(hovered, world),
        }
    }

    /// What a left release publishes while a connection is drafted from
    /// `source`: always the end of the draft, then the connection if the
    /// cursor is over a socket the draft may end in.
    pub open spec fn release_intents<P, S>(
        self,
        source: LogicalEndpoint,
        hovered: Option<LogicalEndpoint>,
    ) -> Seq<Intent<P, S>> {
        let cancel = if self.on_dangling {
            seq![Intent::Dangling(None)]
        } else {
            seq![]
        };
        let connect = match hovered {
            Some(target) => if connectable(source, target) && self.on_connect {
                seq![
                    Intent::Connect(
                        Link::normalized(Endpoint::Socket(source), Endpoint::Socket(target)),
                    ),
                ]
            } else {
                seq![]
            },
            None => seq![],
        };
        cancel + connect
    }

    /// First priority, sockets: the intents of a socket interaction, or
    /// `None` if the event is not one. A socket interaction needs the cursor
    /// inside the bounds and is one of: a left press over a socket, a cursor
    /// move during a draft, a left release during a draft.
    pub open spec fn socket_interaction<P, S>(
        self,
        event: PointerEvent<S>,
        cursor: Option<CursorPosition<P>>,
        hovered: Option<LogicalEndpoint>,
    ) -> Option<Seq<Intent<P, S>>> {
        match (cursor, event) {
            (Some(c), PointerEvent::LeftPressed) => match hovered {
                Some(h) => Some(self.press_intents(h, c.world)),
                None => None,
            },
            (Some(c), PointerEvent::CursorMoved) => match self.dangling_source {
                Some(source) => Some(self.dangling_intents(source, c.world)),
                None => None,
            },
            (Some(_), PointerEvent::LeftReleased) => match self.dangling_source {
                Some(source) => Some(self.release_intents(source, hovered)),
                None => None,
            },
            _ => None,
        }
    }

    /// Last priority, viewport gestures, for an event that nobody captured:
    /// with the cursor inside the bounds a left press starts a drag at the
    /// cursor, and a turn of the wheel asks the host to zoom about the cursor
    /// if the host listens for that. Nothing else is a gesture.
    pub open spec fn gesture<P, S>(
        self,
        drag: Option<P>,
        event: PointerEvent<S>,
        cursor: Option<CursorPosition<P>>,
    ) -> Reaction<P, S> {
        match (cursor, event) {
            (Some(c), PointerEvent::LeftPressed) => Reaction::captured(seq![], Some(c.local)),
            (Some(c), PointerEvent::WheelScrolled(delta)) => if self.on_scale {
                Reaction::captured(seq![Intent::Scale { at: c.local, delta }], drag)
            } else {
                Reaction::ignored(drag)
            },
            _ => Reaction::ignored(drag),
        }
    }

    /// Second priority, a viewport drag that began at `start`: with the
    /// cursor inside the bounds a move is captured, publishes the way from
    /// `start` to the cursor and makes the cursor the new start; a left
    /// release ends the drag without capturing. Everything else is left to
    /// the viewport gestures. The children are not asked during a drag.
    pub open spec fn drag_reaction<P, S>(
        self,
        start: P,
        event: PointerEvent<S>,
        cursor: Option<CursorPosition<P>>,
    ) -> Reaction<P, S> {
        match (cursor, event) {
            (Some(c), PointerEvent::CursorMoved) => Reaction::captured(
                if self.on_translate {
                    seq![Intent::Translate { from: start, to: c.local }]
                } else {
                    seq![]
                },
                Some(c.local),
            ),
            (Some(_), PointerEvent::LeftReleased) => Reaction::ignored(None),
            _ => self.gesture(Some(start), event, cursor),
        }
    }

    /// The container's reaction to an event, before any child has seen it.
    /// `drag` is the drag state on entry, `cursor` the cursor if it is inside
    /// the bounds, `hovered` the socket under the cursor.
    ///
    /// A socket interaction is captured at once. Otherwise a drag that is
    /// going on decides. Otherwise the event goes to the topmost child, and
    /// without children to the viewport gestures.
    pub open spec fn reaction<P, S>(
        self,
        drag: Option<P>,
        event: PointerEvent<S>,
        cursor: Option<CursorPosition<P>>,
        hovered: Option<LogicalEndpoint>,
    ) -> Reaction<P, S> {
        match self.socket_interaction(event, cursor, hovered) {
            Some(intents) => Reaction::captured(intents, drag),
            None => match drag {
                Some(start) => self.drag_reaction(start, event, cursor),
                None => if self.content.len() > 0 {
                    Reaction::forward((self.content.len() - 1) as usize, drag)
                } else {
                    self.gesture(drag, event, cursor)
                },
            },
        }
    }

    /// The container's reaction to the answer of the child at index `child`:
    /// a capture ends the event, otherwise the child below is next, and below
    /// the lowest child come the viewport gestures.
    pub open spec fn reaction_to_child<P, S>(
        self,
        drag: Option<P>,
        event: PointerEvent<S>,
        cursor: Option<CursorPosition<P>>,
        child: usize,
        answer: Status,
    ) -> Reaction<P, S> {
        if answer == Status::Captured {
            Reaction::captured(seq![], drag)
        } else if child > 0 {
            Reaction::forward((child - 1) as usize, drag)
        } else {
            self.gesture(drag, event, cursor)
        }
    }

    /// What becomes of an event that is offered to the child at index `next`
    /// when the child at each index would give the answer in `answers`: the
    /// reactions to the children's answers, followed until one of them ends
    /// the event.
    pub open spec fn dispatch<P, S>(
        self,
        drag: Option<P>,
        event: PointerEvent<S>,
        cursor: Option<CursorPosition<P>>,
        next: usize,
        answers: Seq<Status>,
    ) -> Dispatch<P, S>
        decreases next,
    {
        let reaction = self.reaction_to_child(drag, event, cursor, next, answers[next as int]);
        match reaction.step {
            Step::Forward(below) => if below < next {
                let rest = self.dispatch(drag, event, cursor, below, answers);
                Dispatch { asked: seq![next] + rest.asked, reaction: rest.reaction }
            } else {
                Dispatch { asked: seq![next], reaction }
            },
            Step::Done(_) => Dispatch { asked: seq![next], reaction },
        }
    }

    /// Children are asked topmost first and none is skipped: the offers go
    /// down from `next` index by index. Every child asked before the last one
    /// ignored the event. The offers stop at the first child that captures,
    /// which ends the event as captured with nothing published by the
    /// container; if no child captures they stop at the lowest child, and the
    /// event ends as the viewport gestures decide.
    pub proof fn lemma_dispatch_is_topmost_first<P, S>(
        self,
        drag: Option<P>,
        event: PointerEvent<S>,
        cursor: Option<CursorPosition<P>>,
        next: usize,
        answers: Seq<Status>,
    )
        requires
            next < answers.len(),
        ensures
            ({
                let d = self.dispatch(drag, event, cursor, next, answers);
                let last = d.asked.len() - 1;
                &&& 1 <= d.asked.len() <= next + 1
                &&& forall|k: int| 0 <= k < d.asked.len() ==> #[trigger] d.asked[k] == next - k
                &&& forall|k: int|
                    0 <= k < last ==> answers[#[trigger] d.asked[k] as int] == Status::Ignored
                &&& if answers[d.asked[last] as int] == Status::Captured {
                    d.reaction == Reaction::<P, S>::captured(seq![], drag)
                } else {
                    d.asked[last] == 0 && d.reaction == self.gesture(drag, event, cursor)
                }
            }),
        decreases next,
    {
        if answers[next as int] == Status::Ignored && next > 0 {
            let below = (next - 1) as usize;
            self.lemma_dispatch_is_topmost_first(drag, event, cursor, below, answers);
            let rest = self.dispatch(drag, event, cursor, below, answers);
            let d = self.dispatch(drag, event, cursor, next, answers);
            assert(d.asked == seq![next] + rest.asked);
            assert forall|k: int| 0 < k < d.asked.len() implies #[trigger] d.asked[k]
                == rest.asked[k - 1] by {}
            assert(d.asked[d.asked.len() - 1] == rest.asked[rest.asked.len() - 1]);
        }
    }

    /// An event is only ever forwarded to a child that exists: first to the
    /// topmost child, and from a child to the one below it. This holds of
    /// every container that fits in memory.
    pub proof fn lemma_forward_targets_a_child<P, S>(
        self,
        drag: Option<P>,
        event: PointerEvent<S>,
        cursor: Option<CursorPosition<P>>,
        hovered: Option<LogicalEndpoint>,
        child: usize,
        answer: Status,
    )
        requires
            self.content.len() <= usize::MAX,
        ensures
            self.reaction(drag, event, cursor, hovered).step matches Step::Forward(first)
                ==> first == self.content.len() - 1,
            self.reaction_to_child(drag, event, cursor, child, answer).step matches Step::Forward(
                next,
            ) ==> next == child - 1,
    {
    }

    /// An event that is forwarded to the children has had no effect yet:
    /// nothing was published, no drag is going on, the event is no socket
    /// interaction, and the child it goes to is the topmost one.
    pub proof fn lemma_forwarded_event_is_untouched<P, S>(
        self,
        drag: Option<P>,
        event: PointerEvent<S>,
        cursor: Option<CursorPosition<P>>,
        hovered: Option<LogicalEndpoint>,
    )
        requires
            self.reaction(drag, event, cursor, hovered).step is Forward,
        ensures
            self.content.len() > 0,
            self.reaction(drag, event, cursor, hovered) == Reaction::<P, S>::forward(
                (self.content.len() - 1) as usize,
                None,
            ),
            drag is None,
            self.socket_interaction(event, cursor, hovered) is None,
    {
    }

    /// While a connection is drafted from `source`, a cursor move inside the
    /// bounds is captured and publishes exactly one intent: the draft from
    /// `source` to the cursor. The drag state stays as it is.
    pub proof fn lemma_draft_follows_cursor<P, S>(
        self,
        drag: Option<P>,
        cursor: CursorPosition<P>,
        hovered: Option<LogicalEndpoint>,
        source: LogicalEndpoint,
    )
        requires
            self.dangling_source == Some(source),
            self.on_dangling,
        ensures
            self.reaction::<P, S>(drag, PointerEvent::CursorMoved, Some(cursor), hovered)
                == Reaction::<P, S>::captured(seq![Self::draft(source, cursor.world)], drag),
    {
    }

    /// A draft from an `Out` socket starts at the socket and ends at the
    /// cursor.
    pub proof fn lemma_draft_from_output_ends_at_cursor<P, S>(source: LogicalEndpoint, world: P)
        requires
            source.role == SocketRole::Out,
        ensures
            Self::draft::<P, S>(source, world) == Intent::<P, S>::Dangling(
                Some(
                    (
                        source,
                        Link { start: Endpoint::Socket(source), end: Endpoint::Absolute(world) },
                    ),
                ),
            ),
    {
    }

    /// A connection is published by a left release and by nothing else,
    /// whether the container reacts to the event itself or to a child's
    /// answer.
    pub proof fn lemma_connect_only_on_release<P, S>(
        self,
        drag: Option<P>,
        event: PointerEvent<S>,
        cursor: Option<CursorPosition<P>>,
        hovered: Option<LogicalEndpoint>,
        child: usize,
        answer: Status,
        i: int,
    )
        ensures
            0 <= i < self.reaction(drag, event, cursor, hovered).intents.len()
                && self.reaction(drag, event, cursor, hovered).intents[i] is Connect ==> event
                == PointerEvent::<S>::LeftReleased,
            0 <= i < self.reaction_to_child(drag, event, cursor, child, answer).intents.len()
                ==> !(self.reaction_to_child(drag, event, cursor, child, answer).intents[i]
                is Connect),
    {
    }

    /// A connection that is published joins the source of the draft with the
    /// hovered socket: the two have different roles and sit on different
    /// nodes, and the link starts at the `Out` socket of the two.
    pub proof fn lemma_connect_joins_out_to_in<P, S>(
        self,
        drag: Option<P>,
        event: PointerEvent<S>,
        cursor: Option<CursorPosition<P>>,
        hovered: Option<LogicalEndpoint>,
        i: int,
    )
        requires
            0 <= i < self.reaction(drag, event, cursor, hovered).intents.len(),
            self.reaction(drag, event, cursor, hovered).intents[i] is Connect,
        ensures
            ({
                let link = self.reaction(drag, event, cursor, hovered).intents[i]->Connect_0;
                &&& self.dangling_source is Some
                &&& hovered is Some
                &&& connectable(self.dangling_source->0, hovered->0)
                &&& link == Link::<P>::normalized(
                    Endpoint::Socket(self.dangling_source->0),
                    Endpoint::Socket(hovered->0),
                )
                &&& link.start.has_role(SocketRole::Out)
                &&& link.end.has_role(SocketRole::In)
            }),
    {
    }

    /// A left press over a socket is always captured, and it never starts or
    /// ends a viewport drag.
    pub proof fn lemma_press_on_socket_captures<P, S>(
        self,
        drag: Option<P>,
        cursor: CursorPosition<P>,
        hovered: LogicalEndpoint,
    )
        ensures
            self.reaction::<P, S>(drag, PointerEvent::LeftPressed, Some(cursor), Some(hovered))
                == Reaction::<P, S>::captured(self.press_intents(hovered, cursor.world), drag),
    {
    }

    /// A left release during a draft is always captured and always ends the
    /// draft first, whatever is under the cursor; at most a connection
    /// follows.
    pub proof fn lemma_release_ends_draft<P, S>(
        self,
        drag: Option<P>,
        cursor: CursorPosition<P>,
        hovered: Option<LogicalEndpoint>,
        source: LogicalEndpoint,
    )
        requires
            self.dangling_source == Some(source),
            self.on_dangling,
        ensures
            ({
                let r = self.reaction::<P, S>(
                    drag,
                    PointerEvent::LeftReleased,
                    Some(cursor),
                    hovered,
                );
                &&& r.step == Step::Done(Status::Captured)
                &&& r.drag_start_position == drag
                &&& 1 <= r.intents.len() <= 2
                &&& r.intents[0] == Intent::<P, S>::Dangling(None)
                &&& r.intents.len() == 2 ==> r.intents[1] is Connect
            }),
    {
    }

    /// The container only ever publishes what the host listens for.
    pub proof fn lemma_publishes_only_what_is_listened_for<P, S>(
        self,
        drag: Option<P>,
        event: PointerEvent<S>,
        cursor: Option<CursorPosition<P>>,
        hovered: Option<LogicalEndpoint>,
        i: int,
    )
        requires
            0 <= i < self.reaction(drag, event, cursor, hovered).intents.len(),
        ensures
            match self.reaction(drag, event, cursor, hovered).intents[i] {
                Intent::Translate { .. } => self.on_translate,
                Intent::Scale { .. } => self.on_scale,
                Intent::Connect(_) => self.on_connect,
                Intent::Disconnect(_, _) => self.on_disconnect,
                Intent::Dangling(_) => self.on_dangling,
            },
    {
    }
}

impl<P> GraphContainerState<P> {
    /// The state of a container on which no drag is going on.
    pub fn new() -> (state: Self)
        ensures
            state.drag_start_position is None,
    {
        GraphContainerState { drag_start_position: None }
    }
}

impl<E> GraphContainer<E> {
    /// A container of the given children, in paint order, that publishes
    /// nothing and has no draft going on.
    pub fn new(content: Vec<E>) -> (container: Self)
        ensures
            container@ == GraphContainerView::silent(content@),
    {
        GraphContainer {
            content,
            on_translate: false,
            on_scale: false,
            on_connect: false,
            on_disconnect: false,
            on_dangling: false,
            dangling_source: None,
        }
    }

    /// Makes the container publish [`Intent::Translate`] for viewport drags.
    pub fn on_translate(self) -> (container: Self)
        ensures
            container@ == (GraphContainerView { on_translate: true, ..self@ }),
    {
        let mut container = self;
        container.on_translate = true;
        container
    }

    /// Makes the container publish, and capture, [`Intent::Scale`] for turns
    /// of the wheel.
    pub fn on_scale(self) -> (container: Self)
        ensures
            container@ == (GraphContainerView { on_scale: true, ..self@ }),
    {
        let mut container = self;
        container.on_scale = true;
        container
    }

    /// Makes the container publish [`Intent::Connect`] when a draft is
    /// dropped on a socket it may end in.
    pub fn on_connect(self) -> (container: Self)
        ensures
            container@ == (GraphContainerView { on_connect: true, ..self@ }),
    {
        let mut container = self;
        container.on_connect = true;
        container
    }

    /// Makes the container publish [`Intent::Disconnect`] when an `In`
    /// socket is pressed.
    pub fn on_disconnect(self) -> (container: Self)
        ensures
            container@ == (GraphContainerView { on_disconnect: true, ..self@ }),
    {
        let mut container = self;
        container.on_disconnect = true;
        container
    }

    /// Makes the container publish [`Intent::Dangling`] while a connection
    /// is drafted and when drafting ends.
    pub fn on_dangling(self) -> (container: Self)
        ensures
            container@ == (GraphContainerView { on_dangling: true, ..self@ }),
    {
        let mut container = self;
        container.on_dangling = true;
        container
    }

    /// Tells the container from which socket a connection is being drafted,
    /// if any. The host remembers this from the last [`Intent::Dangling`].
    pub fn dangling_source(self, dangling_source: Option<LogicalEndpoint>) -> (container: Self)
        ensures
            container@ == (GraphContainerView { dangling_source, ..self@ }),
    {
        let mut container = self;
        container.dangling_source = dangling_source;
        container
    }

    /// The children, in paint order.
    pub fn content(&self) -> (content: &Vec<E>)
        ensures
            content@ == self@.content,
    {
        &self.content
    }

    /// The children, in paint order, for changing them in place.
    pub fn content_mut(&mut self) -> (content: &mut Vec<E>)
        ensures
            content@ == old(self)@.content,
            final(self)@ == (GraphContainerView { content: final(content)@, ..old(self)@ }),
    {
        &mut self.content
    }

    /// Appends the report of a draft from `source` to the cursor, if the
    /// host listens for it.
    fn try_emit_dangling<P: Copy, S: Copy>(
        &self,
        intents: &mut Vec<Intent<P, S>>,
        world: P,
        source: LogicalEndpoint,
    )
        ensures
            final(intents)@ == old(intents)@ + self@.dangling_intents::<P, S>(source, world),
    {
        if self.on_dangling {
            let link = Link::from_unordered(Endpoint::Socket(source), Endpoint::Absolute(world));
            intents.push(Intent::Dangling(Some((source, link))));
        }
    }

    /// Handles the event if it is a socket interaction, and says whether it
    /// was one.
    fn socket_interaction<P: Copy, S: Copy>(
        &self,
        event: PointerEvent<S>,
        cursor: Option<CursorPosition<P>>,
        hovered: Option<LogicalEndpoint>,
        intents: &mut Vec<Intent<P, S>>,
    ) -> (status: Status)
        ensures
            match self@.socket_interaction(event, cursor, hovered) {
                Some(published) => status == Status::Captured && final(intents)@ == old(intents)@
                    + published,
                None => status == Status::Ignored && final(intents)@ == old(intents)@,
            },
    {
        let c = match cursor {
            Some(c) => c,
            None => {
                return Status::Ignored;
            },
        };
        match event {
            PointerEvent::LeftPressed => match hovered {
                Some(h) => {
                    match h.role {
                        SocketRole::In => {
                            if self.on_disconnect {
                                intents.push(Intent::Disconnect(h, c.world));
                            }
                        },
                        SocketRole::Out => {
                            self.try_emit_dangling(intents, c.world, h);
                        },
                    }
                    Status::Captured
                },
                None => Status::Ignored,
            },
            PointerEvent::CursorMoved => match self.dangling_source {
                Some(source) => {
                    self.try_emit_dangling(intents, c.world, source);
                    Status::Captured
                },
                None => Status::Ignored,
            },
            PointerEvent::LeftReleased => match self.dangling_source {
                Some(source) => {
                    if self.on_dangling {
                        intents.push(Intent::Dangling(None));
                    }
                    if let Some(target) = hovered {
                        if source.role != target.role && source.node_index != target.node_index {
                            if self.on_connect {
                                let link = Link::from_unordered(
                                    Endpoint::Socket(source),
                                    Endpoint::Socket(target),
                                );
                                intents.push(Intent::Connect(link));
                            }
                        }
                    }
                    Status::Captured
                },
                None => Status::Ignored,
            },
            _ => Status::Ignored,
        }
    }

    /// Starts a viewport gesture if the event is one.
    fn begin_gesture<P: Copy, S: Copy>(
        &self,
        state: &mut GraphContainerState<P>,
        event: PointerEvent<S>,
        cursor: Option<CursorPosition<P>>,
        intents: &mut Vec<Intent<P, S>>,
    ) -> (step: Step)
        ensures
            self@.gesture(old(state).drag_start_position, event, cursor).describes(
                step,
                old(intents)@,
                final(intents)@,
                *final(state),
            ),
    {
        let c = match cursor {
            Some(c) => c,
            None => {
                return Step::Done(Status::Ignored);
            },
        };
        match event {
            PointerEvent::LeftPressed => {
                state.drag_start_position = Some(c.local);
                Step::Done(Status::Captured)
            },
            PointerEvent::WheelScrolled(delta) => {
                if self.on_scale {
                    intents.push(Intent::Scale { at: c.local, delta });
                    Step::Done(Status::Captured)
                } else {
                    Step::Done(Status::Ignored)
                }
            },
            _ => Step::Done(Status::Ignored),
        }
    }

    /// Handles an event before any child has seen it, for a known hovered
    /// socket.
    ///
    /// `cursor` is the cursor if it is inside the container's bounds, and
    /// `hovered` the socket under it. What the container publishes is
    /// appended to `intents`. On [`Step::Forward`] nothing has been published
    /// and the caller offers the event to that child, which exists, then
    /// calls [`on_child_status`](Self::on_child_status).
    pub fn react<P: Copy, S: Copy>(
        &self,
        state: &mut GraphContainerState<P>,
        event: PointerEvent<S>,
        cursor: Option<CursorPosition<P>>,
        hovered: Option<LogicalEndpoint>,
        intents: &mut Vec<Intent<P, S>>,
    ) -> (step: Step)
        ensures
            self@.reaction(old(state).drag_start_position, event, cursor, hovered).describes(
                step,
                old(intents)@,
                final(intents)@,
                *final(state),
            ),
            step matches Step::Forward(child) ==> child < self@.content.len(),
    {
        if self.socket_interaction(event, cursor, hovered, intents) == Status::Captured {
            return Step::Done(Status::Captured);
        }
        match state.drag_start_position {
            Some(start) => {
                if let Some(c) = cursor {
                    match event {
                        PointerEvent::LeftReleased => {
                            state.drag_start_position = None;
                            return Step::Done(Status::Ignored);
                        },
                        PointerEvent::CursorMoved => {
                            state.drag_start_position = Some(c.local);
                            if self.on_translate {
                                intents.push(Intent::Translate { from: start, to: c.local });
                            }
                            return Step::Done(Status::Captured);
                        },
                        _ => {},
                    }
                }
                self.begin_gesture(state, event, cursor, intents)
            },
            None => {
                let children = self.content.len();
                if children > 0 {
                    Step::Forward(children - 1)
                } else {
                    self.begin_gesture(state, event, cursor, intents)
                }
            },
        }
    }

    /// Handles an event before any child has seen it.
    ///
    /// `cursor` is the cursor if it is inside the container's bounds. The
    /// socket under it is looked up in `sockets`, where `contains` says
    /// whether a region holds a point; the container then reacts as
    /// [`react`](Self::react) does for that socket.
    pub fn on_event<P: Copy, S: Copy, R, F: Fn(&R, &P) -> bool>(
        &self,
        state: &mut GraphContainerState<P>,
        sockets: &SocketLayoutState<R>,
        contains: F,
        event: PointerEvent<S>,
        cursor: Option<CursorPosition<P>>,
        intents: &mut Vec<Intent<P, S>>,
    ) -> (step: Step)
        requires
            cursor matches Some(c) ==> sockets@.testable(contains, c.pre_translation),
        ensures
            exists|hovered: Option<LogicalEndpoint>|
                {
                    &&& cursor matches Some(c) ==> sockets@.finds(
                        contains,
                        c.pre_translation,
                        hovered,
                    )
                    &&& (#[trigger] self@.reaction(
                        old(state).drag_start_position,
                        event,
                        cursor,
                        hovered,
                    )).describes(step, old(intents)@, final(intents)@, *final(state))
                },
            step matches Step::Forward(child) ==> child < self@.content.len(),
    {
        let hovered = match cursor {
            Some(c) => sockets.hovered_socket(&c.pre_translation, contains),
            None => None,
        };
        self.react(state, event, cursor, hovered, intents)
    }

    /// Continues the handling of an event with the answer of the child it
    /// was offered to. The event is forwarded to no child but the one below.
    pub fn on_child_status<P: Copy, S: Copy>(
        &self,
        state: &mut GraphContainerState<P>,
        event: PointerEvent<S>,
        cursor: Option<CursorPosition<P>>,
        child: usize,
        answer: Status,
        intents: &mut Vec<Intent<P, S>>,
    ) -> (step: Step)
        ensures
            self@.reaction_to_child(
                old(state).drag_start_position,
                event,
                cursor,
                child,
                answer,
            ).describes(step, old(intents)@, final(intents)@, *final(state)),
            step matches Step::Forward(next) ==> next < child,
    {
        if answer == Status::Captured {
            Step::Done(Status::Captured)
        } else if child > 0 {
            Step::Forward(child - 1)
        } else {
            self.begin_gesture(state, event, cursor, intents)
        }
    }
}

/// A container of the given children; see [`GraphContainer::new`].
pub fn graph_container<E>(content: Vec<E>) -> (container: GraphContainer<E>)
    ensures
        container@ == GraphContainerView::silent(content@),
{
    GraphContainer::new(content)
}

} // verus!
