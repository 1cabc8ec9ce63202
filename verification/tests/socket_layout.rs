use iced_node_editor::{
    Anchor, Endpoint, Link, LogicalEndpoint, SocketBlob, SocketLayoutState, SocketRole,
};

#[derive(Clone, Copy, Debug, PartialEq)]
struct Rect {
    x: f32,
    y: f32,
    width: f32,
    height: f32,
}

type Point = (f32, f32);

impl Rect {
    fn contains(&self, point: &Point) -> bool {
        self.x <= point.0
            && point.0 < self.x + self.width
            && self.y <= point.1
            && point.1 < self.y + self.height
    }
}

fn square(x: f32, y: f32) -> Rect {
    Rect { x, y, width: 10.0, height: 10.0 }
}

fn input(rect: Rect) -> SocketBlob<Rect> {
    SocketBlob { role: SocketRole::In, rect }
}

fn output(rect: Rect) -> SocketBlob<Rect> {
    SocketBlob { role: SocketRole::Out, rect }
}

fn at(node_index: usize, role: SocketRole, socket_index: usize) -> LogicalEndpoint {
    LogicalEndpoint { node_index, role, socket_index }
}

fn two_nodes() -> SocketLayoutState<Rect> {
    let mut state = SocketLayoutState::new();
    state.layout(&vec![
        vec![input(square(-5.0, 20.0)), output(square(195.0, 20.0)), input(square(-5.0, 40.0))],
        vec![output(square(445.0, 270.0)), output(square(445.0, 290.0))],
    ]);
    state
}

#[test]
fn new_buffer_is_empty_and_not_done() {
    let state: SocketLayoutState<Rect> = SocketLayoutState::new();
    assert_eq!(state.node_count(), 0);
    assert!(!state.is_done());
    assert_eq!(state.blob(at(0, SocketRole::In, 0)), None);
}

#[test]
fn layout_records_sockets_by_role_in_declared_order() {
    let state = two_nodes();
    assert!(state.is_done());
    assert_eq!(state.node_count(), 2);
    assert_eq!(state.blob(at(0, SocketRole::In, 0)), Some(square(-5.0, 20.0)));
    assert_eq!(state.blob(at(0, SocketRole::In, 1)), Some(square(-5.0, 40.0)));
    assert_eq!(state.blob(at(0, SocketRole::In, 2)), None);
    assert_eq!(state.blob(at(0, SocketRole::Out, 0)), Some(square(195.0, 20.0)));
    assert_eq!(state.blob(at(0, SocketRole::Out, 1)), None);
    assert_eq!(state.blob(at(1, SocketRole::In, 0)), None);
    assert_eq!(state.blob(at(1, SocketRole::Out, 0)), Some(square(445.0, 270.0)));
    assert_eq!(state.blob(at(1, SocketRole::Out, 1)), Some(square(445.0, 290.0)));
    assert_eq!(state.blob(at(1, SocketRole::Out, 2)), None);
}

#[test]
fn layout_forgets_the_previous_pass() {
    let mut state = two_nodes();
    state.layout(&vec![vec![output(square(1.0, 2.0))]]);
    assert_eq!(state.node_count(), 1);
    assert_eq!(state.blob(at(0, SocketRole::Out, 0)), Some(square(1.0, 2.0)));
    assert_eq!(state.blob(at(0, SocketRole::In, 0)), None);
    assert_eq!(state.blob(at(1, SocketRole::Out, 0)), None);
}

#[test]
fn node_without_sockets_still_takes_an_index() {
    let mut state = SocketLayoutState::new();
    state.layout(&vec![vec![], vec![input(square(0.0, 0.0))]]);
    assert_eq!(state.node_count(), 2);
    assert_eq!(state.blob(at(0, SocketRole::In, 0)), None);
    assert_eq!(state.blob(at(1, SocketRole::In, 0)), Some(square(0.0, 0.0)));
}

#[test]
fn blob_of_a_missing_node_is_none() {
    let state = two_nodes();
    assert_eq!(state.blob(at(2, SocketRole::In, 0)), None);
    assert_eq!(state.blob(at(usize::MAX, SocketRole::Out, 0)), None);
}

#[test]
fn blob_of_a_missing_socket_is_none() {
    let state = two_nodes();
    assert_eq!(state.blob(at(0, SocketRole::Out, 1)), None);
    assert_eq!(state.blob(at(0, SocketRole::In, usize::MAX)), None);
}

#[test]
fn blob_is_none_until_the_pass_has_finished() {
    let mut state = SocketLayoutState::new();
    state.push_node(&vec![input(square(0.0, 0.0))]);
    assert_eq!(state.node_count(), 1);
    assert!(!state.is_done());
    assert_eq!(state.blob(at(0, SocketRole::In, 0)), None);
    state.finish();
    assert!(state.is_done());
    assert_eq!(state.blob(at(0, SocketRole::In, 0)), Some(square(0.0, 0.0)));
}

#[test]
fn clear_empties_the_buffer() {
    let mut state = two_nodes();
    state.clear();
    assert_eq!(state.node_count(), 0);
    assert!(!state.is_done());
    assert_eq!(state.blob(at(0, SocketRole::In, 0)), None);
    assert_eq!(state.hovered_socket(&(0.0, 0.0), |_: &Rect, _: &Point| true), None);
}

#[test]
fn push_node_appends_after_the_nodes_already_there() {
    let mut state = two_nodes();
    state.push_node(&vec![output(square(7.0, 7.0)), input(square(8.0, 8.0))]);
    assert_eq!(state.node_count(), 3);
    assert!(state.is_done());
    assert_eq!(state.blob(at(2, SocketRole::Out, 0)), Some(square(7.0, 7.0)));
    assert_eq!(state.blob(at(2, SocketRole::In, 0)), Some(square(8.0, 8.0)));
    assert_eq!(state.blob(at(0, SocketRole::In, 1)), Some(square(-5.0, 40.0)));
}

#[test]
fn hovered_socket_is_the_one_under_the_cursor() {
    let state = two_nodes();
    let hovered = |p: Point| state.hovered_socket(&p, Rect::contains);
    assert_eq!(hovered((0.0, 25.0)), Some(at(0, SocketRole::In, 0)));
    assert_eq!(hovered((0.0, 45.0)), Some(at(0, SocketRole::In, 1)));
    assert_eq!(hovered((200.0, 25.0)), Some(at(0, SocketRole::Out, 0)));
    assert_eq!(hovered((450.0, 275.0)), Some(at(1, SocketRole::Out, 0)));
    assert_eq!(hovered((450.0, 295.0)), Some(at(1, SocketRole::Out, 1)));
}

#[test]
fn hovered_socket_is_none_beside_the_sockets() {
    let state = two_nodes();
    assert_eq!(state.hovered_socket(&(100.0, 100.0), Rect::contains), None);
    assert_eq!(state.hovered_socket(&(5.0, 25.0), Rect::contains), None);
    assert_eq!(state.hovered_socket(&(0.0, 0.0), |_: &Rect, _: &Point| false), None);
}

#[test]
fn hit_test_does_not_wait_for_the_end_of_the_pass() {
    let mut state = SocketLayoutState::new();
    state.push_node(&vec![input(square(0.0, 0.0))]);
    assert_eq!(
        state.hovered_socket(&(1.0, 1.0), Rect::contains),
        Some(at(0, SocketRole::In, 0))
    );
}

#[test]
fn of_overlapping_sockets_the_later_socket_wins() {
    let mut state = SocketLayoutState::new();
    state.layout(&vec![vec![input(square(0.0, 0.0)), input(square(5.0, 5.0))]]);
    assert_eq!(
        state.hovered_socket(&(7.0, 7.0), Rect::contains),
        Some(at(0, SocketRole::In, 1))
    );
    assert_eq!(
        state.hovered_socket(&(2.0, 2.0), Rect::contains),
        Some(at(0, SocketRole::In, 0))
    );
}

#[test]
fn of_overlapping_sockets_the_later_node_wins() {
    let mut state = SocketLayoutState::new();
    state.layout(&vec![
        vec![output(square(0.0, 0.0)), output(square(0.0, 0.0))],
        vec![output(square(0.0, 0.0))],
    ]);
    assert_eq!(
        state.hovered_socket(&(1.0, 1.0), Rect::contains),
        Some(at(1, SocketRole::Out, 0))
    );
}

#[test]
fn of_overlapping_sockets_an_output_wins_over_an_input() {
    let mut state = SocketLayoutState::new();
    state.layout(&vec![
        vec![output(square(0.0, 0.0))],
        vec![input(square(0.0, 0.0)), input(square(0.0, 0.0))],
    ]);
    assert_eq!(
        state.hovered_socket(&(1.0, 1.0), Rect::contains),
        Some(at(0, SocketRole::Out, 0))
    );
    assert_eq!(
        state.hovered_socket(&(0.0, 0.0), |_: &Rect, _: &Point| true),
        Some(at(0, SocketRole::Out, 0))
    );
}

#[test]
fn every_region_is_tested_once_inputs_first() {
    let state = two_nodes();
    let seen = std::cell::RefCell::new(Vec::new());
    let hovered = state.hovered_socket(&(3.0, 4.0), |r: &Rect, p: &Point| {
        assert_eq!(*p, (3.0, 4.0));
        seen.borrow_mut().push(*r);
        false
    });
    assert_eq!(hovered, None);
    assert_eq!(
        seen.into_inner(),
        vec![
            square(-5.0, 20.0),
            square(-5.0, 40.0),
            square(195.0, 20.0),
            square(445.0, 270.0),
            square(445.0, 290.0),
        ]
    );
}

#[test]
fn anchor_of_a_free_point_is_the_point() {
    let state: SocketLayoutState<Rect> = SocketLayoutState::new();
    let end: Endpoint<Point> = Endpoint::Absolute((3.0, 4.0));
    assert_eq!(state.anchor(&end), Some(Anchor::Point((3.0, 4.0))));
}

#[test]
fn anchor_of_a_socket_is_its_region() {
    let state = two_nodes();
    let end: Endpoint<Point> = Endpoint::Socket(at(1, SocketRole::Out, 1));
    assert_eq!(state.anchor(&end), Some(Anchor::Blob(square(445.0, 290.0))));
}

#[test]
fn anchor_of_an_unknown_socket_is_none() {
    let state = two_nodes();
    let no_node: Endpoint<Point> = Endpoint::Socket(at(5, SocketRole::Out, 0));
    let no_socket: Endpoint<Point> = Endpoint::Socket(at(1, SocketRole::In, 0));
    assert_eq!(state.anchor(&no_node), None);
    assert_eq!(state.anchor(&no_socket), None);
}

#[test]
fn anchors_of_a_link_between_sockets() {
    let state = two_nodes();
    let link: Link<Point> = Link {
        start: Endpoint::Socket(at(1, SocketRole::Out, 0)),
        end: Endpoint::Socket(at(0, SocketRole::In, 1)),
    };
    assert_eq!(
        state.anchors(&link),
        Some((Anchor::Blob(square(445.0, 270.0)), Anchor::Blob(square(-5.0, 40.0))))
    );
}

#[test]
fn anchors_of_a_draft_end_at_the_cursor() {
    let state = two_nodes();
    let link: Link<Point> = Link {
        start: Endpoint::Socket(at(0, SocketRole::Out, 0)),
        end: Endpoint::Absolute((30.0, 40.0)),
    };
    assert_eq!(
        state.anchors(&link),
        Some((Anchor::Blob(square(195.0, 20.0)), Anchor::Point((30.0, 40.0))))
    );
}

#[test]
fn a_link_with_one_unknown_end_has_no_anchors() {
    let state = two_nodes();
    let known: Endpoint<Point> = Endpoint::Socket(at(0, SocketRole::Out, 0));
    let unknown: Endpoint<Point> = Endpoint::Socket(at(0, SocketRole::Out, 9));
    assert_eq!(state.anchors(&Link { start: known, end: unknown }), None);
    assert_eq!(state.anchors(&Link { start: unknown, end: known }), None);
    assert_eq!(state.anchors(&Link { start: unknown, end: unknown }), None);
}

#[test]
fn a_link_has_no_anchors_before_the_pass_has_finished() {
    let mut state = SocketLayoutState::new();
    state.push_node(&vec![output(square(0.0, 0.0)), input(square(9.0, 9.0))]);
    let link: Link<Point> = Link {
        start: Endpoint::Socket(at(0, SocketRole::Out, 0)),
        end: Endpoint::Socket(at(0, SocketRole::In, 0)),
    };
    assert_eq!(state.anchors(&link), None);
    let free: Link<Point> =
        Link { start: Endpoint::Absolute((1.0, 1.0)), end: Endpoint::Absolute((2.0, 2.0)) };
    assert_eq!(state.anchors(&free), Some((Anchor::Point((1.0, 1.0)), Anchor::Point((2.0, 2.0)))));
    state.finish();
    assert_eq!(
        state.anchors(&link),
        Some((Anchor::Blob(square(0.0, 0.0)), Anchor::Blob(square(9.0, 9.0))))
    );
}
