use iced_node_editor::{Intent, NodeState, PointerEvent, Status};

type Point = (f32, f32);
type Out = Vec<Intent<Point, f32>>;

#[test]
fn new_node_is_not_dragged() {
    let state: NodeState<Point> = NodeState::new();
    assert_eq!(state.drag_start_position, None);
}

#[test]
fn press_inside_the_node_starts_a_drag() {
    let mut state: NodeState<Point> = NodeState::new();
    let mut out: Out = Vec::new();
    let status = state.on_event(true, PointerEvent::LeftPressed, Some((5.0, 6.0)), true, &mut out);
    assert_eq!(status, Status::Captured);
    assert_eq!(state.drag_start_position, Some((5.0, 6.0)));
    assert_eq!(out, vec![]);
}

#[test]
fn press_outside_the_node_is_ignored() {
    let mut state: NodeState<Point> = NodeState::new();
    let mut out: Out = Vec::new();
    let status = state.on_event(true, PointerEvent::LeftPressed, Some((5.0, 6.0)), false, &mut out);
    assert_eq!(status, Status::Ignored);
    assert_eq!(state.drag_start_position, None);
    let status = state.on_event(true, PointerEvent::LeftPressed, None, true, &mut out);
    assert_eq!(status, Status::Ignored);
    assert_eq!(state.drag_start_position, None);
    assert_eq!(out, vec![]);
}

#[test]
fn cursor_move_during_a_node_drag_publishes_the_way() {
    let mut state = NodeState { drag_start_position: Some((5.0, 6.0)) };
    let mut out: Out = Vec::new();
    let first = state.on_event(true, PointerEvent::CursorMoved, Some((8.0, 4.0)), true, &mut out);
    let second = state.on_event(true, PointerEvent::CursorMoved, Some((9.0, 9.0)), false, &mut out);
    assert_eq!(first, Status::Captured);
    assert_eq!(second, Status::Captured);
    assert_eq!(
        out,
        vec![
            Intent::Translate { from: (5.0, 6.0), to: (8.0, 4.0) },
            Intent::Translate { from: (8.0, 4.0), to: (9.0, 9.0) },
        ]
    );
    assert_eq!(state.drag_start_position, Some((9.0, 9.0)));
}

#[test]
fn node_drag_without_listener_is_captured_silently() {
    let mut state = NodeState { drag_start_position: Some((5.0, 6.0)) };
    let mut out: Out = Vec::new();
    let status = state.on_event(false, PointerEvent::CursorMoved, Some((8.0, 4.0)), true, &mut out);
    assert_eq!(status, Status::Captured);
    assert_eq!(state.drag_start_position, Some((8.0, 4.0)));
    assert_eq!(out, vec![]);
}

#[test]
fn cursor_move_without_a_drag_is_ignored() {
    let mut state: NodeState<Point> = NodeState::new();
    let mut out: Out = Vec::new();
    let status = state.on_event(true, PointerEvent::CursorMoved, Some((8.0, 4.0)), true, &mut out);
    assert_eq!(status, Status::Ignored);
    assert_eq!(state.drag_start_position, None);
    assert_eq!(out, vec![]);
}

#[test]
fn cursor_move_without_a_cursor_keeps_the_drag() {
    let mut state = NodeState { drag_start_position: Some((5.0, 6.0)) };
    let mut out: Out = Vec::new();
    let status = state.on_event(true, PointerEvent::CursorMoved, None, false, &mut out);
    assert_eq!(status, Status::Ignored);
    assert_eq!(state.drag_start_position, Some((5.0, 6.0)));
    assert_eq!(out, vec![]);
}

#[test]
fn release_ends_the_node_drag() {
    for cursor in [Some((1.0, 1.0)), None] {
        let mut state = NodeState { drag_start_position: Some((5.0, 6.0)) };
        let mut out: Out = Vec::new();
        let status = state.on_event(true, PointerEvent::LeftReleased, cursor, false, &mut out);
        assert_eq!(status, Status::Ignored);
        assert_eq!(state.drag_start_position, None);
        assert_eq!(out, vec![]);
    }
}

#[test]
fn a_dragged_node_ignores_everything_else() {
    let others = [PointerEvent::LeftPressed, PointerEvent::WheelScrolled(1.0), PointerEvent::Other];
    for event in others {
        let mut state = NodeState { drag_start_position: Some((5.0, 6.0)) };
        let mut out: Out = Vec::new();
        let status = state.on_event(true, event, Some((1.0, 1.0)), true, &mut out);
        assert_eq!(status, Status::Ignored);
        assert_eq!(state.drag_start_position, Some((5.0, 6.0)));
        assert_eq!(out, vec![]);
    }
}

#[test]
fn an_idle_node_ignores_everything_but_a_press() {
    for event in [
        PointerEvent::CursorMoved,
        PointerEvent::LeftReleased,
        PointerEvent::WheelScrolled(1.0),
        PointerEvent::Other,
    ] {
        let mut state: NodeState<Point> = NodeState::new();
        let mut out: Out = Vec::new();
        let status = state.on_event(true, event, Some((1.0, 1.0)), true, &mut out);
        assert_eq!(status, Status::Ignored);
        assert_eq!(state.drag_start_position, None);
        assert_eq!(out, vec![]);
    }
}
