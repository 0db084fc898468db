use metrodraw::geometry::{Point, Rectangle, Vector};
use metrodraw::model::{Station, StationIndex};
use metrodraw::shell::{EditMode, Message, State};
use metrodraw::view::{
    ClickStart, DragState, Event, Key, MapView, Modifiers, MouseButton, Status, ViewState,
};

const BOUNDS: Rectangle = Rectangle { x: 0, y: 0, width: 800, height: 600 };

const PLAIN: Modifiers = Modifiers { shift: false, control: false, alt: false, logo: false };

const CTRL: Modifiers = Modifiers { shift: false, control: true, alt: false, logo: false };

fn pt(x: i32, y: i32) -> Point {
    Point { x, y }
}

fn send(
    state: &State,
    view_state: &mut ViewState,
    event: Event,
    cursor: Option<Point>,
) -> (Status, Option<Message>) {
    assert!(view_state.is_valid_for(&state.map));
    MapView::new(&state.map, state.edit_mode, state.selected_line)
        .update(view_state, event, BOUNDS, cursor)
}

fn press(state: &State, vs: &mut ViewState, at: Point) -> (Status, Option<Message>) {
    send(state, vs, Event::ButtonPressed(MouseButton::Left), Some(at))
}

fn release(state: &State, vs: &mut ViewState, at: Point) -> (Status, Option<Message>) {
    send(state, vs, Event::ButtonReleased(MouseButton::Left), Some(at))
}

fn move_to(state: &State, vs: &mut ViewState, at: Point) -> (Status, Option<Message>) {
    send(state, vs, Event::CursorMoved { position: at }, Some(at))
}

fn editor(mode: EditMode, stations: &[(i32, i32)]) -> State {
    let mut state = State::new();
    for &(x, y) in stations {
        state.update(Message::AddStation(Station { position: pt(x, y) }));
    }
    state.update(Message::SwitchEditMode(mode));
    state
}

fn drag(state: &State, vs: &mut ViewState, path: &[Point]) -> Vec<Message> {
    let mut out = Vec::new();
    let (_, m) = press(state, vs, path[0]);
    out.extend(m);
    for &p in &path[1..] {
        let (_, m) = move_to(state, vs, p);
        out.extend(m);
    }
    let (_, m) = release(state, vs, path[path.len() - 1]);
    out.extend(m);
    out
}

#[test]
fn new_editor_places_stations_on_the_first_line() {
    let state = State::new();
    assert_eq!(state.edit_mode, EditMode::Station);
    assert_eq!(state.selected_line, 0);
    assert_eq!(state.map.station_count(), 0);
    assert_eq!(state.title(), "MetroDraw");
    let vs = ViewState::default();
    assert_eq!(vs.dragging, DragState::Idle);
    assert_eq!(vs.pan_offset, Vector { x: 0, y: 0 });
    assert!(vs.dirty);
}

#[test]
fn click_on_empty_ground_places_a_snapped_station() {
    let state = editor(EditMode::Station, &[]);
    let mut vs = ViewState::default();
    let (status, message) = press(&state, &mut vs, pt(73, 12));
    assert_eq!(status, Status::Captured);
    assert_eq!(message, None);
    assert_eq!(vs.dragging, DragState::Clicked(ClickStart::Empty(pt(73, 12))));
    let (status, message) = release(&state, &mut vs, pt(73, 12));
    assert_eq!(status, Status::Captured);
    assert_eq!(message, Some(Message::AddStation(Station { position: pt(50, 0) })));
    assert_eq!(vs.dragging, DragState::Idle);
    assert!(vs.dirty);
}

#[test]
fn station_is_placed_where_the_button_is_let_go() {
    let state = editor(EditMode::Station, &[]);
    let mut vs = ViewState::default();
    press(&state, &mut vs, pt(24, 0));
    assert_eq!(move_to(&state, &mut vs, pt(26, 0)), (Status::Ignored, None));
    assert_eq!(vs.dragging, DragState::Clicked(ClickStart::Empty(pt(24, 0))));
    assert_eq!(
        release(&state, &mut vs, pt(26, 0)),
        (Status::Captured, Some(Message::AddStation(Station { position: pt(50, 0) })))
    );
    press(&state, &mut vs, pt(26, 0));
    move_to(&state, &mut vs, pt(24, 0));
    assert_eq!(
        release(&state, &mut vs, pt(24, 0)),
        (Status::Captured, Some(Message::AddStation(Station { position: pt(0, 0) })))
    );
}

#[test]
fn release_without_a_cursor_places_at_the_press() {
    let state = editor(EditMode::Station, &[]);
    let mut vs = ViewState::default();
    press(&state, &mut vs, pt(124, 80));
    assert_eq!(
        send(&state, &mut vs, Event::ButtonReleased(MouseButton::Left), None),
        (Status::Captured, Some(Message::AddStation(Station { position: pt(100, 100) })))
    );
}

#[test]
fn release_is_read_under_the_pan_offset() {
    let state = editor(EditMode::Station, &[]);
    let mut vs =
        ViewState { dirty: false, dragging: DragState::Idle, pan_offset: Vector { x: 30, y: -20 } };
    let bounds = Rectangle { x: 10, y: 10, width: 800, height: 600 };
    let view = MapView::new(&state.map, state.edit_mode, state.selected_line);
    view.update(&mut vs, Event::ButtonPressed(MouseButton::Left), bounds, Some(pt(100, 100)));
    assert_eq!(vs.dragging, DragState::Clicked(ClickStart::Empty(pt(60, 110))));
    let (_, message) =
        view.update(&mut vs, Event::ButtonReleased(MouseButton::Left), bounds, Some(pt(103, 97)));
    assert_eq!(message, Some(Message::AddStation(Station { position: pt(50, 100) })));
}

#[test]
fn click_respects_canvas_origin_and_pan() {
    let state = editor(EditMode::Station, &[]);
    let mut vs = ViewState { dirty: false, dragging: DragState::Idle, pan_offset: Vector { x: -100, y: 40 } };
    let bounds = Rectangle { x: 20, y: 30, width: 800, height: 600 };
    let view = MapView::new(&state.map, state.edit_mode, state.selected_line);
    let (status, _) = view.update(&mut vs, Event::ButtonPressed(MouseButton::Left), bounds, Some(pt(93, 82)));
    assert_eq!(status, Status::Captured);
    assert_eq!(vs.dragging, DragState::Clicked(ClickStart::Empty(pt(173, 12))));
    assert!(!vs.dirty);
    let (_, message) = view.update(&mut vs, Event::ButtonReleased(MouseButton::Left), bounds, Some(pt(93, 82)));
    assert_eq!(message, Some(Message::AddStation(Station { position: pt(150, 0) })));
}

#[test]
fn press_outside_the_canvas_or_without_cursor_is_ignored() {
    let state = editor(EditMode::Station, &[]);
    let mut vs = ViewState::default();
    assert_eq!(press(&state, &mut vs, pt(801, 10)), (Status::Ignored, None));
    assert_eq!(vs.dragging, DragState::Idle);
    assert_eq!(
        send(&state, &mut vs, Event::ButtonPressed(MouseButton::Left), None),
        (Status::Ignored, None)
    );
    assert_eq!(
        send(&state, &mut vs, Event::ButtonPressed(MouseButton::Right), Some(pt(5, 5))),
        (Status::Ignored, None)
    );
    assert_eq!(send(&state, &mut vs, Event::Other, Some(pt(5, 5))), (Status::Ignored, None));
    assert_eq!(vs, ViewState::default());
}

#[test]
fn press_in_pan_only_mode_is_captured_without_a_click() {
    let state = editor(EditMode::PanOnly, &[(0, 0)]);
    let mut vs = ViewState::default();
    assert_eq!(press(&state, &mut vs, pt(3, 3)), (Status::Captured, None));
    assert_eq!(vs.dragging, DragState::Idle);
}

#[test]
fn moving_a_click_on_empty_ground_pans() {
    let state = editor(EditMode::Station, &[(0, 0), (100, 0)]);
    let mut vs = ViewState::default();
    press(&state, &mut vs, pt(300, 300));
    assert_eq!(move_to(&state, &mut vs, pt(303, 304)), (Status::Ignored, None));
    assert_eq!(vs.dragging, DragState::Clicked(ClickStart::Empty(pt(300, 300))));
    move_to(&state, &mut vs, pt(303, 305));
    assert_eq!(vs.dragging, DragState::Panning(pt(303, 305), Vector { x: 0, y: 0 }));
    move_to(&state, &mut vs, pt(343, 255));
    assert_eq!(vs.pan_offset, Vector { x: 40, y: -50 });
    move_to(&state, &mut vs, pt(803, 955));
    assert_eq!(vs.pan_offset, Vector { x: 100, y: 0 });
    move_to(&state, &mut vs, pt(-1000, -1000));
    assert_eq!(vs.pan_offset, Vector { x: -800, y: -600 });
    assert_eq!(release(&state, &mut vs, pt(0, 0)), (Status::Ignored, None));
    assert_eq!(vs.dragging, DragState::Idle);
    assert_eq!(vs.pan_offset, Vector { x: -800, y: -600 });
}

#[test]
fn middle_button_pans_in_any_mode() {
    let state = editor(EditMode::Remove, &[]);
    let mut vs = ViewState::default();
    let (status, message) =
        send(&state, &mut vs, Event::ButtonPressed(MouseButton::Middle), Some(pt(900, 10)));
    assert_eq!((status, message), (Status::Captured, None));
    assert_eq!(vs.dragging, DragState::Panning(pt(900, 10), Vector { x: 0, y: 0 }));
    move_to(&state, &mut vs, pt(890, 0));
    assert_eq!(vs.pan_offset, Vector { x: -10, y: -10 });
    let (status, message) =
        send(&state, &mut vs, Event::ButtonReleased(MouseButton::Middle), Some(pt(890, 0)));
    assert_eq!((status, message), (Status::Ignored, None));
    assert_eq!(vs.dragging, DragState::Idle);
    assert_eq!(
        send(&state, &mut vs, Event::ButtonPressed(MouseButton::Middle), None),
        (Status::Ignored, None)
    );
}

#[test]
fn click_on_a_station_removes_it_in_remove_mode() {
    let state = editor(EditMode::Remove, &[(0, 0), (100, 0)]);
    let mut vs = ViewState::default();
    press(&state, &mut vs, pt(110, 5));
    assert_eq!(vs.dragging, DragState::Clicked(ClickStart::Station(1)));
    assert_eq!(
        release(&state, &mut vs, pt(110, 5)),
        (Status::Captured, Some(Message::RemoveStation(1)))
    );
    press(&state, &mut vs, pt(50, 50));
    assert_eq!(release(&state, &mut vs, pt(50, 50)), (Status::Ignored, None));
}

#[test]
fn click_on_a_station_does_nothing_in_station_mode() {
    let state = editor(EditMode::Station, &[(0, 0)]);
    let mut vs = ViewState::default();
    press(&state, &mut vs, pt(3, 3));
    assert_eq!(vs.dragging, DragState::Clicked(ClickStart::Station(0)));
    assert_eq!(release(&state, &mut vs, pt(3, 3)), (Status::Ignored, None));
}

#[test]
fn a_drag_never_places_or_removes() {
    let state = editor(EditMode::Remove, &[(0, 0)]);
    let mut vs = ViewState::default();
    press(&state, &mut vs, pt(0, 0));
    move_to(&state, &mut vs, pt(10, 0));
    assert_eq!(vs.dragging, DragState::Dragging(ClickStart::Station(0), Some(0)));
    assert_eq!(move_to(&state, &mut vs, pt(30, 0)), (Status::Ignored, None));
    assert_eq!(vs.dragging, DragState::Dragging(ClickStart::Station(0), Some(0)));
    assert_eq!(release(&state, &mut vs, pt(30, 0)), (Status::Ignored, None));
    assert_eq!(vs.dragging, DragState::Idle);
}

#[test]
fn drag_between_stations_adds_one_segment_once() {
    let mut state = editor(EditMode::Line, &[(0, 0), (100, 0)]);
    let mut vs = ViewState::default();
    let path = [pt(0, 0), pt(10, 0), pt(50, 0), pt(95, 0), pt(100, 0)];
    let messages = drag(&state, &mut vs, &path);
    assert_eq!(messages, vec![Message::AddSegment(0, 0, 1)]);
    for m in messages {
        assert!(state.can_apply(&m));
        state.update(m);
    }
    assert_eq!(state.map.segment_count(), 1);
    assert!(state.map.has_segment(0, 0, 1));
    let again = drag(&state, &mut vs, &path);
    assert_eq!(again, vec![]);
    let back = drag(&state, &mut vs, &[pt(100, 0), pt(50, 0), pt(0, 0)]);
    assert_eq!(back, vec![]);
    state.update(Message::SwitchLine(1));
    let other = drag(&state, &mut vs, &path);
    assert_eq!(other, vec![Message::AddSegment(1, 0, 1)]);
}

#[test]
fn drag_steps_through_the_drawing_states() {
    let state = editor(EditMode::Line, &[(0, 0), (100, 0)]);
    let mut vs = ViewState::default();
    press(&state, &mut vs, pt(0, 0));
    move_to(&state, &mut vs, pt(5, 0));
    assert_eq!(vs.dragging, DragState::Clicked(ClickStart::Station(0)));
    move_to(&state, &mut vs, pt(6, 0));
    assert_eq!(vs.dragging, DragState::Dragging(ClickStart::Station(0), Some(0)));
    move_to(&state, &mut vs, pt(20, 0));
    assert_eq!(vs.dragging, DragState::Dragging(ClickStart::Station(0), Some(0)));
    move_to(&state, &mut vs, pt(21, 0));
    assert_eq!(vs.dragging, DragState::Dragging(ClickStart::Station(0), None));
    assert_eq!(move_to(&state, &mut vs, pt(10, 0)), (Status::Ignored, None));
    assert_eq!(vs.dragging, DragState::Dragging(ClickStart::Station(0), None));
    assert_eq!(
        move_to(&state, &mut vs, pt(81, 0)),
        (Status::Captured, Some(Message::AddSegment(0, 0, 1)))
    );
    assert_eq!(vs.dragging, DragState::Dragging(ClickStart::Station(1), Some(1)));
}

#[test]
fn a_fast_drag_leaves_the_station_at_once() {
    let state = editor(EditMode::Line, &[(0, 0), (100, 0)]);
    let mut vs = ViewState::default();
    press(&state, &mut vs, pt(0, 0));
    move_to(&state, &mut vs, pt(60, 0));
    assert_eq!(vs.dragging, DragState::Dragging(ClickStart::Station(0), None));
}

#[test]
fn a_continued_drag_chains_segments() {
    let mut state = editor(EditMode::Line, &[(0, 0), (100, 0), (200, 0)]);
    let mut vs = ViewState::default();
    let path = [pt(0, 0), pt(50, 0), pt(100, 0), pt(150, 0), pt(200, 0)];
    let messages = drag(&state, &mut vs, &path);
    assert_eq!(messages, vec![Message::AddSegment(0, 0, 1), Message::AddSegment(0, 1, 2)]);
    for m in messages {
        state.update(m);
    }
    assert_eq!(state.map.segment_count(), 2);
    state.update(Message::RemoveStation(1));
    assert_eq!(state.map.station_count(), 2);
    assert_eq!(state.map.segment_count(), 1);
    assert!(state.map.has_segment(0, 0, 1));
}

#[test]
fn keys_switch_mode_and_line_only_when_idle() {
    let state = editor(EditMode::Station, &[]);
    let mut vs = ViewState::default();
    let key = |k: Key, m: Modifiers| Event::KeyPressed { key: k, modifiers: m };
    let expect = [
        (Key::R, Message::SwitchEditMode(EditMode::Remove)),
        (Key::A, Message::SwitchEditMode(EditMode::Station)),
        (Key::D, Message::SwitchEditMode(EditMode::Line)),
        (Key::S, Message::SwitchEditMode(EditMode::PanOnly)),
        (Key::Key1, Message::SwitchLine(0)),
        (Key::Key2, Message::SwitchLine(1)),
        (Key::Key3, Message::SwitchLine(2)),
        (Key::Key4, Message::SwitchLine(3)),
        (Key::Key5, Message::SwitchLine(4)),
        (Key::Key6, Message::SwitchLine(5)),
    ];
    for (k, m) in expect {
        assert_eq!(send(&state, &mut vs, key(k, PLAIN), None), (Status::Captured, Some(m)));
    }
    for k in [Key::Key7, Key::Key8, Key::Key9, Key::Key0, Key::Other, Key::Delete] {
        assert_eq!(send(&state, &mut vs, key(k, PLAIN), None), (Status::Ignored, None));
    }
    let shift = Modifiers { shift: true, control: false, alt: false, logo: false };
    assert_eq!(send(&state, &mut vs, key(Key::R, shift), None), (Status::Ignored, None));
    assert_eq!(send(&state, &mut vs, key(Key::R, CTRL), None), (Status::Ignored, None));
    assert_eq!(vs, ViewState::default());
    press(&state, &mut vs, pt(10, 10));
    assert_eq!(send(&state, &mut vs, key(Key::R, PLAIN), None), (Status::Ignored, None));
}

#[test]
fn control_delete_clears_in_any_drag_state() {
    let mut state = editor(EditMode::Station, &[(0, 0)]);
    let mut vs = ViewState { dirty: false, dragging: DragState::Idle, pan_offset: Vector { x: 0, y: 0 } };
    let clear = Event::KeyPressed { key: Key::Delete, modifiers: CTRL };
    assert_eq!(send(&state, &mut vs, clear, None), (Status::Captured, Some(Message::ClearMap)));
    assert!(vs.dirty);
    press(&state, &mut vs, pt(200, 200));
    assert_eq!(send(&state, &mut vs, clear, None), (Status::Captured, Some(Message::ClearMap)));
    assert_eq!(vs.dragging, DragState::Clicked(ClickStart::Empty(pt(200, 200))));
    let both = Modifiers { shift: true, control: true, alt: false, logo: false };
    let not_clear = Event::KeyPressed { key: Key::Delete, modifiers: both };
    assert_eq!(send(&state, &mut vs, not_clear, None), (Status::Ignored, None));
    state.update(Message::ClearMap);
    assert_eq!(state.map.station_count(), 0);
    assert_eq!(state.map.line_count(), 6);
}

#[test]
fn stale_gesture_is_told_apart() {
    let mut state = editor(EditMode::Remove, &[(0, 0)]);
    let mut vs = ViewState::default();
    press(&state, &mut vs, pt(0, 0));
    assert!(vs.is_valid_for(&state.map));
    state.update(Message::ClearMap);
    assert!(!vs.is_valid_for(&state.map));
    vs.mark_drawn();
    assert!(!vs.dirty);
}

#[test]
fn editor_refuses_what_the_map_cannot_hold() {
    let state = editor(EditMode::Line, &[(0, 0), (100, 0)]);
    assert!(state.can_apply(&Message::AddSegment(0, 0, 1)));
    assert!(!state.can_apply(&Message::AddSegment(0, 0, 2)));
    assert!(!state.can_apply(&Message::AddSegment(6, 0, 1)));
    assert!(state.can_apply(&Message::SwitchLine(5)));
    assert!(!state.can_apply(&Message::SwitchLine(6)));
    assert!(state.can_apply(&Message::RemoveStation(9)));
    assert!(state.can_apply(&Message::AddStation(Station { position: pt(0, 0) })));
    let index: StationIndex = 1;
    assert!(state.can_apply(&Message::RemoveStation(index)));
}
