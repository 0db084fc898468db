//! The canvas of the editor: what the pointer and the keyboard do to the
//! view of a map, and which edits they ask for.
//!
//! The view owns no map. It reads the map it is given, keeps the state of
//! the gesture under way and the pan offset, and answers each event with an
//! edit for the editor to carry out, or with none.

use vstd::prelude::*;
use crate::geometry::{
    clamp_between, clamp_coord, dist_sq, dragged, greatest, least, min_max, saturate, snap_coord,
    Point, Rectangle, Vector, DRAG_RANGE, STATION_OUTER_SIZE,
};
use crate::map::{lemma_station_under, station_under, TransitMap};
use crate::model::{LineIndex, Station, StationIndex};
use crate::shell::{EditMode, Message};

verus! {

/// A button of the pointer.
#[derive(Clone, Copy, Debug, PartialEq, Eq, Structural)]
pub enum MouseButton {
    Left,
    Middle,
    Right,
    Other,
}

/// A key of the keyboard, as far as the canvas tells keys apart.
#[derive(Clone, Copy, Debug, PartialEq, Eq, Structural)]
pub enum Key {
    R,
    A,
    D,
    S,
    Delete,
    Key1,
    Key2,
    Key3,
    Key4,
    Key5,
    Key6,
    Key7,
    Key8,
    Key9,
    Key0,
    Other,
}

/// The modifier keys held down with a key.
#[derive(Clone, Copy, Debug, PartialEq, Eq, Structural)]
pub struct Modifiers {
    pub shift: bool,
    pub control: bool,
    pub alt: bool,
    pub logo: bool,
}

/// What the canvas is told by the window.
#[derive(Clone, Copy, Debug, PartialEq, Eq, Structural)]
pub enum Event {
    ButtonPressed(MouseButton),
    ButtonReleased(MouseButton),
    CursorMoved { position: Point },
    KeyPressed { key: Key, modifiers: Modifiers },
    Other,
}

/// Whether the canvas made use of an event.
#[derive(Clone, Copy, Debug, PartialEq, Eq, Structural)]
pub enum Status {
    Ignored,
    Captured,
}

/// Where the primary button went down.
#[derive(Clone, Copy, Debug, PartialEq, Eq, Structural)]
pub enum ClickStart {
    /// On a station.
    Station(StationIndex),
    /// On empty ground, at this place of the map.
    Empty(Point),
}

/// The gesture under way.
#[derive(Clone, Copy, Debug, PartialEq, Eq)]
pub enum DragState {
    /// No button is down.
    Idle,
    /// The primary button is down and the pointer has not moved away.
    Clicked(ClickStart),
    /// The pointer is dragged away from a station. The second field is the
    /// station that the pointer is on now, if it is on one.
    Dragging(ClickStart, Option<StationIndex>),
    /// The view is panned. The fields are where the pointer was, relative to
    /// the canvas, and what the pan offset was, when panning began.
    Panning(Point, Vector),
}

/// What the canvas keeps between events.
#[derive(Clone, Copy, Debug, PartialEq, Eq)]
pub struct ViewState {
    /// Whether the drawing has to be made anew.
    pub dirty: bool,
    pub dragging: DragState,
    pub pan_offset: Vector,
}

/// The answer of the canvas to an event.
pub struct Outcome {
    pub state: ViewState,
    pub status: Status,
    pub message: Option<Message>,
}

/// The canvas for one map, one edit mode and one selected line.
pub struct MapView<'m> {
    pub map: &'m TransitMap,
    pub edit_mode: EditMode,
    pub selected_line: LineIndex,
}

impl Modifiers {
    /// No modifier is held.
    pub open spec fn none_held(self) -> bool {
        !self.shift && !self.control && !self.alt && !self.logo
    }

    /// Control is held and no other modifier.
    pub open spec fn control_only(self) -> bool {
        !self.shift && self.control && !self.alt && !self.logo
    }

    /// Whether no modifier is held.
    pub fn is_empty(self) -> (b: bool)
        ensures
            b == self.none_held(),
    {
        !self.shift && !self.control && !self.alt && !self.logo
    }

    /// Whether control is held and no other modifier.
    pub fn is_control(self) -> (b: bool)
        ensures
            b == self.control_only(),
    {
        !self.shift && self.control && !self.alt && !self.logo
    }
}

/// The line that a digit key stands for: `1` to `9` for the first nine
/// lines, `0` for the tenth.
pub open spec fn digit_line(key: Key) -> Option<LineIndex> {
    match key {
        Key::Key1 => Some(0u16),
        Key::Key2 => Some(1u16),
        Key::Key3 => Some(2u16),
        Key::Key4 => Some(3u16),
        Key::Key5 => Some(4u16),
        Key::Key6 => Some(5u16),
        Key::Key7 => Some(6u16),
        Key::Key8 => Some(7u16),
        Key::Key9 => Some(8u16),
        Key::Key0 => Some(9u16),
        _ => None,
    }
}

/// The edit mode that a letter key stands for.
pub open spec fn letter_mode(key: Key) -> Option<EditMode> {
    match key {
        Key::R => Some(EditMode::Remove),
        Key::A => Some(EditMode::Station),
        Key::D => Some(EditMode::Line),
        Key::S => Some(EditMode::PanOnly),
        _ => None,
    }
}

/// A place of the window, relative to the canvas.
pub open spec fn to_local(p: Point, bounds: Rectangle) -> Point {
    Point { x: clamp_coord(p.x - bounds.x) as i32, y: clamp_coord(p.y - bounds.y) as i32 }
}

/// A place of the window, as a place of the map under the pan offset `pan`.
pub open spec fn to_map(p: Point, bounds: Rectangle, pan: Vector) -> Point {
    Point {
        x: clamp_coord(p.x - bounds.x - pan.x) as i32,
        y: clamp_coord(p.y - bounds.y - pan.y) as i32,
    }
}

/// The x coordinates of `stations`.
pub open spec fn xs_of(stations: Seq<Station>) -> Seq<i32> {
    Seq::new(stations.len(), |i: int| stations[i].position.x)
}

/// The y coordinates of `stations`.
pub open spec fn ys_of(stations: Seq<Station>) -> Seq<i32> {
    Seq::new(stations.len(), |i: int| stations[i].position.y)
}

/// One coordinate of the pan offset while panning: the offset at the start,
/// moved as the pointer moved, held between `low - extent` and `high`, where
/// `low` and `high` bound the stations and `extent` is the size of the
/// canvas.
pub open spec fn pan_axis(initial: int, start: int, now: int, low: int, high: int, extent: int) -> int {
    clamp_coord(clamp_between(dragged(initial, start, now), low - extent, high))
}

/// While panning, the offset stays within its bounds, so that the stations
/// stay within reach of the canvas.
pub proof fn lemma_pan_axis_bounds(initial: int, start: int, now: int, low: int, high: int, extent: int)
    requires
        i32::MIN <= low - extent <= high <= i32::MAX,
    ensures
        low - extent <= pan_axis(initial, start, now, low, high, extent) <= high,
        low - extent <= dragged(initial, start, now) <= high ==> pan_axis(
            initial,
            start,
            now,
            low,
            high,
            extent,
        ) == dragged(initial, start, now),
{
}

/// The pan offset while panning over `stations`.
pub open spec fn pan_to(
    stations: Seq<Station>,
    initial: Vector,
    start: Point,
    now: Point,
    bounds: Rectangle,
) -> Vector {
    Vector {
        x: pan_axis(
            initial.x as int,
            start.x as int,
            now.x as int,
            least(xs_of(stations)),
            greatest(xs_of(stations)),
            bounds.width as int,
        ) as i32,
        y: pan_axis(
            initial.y as int,
            start.y as int,
            now.y as int,
            least(ys_of(stations)),
            greatest(ys_of(stations)),
            bounds.height as int,
        ) as i32,
    }
}

/// The grid point nearest to `p`.
pub open spec fn snapped_point(p: Point) -> Point {
    Point {
        x: clamp_coord(snap_coord(p.x as int)) as i32,
        y: clamp_coord(snap_coord(p.y as int)) as i32,
    }
}

impl ViewState {
    /// Every station that the gesture under way refers to is one of
    /// `stations` stations.
    pub open spec fn valid_for(self, stations: int) -> bool {
        match self.dragging {
            DragState::Clicked(ClickStart::Station(s)) => s < stations,
            DragState::Dragging(ClickStart::Station(s), inside) => s < stations && (
            inside matches Some(t) ==> t < stations),
            _ => true,
        }
    }

    /// Whether every station that the gesture under way refers to is a
    /// station of `map`.
    pub fn is_valid_for(&self, map: &TransitMap) -> (ok: bool)
        ensures
            ok == self.valid_for(map.stations().len() as int),
    {
        let n = map.station_count();
        match self.dragging {
            DragState::Clicked(ClickStart::Station(s)) => (s as usize) < n,
            DragState::Dragging(ClickStart::Station(s), inside) => (s as usize) < n && match inside {
                Some(t) => (t as usize) < n,
                None => true,
            },
            _ => true,
        }
    }

    /// Marks the drawing as made.
    pub fn mark_drawn(&mut self)
        ensures
            final(self).dirty == false,
            final(self).dragging == old(self).dragging,
            final(self).pan_offset == old(self).pan_offset,
    {
        self.dirty = false;
    }
}

impl Default for DragState {
    /// No gesture.
    fn default() -> (state: DragState)
        ensures
            state == DragState::Idle,
    {
        DragState::Idle
    }
}

impl Default for ViewState {
    /// No gesture, no pan, and nothing drawn yet.
    fn default() -> (state: ViewState)
        ensures
            state == (ViewState {
                dirty: true,
                dragging: DragState::Idle,
                pan_offset: Vector { x: 0, y: 0 },
            }),
    {
        ViewState { dirty: true, dragging: DragState::Idle, pan_offset: Vector { x: 0, y: 0 } }
    }
}

/// The switch to `line`, if there are more than `line` lines.
fn switch_line(line: LineIndex, lines: usize) -> (message: Option<Message>)
    ensures
        message == if line < lines {
            Some(Message::SwitchLine(line))
        } else {
            None
        },
{
    if (line as usize) < lines {
        Some(Message::SwitchLine(line))
    } else {
        None
    }
}

/// One coordinate of the pan offset while panning.
fn pan_coordinate(initial: i32, start: i32, now: i32, low: i32, high: i32, extent: i32) -> (r: i32)
    ensures
        r == pan_axis(
            initial as int,
            start as int,
            now as int,
            low as int,
            high as int,
            extent as int,
        ),
{
    let moved: i64 = initial as i64 + (now as i64 - start as i64);
    let lowest: i64 = low as i64 - extent as i64;
    let capped: i64 = if moved < high as i64 {
        moved
    } else {
        high as i64
    };
    let held: i64 = if capped > lowest {
        capped
    } else {
        lowest
    };
    saturate(held)
}

/// The x and the y coordinates of `stations`.
fn coordinates(stations: &Vec<Station>) -> (r: (Vec<i32>, Vec<i32>))
    ensures
        r.0@ == xs_of(stations@),
        r.1@ == ys_of(stations@),
{
    let mut xs: Vec<i32> = Vec::new();
    let mut ys: Vec<i32> = Vec::new();
    let mut i: usize = 0;
    while i < stations.len()
        invariant
            i <= stations.len(),
            xs@ == xs_of(stations@.take(i as int)),
            ys@ == ys_of(stations@.take(i as int)),
        decreases stations.len() - i,
    {
        xs.push(stations[i].position.x);
        ys.push(stations[i].position.y);
        i += 1;
    }
    assert(stations@.take(i as int) =~= stations@);
    (xs, ys)
}

/// The event changes nothing and is not made use of.
pub open spec fn ignored(state: ViewState) -> Outcome {
    Outcome { state, status: Status::Ignored, message: None }
}

/// The drawing has to be made anew, and the gesture goes on as `dragging`.
pub open spec fn redrawn(state: ViewState, dragging: DragState) -> Outcome {
    Outcome {
        state: ViewState { dirty: true, dragging, pan_offset: state.pan_offset },
        status: Status::Ignored,
        message: None,
    }
}

impl<'m> MapView<'m> {
    /// The canvas for `map` in the given mode, with the given line selected.
    pub fn new(map: &'m TransitMap, edit_mode: EditMode, selected_line: LineIndex) -> (view: Self)
        ensures
            view.map == map,
            view.edit_mode == edit_mode,
            view.selected_line == selected_line,
    {
        MapView { map, edit_mode, selected_line }
    }

    /// The map is well formed and the selected line is one of its lines.
    pub open spec fn wf(&self) -> bool {
        &&& self.map.wf()
        &&& self.selected_line < self.map.lines().len()
    }

    /// The primary button goes down. On the canvas, and unless nothing is
    /// edited, a click begins: on the station under the pointer, or on
    /// empty ground.
    pub open spec fn on_left_press(&self, state: ViewState, bounds: Rectangle, cursor: Option<Point>) -> Outcome {
        match cursor {
            Some(p) => if bounds.covers(p) {
                let at = to_map(p, bounds, state.pan_offset);
                let dragging = if self.edit_mode != EditMode::PanOnly {
                    match self.map.under(at) {
                        Some(s) => DragState::Clicked(ClickStart::Station(s)),
                        None => DragState::Clicked(ClickStart::Empty(at)),
                    }
                } else {
                    state.dragging
                };
                Outcome {
                    state: ViewState { dirty: state.dirty, dragging, pan_offset: state.pan_offset },
                    status: Status::Captured,
                    message: None,
                }
            } else {
                ignored(state)
            },
            None => ignored(state),
        }
    }

    /// The pan button goes down: panning begins, whatever is edited.
    pub open spec fn on_middle_press(&self, state: ViewState, bounds: Rectangle, cursor: Option<Point>) -> Outcome {
        match cursor {
            Some(p) => Outcome {
                state: ViewState {
                    dirty: state.dirty,
                    dragging: DragState::Panning(to_local(p, bounds), state.pan_offset),
                    pan_offset: state.pan_offset,
                },
                status: Status::Captured,
                message: None,
            },
            None => ignored(state),
        }
    }

    /// The pointer moves while a line is drawn from `start`. Off every
    /// station, the pointer looks for one: on a station other than `start`
    /// to which the selected line has no segment from `start` yet, it asks
    /// for that segment and goes on from there. On a station, it waits to
    /// leave it.
    pub open spec fn on_draw(&self, state: ViewState, start: StationIndex, inside: Option<StationIndex>, at: Point) -> Outcome {
        match inside {
            None => match self.map.under(at) {
                Some(now) => if now != start && !self.map.joined(self.selected_line, start, now) {
                    Outcome {
                        state: ViewState {
                            dirty: true,
                            dragging: DragState::Dragging(ClickStart::Station(now), Some(now)),
                            pan_offset: state.pan_offset,
                        },
                        status: Status::Captured,
                        message: Some(Message::AddSegment(self.selected_line, start, now)),
                    }
                } else {
                    redrawn(state, state.dragging)
                },
                None => redrawn(state, state.dragging),
            },
            Some(s) => if dist_sq(self.map.stations()[s as int].position, at) > STATION_OUTER_SIZE
                * STATION_OUTER_SIZE {
                redrawn(state, DragState::Dragging(ClickStart::Station(start), None))
            } else {
                redrawn(state, state.dragging)
            },
        }
    }

    /// The pointer moves. A click turns into a drag once the pointer is
    /// farther than the drag range from where it went down: from a station
    /// into the drawing of a line, from empty ground into panning.
    pub open spec fn on_move(&self, state: ViewState, position: Point, bounds: Rectangle) -> Outcome {
        let local = to_local(position, bounds);
        let at = to_map(position, bounds, state.pan_offset);
        match state.dragging {
            DragState::Clicked(ClickStart::Station(s)) => {
                let d = dist_sq(self.map.stations()[s as int].position, at);
                if d > DRAG_RANGE * DRAG_RANGE {
                    redrawn(
                        state,
                        DragState::Dragging(
                            ClickStart::Station(s),
                            if d < STATION_OUTER_SIZE * STATION_OUTER_SIZE {
                                Some(s)
                            } else {
                                None
                            },
                        ),
                    )
                } else {
                    redrawn(state, state.dragging)
                }
            },
            DragState::Clicked(ClickStart::Empty(start)) => if dist_sq(start, at) > DRAG_RANGE
                * DRAG_RANGE {
                redrawn(state, DragState::Panning(local, state.pan_offset))
            } else {
                redrawn(state, state.dragging)
            },
            DragState::Dragging(ClickStart::Station(start), inside) => if self.edit_mode
                == EditMode::Line {
                self.on_draw(state, start, inside, at)
            } else {
                ignored(state)
            },
            DragState::Panning(start, initial) => Outcome {
                state: ViewState {
                    dirty: true,
                    dragging: state.dragging,
                    pan_offset: pan_to(self.map.stations(), initial, start, local, bounds),
                },
                status: Status::Ignored,
                message: None,
            },
            _ => ignored(state),
        }
    }

    /// Where the primary button is let go, as a place of the map: under the
    /// pointer, or, with the pointer off the window, where the button went
    /// down.
    pub open spec fn release_place(state: ViewState, pressed: Point, bounds: Rectangle, cursor: Option<Point>) -> Point {
        match cursor {
            Some(c) => to_map(c, bounds, state.pan_offset),
            None => pressed,
        }
    }

    /// The primary button goes up: the gesture ends. A click on empty ground
    /// places a station on the grid point nearest to where the button is let
    /// go, if stations are placed; a click on a station removes it, if
    /// stations are removed.
    pub open spec fn on_left_release(&self, state: ViewState, bounds: Rectangle, cursor: Option<Point>) -> Outcome {
        let rest = ViewState { dirty: true, dragging: DragState::Idle, pan_offset: state.pan_offset };
        match state.dragging {
            DragState::Clicked(ClickStart::Empty(p)) => if self.edit_mode == EditMode::Station {
                Outcome {
                    state: rest,
                    status: Status::Captured,
                    message: Some(
                        Message::AddStation(
                            Station {
                                position: snapped_point(
                                    Self::release_place(state, p, bounds, cursor),
                                ),
                            },
                        ),
                    ),
                }
            } else {
                Outcome { state: rest, status: Status::Ignored, message: None }
            },
            DragState::Clicked(ClickStart::Station(s)) => if self.edit_mode == EditMode::Remove {
                Outcome {
                    state: rest,
                    status: Status::Captured,
                    message: Some(Message::RemoveStation(s)),
                }
            } else {
                Outcome { state: rest, status: Status::Ignored, message: None }
            },
            _ => Outcome { state: rest, status: Status::Ignored, message: None },
        }
    }

    /// The pan button goes up: the gesture ends.
    pub open spec fn on_middle_release(&self, state: ViewState) -> Outcome {
        redrawn(state, DragState::Idle)
    }

    /// A key goes down. Control and delete clear the map at any time. With
    /// no modifier and no gesture under way, a letter switches the edit mode
    /// and a digit switches to a line, if the map has that line.
    pub open spec fn on_key(&self, state: ViewState, key: Key, modifiers: Modifiers) -> Outcome {
        if modifiers.control_only() {
            if key == Key::Delete {
                Outcome {
                    state: ViewState {
                        dirty: true,
                        dragging: state.dragging,
                        pan_offset: state.pan_offset,
                    },
                    status: Status::Captured,
                    message: Some(Message::ClearMap),
                }
            } else {
                ignored(state)
            }
        } else if modifiers.none_held() && state.dragging == DragState::Idle {
            match letter_mode(key) {
                Some(mode) => Outcome {
                    state,
                    status: Status::Captured,
                    message: Some(Message::SwitchEditMode(mode)),
                },
                None => match digit_line(key) {
                    Some(line) => if line == 0 || line < self.map.lines().len() {
                        Outcome {
                            state,
                            status: Status::Captured,
                            message: Some(Message::SwitchLine(line)),
                        }
                    } else {
                        ignored(state)
                    },
                    None => ignored(state),
                },
            }
        } else {
            ignored(state)
        }
    }

    /// What the canvas does on an event: the state it is in afterwards,
    /// whether it made use of the event, and the edit it asks for.
    pub open spec fn step(&self, state: ViewState, event: Event, bounds: Rectangle, cursor: Option<Point>) -> Outcome {
        match event {
            Event::ButtonPressed(MouseButton::Left) => self.on_left_press(state, bounds, cursor),
            Event::ButtonPressed(MouseButton::Middle) => self.on_middle_press(state, bounds, cursor),
            Event::CursorMoved { position } => self.on_move(state, position, bounds),
            Event::ButtonReleased(MouseButton::Left) => self.on_left_release(state, bounds, cursor),
            Event::ButtonReleased(MouseButton::Middle) => self.on_middle_release(state),
            Event::KeyPressed { key, modifiers } => self.on_key(state, key, modifiers),
            _ => ignored(state),
        }
    }

    /// When a button goes up the gesture is over, whatever it was.
    pub proof fn lemma_release_ends_gesture(&self, state: ViewState, button: MouseButton, bounds: Rectangle, cursor: Option<Point>)
        requires
            button == MouseButton::Left || button == MouseButton::Middle,
        ensures
            self.step(state, Event::ButtonReleased(button), bounds, cursor).state.dragging
                == DragState::Idle,
            self.step(state, Event::ButtonReleased(button), bounds, cursor).state.pan_offset
                == state.pan_offset,
    {
    }

    /// A click on empty ground places a station, if stations are placed: on
    /// the grid point nearest to where the button is let go, which need not
    /// be where it went down.
    pub proof fn lemma_click_places_station(&self, state: ViewState, bounds: Rectangle, pressed: Point, released: Point)
        requires
            self.edit_mode == EditMode::Station,
            bounds.covers(pressed),
            self.map.under(to_map(pressed, bounds, state.pan_offset)).is_none(),
        ensures
            ({
                let down = self.step(
                    state,
                    Event::ButtonPressed(MouseButton::Left),
                    bounds,
                    Some(pressed),
                );
                let up = self.step(
                    down.state,
                    Event::ButtonReleased(MouseButton::Left),
                    bounds,
                    Some(released),
                );
                &&& down.message.is_none()
                &&& up.message == Some(
                    Message::AddStation(
                        Station {
                            position: snapped_point(to_map(released, bounds, state.pan_offset)),
                        },
                    ),
                )
                &&& up.state.dragging == DragState::Idle
            }),
    {
    }

    /// A move within the drag range leaves a click a click, so that letting
    /// go then still places the station under the pointer.
    pub proof fn lemma_small_move_keeps_click(&self, state: ViewState, start: Point, position: Point, bounds: Rectangle, cursor: Option<Point>)
        requires
            state.dragging == DragState::Clicked(ClickStart::Empty(start)),
            dist_sq(start, to_map(position, bounds, state.pan_offset)) <= DRAG_RANGE * DRAG_RANGE,
        ensures
            self.step(state, Event::CursorMoved { position }, bounds, cursor).state.dragging
                == state.dragging,
            self.step(state, Event::CursorMoved { position }, bounds, cursor).state.pan_offset
                == state.pan_offset,
            self.step(state, Event::CursorMoved { position }, bounds, cursor).message.is_none(),
    {
    }

    /// A click on a station removes that station, if stations are removed.
    pub proof fn lemma_click_removes_station(&self, state: ViewState, bounds: Rectangle, p: Point, cursor: Option<Point>)
        requires
            self.edit_mode == EditMode::Remove,
            bounds.covers(p),
            self.map.under(to_map(p, bounds, state.pan_offset)).is_some(),
        ensures
            ({
                let down = self.step(state, Event::ButtonPressed(MouseButton::Left), bounds, Some(p));
                let up = self.step(down.state, Event::ButtonReleased(MouseButton::Left), bounds, cursor);
                &&& down.message.is_none()
                &&& up.message == Some(
                    Message::RemoveStation(
                        self.map.under(to_map(p, bounds, state.pan_offset)).unwrap(),
                    ),
                )
                &&& up.state.dragging == DragState::Idle
            }),
    {
    }

    /// While a gesture is under way, or with a modifier held, the keyboard
    /// switches neither the edit mode nor the line.
    pub proof fn lemma_keys_wait_for_idle(&self, state: ViewState, key: Key, modifiers: Modifiers, bounds: Rectangle, cursor: Option<Point>)
        requires
            state.dragging != DragState::Idle || !modifiers.none_held(),
        ensures
            ({
                let answer = self.step(state, Event::KeyPressed { key, modifiers }, bounds, cursor);
                &&& answer.message.is_none() || answer.message == Some(Message::ClearMap)
                &&& answer.state.dragging == state.dragging
                &&& answer.state.pan_offset == state.pan_offset
            }),
    {
    }

    /// Whatever the event, the gesture goes on referring to stations of the
    /// map only, and the edit that is asked for can be carried out on the
    /// stations and lines that the map has.
    pub proof fn lemma_step_stays_on_the_map(&self, state: ViewState, event: Event, bounds: Rectangle, cursor: Option<Point>)
        requires
            self.wf(),
            state.valid_for(self.map.stations().len() as int),
        ensures
            self.step(state, event, bounds, cursor).state.valid_for(
                self.map.stations().len() as int,
            ),
            self.resolves(self.step(state, event, bounds, cursor).message),
    {
        let stations = self.map.stations();
        let stamps = self.map.stamps();
        assert forall|p: Point|
            (#[trigger] station_under(stations, stamps, p)) matches Some(k) ==> k
                < stations.len() by {
            lemma_station_under(stations, stamps, p);
        }
    }

    /// A station is placed or removed only by a click: once the pointer has
    /// left the drag range, letting go asks for nothing.
    pub proof fn lemma_only_clicks_edit(&self, state: ViewState, bounds: Rectangle, cursor: Option<Point>)
        requires
            !(state.dragging is Clicked),
        ensures
            self.step(state, Event::ButtonReleased(MouseButton::Left), bounds, cursor).message.is_none(),
    {
    }

    /// While a line is drawn, no segment is asked for twice: a segment is
    /// asked for only between two different stations that the selected line
    /// does not join yet.
    pub proof fn lemma_no_duplicate_segment(&self, state: ViewState, position: Point, bounds: Rectangle, cursor: Option<Point>)
        ensures
            self.step(state, Event::CursorMoved { position }, bounds, cursor).message matches Some(
                Message::AddSegment(line, a, b),
            ) ==> line == self.selected_line && a != b && !self.map.joined(line, a, b),
            self.step(state, Event::CursorMoved { position }, bounds, cursor).message matches Some(m)
                ==> m is AddSegment,
    {
    }

    /// Whether the editor can carry out `message` on the map of this canvas,
    /// as far as stations and lines go.
    pub open spec fn resolves(&self, message: Option<Message>) -> bool {
        match message {
            Some(Message::AddSegment(line, start, end)) => {
                &&& line == self.selected_line
                &&& start < self.map.stations().len()
                &&& end < self.map.stations().len()
                &&& start != end
                &&& !self.map.joined(line, start, end)
            },
            Some(Message::RemoveStation(s)) => s < self.map.stations().len(),
            Some(Message::SwitchLine(line)) => line < self.map.lines().len(),
            _ => true,
        }
    }

    /// Answers an event: brings `state` up to date and returns whether the
    /// event was made use of, and the edit that it asks for. The edit refers
    /// only to stations and lines that the map has.
    pub fn update(&self, state: &mut ViewState, event: Event, bounds: Rectangle, cursor: Option<Point>) -> (answer: (Status, Option<Message>))
        requires
            self.wf(),
            old(state).valid_for(self.map.stations().len() as int),
        ensures
            self.step(*old(state), event, bounds, cursor) == (Outcome {
                state: *final(state),
                status: answer.0,
                message: answer.1,
            }),
            final(state).valid_for(self.map.stations().len() as int),
            self.resolves(answer.1),
    {
        let outcome = match event {
            Event::ButtonPressed(MouseButton::Left) => self.left_pressed(*state, bounds, cursor),
            Event::ButtonPressed(MouseButton::Middle) => self.middle_pressed(*state, bounds, cursor),
            Event::CursorMoved { position } => self.moved(*state, position, bounds),
            Event::ButtonReleased(MouseButton::Left) => self.left_released(*state, bounds, cursor),
            Event::ButtonReleased(MouseButton::Middle) => Outcome {
                state: ViewState {
                    dirty: true,
                    dragging: DragState::Idle,
                    pan_offset: state.pan_offset,
                },
                status: Status::Ignored,
                message: None,
            },
            Event::KeyPressed { key, modifiers } => self.key_pressed(*state, key, modifiers),
            _ => Outcome { state: *state, status: Status::Ignored, message: None },
        };
        *state = outcome.state;
        (outcome.status, outcome.message)
    }

    fn left_pressed(&self, state: ViewState, bounds: Rectangle, cursor: Option<Point>) -> (outcome: Outcome)
        requires
            self.wf(),
        ensures
            outcome == self.on_left_press(state, bounds, cursor),
            outcome.state.valid_for(self.map.stations().len() as int) || outcome.state.dragging
                == state.dragging,
            outcome.message.is_none(),
    {
        match cursor {
            Some(p) => {
                if bounds.contains(p) {
                    let at = p.relative_to(bounds.position(), state.pan_offset);
                    let dragging = if self.edit_mode != EditMode::PanOnly {
                        match self.find_station_at(at) {
                            Some(s) => DragState::Clicked(ClickStart::Station(s)),
                            None => DragState::Clicked(ClickStart::Empty(at)),
                        }
                    } else {
                        state.dragging
                    };
                    Outcome {
                        state: ViewState { dirty: state.dirty, dragging, pan_offset: state.pan_offset },
                        status: Status::Captured,
                        message: None,
                    }
                } else {
                    Outcome { state, status: Status::Ignored, message: None }
                }
            },
            None => Outcome { state, status: Status::Ignored, message: None },
        }
    }

    fn middle_pressed(&self, state: ViewState, bounds: Rectangle, cursor: Option<Point>) -> (outcome: Outcome)
        ensures
            outcome == self.on_middle_press(state, bounds, cursor),
            outcome.state.valid_for(self.map.stations().len() as int) || outcome.state.dragging
                == state.dragging,
            outcome.message.is_none(),
    {
        match cursor {
            Some(p) => {
                let local = p.relative_to(bounds.position(), Vector { x: 0, y: 0 });
                Outcome {
                    state: ViewState {
                        dirty: state.dirty,
                        dragging: DragState::Panning(local, state.pan_offset),
                        pan_offset: state.pan_offset,
                    },
                    status: Status::Captured,
                    message: None,
                }
            },
            None => Outcome { state, status: Status::Ignored, message: None },
        }
    }

    fn drawn(&self, state: ViewState, start: StationIndex, inside: Option<StationIndex>, at: Point) -> (outcome: Outcome)
        requires
            self.wf(),
            state.dragging == DragState::Dragging(ClickStart::Station(start), inside),
            state.valid_for(self.map.stations().len() as int),
        ensures
            outcome == self.on_draw(state, start, inside, at),
            outcome.state.valid_for(self.map.stations().len() as int),
            self.resolves(outcome.message),
    {
        let same = Outcome {
            state: ViewState { dirty: true, dragging: state.dragging, pan_offset: state.pan_offset },
            status: Status::Ignored,
            message: None,
        };
        match inside {
            None => match self.find_station_at(at) {
                Some(now) => {
                    if now != start && !self.map.has_segment(self.selected_line, start, now) {
                        Outcome {
                            state: ViewState {
                                dirty: true,
                                dragging: DragState::Dragging(ClickStart::Station(now), Some(now)),
                                pan_offset: state.pan_offset,
                            },
                            status: Status::Captured,
                            message: Some(Message::AddSegment(self.selected_line, start, now)),
                        }
                    } else {
                        same
                    }
                },
                None => same,
            },
            Some(s) => match self.map.station(s) {
                Some(station) => {
                    if station.position.beyond(at, STATION_OUTER_SIZE) {
                        Outcome {
                            state: ViewState {
                                dirty: true,
                                dragging: DragState::Dragging(ClickStart::Station(start), None),
                                pan_offset: state.pan_offset,
                            },
                            status: Status::Ignored,
                            message: None,
                        }
                    } else {
                        same
                    }
                },
                None => same,
            },
        }
    }

    fn moved(&self, state: ViewState, position: Point, bounds: Rectangle) -> (outcome: Outcome)
        requires
            self.wf(),
            state.valid_for(self.map.stations().len() as int),
        ensures
            outcome == self.on_move(state, position, bounds),
            outcome.state.valid_for(self.map.stations().len() as int),
            self.resolves(outcome.message),
    {
        let local = position.relative_to(bounds.position(), Vector { x: 0, y: 0 });
        let at = position.relative_to(bounds.position(), state.pan_offset);
        let same = Outcome {
            state: ViewState { dirty: true, dragging: state.dragging, pan_offset: state.pan_offset },
            status: Status::Ignored,
            message: None,
        };
        match state.dragging {
            DragState::Clicked(ClickStart::Station(s)) => match self.map.station(s) {
                Some(station) => {
                    if station.position.beyond(at, DRAG_RANGE) {
                        let inside = if station.position.within(at, STATION_OUTER_SIZE) {
                            Some(s)
                        } else {
                            None
                        };
                        Outcome {
                            state: ViewState {
                                dirty: true,
                                dragging: DragState::Dragging(ClickStart::Station(s), inside),
                                pan_offset: state.pan_offset,
                            },
                            status: Status::Ignored,
                            message: None,
                        }
                    } else {
                        same
                    }
                },
                None => same,
            },
            DragState::Clicked(ClickStart::Empty(start)) => {
                if start.beyond(at, DRAG_RANGE) {
                    Outcome {
                        state: ViewState {
                            dirty: true,
                            dragging: DragState::Panning(local, state.pan_offset),
                            pan_offset: state.pan_offset,
                        },
                        status: Status::Ignored,
                        message: None,
                    }
                } else {
                    same
                }
            },
            DragState::Dragging(ClickStart::Station(start), inside) => {
                if self.edit_mode == EditMode::Line {
                    self.drawn(state, start, inside, at)
                } else {
                    Outcome { state, status: Status::Ignored, message: None }
                }
            },
            DragState::Panning(start, initial) => {
                let stations = self.map.station_list();
                let (xs, ys) = coordinates(&stations);
                let (min_x, max_x) = min_max(&xs);
                let (min_y, max_y) = min_max(&ys);
                let pan = Vector {
                    x: pan_coordinate(initial.x, start.x, local.x, min_x, max_x, bounds.width),
                    y: pan_coordinate(initial.y, start.y, local.y, min_y, max_y, bounds.height),
                };
                Outcome {
                    state: ViewState { dirty: true, dragging: state.dragging, pan_offset: pan },
                    status: Status::Ignored,
                    message: None,
                }
            },
            _ => Outcome { state, status: Status::Ignored, message: None },
        }
    }

    fn left_released(&self, state: ViewState, bounds: Rectangle, cursor: Option<Point>) -> (outcome: Outcome)
        requires
            state.valid_for(self.map.stations().len() as int),
        ensures
            outcome == self.on_left_release(state, bounds, cursor),
            outcome.state.valid_for(self.map.stations().len() as int),
            self.resolves(outcome.message),
    {
        let rest = ViewState { dirty: true, dragging: DragState::Idle, pan_offset: state.pan_offset };
        match state.dragging {
            DragState::Clicked(ClickStart::Empty(p)) => {
                if self.edit_mode == EditMode::Station {
                    let place = match cursor {
                        Some(c) => c.relative_to(bounds.position(), state.pan_offset),
                        None => p,
                    };
                    Outcome {
                        state: rest,
                        status: Status::Captured,
                        message: Some(Message::AddStation(Station { position: place.snapped() })),
                    }
                } else {
                    Outcome { state: rest, status: Status::Ignored, message: None }
                }
            },
            DragState::Clicked(ClickStart::Station(s)) => {
                if self.edit_mode == EditMode::Remove {
                    Outcome {
                        state: rest,
                        status: Status::Captured,
                        message: Some(Message::RemoveStation(s)),
                    }
                } else {
                    Outcome { state: rest, status: Status::Ignored, message: None }
                }
            },
            _ => Outcome { state: rest, status: Status::Ignored, message: None },
        }
    }

    fn key_pressed(&self, state: ViewState, key: Key, modifiers: Modifiers) -> (outcome: Outcome)
        requires
            self.wf(),
        ensures
            outcome == self.on_key(state, key, modifiers),
            outcome.state.dragging == state.dragging,
            self.resolves(outcome.message),
    {
        let idle = match state.dragging {
            DragState::Idle => true,
            _ => false,
        };
        if modifiers.is_control() {
            match key {
                Key::Delete => Outcome {
                    state: ViewState {
                        dirty: true,
                        dragging: state.dragging,
                        pan_offset: state.pan_offset,
                    },
                    status: Status::Captured,
                    message: Some(Message::ClearMap),
                },
                _ => Outcome { state, status: Status::Ignored, message: None },
            }
        } else if modifiers.is_empty() && idle {
            let lines = self.map.line_count();
            let message = match key {
                Key::R => Some(Message::SwitchEditMode(EditMode::Remove)),
                Key::A => Some(Message::SwitchEditMode(EditMode::Station)),
                Key::D => Some(Message::SwitchEditMode(EditMode::Line)),
                Key::S => Some(Message::SwitchEditMode(EditMode::PanOnly)),
                Key::Key1 => Some(Message::SwitchLine(0)),
                Key::Key2 => switch_line(1, lines),
                Key::Key3 => switch_line(2, lines),
                Key::Key4 => switch_line(3, lines),
                Key::Key5 => switch_line(4, lines),
                Key::Key6 => switch_line(5, lines),
                Key::Key7 => switch_line(6, lines),
                Key::Key8 => switch_line(7, lines),
                Key::Key9 => switch_line(8, lines),
                Key::Key0 => switch_line(9, lines),
                _ => None,
            };
            match message {
                Some(m) => Outcome { state, status: Status::Captured, message: Some(m) },
                None => Outcome { state, status: Status::Ignored, message: None },
            }
        } else {
            Outcome { state, status: Status::Ignored, message: None }
        }
    }

    /// The station that a pointer at the place `p` of the map is on, if any.
    pub fn find_station_at(&self, p: Point) -> (found: Option<StationIndex>)
        requires
            self.map.wf(),
        ensures
            found == self.map.under(p),
            found matches Some(k) ==> k < self.map.stations().len(),
    {
        self.map.find_station_at(p)
    }
}

} // verus!
