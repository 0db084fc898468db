//! The drawing of a map: what is to be drawn, in which order.
//!
//! The drawing is a list of commands for a canvas that can fill its ground,
//! shift what follows, stroke lines and routes, and fill discs.

use vstd::prelude::*;
use crate::color::{unpacked, Rgb};
use crate::geometry::{
    clamp_coord, saturate, snap_coord, Point, Rectangle, Vector, STATION_INNER_SIZE,
    STATION_OUTER_SIZE, TURN_RADIUS,
};
use crate::map::links_resolve;
use crate::model::{Interpolation, InterpolationDirection, Line, Link, Station};
use crate::routing::{bend, interpolate, plan_turn, turn_of, Turn};
use crate::shell::EditMode;
use crate::view::{to_map, ClickStart, DragState, MapView, ViewState};

verus! {

/// The colour of the ground.
pub const BACKGROUND: u32 = 0x19191D;

/// The colour of the grid.
pub const GRID_COLOR: u32 = 0x3d3d4a;

/// The colour of the rim of a station.
pub const STATION_RIM: u32 = 0xd8e0ef;

/// The colour of the core of a station.
pub const STATION_CORE: u32 = 0x030405;

/// The width of a grid line.
pub const GRID_WIDTH: i32 = 2;

/// The width of a route.
pub const ROUTE_WIDTH: i32 = 10;

/// One step of a drawing.
#[derive(Clone, Copy, Debug, PartialEq, Eq, Structural)]
pub enum DrawCommand {
    /// Fill the whole canvas.
    Fill { color: Rgb },
    /// Shift everything that follows.
    Translate { offset: Vector },
    /// Stroke a straight line with butt ends.
    GridLine { from: Point, to: Point, color: Rgb, width: i32 },
    /// Stroke a route with round ends: straight from `start` towards `bend`,
    /// through a rounded corner, and straight on to `end`.
    Route { start: Point, bend: Point, end: Point, turn: Turn, color: Rgb, width: i32 },
    /// Fill a disc.
    Disc { center: Point, radius: i32, color: Rgb },
}

/// The number of grid lines across a canvas that is `extent` wide: one for
/// each cell begun, and two more.
pub open spec fn grid_count(extent: int) -> nat {
    let cells = -((-extent) / 50) + 2;
    if cells > 0 {
        cells as nat
    } else {
        0
    }
}

/// A point with the given exact coordinates, limited to the coordinate
/// range.
pub open spec fn point_at(x: int, y: int) -> Point {
    Point { x: clamp_coord(x) as i32, y: clamp_coord(y) as i32 }
}

/// The `i`-th vertical grid line. The lines begin one cell left of the
/// canvas, on the grid, and reach one cell above and below it.
pub open spec fn vertical_line(pan: Vector, bounds: Rectangle, i: int) -> DrawCommand {
    let x = snap_coord(-pan.x - 50) + 50 * i;
    DrawCommand::GridLine {
        from: point_at(x, -pan.y - 50),
        to: point_at(x, -pan.y + bounds.height + 50),
        color: unpacked(GRID_COLOR),
        width: GRID_WIDTH,
    }
}

/// The `i`-th horizontal grid line.
pub open spec fn horizontal_line(pan: Vector, bounds: Rectangle, i: int) -> DrawCommand {
    let y = snap_coord(-pan.y - 50) + 50 * i;
    DrawCommand::GridLine {
        from: point_at(-pan.x - 50, y),
        to: point_at(-pan.x + bounds.width + 50, y),
        color: unpacked(GRID_COLOR),
        width: GRID_WIDTH,
    }
}

/// The grid: the vertical lines from left to right, then the horizontal
/// lines from top to bottom.
pub open spec fn grid(pan: Vector, bounds: Rectangle) -> Seq<DrawCommand> {
    Seq::new(grid_count(bounds.width as int), |i: int| vertical_line(pan, bounds, i)) + Seq::new(
        grid_count(bounds.height as int),
        |i: int| horizontal_line(pan, bounds, i),
    )
}

/// The route from `start` to `end` in the given colour.
pub open spec fn route(start: Point, end: Point, interpolation: Interpolation, color: Rgb) -> DrawCommand {
    let d = match interpolation {
        Interpolation::Auto(d) => d,
    };
    let mid = point_at(bend(start, end, d).0, bend(start, end, d).1);
    DrawCommand::Route {
        start,
        bend: mid,
        end,
        turn: turn_of(start, mid, end, TURN_RADIUS as int),
        color,
        width: ROUTE_WIDTH,
    }
}

/// The route of a segment.
pub open spec fn link_route(stations: Seq<Station>, lines: Seq<Line>, link: Link) -> DrawCommand {
    route(
        stations[link.source as int].position,
        stations[link.target as int].position,
        link.segment.interpolation,
        lines[link.segment.line as int].color,
    )
}

/// The routes of all segments, in the order of the segments.
pub open spec fn routes(stations: Seq<Station>, lines: Seq<Line>, links: Seq<Link>) -> Seq<DrawCommand> {
    Seq::new(links.len(), |i: int| link_route(stations, lines, links[i]))
}

/// The two discs of each station, the rim before the core, in the order of
/// the stations.
pub open spec fn discs(stations: Seq<Station>) -> Seq<DrawCommand> {
    Seq::new(
        2 * stations.len(),
        |i: int|
            if i % 2 == 0 {
                DrawCommand::Disc {
                    center: stations[i / 2].position,
                    radius: STATION_OUTER_SIZE,
                    color: unpacked(STATION_RIM),
                }
            } else {
                DrawCommand::Disc {
                    center: stations[i / 2].position,
                    radius: STATION_INNER_SIZE,
                    color: unpacked(STATION_CORE),
                }
            },
    )
}

impl<'m> MapView<'m> {
    /// The segment that is being drawn, from the station where the drag
    /// began to the pointer: shown while a line is drawn and the pointer is
    /// over the window.
    pub open spec fn preview(&self, state: ViewState, bounds: Rectangle, cursor: Option<Point>) -> Seq<DrawCommand> {
        match (state.dragging, cursor) {
            (DragState::Dragging(ClickStart::Station(s), _), Some(p)) => if self.edit_mode
                == EditMode::Line {
                seq![
                    route(
                        self.map.stations()[s as int].position,
                        to_map(p, bounds, state.pan_offset),
                        Interpolation::Auto(InterpolationDirection::Auto),
                        self.map.lines()[self.selected_line as int].color,
                    ),
                ]
            } else {
                Seq::empty()
            },
            _ => Seq::empty(),
        }
    }

    /// The whole drawing: the ground, then under the pan offset the grid,
    /// the routes, the segment being drawn, and the stations on top.
    pub open spec fn scene(&self, state: ViewState, bounds: Rectangle, cursor: Option<Point>) -> Seq<DrawCommand> {
        seq![
            DrawCommand::Fill { color: unpacked(BACKGROUND) },
            DrawCommand::Translate { offset: state.pan_offset },
        ] + grid(state.pan_offset, bounds) + routes(
            self.map.stations(),
            self.map.lines(),
            self.map.links(),
        ) + self.preview(state, bounds, cursor) + discs(self.map.stations())
    }

    /// Lists what is to be drawn.
    pub fn draw(&self, state: &ViewState, bounds: Rectangle, cursor: Option<Point>) -> (commands: Vec<DrawCommand>)
        requires
            self.wf(),
            state.valid_for(self.map.stations().len() as int),
        ensures
            commands@ == self.scene(*state, bounds, cursor),
    {
        let pan = state.pan_offset;
        let stations = self.map.station_list();
        let links = self.map.segments();
        let mut out: Vec<DrawCommand> = Vec::new();
        out.push(DrawCommand::Fill { color: Rgb::from_rgb32(BACKGROUND) });
        out.push(DrawCommand::Translate { offset: pan });
        let ghost head = out@;
        assert(head =~= seq![
            DrawCommand::Fill { color: unpacked(BACKGROUND) },
            DrawCommand::Translate { offset: state.pan_offset },
        ]);
        push_grid(&mut out, pan, bounds);
        let ghost with_grid = out@;
        let mut i: usize = 0;
        while i < links.len()
            invariant
                i <= links.len(),
                self.wf(),
                stations@ == self.map.stations(),
                links@ == self.map.links(),
                out@ == with_grid + routes(stations@, self.map.lines(), links@).take(i as int),
            decreases links.len() - i,
        {
            let link = links[i];
            assert(links_resolve(
                self.map.links(),
                self.map.stations().len() as int,
                self.map.lines().len() as int,
            ));
            assert(self.map.links()[i as int] == link);
            let color = match self.map.line(link.segment.line) {
                Some(line) => line.color,
                None => Rgb::from_rgb32(0),
            };
            let ghost all = routes(stations@, self.map.lines(), links@);
            out.push(
                draw_route(
                    stations[link.source as usize].position,
                    stations[link.target as usize].position,
                    link.segment.interpolation,
                    color,
                ),
            );
            assert(all.take(i + 1) =~= all.take(i as int).push(all[i as int]));
            i += 1;
        }
        let ghost all = routes(stations@, self.map.lines(), links@);
        assert(all.take(i as int) =~= all);
        let ghost with_routes = out@;
        match (state.dragging, cursor) {
            (DragState::Dragging(ClickStart::Station(s), _), Some(p)) => {
                if self.edit_mode == EditMode::Line {
                    let color = match self.map.line(self.selected_line) {
                        Some(line) => line.color,
                        None => Rgb::from_rgb32(0),
                    };
                    out.push(
                        draw_route(
                            stations[s as usize].position,
                            p.relative_to(bounds.position(), pan),
                            Interpolation::Auto(InterpolationDirection::Auto),
                            color,
                        ),
                    );
                }
            },
            _ => {},
        }
        assert(out@ =~= with_routes + self.preview(*state, bounds, cursor));
        let ghost with_preview = out@;
        let mut k: usize = 0;
        while k < stations.len()
            invariant
                k <= stations.len(),
                out@ == with_preview + discs(stations@).take(2 * k),
            decreases stations.len() - k,
        {
            let ghost all = discs(stations@);
            let center = stations[k].position;
            out.push(
                DrawCommand::Disc {
                    center,
                    radius: STATION_OUTER_SIZE,
                    color: Rgb::from_rgb32(STATION_RIM),
                },
            );
            out.push(
                DrawCommand::Disc {
                    center,
                    radius: STATION_INNER_SIZE,
                    color: Rgb::from_rgb32(STATION_CORE),
                },
            );
            assert(all.take(2 * k + 2) =~= all.take(2 * k).push(all[2 * k]).push(all[2 * k + 1]));
            k += 1;
        }
        assert(discs(stations@).take(2 * k) =~= discs(stations@));
        assert(out@ =~= self.scene(*state, bounds, cursor));
        out
    }
}

/// The route from `start` to `end` in the given colour, as a command.
pub fn draw_route(start: Point, end: Point, interpolation: Interpolation, color: Rgb) -> (command: DrawCommand)
    ensures
        command == route(start, end, interpolation, color),
{
    let mid = interpolate(start, end, interpolation);
    DrawCommand::Route {
        start,
        bend: mid,
        end,
        turn: plan_turn(start, mid, end, TURN_RADIUS),
        color,
        width: ROUTE_WIDTH,
    }
}

/// The number of grid lines across a canvas that is `extent` wide.
pub fn count_grid_lines(extent: i32) -> (n: usize)
    ensures
        n == grid_count(extent as int),
        n <= 0x1_0000_0000,
{
    if extent > 0 {
        ((extent as usize - 1) / 50) + 3
    } else if extent > -50 {
        2
    } else if extent > -100 {
        1
    } else {
        0
    }
}

/// The grid coordinate nearest to `-pan - 50`, as an exact value.
fn grid_start(pan: i32) -> (start: i64)
    ensures
        start == snap_coord(-pan - 50),
        -0x1_0000_0000 <= start <= 0x1_0000_0000,
{
    let v: i64 = -(pan as i64) - 50;
    if v >= 0 {
        ((v + 25) / 50) * 50
    } else {
        -(((-v + 25) / 50) * 50)
    }
}

/// Adds the grid to a drawing.
fn push_grid(out: &mut Vec<DrawCommand>, pan: Vector, bounds: Rectangle)
    ensures
        final(out)@ == old(out)@ + grid(pan, bounds),
{
    let ghost before = out@;
    let color = Rgb::from_rgb32(GRID_COLOR);
    let columns = count_grid_lines(bounds.width);
    let rows = count_grid_lines(bounds.height);
    let start_x = grid_start(pan.x);
    let start_y = grid_start(pan.y);
    let top = saturate(-(pan.y as i64) - 50);
    let bottom = saturate(-(pan.y as i64) + bounds.height as i64 + 50);
    let left = saturate(-(pan.x as i64) - 50);
    let right = saturate(-(pan.x as i64) + bounds.width as i64 + 50);
    let ghost vertical = Seq::new(columns as nat, |i: int| vertical_line(pan, bounds, i));
    let ghost horizontal = Seq::new(rows as nat, |i: int| horizontal_line(pan, bounds, i));
    let mut i: usize = 0;
    while i < columns
        invariant
            i <= columns <= 0x1_0000_0000,
            color == unpacked(GRID_COLOR),
            start_x == snap_coord(-pan.x - 50),
            -0x1_0000_0000 <= start_x <= 0x1_0000_0000,
            top == clamp_coord(-pan.y - 50),
            bottom == clamp_coord(-pan.y + bounds.height + 50),
            vertical == Seq::new(columns as nat, |i: int| vertical_line(pan, bounds, i)),
            out@ == before + vertical.take(i as int),
        decreases columns - i,
    {
        let x = saturate(start_x + 50 * (i as i64));
        out.push(
            DrawCommand::GridLine {
                from: Point { x, y: top },
                to: Point { x, y: bottom },
                color,
                width: GRID_WIDTH,
            },
        );
        assert(vertical.take(i + 1) =~= vertical.take(i as int).push(vertical[i as int]));
        i += 1;
    }
    assert(vertical.take(i as int) =~= vertical);
    let mut k: usize = 0;
    while k < rows
        invariant
            k <= rows <= 0x1_0000_0000,
            color == unpacked(GRID_COLOR),
            start_y == snap_coord(-pan.y - 50),
            -0x1_0000_0000 <= start_y <= 0x1_0000_0000,
            left == clamp_coord(-pan.x - 50),
            right == clamp_coord(-pan.x + bounds.width + 50),
            horizontal == Seq::new(rows as nat, |i: int| horizontal_line(pan, bounds, i)),
            out@ == before + vertical + horizontal.take(k as int),
        decreases rows - k,
    {
        let y = saturate(start_y + 50 * (k as i64));
        out.push(
            DrawCommand::GridLine {
                from: Point { x: left, y },
                to: Point { x: right, y },
                color,
                width: GRID_WIDTH,
            },
        );
        assert(horizontal.take(k + 1) =~= horizontal.take(k as int).push(horizontal[k as int]));
        k += 1;
    }
    assert(horizontal.take(k as int) =~= horizontal);
    assert(out@ =~= before + (vertical + horizontal));
}

} // verus!
