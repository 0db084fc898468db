use metrodraw::color::Rgb;
use metrodraw::geometry::{Point, Rectangle, Vector};
use metrodraw::map::TransitMap;
use metrodraw::model::{Interpolation, InterpolationDirection, Station};
use metrodraw::render::{count_grid_lines, draw_route, DrawCommand};
use metrodraw::routing::plan_turn;
use metrodraw::shell::EditMode;
use metrodraw::view::{ClickStart, DragState, MapView, ViewState};

fn pt(x: i32, y: i32) -> Point {
    Point { x, y }
}

fn idle(pan: Vector) -> ViewState {
    ViewState { dirty: true, dragging: DragState::Idle, pan_offset: pan }
}

#[test]
fn grid_has_two_lines_more_than_cells() {
    assert_eq!(count_grid_lines(100), 4);
    assert_eq!(count_grid_lines(101), 5);
    assert_eq!(count_grid_lines(1), 3);
    assert_eq!(count_grid_lines(0), 2);
    assert_eq!(count_grid_lines(-49), 2);
    assert_eq!(count_grid_lines(-50), 1);
    assert_eq!(count_grid_lines(-99), 1);
    assert_eq!(count_grid_lines(-100), 0);
    assert_eq!(count_grid_lines(i32::MAX), 42949675);
}

#[test]
fn empty_map_draws_ground_and_grid() {
    let map = TransitMap::default();
    let view = MapView::new(&map, EditMode::Station, 0);
    let bounds = Rectangle { x: 0, y: 0, width: 100, height: 50 };
    let commands = view.draw(&idle(Vector { x: 30, y: -80 }), bounds, None);
    let grey = Rgb::from_rgb32(0x3d3d4a);
    let line = |a: Point, b: Point| DrawCommand::GridLine { from: a, to: b, color: grey, width: 2 };
    assert_eq!(
        commands,
        vec![
            DrawCommand::Fill { color: Rgb::from_rgb32(0x19191D) },
            DrawCommand::Translate { offset: Vector { x: 30, y: -80 } },
            line(pt(-100, 30), pt(-100, 180)),
            line(pt(-50, 30), pt(-50, 180)),
            line(pt(0, 30), pt(0, 180)),
            line(pt(50, 30), pt(50, 180)),
            line(pt(-80, 50), pt(120, 50)),
            line(pt(-80, 100), pt(120, 100)),
            line(pt(-80, 150), pt(120, 150)),
        ]
    );
}

#[test]
fn routes_come_before_stations() {
    let mut map = TransitMap::default();
    let a = map.add_station(Station { position: pt(0, 0) });
    let b = map.add_station(Station { position: pt(100, 50) });
    map.add_segment(2, a, b);
    let view = MapView::new(&map, EditMode::Line, 1);
    let bounds = Rectangle { x: 0, y: 0, width: -100, height: -100 };
    let commands = view.draw(&idle(Vector { x: 0, y: 0 }), bounds, Some(pt(5, 5)));
    let rim = Rgb::from_rgb32(0xd8e0ef);
    let core = Rgb::from_rgb32(0x030405);
    assert_eq!(
        commands,
        vec![
            DrawCommand::Fill { color: Rgb::from_rgb32(0x19191D) },
            DrawCommand::Translate { offset: Vector { x: 0, y: 0 } },
            DrawCommand::Route {
                start: pt(0, 0),
                bend: pt(50, 0),
                end: pt(100, 50),
                turn: plan_turn(pt(0, 0), pt(50, 0), pt(100, 50), 40),
                color: Rgb::from_rgb32(0xff714d),
                width: 10,
            },
            DrawCommand::Disc { center: pt(0, 0), radius: 20, color: rim },
            DrawCommand::Disc { center: pt(0, 0), radius: 15, color: core },
            DrawCommand::Disc { center: pt(100, 50), radius: 20, color: rim },
            DrawCommand::Disc { center: pt(100, 50), radius: 15, color: core },
        ]
    );
}

#[test]
fn line_being_drawn_is_previewed() {
    let mut map = TransitMap::default();
    map.add_station(Station { position: pt(0, 0) });
    let view = MapView::new(&map, EditMode::Line, 1);
    let bounds = Rectangle { x: 10, y: 10, width: -100, height: -100 };
    let state = ViewState {
        dirty: true,
        dragging: DragState::Dragging(ClickStart::Station(0), None),
        pan_offset: Vector { x: 5, y: 0 },
    };
    let commands = view.draw(&state, bounds, Some(pt(115, 40)));
    assert_eq!(commands.len(), 5);
    assert_eq!(
        commands[2],
        draw_route(
            pt(0, 0),
            pt(100, 30),
            Interpolation::Auto(InterpolationDirection::Auto),
            Rgb::from_rgb32(0x3cbe3c),
        )
    );
    assert_eq!(view.draw(&state, bounds, None).len(), 4);
    let other = MapView::new(&map, EditMode::Station, 1);
    assert_eq!(other.draw(&state, bounds, Some(pt(115, 40))).len(), 4);
}
