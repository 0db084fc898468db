use metrodraw::color::Rgb;
use metrodraw::geometry::{distance_squared, min_max, saturate, snap, Point, Rectangle, Vector};
use metrodraw::model::{Interpolation, InterpolationDirection};
use metrodraw::routing::{interpolate, interpolate_auto, plan_turn};

fn pt(x: i32, y: i32) -> Point {
    Point { x, y }
}

#[test]
fn packed_colour_splits_into_channels() {
    let c = Rgb::from_rgb32(0x33bbff);
    assert_eq!((c.r, c.g, c.b), (0x33, 0xbb, 0xff));
    assert_eq!(c.to_rgb32(), 0x33bbff);
    let c = Rgb::from_rgb32(0xff19191d);
    assert_eq!((c.r, c.g, c.b), (0x19, 0x19, 0x1d));
}

#[test]
fn snapping_rounds_half_away_from_zero() {
    assert_eq!(snap(73), 50);
    assert_eq!(snap(12), 0);
    assert_eq!(snap(24), 0);
    assert_eq!(snap(25), 50);
    assert_eq!(snap(75), 100);
    assert_eq!(snap(-24), 0);
    assert_eq!(snap(-25), -50);
    assert_eq!(snap(-75), -100);
    assert_eq!(snap(150), 150);
    assert_eq!(snap(i32::MAX), i32::MAX);
    assert_eq!(snap(i32::MIN), i32::MIN);
    assert_eq!(pt(73, 12).snapped(), pt(50, 0));
}

#[test]
fn saturate_limits_to_the_coordinate_range() {
    assert_eq!(saturate(5), 5);
    assert_eq!(saturate(i64::MAX), i32::MAX);
    assert_eq!(saturate(i64::MIN), i32::MIN);
}

#[test]
fn distances_are_exact() {
    assert_eq!(distance_squared(pt(0, 0), pt(3, 4)), 25);
    assert!(!pt(0, 0).beyond(pt(3, 4), 5));
    assert!(pt(0, 0).beyond(pt(3, 5), 5));
    assert!(pt(0, 0).within(pt(12, 15), 20));
    assert!(!pt(0, 0).within(pt(12, 16), 20));
    assert_eq!(
        distance_squared(pt(i32::MIN, i32::MIN), pt(i32::MAX, i32::MAX)),
        2 * (u32::MAX as i128) * (u32::MAX as i128)
    );
    assert!(pt(i32::MIN, 0).beyond(pt(i32::MAX, 0), i32::MAX));
}

#[test]
fn relative_positions_subtract_origin_and_offset() {
    let p = pt(73, 12).relative_to(pt(10, 2), Vector { x: -7, y: 5 });
    assert_eq!(p, pt(70, 5));
    let far = pt(i32::MAX, 0).relative_to(pt(-1, 0), Vector { x: 0, y: 0 });
    assert_eq!(far, pt(i32::MAX, 0));
}

#[test]
fn rectangle_contains_its_border() {
    let r = Rectangle { x: 10, y: 20, width: 100, height: 50 };
    assert_eq!(r.position(), pt(10, 20));
    assert!(r.contains(pt(10, 20)));
    assert!(r.contains(pt(110, 70)));
    assert!(!r.contains(pt(111, 20)));
    assert!(!r.contains(pt(10, 71)));
    assert!(!r.contains(pt(9, 20)));
    assert!(!r.contains(pt(10, 19)));
    let far = Rectangle { x: i32::MAX, y: 0, width: i32::MAX, height: 0 };
    assert!(far.contains(pt(i32::MAX, 0)));
}

#[test]
fn min_max_of_nothing_is_zero() {
    assert_eq!(min_max(&vec![]), (0, 0));
    assert_eq!(min_max(&vec![3, -1, 7]), (-1, 7));
    assert_eq!(min_max(&vec![5]), (5, 5));
    assert_eq!(min_max(&vec![4, 9]), (4, 9));
}

#[test]
fn auto_route_leaves_along_the_longer_axis() {
    let auto = InterpolationDirection::Auto;
    assert_eq!(interpolate_auto(pt(0, 0), pt(100, 30), auto), pt(70, 0));
    assert_eq!(interpolate_auto(pt(0, 0), pt(-100, 30), auto), pt(-70, 0));
    assert_eq!(interpolate_auto(pt(0, 0), pt(30, 100), auto), pt(0, 70));
    assert_eq!(interpolate_auto(pt(0, 0), pt(30, -100), auto), pt(0, -70));
    assert_eq!(interpolate_auto(pt(0, 0), pt(50, 50), auto), pt(0, 0));
    assert_eq!(interpolate_auto(pt(0, 0), pt(100, 0), auto), pt(100, 0));
    assert_eq!(interpolate_auto(pt(7, 7), pt(7, 7), auto), pt(7, 7));
    assert_eq!(
        interpolate(pt(0, 0), pt(100, 30), Interpolation::Auto(auto)),
        pt(70, 0)
    );
}

#[test]
fn overrides_use_their_own_axis() {
    assert_eq!(
        interpolate_auto(pt(0, 0), pt(30, 100), InterpolationDirection::Horizontal),
        pt(-70, 0)
    );
    assert_eq!(
        interpolate_auto(pt(0, 0), pt(100, 30), InterpolationDirection::Vertical),
        pt(0, -70)
    );
    assert_eq!(
        interpolate_auto(pt(0, 0), pt(100, 30), InterpolationDirection::Diagonal),
        pt(30, 30)
    );
    assert_eq!(
        interpolate_auto(pt(0, 0), pt(30, 100), InterpolationDirection::Diagonal),
        pt(30, 30)
    );
}

#[test]
fn reversed_route_bends_at_the_mirrored_point() {
    let dirs = [
        InterpolationDirection::Auto,
        InterpolationDirection::Horizontal,
        InterpolationDirection::Vertical,
        InterpolationDirection::Diagonal,
    ];
    let ends = [(pt(0, 0), pt(100, 30)), (pt(-20, 40), pt(10, -150)), (pt(5, 5), pt(5, 90))];
    for d in dirs {
        for (s, e) in ends {
            let there = interpolate_auto(s, e, d);
            let back = interpolate_auto(e, s, d);
            assert_eq!(back, pt(s.x + e.x - there.x, s.y + e.y - there.y));
        }
    }
}

#[test]
fn bend_outside_the_range_is_moved_to_its_border() {
    let mid = interpolate_auto(
        pt(i32::MIN, 0),
        pt(i32::MIN + 10, i32::MAX),
        InterpolationDirection::Horizontal,
    );
    assert_eq!(mid, pt(i32::MIN, 0));
}

#[test]
fn corner_bends_the_short_way() {
    let t = plan_turn(pt(0, 0), pt(70, 0), pt(100, 30), 40);
    assert_eq!((t.flip_x, t.flip_y, t.vertical, t.forward, t.full_radius), (1, -1, false, false, true));
    let t = plan_turn(pt(0, 0), pt(70, 0), pt(100, -30), 40);
    assert_eq!((t.flip_x, t.flip_y, t.vertical, t.forward), (1, 1, false, true));
    let t = plan_turn(pt(0, 0), pt(0, 70), pt(30, 100), 40);
    assert_eq!((t.flip_x, t.flip_y, t.vertical, t.forward), (-1, 1, true, true));
    let t = plan_turn(pt(0, 0), pt(0, 70), pt(-30, 100), 40);
    assert_eq!((t.flip_x, t.flip_y, t.vertical, t.forward), (1, 1, true, false));
    let t = plan_turn(pt(0, 0), pt(90, 0), pt(100, 10), 40);
    assert!(!t.full_radius);
    let t = plan_turn(pt(0, 0), pt(100, 0), pt(100, 0), 40);
    assert_eq!((t.flip_x, t.flip_y, t.full_radius), (1, 0, false));
}
