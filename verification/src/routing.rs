//! Schematic routing: a segment runs along an axis from one end, turns once,
//! and reaches the other end on a diagonal.

use vstd::prelude::*;
use crate::geometry::{abs, clamp_coord, dist_sq, distance_squared, saturate, sign, toward, Point};
use crate::model::{Interpolation, InterpolationDirection};

verus! {

/// The bend of a route that leaves `start` horizontally.
pub open spec fn horizontal_bend(start: Point, end: Point) -> (int, int) {
    (end.x - toward(abs(end.y - start.y), end.x - start.x), start.y as int)
}

/// The bend of a route that leaves `start` vertically.
pub open spec fn vertical_bend(start: Point, end: Point) -> (int, int) {
    (start.x as int, end.y - toward(abs(end.x - start.x), end.y - start.y))
}

/// The bend of a route that leaves `start` on a diagonal and arrives along
/// the axis in which the two ends lie farther apart.
pub open spec fn diagonal_bend(start: Point, end: Point) -> (int, int) {
    if abs(end.x - start.x) > abs(end.y - start.y) {
        (start.x + toward(abs(end.y - start.y), end.x - start.x), end.y as int)
    } else {
        (end.x as int, start.y + toward(abs(end.x - start.x), end.y - start.y))
    }
}

/// Whether the automatic choice leaves `start` horizontally: it does where
/// the two ends lie farther apart in x than in y.
pub open spec fn prefers_horizontal(start: Point, end: Point) -> bool {
    abs(end.x - start.x) > abs(end.y - start.y)
}

/// The bend of the route from `start` to `end`, as exact coordinates.
pub open spec fn bend(start: Point, end: Point, direction: InterpolationDirection) -> (int, int) {
    match direction {
        InterpolationDirection::Horizontal => horizontal_bend(start, end),
        InterpolationDirection::Vertical => vertical_bend(start, end),
        InterpolationDirection::Diagonal => diagonal_bend(start, end),
        InterpolationDirection::Auto => if prefers_horizontal(start, end) {
            horizontal_bend(start, end)
        } else {
            vertical_bend(start, end)
        },
    }
}

/// `mag` carried in the direction of `dir`.
fn carry(mag: i64, dir: i64) -> (r: i64)
    requires
        0 <= mag <= 0x1_0000_0000,
    ensures
        r == toward(mag as int, dir as int),
{
    if dir > 0 {
        mag
    } else if dir < 0 {
        -mag
    } else {
        0
    }
}

/// The absolute value of a difference of two coordinates.
fn magnitude(v: i64) -> (r: i64)
    requires
        -0x1_0000_0000 <= v <= 0x1_0000_0000,
    ensures
        r == abs(v as int),
{
    if v < 0 {
        -v
    } else {
        v
    }
}

/// The point at which the route from `start` to `end` turns. A bend that
/// would lie outside the coordinate range is moved to its border.
pub fn interpolate_auto(start: Point, end: Point, direction: InterpolationDirection) -> (mid: Point)
    ensures
        mid.x == clamp_coord(bend(start, end, direction).0),
        mid.y == clamp_coord(bend(start, end, direction).1),
{
    let dx: i64 = end.x as i64 - start.x as i64;
    let dy: i64 = end.y as i64 - start.y as i64;
    let wide = magnitude(dx) > magnitude(dy);
    let horizontal = match direction {
        InterpolationDirection::Horizontal => true,
        InterpolationDirection::Auto => wide,
        _ => false,
    };
    let vertical = match direction {
        InterpolationDirection::Vertical => true,
        InterpolationDirection::Auto => !wide,
        _ => false,
    };
    if horizontal {
        Point { x: saturate(end.x as i64 - carry(magnitude(dy), dx)), y: start.y }
    } else if vertical {
        Point { x: start.x, y: saturate(end.y as i64 - carry(magnitude(dx), dy)) }
    } else if wide {
        Point { x: saturate(start.x as i64 + carry(magnitude(dy), dx)), y: end.y }
    } else {
        Point { x: end.x, y: saturate(start.y as i64 + carry(magnitude(dx), dy)) }
    }
}

/// The point at which a segment with the given interpolation turns.
pub fn interpolate(start: Point, end: Point, interpolation: Interpolation) -> (mid: Point)
    ensures
        interpolation matches Interpolation::Auto(d) && mid.x == clamp_coord(bend(start, end, d).0)
            && mid.y == clamp_coord(bend(start, end, d).1),
{
    match interpolation {
        Interpolation::Auto(d) => interpolate_auto(start, end, d),
    }
}

/// The route from `end` back to `start` turns where the route from `start`
/// to `end` turns, mirrored through the middle between the two ends: both
/// routes join the same two points, and each is the other turned by half a
/// turn.
pub proof fn lemma_bend_mirrors(start: Point, end: Point, direction: InterpolationDirection)
    ensures
        bend(end, start, direction).0 == start.x + end.x - bend(start, end, direction).0,
        bend(end, start, direction).1 == start.y + end.y - bend(start, end, direction).1,
{
}

/// An automatic route stays between its ends, so its bend is never moved: it
/// leaves `start` along the axis in which the ends lie farther apart,
/// towards `end`, and reaches `end` on a diagonal.
pub proof fn lemma_auto_route_shape(start: Point, end: Point)
    ensures
        ({
            let b = bend(start, end, InterpolationDirection::Auto);
            let dx = end.x - start.x;
            let dy = end.y - start.y;
            &&& clamp_coord(b.0) == b.0 && clamp_coord(b.1) == b.1
            &&& abs(end.x - b.0) == abs(end.y - b.1)
            &&& prefers_horizontal(start, end) ==> b.1 == start.y && b.0 - start.x == toward(
                abs(dx) - abs(dy),
                dx,
            )
            &&& !prefers_horizontal(start, end) ==> b.0 == start.x && b.1 - start.y == toward(
                abs(dy) - abs(dx),
                dy,
            )
        }),
{
}

/// `toward` is the product of a magnitude and a sign.
pub proof fn lemma_toward_is_product(mag: int, dir: int)
    ensures
        toward(mag, dir) == mag * sign(dir),
{
}

/// How the rounded corner of a route is to be drawn.
#[derive(Clone, Copy, Debug, PartialEq, Eq, Structural)]
pub struct Turn {
    /// The side of the bend on which the corner lies in x: -1, 0 or 1.
    pub flip_x: i8,
    /// The side of the bend on which the corner lies in y: -1, 0 or 1.
    pub flip_y: i8,
    /// Whether the route leaves its start vertically.
    pub vertical: bool,
    /// Whether the arc is drawn from the first leg to the second; else it is
    /// drawn from the second back to the first.
    pub forward: bool,
    /// Whether the second leg is long enough for the radius asked for; else
    /// the radius is the length of that leg.
    pub full_radius: bool,
}

/// The corner of the route `start`, `mid`, `end` for a given radius.
pub open spec fn turn_of(start: Point, mid: Point, end: Point, radius: int) -> Turn {
    let vertical = start.x == mid.x;
    let sx = sign(end.x - start.x);
    let sy = -sign(end.y - start.y);
    let flip_x = if vertical {
        -sx
    } else {
        sx
    };
    let flip_y = if vertical {
        -sy
    } else {
        sy
    };
    Turn {
        flip_x: flip_x as i8,
        flip_y: flip_y as i8,
        vertical,
        forward: (!vertical && flip_x == flip_y) || (vertical && flip_x != flip_y),
        full_radius: radius * radius <= dist_sq(end, mid),
    }
}

/// The sign of the difference `a - b`.
fn sign_of_difference(a: i32, b: i32) -> (s: i8)
    ensures
        s == sign(a - b),
{
    if a > b {
        1
    } else if a < b {
        -1
    } else {
        0
    }
}

/// Decides how the corner at `mid` is drawn: on which side of the bend it
/// lies, which way the arc runs so that it bends the short way, and whether
/// the radius has to shrink to the length of the second leg.
pub fn plan_turn(start: Point, mid: Point, end: Point, radius: i32) -> (turn: Turn)
    ensures
        turn == turn_of(start, mid, end, radius as int),
{
    let vertical = start.x == mid.x;
    let sx = sign_of_difference(end.x, start.x);
    let sy = -sign_of_difference(end.y, start.y);
    let flip_x: i8 = if vertical {
        -sx
    } else {
        sx
    };
    let flip_y: i8 = if vertical {
        -sy
    } else {
        sy
    };
    let r: i128 = radius as i128;
    assert(0 <= r * r <= 0x4000_0000_0000_0000) by (nonlinear_arith)
        requires
            -0x8000_0000 <= r <= 0x7FFF_FFFF,
    ;
    Turn {
        flip_x,
        flip_y,
        vertical,
        forward: (!vertical && flip_x == flip_y) || (vertical && flip_x != flip_y),
        full_radius: r * r <= distance_squared(end, mid),
    }
}

} // verus!
