//! Integer plane geometry: points, offsets, distances and the grid.
//!
//! Coordinates are `i32`. Every result is computed exactly over the integers
//! and limited to the coordinate range only when it is stored.

use vstd::prelude::*;

verus! {

/// Side of a grid cell.
pub const GRID_SIZE: i32 = 50;

/// Radius of the dark inner disc of a station.
pub const STATION_INNER_SIZE: i32 = 15;

/// Radius of a station: a pointer closer than this is on the station.
pub const STATION_OUTER_SIZE: i32 = 20;

/// How far the pointer may move from where it was pressed before the
/// gesture counts as a drag.
pub const DRAG_RANGE: i32 = 5;

/// Radius of the rounded corner of a route.
pub const TURN_RADIUS: i32 = 40;

/// A position on the canvas or on the map.
#[derive(Clone, Copy, Debug, PartialEq, Eq, Structural)]
pub struct Point {
    pub x: i32,
    pub y: i32,
}

/// A displacement, such as the pan offset of the view.
#[derive(Clone, Copy, Debug, PartialEq, Eq, Structural)]
pub struct Vector {
    pub x: i32,
    pub y: i32,
}

/// An axis-aligned rectangle given by its top-left corner and its size.
#[derive(Clone, Copy, Debug, PartialEq, Eq, Structural)]
pub struct Rectangle {
    pub x: i32,
    pub y: i32,
    pub width: i32,
    pub height: i32,
}

/// `v` limited to the coordinate range.
pub open spec fn clamp_coord(v: int) -> int {
    if v < i32::MIN {
        i32::MIN as int
    } else if v > i32::MAX {
        i32::MAX as int
    } else {
        v
    }
}

/// The absolute value of `v`.
pub open spec fn abs(v: int) -> int {
    if v < 0 {
        -v
    } else {
        v
    }
}

/// The sign of `v`: -1, 0 or 1.
pub open spec fn sign(v: int) -> int {
    if v > 0 {
        1
    } else if v < 0 {
        -1
    } else {
        0
    }
}

/// `mag` carried in the direction of `dir`: `mag * sign(dir)`.
pub open spec fn toward(mag: int, dir: int) -> int {
    if dir > 0 {
        mag
    } else if dir < 0 {
        -mag
    } else {
        0
    }
}

/// The square of the distance between two points.
pub open spec fn dist_sq(a: Point, b: Point) -> int {
    (a.x - b.x) * (a.x - b.x) + (a.y - b.y) * (a.y - b.y)
}

/// The multiple of the grid size nearest to `v`; a value half-way between two
/// multiples goes to the one farther from zero.
pub open spec fn snap_coord(v: int) -> int {
    if v >= 0 {
        ((v + 25) / 50) * 50
    } else {
        -(((-v + 25) / 50) * 50)
    }
}

/// `old_offset` moved by the pointer's travel from `from` to `to`.
pub open spec fn dragged(old_offset: int, from: int, to: int) -> int {
    old_offset + (to - from)
}

/// `v` held between `lo` and `hi`; where the two cross, `lo` wins.
pub open spec fn clamp_between(v: int, lo: int, hi: int) -> int {
    let capped = if v < hi {
        v
    } else {
        hi
    };
    if capped > lo {
        capped
    } else {
        lo
    }
}

/// Limits an exactly computed value to the coordinate range.
pub fn saturate(v: i64) -> (r: i32)
    ensures
        r == clamp_coord(v as int),
{
    if v < i32::MIN as i64 {
        i32::MIN
    } else if v > i32::MAX as i64 {
        i32::MAX
    } else {
        v as i32
    }
}

/// The exact square of the distance between `a` and `b`.
pub fn distance_squared(a: Point, b: Point) -> (d: i128)
    ensures
        d == dist_sq(a, b),
        0 <= d <= 0x2_0000_0000_0000_0000,
{
    let dx: i128 = a.x as i128 - b.x as i128;
    let dy: i128 = a.y as i128 - b.y as i128;
    assert(0 <= dx * dx <= 0x1_0000_0000_0000_0000) by (nonlinear_arith)
        requires
            -0x1_0000_0000 <= dx <= 0x1_0000_0000,
    ;
    assert(0 <= dy * dy <= 0x1_0000_0000_0000_0000) by (nonlinear_arith)
        requires
            -0x1_0000_0000 <= dy <= 0x1_0000_0000,
    ;
    dx * dx + dy * dy
}

impl Point {
    /// Whether `other` lies closer to `self` than `radius`.
    pub fn within(self, other: Point, radius: i32) -> (b: bool)
        ensures
            b == (dist_sq(self, other) < radius * radius),
    {
        let r: i128 = radius as i128;
        assert(0 <= r * r <= 0x4000_0000_0000_0000) by (nonlinear_arith)
            requires
                -0x8000_0000 <= r <= 0x7FFF_FFFF,
        ;
        distance_squared(self, other) < r * r
    }

    /// Whether `other` lies farther from `self` than `radius`.
    pub fn beyond(self, other: Point, radius: i32) -> (b: bool)
        ensures
            b == (dist_sq(self, other) > radius * radius),
    {
        let r: i128 = radius as i128;
        assert(0 <= r * r <= 0x4000_0000_0000_0000) by (nonlinear_arith)
            requires
                -0x8000_0000 <= r <= 0x7FFF_FFFF,
        ;
        distance_squared(self, other) > r * r
    }

    /// The grid point nearest to `self`, each coordinate on its own.
    pub fn snapped(self) -> (p: Point)
        ensures
            p.x == clamp_coord(snap_coord(self.x as int)),
            p.y == clamp_coord(snap_coord(self.y as int)),
    {
        Point { x: snap(self.x), y: snap(self.y) }
    }

    /// The same place seen from a view whose origin is at `origin` and whose
    /// content is shifted by `offset`.
    pub fn relative_to(self, origin: Point, offset: Vector) -> (p: Point)
        ensures
            p.x == clamp_coord(self.x - origin.x - offset.x),
            p.y == clamp_coord(self.y - origin.y - offset.y),
    {
        Point {
            x: saturate(self.x as i64 - origin.x as i64 - offset.x as i64),
            y: saturate(self.y as i64 - origin.y as i64 - offset.y as i64),
        }
    }
}

impl Rectangle {
    /// The top-left corner.
    pub fn position(self) -> (p: Point)
        ensures
            p.x == self.x,
            p.y == self.y,
    {
        Point { x: self.x, y: self.y }
    }

    /// Whether `p` lies inside or on the border.
    pub open spec fn covers(self, p: Point) -> bool {
        &&& self.x <= p.x <= self.x + self.width
        &&& self.y <= p.y <= self.y + self.height
    }

    /// Whether `p` lies inside the rectangle or on its border.
    pub fn contains(self, p: Point) -> (b: bool)
        ensures
            b == self.covers(p),
    {
        self.x <= p.x && (p.x as i64) <= self.x as i64 + self.width as i64 && self.y <= p.y && (
        p.y as i64) <= self.y as i64 + self.height as i64
    }
}

/// The grid coordinate nearest to `v`, limited to the coordinate range.
pub fn snap(v: i32) -> (r: i32)
    ensures
        r == clamp_coord(snap_coord(v as int)),
{
    let w: i64 = v as i64;
    if w >= 0 {
        saturate(((w + 25) / 50) * 50)
    } else {
        saturate(-(((-w + 25) / 50) * 50))
    }
}

/// A snapped coordinate lies on the grid, at most half a cell from where it
/// was taken, and snapping a grid coordinate changes nothing.
pub proof fn lemma_snap_coord(v: int)
    ensures
        snap_coord(v) % 50 == 0,
        abs(snap_coord(v) - v) <= 25,
        v % 50 == 0 ==> snap_coord(v) == v,
{
}

/// The least and the greatest of `values`; both are 0 where there are none.
pub open spec fn least(values: Seq<i32>) -> int
    decreases values.len(),
{
    if values.len() == 0 {
        0
    } else if values.len() == 1 {
        values[0] as int
    } else {
        let rest = least(values.drop_last());
        if values.last() < rest {
            values.last() as int
        } else {
            rest
        }
    }
}

/// The greatest of `values`, or 0 where there are none.
pub open spec fn greatest(values: Seq<i32>) -> int
    decreases values.len(),
{
    if values.len() == 0 {
        0
    } else if values.len() == 1 {
        values[0] as int
    } else {
        let rest = greatest(values.drop_last());
        if values.last() > rest {
            values.last() as int
        } else {
            rest
        }
    }
}

/// The extremes bound every value and are among the values.
pub proof fn lemma_extremes(values: Seq<i32>)
    requires
        values.len() > 0,
    ensures
        forall|i: int| 0 <= i < values.len() ==> least(values) <= #[trigger] values[i] <= greatest(values),
        exists|i: int| 0 <= i < values.len() && #[trigger] values[i] == least(values),
        exists|i: int| 0 <= i < values.len() && #[trigger] values[i] == greatest(values),
    decreases values.len(),
{
    if values.len() == 1 {
        assert(values[0] == least(values));
        assert(values[0] == greatest(values));
    } else {
        let front = values.drop_last();
        lemma_extremes(front);
        let i = choose|i: int| 0 <= i < front.len() && #[trigger] front[i] == least(front);
        let j = choose|j: int| 0 <= j < front.len() && #[trigger] front[j] == greatest(front);
        assert(values[i] == front[i]);
        assert(values[j] == front[j]);
        let n = values.len() - 1;
        assert(values[n] == values.last());
        assert forall|k: int| 0 <= k < values.len() implies least(values) <= #[trigger] values[k]
            <= greatest(values) by {
            if k < n {
                assert(values[k] == front[k]);
            }
        }
    }
}

/// The least and the greatest of `values` in one pass.
pub fn min_max(values: &Vec<i32>) -> (r: (i32, i32))
    ensures
        r.0 == least(values@),
        r.1 == greatest(values@),
{
    if values.len() == 0 {
        return (0, 0);
    }
    let mut min: i32 = values[0];
    let mut max: i32 = values[0];
    let mut i: usize = 1;
    assert(values@.take(1) =~= seq![values@[0]]);
    while i < values.len()
        invariant
            1 <= i <= values.len(),
            min == least(values@.take(i as int)),
            max == greatest(values@.take(i as int)),
        decreases values.len() - i,
    {
        let x: i32 = values[i];
        assert(values@.take(i + 1).drop_last() =~= values@.take(i as int));
        if x > max {
            max = x;
        }
        if x < min {
            min = x;
        }
        i += 1;
    }
    assert(values@.take(i as int) =~= values@);
    (min, max)
}

} // verus!
