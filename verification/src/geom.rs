//! Fixed-point screen geometry: points, rectangles, and the small easing
//! helpers the animation code leans on.  Coordinates are in millipixels.

use vstd::prelude::*;

verus! {

/// A position on the panel, in millipixels.
#[derive(Clone, Copy, Debug, PartialEq, Eq, Structural)]
pub struct Point {
    pub x: i64,
    pub y: i64,
}

impl Point {
    pub fn new(x: i64, y: i64) -> (p: Point)
        ensures
            p.x == x,
            p.y == y,
    {
        Point { x, y }
    }
}

impl Default for Point {
    fn default() -> (p: Point)
        ensures
            p.x == 0 && p.y == 0,
    {
        Point { x: 0, y: 0 }
    }
}

/// An axis-aligned rectangle, in millipixels.
#[derive(Clone, Copy, Debug, PartialEq, Eq, Structural)]
pub struct Rect {
    pub x0: i64,
    pub y0: i64,
    pub x1: i64,
    pub y1: i64,
}

/// What it means for a rectangle to contain a point: closed on all edges.
pub open spec fn rect_contains(r: Rect, p: Point) -> bool {
    p.x >= r.x0 && p.x <= r.x1 && p.y >= r.y0 && p.y <= r.y1
}

impl Rect {
    pub fn new(x0: i64, y0: i64, x1: i64, y1: i64) -> (r: Rect)
        ensures
            r.x0 == x0 && r.y0 == y0 && r.x1 == x1 && r.y1 == y1,
    {
        Rect { x0, y0, x1, y1 }
    }

    pub fn contains(&self, p: Point) -> (b: bool)
        ensures
            b == rect_contains(*self, p),
    {
        p.x >= self.x0 && p.x <= self.x1 && p.y >= self.y0 && p.y <= self.y1
    }
}

impl Default for Rect {
    fn default() -> (r: Rect)
        ensures
            r.x0 == 0 && r.y0 == 0 && r.x1 == 0 && r.y1 == 0,
    {
        Rect { x0: 0, y0: 0, x1: 0, y1: 0 }
    }
}

/// The value `move_towards` steps to: `current` moved toward `target` by at
/// most `speed`, landing exactly on `target` once within reach.
pub open spec fn moved_towards(current: int, target: int, speed: int) -> int {
    if -speed <= target - current <= speed {
        target
    } else if target > current {
        current + speed
    } else {
        current - speed
    }
}

/// Step an animation value toward a target at a bounded rate.
pub fn move_towards(current: &mut i64, target: i64, speed: i64)
    requires
        0 <= speed,
        -1_000_000_000 <= *old(current) <= 1_000_000_000,
        -1_000_000_000 <= target <= 1_000_000_000,
        speed <= 1_000_000_000,
    ensures
        *final(current) == moved_towards(*old(current) as int, target as int, speed as int),
{
    let delta: i64 = target - *current;
    if -speed <= delta && delta <= speed {
        *current = target;
    } else if delta > 0 {
        *current = *current + speed;
    } else {
        *current = *current - speed;
    }
}

/// Linear interpolation at a millionth-scale parameter: the exact integer
/// form of `v0 + t * (v1 - v0)` with `t` in millionths, rounded toward zero.
pub open spec fn lerp_frac_spec(t: int, v0: int, v1: int) -> int {
    v0 + (t * (v1 - v0)) / 1_000_000
}

/// Interpolate between two fixed-point values; `t` is in millionths.
pub fn lerp_frac(t: i64, v0: i64, v1: i64) -> (r: i64)
    requires
        0 <= t <= 1_000_000,
        -1_000_000_000 <= v0 <= v1 <= 1_000_000_000,
    ensures
        r == lerp_frac_spec(t as int, v0 as int, v1 as int),
{
    let diff: i64 = v1 - v0;
    assert(0 <= t * diff <= 1_000_000 * 2_000_000_000i64) by (nonlinear_arith)
        requires
            0 <= t <= 1_000_000,
            0 <= diff <= 2_000_000_000,
    ;
    let scaled: i64 = (t * diff) / 1_000_000;
    v0 + scaled
}

} // verus!
