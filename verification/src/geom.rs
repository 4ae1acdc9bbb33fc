//! Fixed-point plane geometry: points, distances, the eased velocity law.
//!
//! Coordinates and velocities are integers in milliunits (one world unit =
//! 1000 milliunits); velocities are milliunits per second.

use vstd::prelude::*;
use vstd::arithmetic::div_mod::{lemma_div_is_ordered, lemma_div_by_multiple, lemma_div_pos_is_pos};
use vstd::arithmetic::mul::lemma_mul_inequality;
use crate::{COORD_LIMIT, SPAN_LIMIT, EASE_DISTANCE_MU, WINDOW_WIDTH_MU, WINDOW_HEIGHT_MU};

verus! {

/// A point (or displacement) in the world plane, in milliunits.
#[derive(Clone, Copy, Debug, PartialEq, Eq)]
pub struct Point {
    pub x: i64,
    pub y: i64,
}

/// A velocity in milliunits per second.
#[derive(Clone, Copy, Debug, PartialEq, Eq)]
pub struct Velocity {
    pub x: i64,
    pub y: i64,
}

/// Absolute value over mathematical integers.
pub open spec fn iabs(x: int) -> int {
    if x < 0 { -x } else { x }
}

/// Sign application: `mag` oriented along the sign of `dir`.
pub open spec fn with_sign(dir: int, mag: int) -> int {
    if dir < 0 { -mag } else { mag }
}

impl Point {
    /// Within the coordinate band the engine accepts for entity positions.
    pub open spec fn wf(self) -> bool {
        -COORD_LIMIT <= self.x <= COORD_LIMIT && -COORD_LIMIT <= self.y <= COORD_LIMIT
    }

    /// Within the wider band the low-level geometry accepts (redirected
    /// movement targets can leave the entity band by one range parameter).
    pub open spec fn span_ok(self) -> bool {
        -SPAN_LIMIT <= self.x <= SPAN_LIMIT && -SPAN_LIMIT <= self.y <= SPAN_LIMIT
    }

}

/// Floor of the square root, defined recursively over the naturals.
pub open spec fn sqrt_floor(n: int) -> int
    decreases n,
{
    if n < 1 {
        0
    } else {
        let r = sqrt_floor(n - 1);
        if (r + 1) * (r + 1) <= n {
            r + 1
        } else {
            r
        }
    }
}

/// `sqrt_floor(n)` brackets `n`: it is the unique `r >= 0` with
/// `r * r <= n < (r + 1) * (r + 1)`.
pub proof fn lemma_sqrt_floor(n: int)
    requires
        n >= 0,
    ensures
        0 <= sqrt_floor(n),
        sqrt_floor(n) * sqrt_floor(n) <= n,
        n < (sqrt_floor(n) + 1) * (sqrt_floor(n) + 1),
    decreases n,
{
    if n >= 1 {
        lemma_sqrt_floor(n - 1);
        let r = sqrt_floor(n - 1);
        if (r + 1) * (r + 1) <= n {
            assert(n <= (r + 1) * (r + 1));
            assert((r + 1) * (r + 1) < (r + 2) * (r + 2)) by (nonlinear_arith)
                requires r >= 0;
        }
    }
}

/// Any `r` that brackets `n` is `sqrt_floor(n)`.
pub proof fn lemma_sqrt_floor_unique(n: int, r: int)
    requires
        n >= 0,
        r >= 0,
        r * r <= n,
        n < (r + 1) * (r + 1),
    ensures
        r == sqrt_floor(n),
{
    let s = sqrt_floor(n);
    lemma_sqrt_floor(n);
    if r < s {
        lemma_mul_inequality(r + 1, s, r + 1);
        lemma_mul_inequality(r + 1, s, s);
        assert((r + 1) * (r + 1) <= s * s) by (nonlinear_arith)
            requires 0 <= r + 1 <= s;
    }
    if s < r {
        assert((s + 1) * (s + 1) <= r * r) by (nonlinear_arith)
            requires 0 <= s + 1 <= r;
    }
}

/// Squares are monotone: comparing nonnegative numbers is comparing squares.
proof fn lemma_square_ordered(a: int, b: int)
    requires
        0 <= a,
        0 <= b,
        a * a <= b * b,
    ensures
        a <= b,
{
    if b < a {
        assert(b * b < a * a) by (nonlinear_arith)
            requires 0 <= b < a;
    }
}

/// Integer square root by bisection.
pub fn isqrt(n: u64) -> (r: u64)
    ensures
        r == sqrt_floor(n as int),
{
    let mut lo: u64 = 0;
    let mut hi: u64 = 0x1_0000_0000;
    if n < hi {
        hi = n + 1;
    }
    proof {
        assert((hi as int) * (hi as int) > n as int) by (nonlinear_arith)
            requires
                hi as int >= 0x1_0000_0000 || hi as int > n as int,
                hi as int >= 1,
                n < 0x1_0000_0000_0000_0000;
    }
    while lo + 1 < hi
        invariant
            lo < hi,
            hi <= 0x1_0000_0000,
            (lo as int) * (lo as int) <= n as int,
            (hi as int) * (hi as int) > n as int,
        decreases hi - lo,
    {
        let mid: u64 = lo + (hi - lo) / 2;
        proof {
            assert((mid as int) * (mid as int) <= 0xffff_ffffi64 * 0xffff_ffffi64) by (nonlinear_arith)
                requires 0 <= mid as int <= 0xffff_ffffi64;
        }
        if mid * mid <= n {
            lo = mid;
        } else {
            hi = mid;
        }
    }
    proof {
        lemma_sqrt_floor_unique(n as int, lo as int);
    }
    lo
}

/// Squared distance between two points.
pub open spec fn dist_sq(a: Point, b: Point) -> int {
    (b.x - a.x) * (b.x - a.x) + (b.y - a.y) * (b.y - a.y)
}

/// Straight-line distance between two points, rounded down, in milliunits.
pub open spec fn dist(a: Point, b: Point) -> int {
    sqrt_floor(dist_sq(a, b))
}

/// The root of a sum of squares dominates each term's magnitude and
/// vanishes only when both do.
pub proof fn lemma_sqrt_dominates(a: int, b: int)
    ensures
        sqrt_floor(a * a + b * b) >= iabs(a),
        sqrt_floor(a * a + b * b) >= iabs(b),
        sqrt_floor(a * a + b * b) == 0 <==> a == 0 && b == 0,
{
    let q = a * a + b * b;
    let ax = iabs(a);
    let ay = iabs(b);
    assert(ax * ax == a * a && ay * ay == b * b && a * a >= 0 && b * b >= 0) by (nonlinear_arith)
        requires (ax == a || ax == -a) && (ay == b || ay == -b);
    lemma_sqrt_floor(q);
    let d = sqrt_floor(q);
    lemma_square_ordered(ax, d + 1);
    if ax == d + 1 {
        assert(q < (d + 1) * (d + 1));
    }
    lemma_square_ordered(ay, d + 1);
    if ay == d + 1 {
        assert(q < (d + 1) * (d + 1));
    }
    if d == 0 {
        if a != 0 {
            assert(a * a >= 1) by (nonlinear_arith) requires a != 0;
        }
        if b != 0 {
            assert(b * b >= 1) by (nonlinear_arith) requires b != 0;
        }
    }
}

/// The distance dominates each axis gap and vanishes only at equality.
pub proof fn lemma_dist_bounds(a: Point, b: Point)
    requires
        a.span_ok(),
        b.span_ok(),
    ensures
        dist(a, b) >= iabs(b.x - a.x),
        dist(a, b) >= iabs(b.y - a.y),
        dist(a, b) == 0 <==> a.x == b.x && a.y == b.y,
        dist(a, b) <= iabs(b.x - a.x) + iabs(b.y - a.y),
    decreases 0int,
{
    let dx = b.x - a.x;
    let dy = b.y - a.y;
    let ax = iabs(dx);
    let ay = iabs(dy);
    let q = dist_sq(a, b);
    assert(q == dx * dx + dy * dy);
    assert(ax * ax == dx * dx && ay * ay == dy * dy && dx * dx >= 0 && dy * dy >= 0)
        by (nonlinear_arith)
        requires (ax == dx || ax == -dx) && (ay == dy || ay == -dy);
    lemma_sqrt_floor(q);
    let d = sqrt_floor(q);
    assert(ax * ax <= (d + 1) * (d + 1));
    lemma_square_ordered(ax, d + 1);
    if ax == d + 1 {
        assert(ax * ax == q - dy * dy <= q);
        assert(q < (d + 1) * (d + 1));
    }
    lemma_square_ordered(ay, d + 1);
    if ay == d + 1 {
        assert(q < (d + 1) * (d + 1));
    }
    if d == 0 {
        assert(q < 1);
        if dx != 0 {
            assert(dx * dx >= 1) by (nonlinear_arith) requires dx != 0;
        }
        if dy != 0 {
            assert(dy * dy >= 1) by (nonlinear_arith) requires dy != 0;
        }
    }
    let s = ax + ay;
    assert(q <= s * s) by (nonlinear_arith)
        requires
            s == ax + ay,
            ax >= 0,
            ay >= 0,
            q == dx * dx + dy * dy,
            ax * ax == dx * dx,
            ay * ay == dy * dy;
    lemma_square_ordered(d, s);
}

/// Exec distance between two points.
pub fn distance(a: Point, b: Point) -> (d: u64)
    requires
        a.span_ok(),
        b.span_ok(),
    ensures
        d == dist(a, b),
{
    let dx = b.x - a.x;
    let dy = b.y - a.y;
    let adx: u64 = if dx < 0 { (-dx) as u64 } else { dx as u64 };
    let ady: u64 = if dy < 0 { (-dy) as u64 } else { dy as u64 };
    proof {
        assert(adx * adx + ady * ady <= 1_280_000_000_000_000_000int) by (nonlinear_arith)
            requires 0 <= adx as int <= 800_000_000, 0 <= ady as int <= 800_000_000;
        assert(adx as int * adx as int == (dx as int) * (dx as int)) by (nonlinear_arith)
            requires adx as int == iabs(dx as int);
        assert(ady as int * ady as int == (dy as int) * (dy as int)) by (nonlinear_arith)
            requires ady as int == iabs(dy as int);
    }
    let sq: u64 = adx * adx + ady * ady;
    isqrt(sq)
}

/// Whether two scalar measurements lie within `enough` of each other.
/// Distance thresholds are always compared this way: the eased velocity law
/// approaches a boundary asymptotically, so an exact comparison could wait
/// forever for a crossing that never happens.
pub fn close_enough(x: u64, y: u64, enough: u64) -> (r: bool)
    ensures
        r == (iabs(x - y) < enough),
{
    if x >= y {
        x - y < enough
    } else {
        y - x < enough
    }
}

/// The eased speed, in milliunits per second, toward a target `d` milliunits
/// away: the ease-out exponential `1 - 2^(-10 t)` of `t = min(d / K, 1)`,
/// scaled by the distance constant `K` and interpolated linearly between the
/// points where `10 t` is whole.  Rises with slope 5 near the target, levels
/// off at `K * (1 - 2^-10)` beyond `K`.
pub open spec fn ease_speed_spec(d: int) -> int {
    if d < 13_750 {
        5 * d
    } else if d < 27_500 {
        68_750 + (5 * (d - 13_750)) / 2
    } else if d < 41_250 {
        103_125 + (5 * (d - 27_500)) / 4
    } else if d < 55_000 {
        120_313 + (5 * (d - 41_250)) / 8
    } else if d < 68_750 {
        128_907 + (5 * (d - 55_000)) / 16
    } else if d < 82_500 {
        133_204 + (5 * (d - 68_750)) / 32
    } else if d < 96_250 {
        135_352 + (5 * (d - 82_500)) / 64
    } else if d < 110_000 {
        136_426 + (5 * (d - 96_250)) / 128
    } else if d < 123_750 {
        136_963 + (5 * (d - 110_000)) / 256
    } else if d < 137_500 {
        137_232 + (5 * (d - 123_750)) / 512
    } else {
        137_366
    }
}

/// The eased speed never exceeds five times the distance, stays positive on
/// positive distances, and is capped just below the distance constant.
pub proof fn lemma_ease_speed_bounds(d: int)
    requires
        d >= 0,
    ensures
        0 <= ease_speed_spec(d),
        ease_speed_spec(d) <= 5 * d,
        ease_speed_spec(d) <= 137_366,
        d >= 1 ==> ease_speed_spec(d) >= 5,
{
    assert(EASE_DISTANCE_MU == 137_500);
}

/// Exec easing curve.
pub fn ease_speed(d: u64) -> (s: u64)
    ensures
        s == ease_speed_spec(d as int),
{
    if d < 13_750 {
        5 * d
    } else if d < 27_500 {
        68_750 + (5 * (d - 13_750)) / 2
    } else if d < 41_250 {
        103_125 + (5 * (d - 27_500)) / 4
    } else if d < 55_000 {
        120_313 + (5 * (d - 41_250)) / 8
    } else if d < 68_750 {
        128_907 + (5 * (d - 55_000)) / 16
    } else if d < 82_500 {
        133_204 + (5 * (d - 68_750)) / 32
    } else if d < 96_250 {
        135_352 + (5 * (d - 82_500)) / 64
    } else if d < 110_000 {
        136_426 + (5 * (d - 96_250)) / 128
    } else if d < 123_750 {
        136_963 + (5 * (d - 110_000)) / 256
    } else if d < 137_500 {
        137_232 + (5 * (d - 123_750)) / 512
    } else {
        137_366
    }
}

/// One axis of the eased velocity toward `target` from `curr`, before and
/// after the snap: the eased speed is projected on the axis, and a component
/// whose magnitude falls below one unit per second is snapped to the full
/// remaining axis gap, so progress never stalls.
pub open spec fn vel_axis_spec(diff: int, d: int) -> int {
    if d == 0 {
        0
    } else {
        let mag = (ease_speed_spec(d) * iabs(diff)) / d;
        if mag < 1000 {
            diff
        } else {
            with_sign(diff, mag)
        }
    }
}

/// The eased velocity toward `target` from `curr` (both components).
pub open spec fn vel_x_spec(target: Point, curr: Point) -> int {
    vel_axis_spec(target.x - curr.x, dist(curr, target))
}

pub open spec fn vel_y_spec(target: Point, curr: Point) -> int {
    vel_axis_spec(target.y - curr.y, dist(curr, target))
}

/// Per-axis facts of the velocity law, for any axis gap `diff` dominated by
/// the distance `d`: the component points with the gap, never exceeds five
/// times the gap, and is either at least one unit per second or exactly the
/// remaining gap.
pub proof fn lemma_vel_axis_props(diff: int, d: int)
    requires
        d >= iabs(diff),
        d == 0 ==> diff == 0,
    ensures
        vel_axis_spec(diff, d) * diff >= 0,
        iabs(vel_axis_spec(diff, d)) <= 5 * iabs(diff),
        iabs(vel_axis_spec(diff, d)) >= 1000 || vel_axis_spec(diff, d) == diff,
{
    if d != 0 {
        lemma_ease_speed_bounds(d);
        let s = ease_speed_spec(d);
        let mag = (s * iabs(diff)) / d;
        lemma_div_pos_is_pos(s * iabs(diff), d);
        assert(s * iabs(diff) >= 0) by (nonlinear_arith)
            requires s >= 0, iabs(diff) >= 0;
        assert(s * iabs(diff) <= (5 * iabs(diff)) * d) by (nonlinear_arith)
            requires s <= 5 * d, iabs(diff) >= 0, d >= 1, s >= 0;
        lemma_div_is_ordered(s * iabs(diff), (5 * iabs(diff)) * d, d);
        lemma_div_by_multiple(5 * iabs(diff), d);
        assert(mag <= 5 * iabs(diff));
        if mag < 1000 {
            assert(diff * diff >= 0) by (nonlinear_arith);
        } else {
            assert(with_sign(diff, mag) * diff >= 0) by (nonlinear_arith)
                requires mag >= 0;
        }
    }
}

/// Exec eased velocity toward `target` from `curr`: zero at the target,
/// otherwise the eased speed along the normalized direction, snapped per axis.
pub fn get_straightline_velocity(target: Point, curr: Point) -> (v: Velocity)
    requires
        target.span_ok(),
        curr.span_ok(),
    ensures
        v.x == vel_x_spec(target, curr),
        v.y == vel_y_spec(target, curr),
{
    let dx = target.x - curr.x;
    let dy = target.y - curr.y;
    let d = distance(curr, target);
    if d == 0 {
        proof {
            lemma_dist_bounds(curr, target);
        }
        Velocity { x: 0, y: 0 }
    } else {
        proof {
            lemma_dist_bounds(curr, target);
            lemma_ease_speed_bounds(d as int);
        }
        let s = ease_speed(d);
        let adx: u64 = if dx < 0 { (-dx) as u64 } else { dx as u64 };
        let ady: u64 = if dy < 0 { (-dy) as u64 } else { dy as u64 };
        proof {
            assert(s * adx <= 137_366 * 800_000_000) by (nonlinear_arith)
                requires 0 <= s as int <= 137_366, 0 <= adx as int <= 800_000_000;
            assert(s * ady <= 137_366 * 800_000_000) by (nonlinear_arith)
                requires 0 <= s as int <= 137_366, 0 <= ady as int <= 800_000_000;
            assert(s * adx <= s * d) by (nonlinear_arith)
                requires adx <= d, s >= 0;
            assert(s * ady <= s * d) by (nonlinear_arith)
                requires ady <= d, s >= 0;
            lemma_div_is_ordered(s as int * adx as int, s as int * d as int, d as int);
            lemma_div_is_ordered(s as int * ady as int, s as int * d as int, d as int);
            lemma_div_by_multiple(s as int, d as int);
        }
        let mx = (s * adx) / d;
        let my = (s * ady) / d;
        let vx: i64 = if mx < 1000 { dx } else if dx < 0 { -(mx as i64) } else { mx as i64 };
        let vy: i64 = if my < 1000 { dy } else if dy < 0 { -(my as i64) } else { my as i64 };
        Velocity { x: vx, y: vy }
    }
}

/// Conversion from screen-style position coordinates (origin at the top left,
/// y growing downward) to centered translation coordinates (origin at the
/// window center, y growing upward), in milliunits.
pub fn get_translate_from_position(x: i64, y: i64) -> (r: (i64, i64))
    requires
        -SPAN_LIMIT <= x <= SPAN_LIMIT,
        -SPAN_LIMIT <= y <= SPAN_LIMIT,
    ensures
        r.0 == x - WINDOW_WIDTH_MU / 2,
        r.1 == (WINDOW_HEIGHT_MU - y) - WINDOW_HEIGHT_MU / 2,
{
    (x - WINDOW_WIDTH_MU / 2, (WINDOW_HEIGHT_MU - y) - WINDOW_HEIGHT_MU / 2)
}

/// Whether `point` falls strictly inside an axis-aligned box centered at
/// `box_position` whose width and height are `box_size`.
pub fn check_point_collision(point: Point, box_position: Point, box_size: Point) -> (r: bool)
    requires
        point.span_ok(),
        box_position.span_ok(),
        0 <= box_size.x <= SPAN_LIMIT,
        0 <= box_size.y <= SPAN_LIMIT,
    ensures
        r == point_in_box(point, box_position, box_size),
{
    let rx = box_size.x / 2;
    let ry = box_size.y / 2;
    point.x < box_position.x + rx && point.x > box_position.x - rx && point.y < box_position.y + ry
        && point.y > box_position.y - ry
}

/// Spec form of the box collision test.
pub open spec fn point_in_box(point: Point, box_position: Point, box_size: Point) -> bool {
    let rx = box_size.x / 2;
    let ry = box_size.y / 2;
    box_position.x - rx < point.x < box_position.x + rx
        && box_position.y - ry < point.y < box_position.y + ry
}

} // verus!
