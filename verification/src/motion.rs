//! The closed movement loop: the engine writes velocity, an external
//! integrator applies it to position.  This module gives the integrator's
//! mathematical model and proves that a Move action with range zero and a
//! static point target arrives — its distance measure falls every tick and
//! the action completes within a bounded number of ticks.

use vstd::prelude::*;
use vstd::arithmetic::div_mod::{
    lemma_div_is_ordered, lemma_div_by_multiple, lemma_div_pos_is_pos, lemma_fundamental_div_mod,
    lemma_mod_bound,
};
use crate::geom::{
    Point, Velocity, iabs, with_sign, dist, distance, sqrt_floor, vel_axis_spec, vel_x_spec,
    vel_y_spec, lemma_vel_axis_props, lemma_dist_bounds, lemma_sqrt_dominates,
};
use crate::action::ActionParams;
use crate::engine::{move_velocity_x, move_velocity_y, move_pops, move_gap_axis, move_gap_dist};

verus! {

/// One axis of the integrator: the position advanced by `v` milliunits per
/// second over `dt` milliseconds, rounded toward zero.
pub open spec fn step_axis(p: int, v: int, dt: int) -> int {
    p + with_sign(v, (iabs(v) * dt) / 1000)
}

/// Apply a velocity to a position over a frame delta, the way the external
/// movement integrator does.
pub fn apply_velocity(pos: &mut Point, vel: &Velocity, dt_ms: u64)
    requires
        old(pos).span_ok(),
        -5_000_000_000 <= vel.x <= 5_000_000_000,
        -5_000_000_000 <= vel.y <= 5_000_000_000,
        dt_ms <= 1000,
    ensures
        final(pos).x == step_axis(old(pos).x as int, vel.x as int, dt_ms as int),
        final(pos).y == step_axis(old(pos).y as int, vel.y as int, dt_ms as int),
{
    let ax: u64 = if vel.x < 0 { (-vel.x) as u64 } else { vel.x as u64 };
    let ay: u64 = if vel.y < 0 { (-vel.y) as u64 } else { vel.y as u64 };
    proof {
        assert(ax * dt_ms <= 5_000_000_000int * 1000) by (nonlinear_arith)
            requires 0 <= ax <= 5_000_000_000int, 0 <= dt_ms <= 1000;
        assert(ay * dt_ms <= 5_000_000_000int * 1000) by (nonlinear_arith)
            requires 0 <= ay <= 5_000_000_000int, 0 <= dt_ms <= 1000;
        lemma_div_pos_is_pos(ax as int * dt_ms as int, 1000);
        lemma_div_pos_is_pos(ay as int * dt_ms as int, 1000);
        lemma_div_is_ordered(ax as int * dt_ms as int, 5_000_000_000int * 1000, 1000);
        lemma_div_is_ordered(ay as int * dt_ms as int, 5_000_000_000int * 1000, 1000);
        lemma_div_by_multiple(5_000_000_000int, 1000);
    }
    let mx: u64 = ax * dt_ms / 1000;
    let my: u64 = ay * dt_ms / 1000;
    pos.x = if vel.x < 0 { pos.x - mx as i64 } else { pos.x + mx as i64 };
    pos.y = if vel.y < 0 { pos.y - my as i64 } else { pos.y + my as i64 };
}

/// Whether the eased velocity at `pos` toward `target` is below one unit per
/// second on both axes — the completion test of a skippable Move with range
/// zero.
pub open spec fn arrives(pos: Point, target: Point) -> bool {
    iabs(vel_x_spec(target, pos)) < 1000 && iabs(vel_y_spec(target, pos)) < 1000
}

/// The distance measure the convergence proof descends on.
pub open spec fn manhattan(pos: Point, target: Point) -> int {
    iabs(target.x - pos.x) + iabs(target.y - pos.y)
}

/// One tick of the closed loop for a Move with range zero and a static point
/// target: the engine eases velocity toward the target, the integrator steps
/// the position by it.
pub open spec fn is_approach_step(p1: Point, p2: Point, target: Point, dt: int) -> bool {
    &&& p2.x == step_axis(p1.x as int, vel_x_spec(target, p1), dt)
    &&& p2.y == step_axis(p1.y as int, vel_y_spec(target, p1), dt)
}

/// Axis arithmetic of one approach step: the gap never grows and never
/// changes sign, and a gap driven by at least one unit per second shrinks.
proof fn lemma_approach_axis(diff: int, v: int, dt: int)
    requires
        1 <= dt <= 100,
        v * diff >= 0,
        iabs(v) <= 5 * iabs(diff),
        iabs(v) >= 1000 || v == diff,
    ensures
        ({
            let diff2 = diff - with_sign(v, (iabs(v) * dt) / 1000);
            &&& iabs(diff2) <= iabs(diff)
            &&& diff2 * diff >= 0
            &&& (iabs(v) >= 1000 ==> iabs(diff2) < iabs(diff))
        }),
{
    let m = iabs(v);
    let a = iabs(diff);
    let delta = (m * dt) / 1000;
    lemma_div_pos_is_pos(m * dt, 1000);
    assert(m * dt >= 0) by (nonlinear_arith)
        requires m >= 0, dt >= 1;
    // 1000 * delta <= m * dt <= 500 * a, so twice the step fits in the gap
    lemma_fundamental_div_mod(m * dt, 1000);
    lemma_mod_bound(m * dt, 1000);
    assert(m * dt <= 500 * a) by (nonlinear_arith)
        requires m <= 5 * a, 1 <= dt <= 100, m >= 0, a >= 0;
    assert(2 * delta <= a);
    if m >= 1000 {
        // a velocity of at least one unit per second moves at least one
        // milliunit per millisecond of the frame
        assert(1000 * dt <= m * dt) by (nonlinear_arith)
            requires m >= 1000, dt >= 1;
        lemma_div_is_ordered(1000 * dt, m * dt, 1000);
        lemma_div_by_multiple(dt, 1000);
        assert(delta >= dt >= 1);
        assert(a >= 2 * delta >= 2);
    }
    if v == 0 {
        assert(delta == 0);
    } else if v > 0 {
        // v and diff share a sign, so the step eats into the gap
        assert(diff >= 0) by (nonlinear_arith)
            requires v * diff >= 0, v > 0;
        let diff2 = diff - delta;
        assert(0 <= diff2 <= diff);
        assert(diff2 * diff >= 0) by (nonlinear_arith)
            requires diff2 >= 0, diff >= 0;
    } else {
        assert(diff <= 0) by (nonlinear_arith)
            requires v * diff >= 0, v < 0;
        let diff2 = diff + delta;
        assert(diff <= diff2 <= 0);
        assert(diff2 * diff >= 0) by (nonlinear_arith)
            requires diff2 <= 0, diff <= 0;
    }
}

/// One approach step of the closed loop: the manhattan measure never grows,
/// each coordinate stays inside the box spanned by the position and the
/// target, and short of arrival the measure strictly falls.
pub proof fn lemma_approach_step(p1: Point, p2: Point, target: Point, dt: int)
    requires
        p1.span_ok(),
        target.span_ok(),
        is_approach_step(p1, p2, target, dt),
        1 <= dt <= 100,
    ensures
        manhattan(p2, target) <= manhattan(p1, target),
        !arrives(p1, target) ==> manhattan(p2, target) < manhattan(p1, target),
        iabs(target.x - p2.x) <= iabs(target.x - p1.x),
        iabs(target.y - p2.y) <= iabs(target.y - p1.y),
        (target.x - p2.x) * (target.x - p1.x) >= 0,
        (target.y - p2.y) * (target.y - p1.y) >= 0,
{
    let d = dist(p1, target);
    let dx = target.x - p1.x;
    let dy = target.y - p1.y;
    lemma_dist_bounds(p1, target);
    lemma_vel_axis_props(dx as int, d);
    lemma_vel_axis_props(dy as int, d);
    let vx = vel_x_spec(target, p1);
    let vy = vel_y_spec(target, p1);
    lemma_approach_axis(dx as int, vx, dt);
    lemma_approach_axis(dy as int, vy, dt);
    assert(target.x - p2.x == dx - with_sign(vx, (iabs(vx) * dt) / 1000));
    assert(target.y - p2.y == dy - with_sign(vy, (iabs(vy) * dt) / 1000));
}

/// A gap that shrank without changing sign lies between zero and the old gap.
proof fn lemma_gap_between(d1: int, d2: int)
    requires
        iabs(d2) <= iabs(d1),
        d2 * d1 >= 0,
    ensures
        d1 >= 0 ==> 0 <= d2 <= d1,
        d1 <= 0 ==> d1 <= d2 <= 0,
{
    if d1 > 0 {
        if d2 < 0 {
            assert(d2 * d1 < 0) by (nonlinear_arith)
                requires d2 < 0, d1 > 0;
        }
    } else if d1 < 0 {
        if d2 > 0 {
            assert(d2 * d1 < 0) by (nonlinear_arith)
                requires d2 > 0, d1 < 0;
        }
    }
}

/// At the target itself the eased velocity vanishes, so arrival holds.
proof fn lemma_zero_gap_arrives(pos: Point, target: Point)
    requires
        pos.span_ok(),
        target.span_ok(),
        manhattan(pos, target) == 0,
    ensures
        arrives(pos, target),
{
    lemma_dist_bounds(pos, target);
}

/// A Move action with range zero, a skippable completion test, and a static
/// point target arrives: along any run of the closed loop that lasts longer
/// than the initial manhattan distance to the target (in milliunits), some
/// tick reaches the arrival condition — at which [`crate::engine::run_action`]
/// pops the action.
#[verifier::rlimit(30)]
pub proof fn lemma_move_converges(trace: Seq<Point>, target: Point, dt: int)
    requires
        trace.len() >= 1,
        trace[0].wf(),
        target.wf(),
        1 <= dt <= 100,
        forall|i: int|
            0 <= i < trace.len() - 1 ==> is_approach_step(
                #[trigger] trace[i],
                trace[i + 1],
                target,
                dt,
            ),
        trace.len() > manhattan(trace[0], target),
    ensures
        exists|i: int| 0 <= i < trace.len() && arrives(#[trigger] trace[i], target),
    decreases trace.len(),
{
    if arrives(trace[0], target) {
        assert(arrives(trace[0], target));
    } else {
        // not arrived, so the measure is positive and the trace goes on
        if manhattan(trace[0], target) == 0 {
            lemma_zero_gap_arrives(trace[0], target);
        }
        assert(trace.len() >= 2);
        assert(is_approach_step(trace[0], trace[1], target, dt));
        lemma_approach_step(trace[0], trace[1], target, dt);
        let rest = trace.drop_first();
        assert(rest[0] == trace[1]);
        assert(rest[0].wf()) by {
            lemma_gap_between(target.x - trace[0].x, target.x - trace[1].x);
            lemma_gap_between(target.y - trace[0].y, target.y - trace[1].y);
        }
        assert forall|i: int|
            0 <= i < rest.len() - 1 implies is_approach_step(
                #[trigger] rest[i],
                rest[i + 1],
                target,
                dt,
            ) by {
            assert(rest[i] == trace[i + 1]);
            assert(rest[i + 1] == trace[i + 2]);
            assert(is_approach_step(trace[i + 1], trace[i + 2], target, dt));
        }
        assert(rest.len() > manhattan(rest[0], target));
        lemma_move_converges(rest, target, dt);
        let j = choose|j: int| 0 <= j < rest.len() && arrives(#[trigger] rest[j], target);
        assert(rest[j] == trace[j + 1]);
        assert(arrives(trace[j + 1], target));
    }
}

/// For a Move with `range = 0` and a target that resolved to `tp != pos`,
/// the engine's assigned velocity is exactly the eased velocity toward the
/// target, and the action pops exactly when that velocity is below one unit
/// per second on both axes.
pub proof fn lemma_range0_move(old_vel: Velocity, pos: Point, tp: Point, params: ActionParams)
    requires
        pos.span_ok(),
        tp.span_ok(),
        params.range == Some(0u64),
        params.min_range is None,
        !params.no_skip,
        !(pos == tp),
    ensures
        move_velocity_x(old_vel.x as int, pos, tp, params) == vel_x_spec(tp, pos),
        move_velocity_y(old_vel.y as int, pos, tp, params) == vel_y_spec(tp, pos),
        move_pops(old_vel, pos, tp, params) == arrives(pos, tp),
{
    let d = dist(pos, tp);
    lemma_dist_bounds(pos, tp);
    assert(d > 0);
    let dx = tp.x - pos.x;
    let dy = tp.y - pos.y;
    lemma_div_by_multiple(iabs(dx as int), d);
    lemma_div_by_multiple(iabs(dy as int), d);
    assert(iabs(dx as int) * (d - 0) == iabs(dx as int) * d) by (nonlinear_arith);
    assert(iabs(dy as int) * (d - 0) == iabs(dy as int) * d) by (nonlinear_arith);
    assert(move_gap_axis(dx as int, d, params) == dx);
    assert(move_gap_axis(dy as int, d, params) == dy);
    assert(move_gap_dist(pos, tp, params) == d);
}

/// A fleeing Move — a minimum range and no upper range — pushes away from
/// the target while inside the separation circle: each assigned velocity
/// component points against the corresponding axis gap.
pub proof fn lemma_flee_outward(old_vel: Velocity, pos: Point, tp: Point, params: ActionParams)
    requires
        pos.span_ok(),
        tp.span_ok(),
        params.range is None,
        params.min_range matches Some(m) && 0 < dist(pos, tp) < m,
    ensures
        move_velocity_x(old_vel.x as int, pos, tp, params) * (tp.x - pos.x) <= 0,
        move_velocity_y(old_vel.y as int, pos, tp, params) * (tp.y - pos.y) <= 0,
{
    let d = dist(pos, tp);
    let dx = tp.x - pos.x;
    let dy = tp.y - pos.y;
    lemma_dist_bounds(pos, tp);
    let gx = move_gap_axis(dx as int, d, params);
    let gy = move_gap_axis(dy as int, d, params);
    let m = params.min_range.unwrap() as int;
    lemma_div_pos_is_pos(iabs(dx as int) * (m - d), d);
    lemma_div_pos_is_pos(iabs(dy as int) * (m - d), d);
    assert(iabs(dx as int) * (m - d) >= 0) by (nonlinear_arith)
        requires iabs(dx as int) >= 0, m - d >= 0;
    assert(iabs(dy as int) * (m - d) >= 0) by (nonlinear_arith)
        requires iabs(dy as int) >= 0, m - d >= 0;
    let gd = move_gap_dist(pos, tp, params);
    lemma_sqrt_dominates(gx, gy);
    lemma_vel_axis_props(gx, gd);
    lemma_vel_axis_props(gy, gd);
    // the gap points against the target gap, and the velocity with the gap
    let vx = vel_axis_spec(gx, gd);
    let vy = vel_axis_spec(gy, gd);
    lemma_flee_axis(dx as int, gx, vx);
    lemma_flee_axis(dy as int, gy, vy);
}

/// Sign bookkeeping of one flee axis: the redirected gap `g` opposes the
/// target gap `diff`, and the velocity `v` follows `g`, so `v` opposes
/// `diff`.
proof fn lemma_flee_axis(diff: int, g: int, v: int)
    requires
        g == -with_sign(diff, iabs(g)),
        v * g >= 0,
        iabs(v) <= 5 * iabs(g),
    ensures
        v * diff <= 0,
{
    if g == 0 {
        assert(v == 0);
    } else if diff >= 0 {
        assert(g < 0);
        assert(v <= 0) by (nonlinear_arith)
            requires v * g >= 0, g < 0;
        assert(v * diff <= 0) by (nonlinear_arith)
            requires v <= 0, diff >= 0;
    } else {
        assert(g > 0);
        assert(v >= 0) by (nonlinear_arith)
            requires v * g >= 0, g > 0;
        assert(v * diff <= 0) by (nonlinear_arith)
            requires v >= 0, diff <= 0;
    }
}

/// Exec helper for driving the closed loop outside the engine (tests and
/// demo drivers): one engine-assigned eased velocity plus one integrator
/// step toward a static point target.
pub fn approach_once(pos: &mut Point, target: Point, dt_ms: u64) -> (v: Velocity)
    requires
        old(pos).span_ok(),
        target.span_ok(),
        1 <= dt_ms <= 100,
    ensures
        v.x == vel_x_spec(target, *old(pos)),
        v.y == vel_y_spec(target, *old(pos)),
        is_approach_step(*old(pos), *final(pos), target, dt_ms as int),
{
    let v = crate::geom::get_straightline_velocity(target, *pos);
    proof {
        lemma_dist_bounds(*pos, target);
        lemma_vel_axis_props((target.x - pos.x) as int, dist(*pos, target));
        lemma_vel_axis_props((target.y - pos.y) as int, dist(*pos, target));
    }
    apply_velocity(pos, &v, dt_ms);
    v
}

} // verus!
