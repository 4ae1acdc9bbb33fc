//! The per-tick action execution engine: a state machine over the current
//! action of a nerve, resolving range and minimum-range constraints,
//! re-acquiring targets, and deciding termination per action kind.

use vstd::prelude::*;
use vstd::arithmetic::div_mod::{lemma_div_is_ordered, lemma_div_by_multiple, lemma_div_pos_is_pos};
use crate::geom::{
    Point, Velocity, iabs, with_sign, dist, sqrt_floor, distance, close_enough,
    get_straightline_velocity, vel_axis_spec, lemma_dist_bounds,
};
use crate::action::{Action, ActionParams, ActionType, Nerve, NerveView};

verus! {

/// The animation category an action drives while it executes.
#[derive(Clone, Copy, Debug, PartialEq, Eq)]
pub enum AnimationType {
    Attack,
    Move,
    Idle,
}

/// A configuration fault of the current action.  The engine rejects the
/// action and leaves the entity's state untouched, so the caller can surface
/// a diagnostic instead of aborting.
#[derive(Clone, Copy, Debug, PartialEq, Eq)]
pub enum ActionError {
    /// A Move action carried neither a point nor an entity id.
    MissingTarget,
    /// `min_range` exceeded `range` on a single action.
    InvalidRange,
}

/// One `(Id, Position)` pair of the external entity iteration.
#[derive(Clone, Copy, Debug)]
pub struct EntityRef {
    pub id: u128,
    pub pos: Point,
}

/// The position the external entity scan yields for `id`: the first pair
/// carrying that id, scanned front to back.
pub open spec fn resolve_target(ents: Seq<EntityRef>, id: u128) -> Option<Point>
    decreases ents.len(),
{
    if ents.len() == 0 {
        None
    } else if ents[0].id == id {
        Some(ents[0].pos)
    } else {
        resolve_target(ents.drop_first(), id)
    }
}

proof fn lemma_resolve_found(ents: Seq<EntityRef>, id: u128, i: int)
    requires
        0 <= i < ents.len(),
        forall|j: int| 0 <= j < i ==> (#[trigger] ents[j]).id != id,
        ents[i].id == id,
    ensures
        resolve_target(ents, id) == Some(ents[i].pos),
    decreases i,
{
    if i > 0 {
        lemma_resolve_found(ents.drop_first(), id, i - 1);
    }
}

/// A resolved position is one of the scanned positions, so it inherits
/// their well-formedness.
proof fn lemma_resolve_wf(ents: Seq<EntityRef>, id: u128)
    requires
        forall|i: int| 0 <= i < ents.len() ==> (#[trigger] ents[i]).pos.wf(),
    ensures
        resolve_target(ents, id) matches Some(p) ==> p.wf(),
    decreases ents.len(),
{
    if ents.len() > 0 {
        assert(ents[0].pos.wf());
        assert(forall|i: int|
            0 <= i < ents.drop_first().len() ==> (#[trigger] ents.drop_first()[i]).pos.wf());
        lemma_resolve_wf(ents.drop_first(), id);
    }
}

proof fn lemma_resolve_none(ents: Seq<EntityRef>, id: u128)
    requires
        forall|j: int| 0 <= j < ents.len() ==> (#[trigger] ents[j]).id != id,
    ensures
        resolve_target(ents, id) is None,
    decreases ents.len(),
{
    if ents.len() > 0 {
        lemma_resolve_none(ents.drop_first(), id);
    }
}

/// O(n) scan of the live entity set for the position of `id`.
pub fn lookup_position(entities: &Vec<EntityRef>, id: u128) -> (r: Option<Point>)
    ensures
        r == resolve_target(entities@, id),
{
    let mut i: usize = 0;
    while i < entities.len()
        invariant
            i <= entities@.len(),
            forall|j: int| 0 <= j < i ==> (#[trigger] entities@[j]).id != id,
        decreases entities@.len() - i,
    {
        if entities[i].id == id {
            proof {
                lemma_resolve_found(entities@, id, i as int);
            }
            return Some(entities[i].pos);
        }
        i = i + 1;
    }
    proof {
        lemma_resolve_none(entities@, id);
    }
    None
}

/// How a Move action's target resolves against the live entity set.
pub enum MoveResolution {
    /// The action is a completed no-op: it targeted the entity itself, or an
    /// id that no longer resolves and no fallback point was given.
    Skip,
    /// The effective target point.
    Target(Point),
    /// Neither a point nor an id was carried.
    Invalid,
}

/// Resolution of a Move target: a live entity id is preferred, a literal
/// point is the fallback; a self-target is a completed no-op (checked before
/// any distance math), and so is a dead id without a fallback point.
pub open spec fn move_resolution(act: Action, self_id: u128, ents: Seq<EntityRef>) -> MoveResolution {
    match act.target_id {
        Some(tid) => {
            if tid == self_id {
                MoveResolution::Skip
            } else {
                match resolve_target(ents, tid) {
                    Some(p) => MoveResolution::Target(p),
                    None => match act.target_point {
                        Some(p) => MoveResolution::Target(p),
                        None => MoveResolution::Skip,
                    },
                }
            }
        },
        None => match act.target_point {
            Some(p) => MoveResolution::Target(p),
            None => MoveResolution::Invalid,
        },
    }
}

/// Both range parameters present with `min_range` above `range`.
pub open spec fn invalid_ranges(params: ActionParams) -> bool {
    match (params.range, params.min_range) {
        (Some(r), Some(m)) => m > r,
        _ => false,
    }
}

/// The minimum-range dead-zone edge forces retreat: closer than `min_range`.
pub open spec fn move_needs_out(params: ActionParams, d: int) -> bool {
    match params.min_range {
        Some(m) => d < m,
        None => false,
    }
}

/// The range dead-zone edge forces approach: farther than `range`.
pub open spec fn move_needs_in(params: ActionParams, d: int) -> bool {
    match params.range {
        Some(r) => d > r,
        None => false,
    }
}

/// Whether a Move action at distance `d` reassigns velocity this tick.  At
/// distance zero no direction exists, so nothing is reassigned.
pub open spec fn move_redirects(params: ActionParams, d: int) -> bool {
    d > 0 && (move_needs_out(params, d) || move_needs_in(params, d))
}

pub open spec fn min_range_of(params: ActionParams) -> int {
    match params.min_range {
        Some(m) => m as int,
        None => 0,
    }
}

pub open spec fn range_of(params: ActionParams) -> int {
    match params.range {
        Some(r) => r as int,
        None => 0,
    }
}

/// One axis of the gap from the entity to the redirected movement target:
/// the fraction of the target gap that moves the entity exactly onto the
/// `min_range` circle (outward) or the `range` circle (inward).
pub open spec fn move_gap_axis(diff: int, d: int, params: ActionParams) -> int {
    if move_needs_out(params, d) {
        -with_sign(diff, (iabs(diff) * (min_range_of(params) - d)) / d)
    } else {
        with_sign(diff, (iabs(diff) * (d - range_of(params))) / d)
    }
}

/// Distance from the entity to the redirected movement target.
pub open spec fn move_gap_dist(pos: Point, tp: Point, params: ActionParams) -> int {
    let d = dist(pos, tp);
    let gx = move_gap_axis(tp.x - pos.x, d, params);
    let gy = move_gap_axis(tp.y - pos.y, d, params);
    sqrt_floor(gx * gx + gy * gy)
}

/// The x velocity a Move action leaves behind: freshly eased toward the
/// redirected target when a redirect is needed, the incoming velocity
/// otherwise (the action does not forcibly zero velocity inside the band).
pub open spec fn move_velocity_x(old_vx: int, pos: Point, tp: Point, params: ActionParams) -> int {
    let d = dist(pos, tp);
    if move_redirects(params, d) {
        vel_axis_spec(move_gap_axis(tp.x - pos.x, d, params), move_gap_dist(pos, tp, params))
    } else {
        old_vx
    }
}

pub open spec fn move_velocity_y(old_vy: int, pos: Point, tp: Point, params: ActionParams) -> int {
    let d = dist(pos, tp);
    if move_redirects(params, d) {
        vel_axis_spec(move_gap_axis(tp.y - pos.y, d, params), move_gap_dist(pos, tp, params))
    } else {
        old_vy
    }
}

/// Whether the Move action completes this tick: the resulting speed is below
/// one unit per second on both axes, and the action is skippable.
pub open spec fn move_pops(old_vel: Velocity, pos: Point, tp: Point, params: ActionParams) -> bool {
    &&& iabs(move_velocity_x(old_vel.x as int, pos, tp, params)) < 1000
    &&& iabs(move_velocity_y(old_vel.y as int, pos, tp, params)) < 1000
    &&& !params.no_skip
}

/// Whether an Attack at distance `d` has drifted out of the acceptable band,
/// under the one-unit tolerance that absorbs the asymptotic approach of the
/// eased velocity law.  An absent parameter leaves that side unconstrained.
pub open spec fn attack_out_of_band(params: ActionParams, d: int) -> bool {
    ||| (match params.range {
        Some(r) => d >= r + 1000,
        None => false,
    })
    ||| (match params.min_range {
        Some(m) => d + 1000 <= m,
        None => false,
    })
}

/// The nerve after an out-of-band Attack with an empty queue re-attaches: a
/// Move with the same target and parameters is promoted to current, and a
/// fresh copy of the Attack follows it.
pub open spec fn attack_requeued(n: NerveView) -> NerveView {
    let act = n.current_action;
    NerveView {
        current_action: Action {
            action_type: ActionType::Move,
            target_point: act.target_point,
            target_id: act.target_id,
            params: act.params,
        },
        action_queue: seq![act],
        action_timer: n.action_timer,
    }
}

/// The nerve an Attack at distance `d` from its live target leaves behind:
/// re-attachment happens only out of band and only when nothing is queued;
/// queued follow-up actions are assumed to supersede re-attachment.
pub open spec fn attack_nerve_step(n: NerveView, d: int) -> NerveView {
    if attack_out_of_band(n.current_action.params, d) && n.action_queue.len() == 0 {
        attack_requeued(n)
    } else {
        n
    }
}

/// The timer value a Wait action holds after its first tick: the duration
/// parameter, defaulting to one second.
pub open spec fn wait_duration(params: ActionParams) -> u64 {
    match params.duration_ms {
        Some(len) => len,
        None => 1000,
    }
}

/// Run the current action of `nerve` for one tick.
///
/// * `self_id`/`pos` identify and place the owning entity, `vel` is its
///   velocity (written only where the action law says so), `dt_ms` is the
///   frame delta in milliseconds, and `entities` is the live `(id, position)`
///   scan used to resolve targets.
/// * Returns the animation category the action drives (`None` leaves the
///   previous category standing), or the configuration fault of the current
///   action, in which case nothing is modified.
pub fn run_action(
    nerve: &mut Nerve,
    self_id: u128,
    pos: Point,
    vel: &mut Velocity,
    dt_ms: u64,
    entities: &Vec<EntityRef>,
) -> (r: Result<Option<AnimationType>, ActionError>)
    requires
        old(nerve)@.wf(),
        pos.wf(),
        forall|i: int| 0 <= i < entities@.len() ==> (#[trigger] entities@[i]).pos.wf(),
    ensures
        ({
            let act = old(nerve)@.current_action;
            match act.action_type {
                ActionType::Move => match move_resolution(act, self_id, entities@) {
                    MoveResolution::Invalid => {
                        &&& r matches Err(e) && e == ActionError::MissingTarget
                        &&& final(nerve)@ == old(nerve)@
                        &&& *final(vel) == *old(vel)
                    },
                    MoveResolution::Skip => {
                        &&& r matches Ok(a) && a == Some(AnimationType::Move)
                        &&& final(nerve)@ == old(nerve)@.advanced()
                        &&& *final(vel) == *old(vel)
                    },
                    MoveResolution::Target(tp) => {
                        if invalid_ranges(act.params) {
                            &&& r matches Err(e) && e == ActionError::InvalidRange
                            &&& final(nerve)@ == old(nerve)@
                            &&& *final(vel) == *old(vel)
                        } else {
                            &&& r matches Ok(a) && a == Some(AnimationType::Move)
                            &&& final(vel).x == move_velocity_x(old(vel).x as int, pos, tp, act.params)
                            &&& final(vel).y == move_velocity_y(old(vel).y as int, pos, tp, act.params)
                            &&& final(nerve)@ == if move_pops(*old(vel), pos, tp, act.params) {
                                old(nerve)@.advanced()
                            } else {
                                old(nerve)@
                            }
                        }
                    },
                },
                ActionType::Attack => match act.target_id {
                    None => {
                        &&& r matches Err(e) && e == ActionError::MissingTarget
                        &&& final(nerve)@ == old(nerve)@
                        &&& *final(vel) == *old(vel)
                    },
                    Some(tid) => match resolve_target(entities@, tid) {
                        None => {
                            &&& r matches Ok(a) && a == Some(AnimationType::Attack)
                            &&& final(nerve)@ == old(nerve)@.advanced()
                            &&& *final(vel) == *old(vel)
                        },
                        Some(tp) => {
                            if invalid_ranges(act.params) {
                                &&& r matches Err(e) && e == ActionError::InvalidRange
                                &&& final(nerve)@ == old(nerve)@
                                &&& *final(vel) == *old(vel)
                            } else {
                                &&& r matches Ok(a) && a == Some(AnimationType::Attack)
                                &&& final(nerve)@ == attack_nerve_step(old(nerve)@, dist(pos, tp))
                                &&& *final(vel) == *old(vel)
                            }
                        },
                    },
                },
                ActionType::Wait => {
                    &&& r matches Ok(a) && a is None
                    &&& *final(vel) == *old(vel)
                    &&& match old(nerve)@.action_timer {
                        None => final(nerve)@ == NerveView {
                            action_timer: Some(wait_duration(act.params)),
                            ..old(nerve)@
                        },
                        Some(t) => {
                            if t > dt_ms {
                                final(nerve)@ == NerveView {
                                    action_timer: Some((t - dt_ms) as u64),
                                    ..old(nerve)@
                                }
                            } else {
                                final(nerve)@ == NerveView { action_timer: None, ..old(nerve)@ }.advanced()
                            }
                        },
                    }
                },
                ActionType::Empty => {
                    &&& r matches Ok(a) && a == Some(AnimationType::Idle)
                    &&& final(nerve)@ == old(nerve)@.advanced()
                    &&& final(vel).x == 0 && final(vel).y == 0
                },
            }
        }),
{
    let act = nerve.current_action;
    match act.action_type {
        ActionType::Move => move_tick(nerve, self_id, pos, vel, entities),
        ActionType::Attack => attack_tick(nerve, pos, entities),
        ActionType::Wait => wait_tick(nerve, dt_ms),
        ActionType::Empty => {
            vel.x = 0;
            vel.y = 0;
            nerve.advance();
            Ok(Some(AnimationType::Idle))
        },
    }
}

/// One tick of a Move action; see [`run_action`] for the contract.
#[verifier::rlimit(60)]
fn move_tick(
    nerve: &mut Nerve,
    self_id: u128,
    pos: Point,
    vel: &mut Velocity,
    entities: &Vec<EntityRef>,
) -> (r: Result<Option<AnimationType>, ActionError>)
    requires
        old(nerve)@.wf(),
        old(nerve)@.current_action.action_type is Move,
        pos.wf(),
        forall|i: int| 0 <= i < entities@.len() ==> (#[trigger] entities@[i]).pos.wf(),
    ensures
        ({
            let act = old(nerve)@.current_action;
            match move_resolution(act, self_id, entities@) {
                MoveResolution::Invalid => {
                    &&& r matches Err(e) && e == ActionError::MissingTarget
                    &&& final(nerve)@ == old(nerve)@
                    &&& *final(vel) == *old(vel)
                },
                MoveResolution::Skip => {
                    &&& r matches Ok(a) && a == Some(AnimationType::Move)
                    &&& final(nerve)@ == old(nerve)@.advanced()
                    &&& *final(vel) == *old(vel)
                },
                MoveResolution::Target(tp) => {
                    if invalid_ranges(act.params) {
                        &&& r matches Err(e) && e == ActionError::InvalidRange
                        &&& final(nerve)@ == old(nerve)@
                        &&& *final(vel) == *old(vel)
                    } else {
                        &&& r matches Ok(a) && a == Some(AnimationType::Move)
                        &&& final(vel).x == move_velocity_x(old(vel).x as int, pos, tp, act.params)
                        &&& final(vel).y == move_velocity_y(old(vel).y as int, pos, tp, act.params)
                        &&& final(nerve)@ == if move_pops(*old(vel), pos, tp, act.params) {
                            old(nerve)@.advanced()
                        } else {
                            old(nerve)@
                        }
                    }
                },
            }
        }),
{
    let act = nerve.current_action;
    let params = act.params;

    // resolve the effective target point; self-targets and dead ids are
    // completed no-ops, resolved before any distance math
    let tp: Point;
    match act.target_id {
        Some(tid) => {
            if tid == self_id {
                nerve.advance();
                return Ok(Some(AnimationType::Move));
            }
            match lookup_position(entities, tid) {
                Some(p) => {
                    proof {
                        lemma_resolve_wf(entities@, tid);
                    }
                    tp = p;
                },
                None => match act.target_point {
                    Some(p) => {
                        tp = p;
                    },
                    None => {
                        nerve.advance();
                        return Ok(Some(AnimationType::Move));
                    },
                },
            }
        },
        None => match act.target_point {
            Some(p) => {
                tp = p;
            },
            None => {
                return Err(ActionError::MissingTarget);
            },
        },
    }

    // a minimum range above the range can satisfy neither edge of the band
    if let (Some(rg), Some(m)) = (params.range, params.min_range) {
        if m > rg {
            return Err(ActionError::InvalidRange);
        }
    }

    let d = distance(pos, tp);
    proof {
        lemma_dist_bounds(pos, tp);
    }
    let dx = tp.x - pos.x;
    let dy = tp.y - pos.y;
    let adx: u64 = if dx < 0 { (-dx) as u64 } else { dx as u64 };
    let ady: u64 = if dy < 0 { (-dy) as u64 } else { dy as u64 };
    proof {
        assert(adx == iabs(dx as int) && ady == iabs(dy as int));
        assert(adx <= d && ady <= d && d <= 400_000_000);
    }

    let mut move_to = tp;
    let mut moving = false;

    if d > 0 {
        let mut redirected = false;
        if let Some(m) = params.min_range {
            if d < m {
                // retreat to exactly the minimum-range circle
                proof {
                    assert(adx * (m - d) <= 400_000_000int * 100_000_000int) by (nonlinear_arith)
                        requires 0 <= adx <= 400_000_000int, 0 <= m as int - d as int <= 100_000_000int;
                    assert(ady * (m - d) <= 400_000_000int * 100_000_000int) by (nonlinear_arith)
                        requires 0 <= ady <= 400_000_000int, 0 <= m as int - d as int <= 100_000_000int;
                }
                let gx = (adx * (m - d)) / d;
                let gy = (ady * (m - d)) / d;
                proof {
                    lemma_redirect_mag(adx as int, m as int - d as int, d as int);
                    lemma_redirect_mag(ady as int, m as int - d as int, d as int);
                }
                move_to.x = if dx < 0 { pos.x + gx as i64 } else { pos.x - gx as i64 };
                move_to.y = if dy < 0 { pos.y + gy as i64 } else { pos.y - gy as i64 };
                moving = true;
                redirected = true;
            }
        }
        if !redirected {
            if let Some(rg) = params.range {
                if d > rg {
                    // approach to exactly the range circle
                    proof {
                        assert(adx * (d - rg) <= 400_000_000int * 400_000_000int) by (nonlinear_arith)
                            requires 0 <= adx <= 400_000_000int, 0 <= d as int - rg as int <= 400_000_000int;
                        assert(ady * (d - rg) <= 400_000_000int * 400_000_000int) by (nonlinear_arith)
                            requires 0 <= ady <= 400_000_000int, 0 <= d as int - rg as int <= 400_000_000int;
                    }
                    let gx = (adx * (d - rg)) / d;
                    let gy = (ady * (d - rg)) / d;
                    proof {
                        lemma_redirect_mag(adx as int, d as int - rg as int, d as int);
                        lemma_redirect_mag(ady as int, d as int - rg as int, d as int);
                    }
                    move_to.x = if dx < 0 { pos.x - gx as i64 } else { pos.x + gx as i64 };
                    move_to.y = if dy < 0 { pos.y - gy as i64 } else { pos.y + gy as i64 };
                    moving = true;
                }
            }
        }
    }

    if moving {
        proof {
            assert(move_to.x - pos.x == move_gap_axis(dx as int, d as int, params));
            assert(move_to.y - pos.y == move_gap_axis(dy as int, d as int, params));
        }
        let new_vel = get_straightline_velocity(move_to, pos);
        vel.x = new_vel.x;
        vel.y = new_vel.y;
    }

    // the action completes once it is skippable and motion has died down
    let slow_x = vel.x < 1000 && vel.x > -1000;
    let slow_y = vel.y < 1000 && vel.y > -1000;
    if slow_x && slow_y && !params.no_skip {
        nerve.advance();
    }
    Ok(Some(AnimationType::Move))
}

/// A redirect component never exceeds the redirect length `b`, nor the axis
/// gap bound `a` when `b <= d`.
proof fn lemma_redirect_mag(a: int, b: int, d: int)
    requires
        0 <= a <= d,
        0 <= b,
        1 <= d,
    ensures
        0 <= (a * b) / d <= b,
        b <= d ==> (a * b) / d <= a,
{
    lemma_div_pos_is_pos(a * b, d);
    assert(a * b >= 0) by (nonlinear_arith)
        requires a >= 0, b >= 0;
    assert(a * b <= b * d) by (nonlinear_arith)
        requires 0 <= a <= d, b >= 0;
    lemma_div_is_ordered(a * b, b * d, d);
    lemma_div_by_multiple(b, d);
    if b <= d {
        assert(a * b <= a * d) by (nonlinear_arith)
            requires a >= 0, b <= d;
        lemma_div_is_ordered(a * b, a * d, d);
        lemma_div_by_multiple(a, d);
    }
}

/// One tick of an Attack action; see [`run_action`] for the contract.
fn attack_tick(nerve: &mut Nerve, pos: Point, entities: &Vec<EntityRef>) -> (r: Result<
    Option<AnimationType>,
    ActionError,
>)
    requires
        old(nerve)@.wf(),
        old(nerve)@.current_action.action_type is Attack,
        pos.wf(),
        forall|i: int| 0 <= i < entities@.len() ==> (#[trigger] entities@[i]).pos.wf(),
    ensures
        ({
            let act = old(nerve)@.current_action;
            match act.target_id {
                None => {
                    &&& r matches Err(e) && e == ActionError::MissingTarget
                    &&& final(nerve)@ == old(nerve)@
                },
                Some(tid) => match resolve_target(entities@, tid) {
                    None => {
                        &&& r matches Ok(a) && a == Some(AnimationType::Attack)
                        &&& final(nerve)@ == old(nerve)@.advanced()
                    },
                    Some(tp) => {
                        if invalid_ranges(act.params) {
                            &&& r matches Err(e) && e == ActionError::InvalidRange
                            &&& final(nerve)@ == old(nerve)@
                        } else {
                            &&& r matches Ok(a) && a == Some(AnimationType::Attack)
                            &&& final(nerve)@ == attack_nerve_step(old(nerve)@, dist(pos, tp))
                        }
                    },
                },
            }
        }),
{
    let act = nerve.current_action;
    let params = act.params;

    let tid = match act.target_id {
        Some(tid) => tid,
        None => {
            return Err(ActionError::MissingTarget);
        },
    };
    let tp = match lookup_position(entities, tid) {
        Some(p) => {
            proof {
                lemma_resolve_wf(entities@, tid);
            }
            p
        },
        None => {
            // the target no longer exists: the attack is over
            nerve.advance();
            return Ok(Some(AnimationType::Attack));
        },
    };
    if let (Some(rg), Some(m)) = (params.range, params.min_range) {
        if m > rg {
            return Err(ActionError::InvalidRange);
        }
    }

    let d = distance(pos, tp);

    // tolerance-aware band test: within one unit of a boundary still counts
    // as in band, or the asymptotic approach would oscillate forever
    let mut reattach = false;
    if let Some(rg) = params.range {
        if d > rg && !close_enough(d, rg, 1000) {
            reattach = true;
        }
    }
    if let Some(m) = params.min_range {
        if d < m && !close_enough(d, m, 1000) {
            reattach = true;
        }
    }

    if reattach {
        if nerve.action_queue.len() == 0 {
            // re-track the target, then attack again once tracked
            nerve.action_queue.push_back(Action {
                action_type: ActionType::Move,
                target_point: act.target_point,
                target_id: act.target_id,
                params: act.params,
            });
            nerve.action_queue.push_back(act);
            nerve.advance();
            proof {
                assert(nerve@.action_queue =~= attack_requeued(old(nerve)@).action_queue);
            }
        }
        // with actions still queued, they supersede re-attachment
    }
    Ok(Some(AnimationType::Attack))
}

/// One tick of a Wait action; see [`run_action`] for the contract.
fn wait_tick(nerve: &mut Nerve, dt_ms: u64) -> (r: Result<Option<AnimationType>, ActionError>)
    requires
        old(nerve)@.wf(),
        old(nerve)@.current_action.action_type is Wait,
    ensures
        r matches Ok(a) && a is None,
        ({
            let act = old(nerve)@.current_action;
            match old(nerve)@.action_timer {
                None => final(nerve)@ == NerveView {
                    action_timer: Some(wait_duration(act.params)),
                    ..old(nerve)@
                },
                Some(t) => {
                    if t > dt_ms {
                        final(nerve)@ == NerveView {
                            action_timer: Some((t - dt_ms) as u64),
                            ..old(nerve)@
                        }
                    } else {
                        final(nerve)@ == NerveView { action_timer: None, ..old(nerve)@ }.advanced()
                    }
                },
            }
        }),
{
    match nerve.action_timer {
        Some(t) => {
            if t > dt_ms {
                nerve.action_timer = Some(t - dt_ms);
            } else {
                // the wait is over: clear the timer and advance
                nerve.action_timer = None;
                nerve.advance();
            }
        },
        None => {
            // first tick: size a one-shot timer from the duration parameter
            let duration = match nerve.current_action.params.duration_ms {
                Some(len) => len,
                None => 1000,
            };
            nerve.action_timer = Some(duration);
        },
    }
    Ok(None)
}

/// The nerve after a run of attack ticks, one per observed target distance.
pub open spec fn attack_nerve_steps(n: NerveView, ds: Seq<int>) -> NerveView
    decreases ds.len(),
{
    if ds.len() == 0 {
        n
    } else {
        attack_nerve_steps(attack_nerve_step(n, ds[0]), ds.drop_first())
    }
}

/// Once an attack is in band — within the one-unit tolerance of both edges —
/// it re-queues nothing: by [`run_action`]'s contract, any run of ticks whose
/// distances all stay in the band leaves the nerve exactly as it was.
pub proof fn lemma_attack_in_band_stable(n: NerveView, ds: Seq<int>)
    requires
        forall|i: int| 0 <= i < ds.len() ==> !attack_out_of_band(
            n.current_action.params,
            #[trigger] ds[i],
        ),
    ensures
        attack_nerve_steps(n, ds) == n,
    decreases ds.len(),
{
    if ds.len() > 0 {
        assert(attack_nerve_step(n, ds[0]) == n);
        assert(forall|i: int|
            0 <= i < ds.drop_first().len() ==> #[trigger] ds.drop_first()[i] == ds[i + 1]);
        lemma_attack_in_band_stable(n, ds.drop_first());
    }
}

/// The band test, spelled out: with `min_range M < range R`, an attack at
/// distance `d` holds its ground exactly on `M - 1000 < d < R + 1000`.
pub proof fn lemma_attack_band_edges(params: ActionParams, d: int)
    requires
        params.range matches Some(r) && params.min_range matches Some(m) && m <= r,
    ensures
        attack_out_of_band(params, d) <==> !(min_range_of(params) - 1000 < d < range_of(params)
            + 1000),
{
}

/// A Move action with `no_skip` set never completes on its own — at rest or
/// not — whatever the velocity and however many ticks elapse; only an
/// external re-decomposition replaces it.  This covers every target that
/// resolves (a live id or a literal point); a dead id with no fallback
/// point is a resolution failure, which completes the action as its own
/// case, not a self-pop.
pub proof fn lemma_no_skip_never_pops(vel: Velocity, pos: Point, tp: Point, params: ActionParams)
    requires
        params.no_skip,
    ensures
        !move_pops(vel, pos, tp, params),
{
}

} // verus!
