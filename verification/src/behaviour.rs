//! Independent behaviour of AI-driven entities: for now, aimless loitering —
//! an idle entity picks a nearby random spot inside the play area and raises
//! a pathfinding request toward it.

use vstd::prelude::*;
use crate::geom::{Point, iabs};
use crate::action::Nerve;
use crate::map::TilePos;
use crate::pathfind::{Pathfinder, PathfinderView};
use crate::{WINDOW_WIDTH_MU, WINDOW_HEIGHT_MU, TILE_SIZE_MU};

verus! {

/// The broad stance a behaviour belongs to.
#[derive(Clone, Copy, Debug, PartialEq, Eq)]
pub enum BehaviourSet {
    AtRest,
    OnMarch,
    PreCombat,
    Combat,
    Retreat,
    Empty,
}

/// A concrete behaviour within a stance.
#[derive(Clone, Copy, Debug, PartialEq, Eq)]
pub enum BehaviourType {
    Rest,
    Loiter,
    Alert,
    Hide,
    Preparation,
    AlertMove,
    LoiterMove,
    Scout,
    Stalk,
    Vantage,
    Charge,
    Flank,
    Defend,
    Kite,
    Flee,
    Empty,
}

/// Per-entity behaviour selection state.
#[derive(Clone, Copy, Debug)]
pub struct Behaviour {
    pub current_behaviour_set: BehaviourSet,
    pub current_behaviour: BehaviourType,
}

impl Default for Behaviour {
    fn default() -> (b: Behaviour)
        ensures
            b.current_behaviour_set is Empty,
            b.current_behaviour is Empty,
    {
        Behaviour { current_behaviour_set: BehaviourSet::Empty, current_behaviour: BehaviourType::Empty }
    }
}

/// Relies on `rand::random::<u32>` (rand crate) for a uniform draw; nothing
/// is promised of the value, and the callers state only what holds of every
/// outcome.
#[verifier::external_body]
fn random_u32() -> u32 {
    rand::random::<u32>()
}

/// Margin kept to the window edge when picking a loiter spot (10 units).
pub const LOITER_MARGIN_MU: i64 = 10_000;

/// Largest loiter deviation per axis (200 units).
pub const LOITER_RANGE_MU: i64 = 200_000;

/// The loiter spot four random draws pick from `pos`: on each axis an
/// additive and a subtractive draw give a deviation of up to 200 units
/// either way, and the sum is clamped into the window with a 10-unit
/// margin.
pub open spec fn loiter_goal_spec(pos: Point, rx_add: u32, rx_sub: u32, ry_add: u32, ry_sub: u32) -> Point {
    Point {
        x: clamp_i64(
            pos.x as int + (rx_add as int % 200_001) - (rx_sub as int % 200_001),
            LOITER_MARGIN_MU as int,
            WINDOW_WIDTH_MU as int - LOITER_MARGIN_MU as int,
        ),
        y: clamp_i64(
            pos.y as int + (ry_add as int % 200_001) - (ry_sub as int % 200_001),
            LOITER_MARGIN_MU as int,
            WINDOW_HEIGHT_MU as int - LOITER_MARGIN_MU as int,
        ),
    }
}

/// Clamp into a closed interval.
pub open spec fn clamp_i64(v: int, lo: int, hi: int) -> i64 {
    if v < lo {
        lo as i64
    } else if v > hi {
        hi as i64
    } else {
        v as i64
    }
}

/// Pick the loiter spot from four random draws, one additive and one
/// subtractive per axis.  For an entity inside the margin window the spot
/// stays within the loiter range of it on each axis.
pub fn loiter_goal(pos: Point, rx_add: u32, rx_sub: u32, ry_add: u32, ry_sub: u32) -> (g: Point)
    requires
        pos.wf(),
    ensures
        g == loiter_goal_spec(pos, rx_add, rx_sub, ry_add, ry_sub),
        LOITER_MARGIN_MU <= g.x <= WINDOW_WIDTH_MU - LOITER_MARGIN_MU,
        LOITER_MARGIN_MU <= g.y <= WINDOW_HEIGHT_MU - LOITER_MARGIN_MU,
        g.wf(),
        LOITER_MARGIN_MU <= pos.x <= WINDOW_WIDTH_MU - LOITER_MARGIN_MU ==> iabs(
            g.x - pos.x,
        ) <= LOITER_RANGE_MU,
        LOITER_MARGIN_MU <= pos.y <= WINDOW_HEIGHT_MU - LOITER_MARGIN_MU ==> iabs(
            g.y - pos.y,
        ) <= LOITER_RANGE_MU,
{
    let dx: i64 = (rx_add % 200_001) as i64 - (rx_sub % 200_001) as i64;
    let dy: i64 = (ry_add % 200_001) as i64 - (ry_sub % 200_001) as i64;
    let mut x = pos.x + dx;
    if x < LOITER_MARGIN_MU {
        x = LOITER_MARGIN_MU;
    }
    if x > WINDOW_WIDTH_MU - LOITER_MARGIN_MU {
        x = WINDOW_WIDTH_MU - LOITER_MARGIN_MU;
    }
    let mut y = pos.y + dy;
    if y < LOITER_MARGIN_MU {
        y = LOITER_MARGIN_MU;
    }
    if y > WINDOW_HEIGHT_MU - LOITER_MARGIN_MU {
        y = WINDOW_HEIGHT_MU - LOITER_MARGIN_MU;
    }
    Point { x, y }
}

/// One tick of the loiter behaviour: an entity with no current action and an
/// empty queue raises a pathfinding request toward a random nearby spot
/// inside the play area; a busy entity is left alone.  The draws are
/// random, so the goal is promised only up to them: it is the clamped
/// four-draw deviation of the entity's own position — within the loiter
/// range per axis while the entity stands inside the margin window — never
/// some unrelated spot.
pub fn simple_idle(nerve: &Nerve, pf: &mut Pathfinder, pos: Point)
    requires
        old(pf)@.wf(),
        pos.wf(),
    ensures
        final(pf)@.wf(),
        !(nerve@.current_action.action_type is Empty && nerve@.action_queue.len() == 0)
            ==> *final(pf) == *old(pf),
        (nerve@.current_action.action_type is Empty && nerve@.action_queue.len() == 0) ==> {
            &&& final(pf)@.needs_pathfinding
            &&& exists|rxa: u32, rxs: u32, rya: u32, rys: u32|
                final(pf)@.real_goal == loiter_goal_spec(pos, rxa, rxs, rya, rys)
            &&& LOITER_MARGIN_MU <= final(pf)@.real_goal.x <= WINDOW_WIDTH_MU - LOITER_MARGIN_MU
            &&& LOITER_MARGIN_MU <= final(pf)@.real_goal.y <= WINDOW_HEIGHT_MU - LOITER_MARGIN_MU
            &&& (LOITER_MARGIN_MU <= pos.x <= WINDOW_WIDTH_MU - LOITER_MARGIN_MU ==> iabs(
                final(pf)@.real_goal.x - pos.x,
            ) <= LOITER_RANGE_MU)
            &&& (LOITER_MARGIN_MU <= pos.y <= WINDOW_HEIGHT_MU - LOITER_MARGIN_MU ==> iabs(
                final(pf)@.real_goal.y - pos.y,
            ) <= LOITER_RANGE_MU)
            &&& final(pf)@.path_goal.x == final(pf)@.real_goal.x as int / TILE_SIZE_MU as int
            &&& final(pf)@.path_goal.y == final(pf)@.real_goal.y as int / TILE_SIZE_MU as int
            &&& final(pf)@ == (PathfinderView {
                needs_pathfinding: true,
                path_goal: final(pf)@.path_goal,
                real_goal: final(pf)@.real_goal,
                ..old(pf)@
            })
        },
{
    if nerve.is_curr_action_empty() && nerve.action_queue.len() == 0 {
        let rx_add = random_u32();
        let rx_sub = random_u32();
        let ry_add = random_u32();
        let ry_sub = random_u32();
        let goal = loiter_goal(pos, rx_add, rx_sub, ry_add, ry_sub);
        proof {
            assert(goal == loiter_goal_spec(pos, rx_add, rx_sub, ry_add, ry_sub));
        }
        let tile = match TilePos::from_coords(goal) {
            Some(t) => t,
            None => {
                // unreachable: the loiter spot is clamped inside the window
                TilePos { x: 0, y: 0 }
            },
        };
        pf.needs_pathfinding = true;
        pf.path_goal = tile;
        pf.real_goal = goal;
    }
}

} // verus!
