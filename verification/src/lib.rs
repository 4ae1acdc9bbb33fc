//! Command-and-control and movement core of a small real-time tactical game.
//!
//! Entities on a tile grid receive high-level orders (move, attack, flee,
//! follow), decompose them into primitive actions, and execute those actions
//! tick by tick with an eased velocity profile and occupancy-aware A*
//! pathfinding.  All world geometry is carried in fixed-point milliunits
//! (one world unit = 1000 milliunits), so every rule of the engine is plain
//! integer arithmetic.

pub mod action;
pub mod behaviour;
pub mod command;
pub mod control;
pub mod engine;
pub mod geom;
pub mod map;
pub mod motion;
pub mod pathfind;

pub use action::{Action, ActionParams, ActionType, Nerve};
pub use control::{AttitudeType, InputState, Person};
pub use command::{Command, CommandType, Controlled};
pub use geom::{Point, Velocity};

use vstd::prelude::*;

verus! {

/// Milliunits per world unit; also the snap threshold of the velocity law.
pub const UNIT_MU: i64 = 1000;

/// Largest entity-coordinate magnitude, in milliunits, that the engine accepts.
pub const COORD_LIMIT: i64 = 100_000_000;

/// Largest coordinate magnitude the low-level geometry accepts; redirected
/// movement targets stay within this wider band.
pub const SPAN_LIMIT: i64 = 400_000_000;

/// Largest accepted value of a range or minimum-range action parameter.
pub const PARAM_LIMIT: u64 = 100_000_000;

/// Distance constant of the eased velocity law (137.5 world units).
pub const EASE_DISTANCE_MU: u64 = 137_500;

/// Width and height of one map tile (10 world units).
pub const TILE_SIZE_MU: i64 = 10_000;

/// Width of the visible world region (800 world units).
pub const WINDOW_WIDTH_MU: i64 = 800_000;

/// Height of the visible world region (450 world units).
pub const WINDOW_HEIGHT_MU: i64 = 450_000;

/// The stable unique identifier of an entity.  Identity is the only
/// reliable cross-system join key; the value is a 128-bit random id, so
/// collisions are negligible.
#[derive(Clone, Copy, Debug, PartialEq, Eq, Hash)]
pub struct Id {
    pub value: u128,
}

impl Id {
    /// Relies on `uuid::Uuid::new_v4` (uuid crate) for a fresh random
    /// version-4 identifier; nothing is promised of the value beyond what
    /// randomness gives.
    #[verifier::external_body]
    pub fn new() -> Id {
        Id { value: uuid::Uuid::new_v4().as_u128() }
    }

    /// The identifier as a plain value.
    pub fn id(&self) -> (r: u128)
        ensures
            r == self.value,
    {
        self.value
    }
}

} // verus!
