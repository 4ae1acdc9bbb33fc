//! High-level commands and their decomposition into primitive actions.

use vstd::prelude::*;
use std::collections::VecDeque;
use crate::geom::Point;
use crate::action::{Action, ActionParams, ActionType, Nerve, NerveView};

verus! {

/// Move within range 40 units when tracking an entity (attack and follow).
pub const TRACK_RANGE_MU: u64 = 40_000;

/// Attack may not launch from closer than 20 units.
pub const ATTACK_MIN_RANGE_MU: u64 = 20_000;

/// Flee until 200 units of separation are reached.
pub const FLEE_MIN_RANGE_MU: u64 = 200_000;

/// The kind of a high-level order.
#[derive(Clone, Copy, Debug, PartialEq, Eq)]
pub enum CommandType {
    /// Move to a certain spot.
    Move,
    /// Attack a certain entity.
    Attack,
    /// Put distance between the entity and a certain spot or entity.
    Flee,
    /// Follow another entity continuously.
    Follow,
    /// No order.
    Empty,
}

impl Default for CommandType {
    /// The empty command kind.
    fn default() -> (k: CommandType)
        ensures
            k is Empty,
    {
        CommandType::Empty
    }
}

/// A one-shot order: a kind plus an optional target entity and point.
#[derive(Clone, Copy, Debug, PartialEq, Eq)]
pub struct Command {
    pub command_type: CommandType,
    /// Id of the target entity, when one exists.
    pub target_id: Option<u128>,
    /// Target coordinate, when one exists.
    pub target_point: Option<Point>,
}

impl Command {
    /// The empty command.
    pub open spec fn spec_default() -> Command {
        Command { command_type: CommandType::Empty, target_id: None, target_point: None }
    }

    /// Any target point within the entity band.
    pub open spec fn wf(self) -> bool {
        self.target_point matches Some(p) ==> p.wf()
    }
}

impl Default for Command {
    fn default() -> (c: Command)
        ensures
            c == Command::spec_default(),
    {
        Command { command_type: CommandType::Empty, target_id: None, target_point: None }
    }
}

/// Mathematical view of a [`Controlled`] component.
pub struct ControlledView {
    pub current_command: Command,
    pub squad_pos: i32,
    pub command_queue: Seq<Command>,
}

/// Per-entity order state of a player-controlled entity: the current command,
/// the index in the squad, and a queue of follow-up commands.  The queue is
/// kept for forward compatibility; the normal input flow replaces the current
/// command instead of queueing.
#[derive(Debug)]
pub struct Controlled {
    pub current_command: Command,
    pub squad_pos: i32,
    pub command_queue: VecDeque<Command>,
}

impl View for Controlled {
    type V = ControlledView;

    open spec fn view(&self) -> ControlledView {
        ControlledView {
            current_command: self.current_command,
            squad_pos: self.squad_pos,
            command_queue: self.command_queue@,
        }
    }
}

impl Controlled {
    pub fn new(i: i32) -> (c: Controlled)
        ensures
            c@.current_command == Command::spec_default(),
            c@.squad_pos == i,
            c@.command_queue.len() == 0,
    {
        Controlled {
            current_command: Command::default(),
            squad_pos: i,
            command_queue: VecDeque::new(),
        }
    }
}

/// The actions a command decomposes into, in queue order.
pub open spec fn decomposed_actions(c: Command) -> Seq<Action> {
    match c.command_type {
        CommandType::Move => seq![
            Action {
                action_type: ActionType::Move,
                target_point: c.target_point,
                target_id: None,
                params: ActionParams {
                    range: Some(0),
                    min_range: None,
                    no_skip: false,
                    duration_ms: None,
                },
            },
        ],
        CommandType::Attack => seq![
            Action {
                action_type: ActionType::Move,
                target_point: None,
                target_id: c.target_id,
                params: ActionParams {
                    range: Some(TRACK_RANGE_MU),
                    min_range: Some(ATTACK_MIN_RANGE_MU),
                    no_skip: false,
                    duration_ms: None,
                },
            },
            Action {
                action_type: ActionType::Attack,
                target_point: None,
                target_id: c.target_id,
                params: ActionParams {
                    range: Some(TRACK_RANGE_MU),
                    min_range: Some(ATTACK_MIN_RANGE_MU),
                    no_skip: false,
                    duration_ms: None,
                },
            },
        ],
        CommandType::Flee => seq![
            Action {
                action_type: ActionType::Move,
                target_point: c.target_point,
                target_id: c.target_id,
                params: ActionParams {
                    range: None,
                    min_range: Some(FLEE_MIN_RANGE_MU),
                    no_skip: false,
                    duration_ms: None,
                },
            },
        ],
        CommandType::Follow => seq![
            Action {
                action_type: ActionType::Move,
                target_point: None,
                target_id: c.target_id,
                params: ActionParams {
                    range: Some(TRACK_RANGE_MU),
                    min_range: None,
                    no_skip: true,
                    duration_ms: None,
                },
            },
        ],
        CommandType::Empty => seq![],
    }
}

/// The nerve after decomposing command `c` into it: a full replace for every
/// order kind, and untouched for the empty command, whose re-decomposition
/// every tick must be a no-op.
pub open spec fn decomposed_nerve(n: NerveView, c: Command) -> NerveView {
    match c.command_type {
        CommandType::Empty => n,
        _ => NerveView {
            current_action: Action::spec_default(),
            action_queue: decomposed_actions(c),
            action_timer: n.action_timer,
        },
    }
}

/// Decompose the current command of a controlled entity into its nerve, then
/// ready the next queued command (or the empty command).  Runs once per tick
/// per controlled entity.
pub fn move_controlled(state: &mut Controlled, nerve: &mut Nerve)
    ensures
        final(nerve)@ == decomposed_nerve(old(nerve)@, old(state)@.current_command),
        final(state)@.squad_pos == old(state)@.squad_pos,
        old(state)@.command_queue.len() > 0 ==> {
            &&& final(state)@.current_command == old(state)@.command_queue[0]
            &&& final(state)@.command_queue == old(state)@.command_queue.drop_first()
        },
        old(state)@.command_queue.len() == 0 ==> {
            &&& final(state)@.current_command == Command::spec_default()
            &&& final(state)@.command_queue == old(state)@.command_queue
        },
{
    let command = state.current_command;
    match command.command_type {
        CommandType::Move => {
            nerve.current_action = Action::default();
            nerve.action_queue.clear();
            // range zero forces exact arrival at the target location
            nerve.action_queue.push_back(Action {
                action_type: ActionType::Move,
                target_point: command.target_point,
                target_id: None,
                params: ActionParams {
                    range: Some(0),
                    min_range: None,
                    no_skip: false,
                    duration_ms: None,
                },
            });
        },
        CommandType::Attack => {
            nerve.current_action = Action::default();
            nerve.action_queue.clear();
            // first get within attack range of the target
            nerve.action_queue.push_back(Action {
                action_type: ActionType::Move,
                target_point: None,
                target_id: command.target_id,
                params: ActionParams {
                    range: Some(TRACK_RANGE_MU),
                    min_range: Some(ATTACK_MIN_RANGE_MU),
                    no_skip: false,
                    duration_ms: None,
                },
            });
            // then attack it
            nerve.action_queue.push_back(Action {
                action_type: ActionType::Attack,
                target_point: None,
                target_id: command.target_id,
                params: ActionParams {
                    range: Some(TRACK_RANGE_MU),
                    min_range: Some(ATTACK_MIN_RANGE_MU),
                    no_skip: false,
                    duration_ms: None,
                },
            });
        },
        CommandType::Flee => {
            nerve.current_action = Action::default();
            nerve.action_queue.clear();
            // only separation is wanted, so no upper range is set
            nerve.action_queue.push_back(Action {
                action_type: ActionType::Move,
                target_point: command.target_point,
                target_id: command.target_id,
                params: ActionParams {
                    range: None,
                    min_range: Some(FLEE_MIN_RANGE_MU),
                    no_skip: false,
                    duration_ms: None,
                },
            });
        },
        CommandType::Follow => {
            nerve.current_action = Action::default();
            nerve.action_queue.clear();
            // no_skip keeps the action alive while the target moves
            nerve.action_queue.push_back(Action {
                action_type: ActionType::Move,
                target_point: None,
                target_id: command.target_id,
                params: ActionParams {
                    range: Some(TRACK_RANGE_MU),
                    min_range: None,
                    no_skip: true,
                    duration_ms: None,
                },
            });
        },
        CommandType::Empty => {},
    }
    proof {
        assert(nerve@.action_queue =~= decomposed_nerve(old(nerve)@, command).action_queue);
    }
    if let Some(next) = state.command_queue.pop_front() {
        state.current_command = next;
    } else {
        state.current_command = Command::default();
    }
}

/// Decomposition is a full replace: whatever was executing before — however
/// many actions deep — a fresh order leaves exactly its own actions queued
/// and an empty current slot, so a new Move issued over a half-run Attack
/// sequence leaves one action, not three.
pub proof fn lemma_decompose_full_replace(n: NerveView, c: Command)
    requires
        !(c.command_type is Empty),
    ensures
        decomposed_nerve(n, c).current_action == Action::spec_default(),
        decomposed_nerve(n, c).action_queue == decomposed_actions(c),
        c.command_type is Move ==> decomposed_nerve(n, c).action_queue.len() == 1,
        c.command_type is Attack ==> decomposed_nerve(n, c).action_queue.len() == 2,
        c.command_type is Flee ==> decomposed_nerve(n, c).action_queue.len() == 1,
        c.command_type is Follow ==> decomposed_nerve(n, c).action_queue.len() == 1,
{
}

} // verus!
