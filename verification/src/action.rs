//! Primitive actions and the per-entity action queue (the "nerve").

use vstd::prelude::*;
use std::collections::VecDeque;
use crate::geom::Point;
use crate::PARAM_LIMIT;

verus! {

/// The kind of a primitive action.
#[derive(Clone, Copy, Debug, PartialEq, Eq)]
pub enum ActionType {
    /// Move toward a stationary point or a (possibly moving) entity.
    Move,
    /// Keep a targeted entity inside the acceptable attack band.
    Attack,
    /// Do nothing for a while.
    Wait,
    /// Do nothing and advance to the next queued action at once.
    Empty,
}

/// Typed parameters of an action.  Distances are milliunits, durations
/// milliseconds.
#[derive(Clone, Copy, Debug, PartialEq, Eq)]
pub struct ActionParams {
    /// Largest allowed distance to the target before motion resumes.
    pub range: Option<u64>,
    /// Smallest allowed distance to the target before retreat motion starts.
    pub min_range: Option<u64>,
    /// When set, a Move action never considers itself arrived: it persists
    /// until replaced by a new decomposition (continuous follow).
    pub no_skip: bool,
    /// Length of a Wait, defaulting to one second when absent.
    pub duration_ms: Option<u64>,
}

impl ActionParams {
    /// No parameters given.
    pub open spec fn spec_none() -> ActionParams {
        ActionParams { range: None, min_range: None, no_skip: false, duration_ms: None }
    }

    pub fn none() -> (p: ActionParams)
        ensures
            p == ActionParams::spec_none(),
    {
        ActionParams { range: None, min_range: None, no_skip: false, duration_ms: None }
    }

    /// Range parameters within the accepted band.
    pub open spec fn wf(self) -> bool {
        &&& (self.range matches Some(r) ==> r <= PARAM_LIMIT)
        &&& (self.min_range matches Some(m) ==> m <= PARAM_LIMIT)
    }
}

/// A primitive, directly executable behaviour: a kind, a target (a literal
/// point, an entity id, or both), and parameters.
#[derive(Clone, Copy, Debug, PartialEq, Eq)]
pub struct Action {
    pub action_type: ActionType,
    /// Literal target coordinate, when present.
    pub target_point: Option<Point>,
    /// Target entity id, when present.
    pub target_id: Option<u128>,
    pub params: ActionParams,
}

impl Action {
    /// The empty action: does nothing and is immediately popped.
    pub open spec fn spec_default() -> Action {
        Action {
            action_type: ActionType::Empty,
            target_point: None,
            target_id: None,
            params: ActionParams::spec_none(),
        }
    }

    /// Parameters in band and any literal target within the entity band.
    pub open spec fn wf(self) -> bool {
        &&& self.params.wf()
        &&& (self.target_point matches Some(p) ==> p.wf())
    }
}

impl Default for Action {
    fn default() -> (a: Action)
        ensures
            a == Action::spec_default(),
    {
        Action {
            action_type: ActionType::Empty,
            target_point: None,
            target_id: None,
            params: ActionParams::none(),
        }
    }
}

/// Mathematical view of a [`Nerve`].
pub struct NerveView {
    pub current_action: Action,
    pub action_queue: Seq<Action>,
    pub action_timer: Option<u64>,
}

impl NerveView {
    /// Every held action is well formed.
    pub open spec fn wf(self) -> bool {
        &&& self.current_action.wf()
        &&& forall|i: int| 0 <= i < self.action_queue.len() ==> #[trigger] self.action_queue[i].wf()
    }

    /// The view after completing the current action: the front of the queue
    /// is promoted, or the current action re-defaults to Empty.
    pub open spec fn advanced(self) -> NerveView {
        if self.action_queue.len() > 0 {
            NerveView {
                current_action: self.action_queue[0],
                action_queue: self.action_queue.drop_first(),
                action_timer: self.action_timer,
            }
        } else {
            NerveView {
                current_action: Action::spec_default(),
                action_queue: self.action_queue,
                action_timer: self.action_timer,
            }
        }
    }
}

/// A nonempty queue is never parked behind an empty current action: the
/// promotion step moves its front into the current slot at once, so by
/// [`crate::engine::run_action`]'s contract an Empty tick always readies the
/// next queued action.
pub proof fn lemma_promotion_is_immediate(n: NerveView)
    requires
        n.action_queue.len() > 0,
    ensures
        n.advanced().current_action == n.action_queue[0],
        n.advanced().action_queue.len() == n.action_queue.len() - 1,
{
}

/// Per-entity execution state: the action being worked on, the queue of
/// actions after it, and the running timer of a Wait.
#[derive(Debug)]
pub struct Nerve {
    pub current_action: Action,
    pub action_queue: VecDeque<Action>,
    /// Remaining milliseconds of the running Wait timer, when one runs.
    pub action_timer: Option<u64>,
}

impl View for Nerve {
    type V = NerveView;

    open spec fn view(&self) -> NerveView {
        NerveView {
            current_action: self.current_action,
            action_queue: self.action_queue@,
            action_timer: self.action_timer,
        }
    }
}

impl Nerve {
    pub fn new() -> (n: Nerve)
        ensures
            n@.current_action == Action::spec_default(),
            n@.action_queue.len() == 0,
            n@.action_timer is None,
    {
        Nerve {
            current_action: Action::default(),
            action_queue: VecDeque::new(),
            action_timer: None,
        }
    }

    pub fn is_curr_action_empty(&self) -> (r: bool)
        ensures
            r == (self@.current_action.action_type is Empty),
    {
        match self.current_action.action_type {
            ActionType::Empty => true,
            _ => false,
        }
    }

    /// Pop the front of the queue into the current action, or re-default the
    /// current action to Empty when nothing is queued.
    pub fn advance(&mut self)
        ensures
            final(self)@ == old(self)@.advanced(),
    {
        if let Some(next) = self.action_queue.pop_front() {
            self.current_action = next;
        } else {
            self.current_action = Action::default();
        }
    }
}

} // verus!
