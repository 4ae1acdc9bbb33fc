//! Command decomposition and the action execution engine, tick by tick.

use mercenaries::action::{Action, ActionParams, ActionType, Nerve};
use mercenaries::command::{move_controlled, Command, CommandType, Controlled};
use mercenaries::engine::{run_action, ActionError, AnimationType, EntityRef};
use mercenaries::geom::{Point, Velocity};
use mercenaries::motion::apply_velocity;

fn no_entities() -> Vec<EntityRef> {
    Vec::new()
}

fn move_action(target: Point, range: Option<u64>, min_range: Option<u64>, no_skip: bool) -> Action {
    Action {
        action_type: ActionType::Move,
        target_point: Some(target),
        target_id: None,
        params: ActionParams { range, min_range, no_skip, duration_ms: None },
    }
}

#[test]
fn decompose_move_replaces_everything() {
    // a half-run attack sequence: a Move is current, an Attack is queued
    let mut nerve = Nerve::new();
    nerve.current_action = Action {
        action_type: ActionType::Move,
        target_point: None,
        target_id: Some(7),
        params: ActionParams {
            range: Some(40_000),
            min_range: Some(20_000),
            no_skip: false,
            duration_ms: None,
        },
    };
    nerve.action_queue.push_back(Action {
        action_type: ActionType::Attack,
        target_point: None,
        target_id: Some(7),
        params: ActionParams {
            range: Some(40_000),
            min_range: Some(20_000),
            no_skip: false,
            duration_ms: None,
        },
    });

    let mut state = Controlled::new(0);
    state.current_command = Command {
        command_type: CommandType::Move,
        target_id: None,
        target_point: Some(Point { x: 123, y: 456 }),
    };
    move_controlled(&mut state, &mut nerve);

    // a full replace: exactly the one new Move remains, not three actions
    assert!(matches!(nerve.current_action.action_type, ActionType::Empty));
    assert_eq!(nerve.action_queue.len(), 1);
    let a = nerve.action_queue.front().unwrap();
    assert!(matches!(a.action_type, ActionType::Move));
    assert_eq!(a.target_point, Some(Point { x: 123, y: 456 }));
    assert_eq!(a.params.range, Some(0));
    assert_eq!(a.params.min_range, None);
    assert!(!a.params.no_skip);
    // the command was consumed
    assert!(matches!(state.current_command.command_type, CommandType::Empty));
}

#[test]
fn decompose_attack_queues_move_then_attack() {
    let mut nerve = Nerve::new();
    let mut state = Controlled::new(0);
    state.current_command = Command {
        command_type: CommandType::Attack,
        target_id: Some(42),
        target_point: None,
    };
    move_controlled(&mut state, &mut nerve);
    assert_eq!(nerve.action_queue.len(), 2);
    let first = nerve.action_queue[0];
    let second = nerve.action_queue[1];
    assert!(matches!(first.action_type, ActionType::Move));
    assert!(matches!(second.action_type, ActionType::Attack));
    for a in [first, second] {
        assert_eq!(a.target_id, Some(42));
        assert_eq!(a.params.range, Some(40_000));
        assert_eq!(a.params.min_range, Some(20_000));
    }
}

#[test]
fn decompose_flee_and_follow() {
    let mut nerve = Nerve::new();
    let mut state = Controlled::new(0);
    state.current_command = Command {
        command_type: CommandType::Flee,
        target_id: Some(9),
        target_point: Some(Point { x: 1, y: 2 }),
    };
    move_controlled(&mut state, &mut nerve);
    assert_eq!(nerve.action_queue.len(), 1);
    let a = nerve.action_queue[0];
    assert!(matches!(a.action_type, ActionType::Move));
    assert_eq!(a.target_id, Some(9));
    assert_eq!(a.target_point, Some(Point { x: 1, y: 2 }));
    assert_eq!(a.params.min_range, Some(200_000));
    assert_eq!(a.params.range, None);

    let mut nerve = Nerve::new();
    let mut state = Controlled::new(0);
    state.current_command = Command {
        command_type: CommandType::Follow,
        target_id: Some(9),
        target_point: None,
    };
    move_controlled(&mut state, &mut nerve);
    assert_eq!(nerve.action_queue.len(), 1);
    let a = nerve.action_queue[0];
    assert_eq!(a.params.range, Some(40_000));
    assert!(a.params.no_skip);
}

#[test]
fn decompose_empty_leaves_actions_alone() {
    let mut nerve = Nerve::new();
    nerve.action_queue.push_back(move_action(Point { x: 5, y: 5 }, Some(0), None, false));
    let mut state = Controlled::new(3);
    move_controlled(&mut state, &mut nerve);
    assert_eq!(nerve.action_queue.len(), 1);
    assert_eq!(state.squad_pos, 3);
}

#[test]
fn decompose_pops_queued_command() {
    let mut nerve = Nerve::new();
    let mut state = Controlled::new(0);
    state.command_queue.push_back(Command {
        command_type: CommandType::Move,
        target_id: None,
        target_point: Some(Point { x: 10, y: 20 }),
    });
    move_controlled(&mut state, &mut nerve);
    assert!(matches!(state.current_command.command_type, CommandType::Move));
    assert_eq!(state.command_queue.len(), 0);
}

#[test]
fn move_with_range_zero_arrives_and_pops() {
    let target = Point { x: 50_000, y: 30_000 };
    let mut nerve = Nerve::new();
    nerve.current_action = move_action(target, Some(0), None, false);
    let mut pos = Point { x: 0, y: 0 };
    let mut vel = Velocity { x: 0, y: 0 };
    let ents = no_entities();

    let mut ticks = 0u32;
    while !matches!(nerve.current_action.action_type, ActionType::Empty) {
        let r = run_action(&mut nerve, 1, pos, &mut vel, 100, &ents);
        assert_eq!(r, Ok(Some(AnimationType::Move)));
        apply_velocity(&mut pos, &vel, 100);
        ticks += 1;
        assert!(ticks < 1000, "move action failed to arrive");
    }
    // the action popped with the entity within a unit of the target per axis
    assert!((target.x - pos.x).abs() < 1000);
    assert!((target.y - pos.y).abs() < 1000);
}

#[test]
fn move_no_skip_never_pops_at_rest() {
    // the entity already stands at the target with zero velocity
    let here = Point { x: 10_000, y: 10_000 };
    let mut nerve = Nerve::new();
    nerve.current_action = move_action(here, Some(40_000), None, true);
    let mut vel = Velocity { x: 0, y: 0 };
    let ents = no_entities();
    for _ in 0..200 {
        let r = run_action(&mut nerve, 1, here, &mut vel, 100, &ents);
        assert!(r.is_ok());
        assert!(matches!(nerve.current_action.action_type, ActionType::Move));
    }
}

#[test]
fn move_self_target_is_skipped() {
    let mut nerve = Nerve::new();
    nerve.current_action = Action {
        action_type: ActionType::Move,
        target_point: None,
        target_id: Some(1),
        params: ActionParams {
            range: Some(40_000),
            min_range: None,
            no_skip: true,
            duration_ms: None,
        },
    };
    nerve.action_queue.push_back(move_action(Point { x: 1, y: 1 }, Some(0), None, false));
    let mut vel = Velocity { x: 5, y: 5 };
    let ents = vec![EntityRef { id: 1, pos: Point { x: 0, y: 0 } }];
    let r = run_action(&mut nerve, 1, Point { x: 0, y: 0 }, &mut vel, 100, &ents);
    assert_eq!(r, Ok(Some(AnimationType::Move)));
    // advanced exactly once, velocity untouched
    assert!(matches!(nerve.current_action.action_type, ActionType::Move));
    assert_eq!(nerve.current_action.target_point, Some(Point { x: 1, y: 1 }));
    assert_eq!(nerve.action_queue.len(), 0);
    assert_eq!((vel.x, vel.y), (5, 5));
}

#[test]
fn move_dead_id_completes_or_falls_back() {
    // a dead id with no fallback point completes
    let mut nerve = Nerve::new();
    nerve.current_action = Action {
        action_type: ActionType::Move,
        target_point: None,
        target_id: Some(99),
        params: ActionParams { range: Some(0), min_range: None, no_skip: false, duration_ms: None },
    };
    let mut vel = Velocity { x: 0, y: 0 };
    let ents = no_entities();
    let r = run_action(&mut nerve, 1, Point { x: 0, y: 0 }, &mut vel, 100, &ents);
    assert_eq!(r, Ok(Some(AnimationType::Move)));
    assert!(matches!(nerve.current_action.action_type, ActionType::Empty));

    // a dead id with a fallback point moves toward the point
    let mut nerve = Nerve::new();
    nerve.current_action = Action {
        action_type: ActionType::Move,
        target_point: Some(Point { x: 100_000, y: 0 }),
        target_id: Some(99),
        params: ActionParams { range: Some(0), min_range: None, no_skip: false, duration_ms: None },
    };
    let mut vel = Velocity { x: 0, y: 0 };
    let r = run_action(&mut nerve, 1, Point { x: 0, y: 0 }, &mut vel, 100, &ents);
    assert!(r.is_ok());
    assert!(vel.x > 0);
}

#[test]
fn move_errors_leave_state_alone() {
    // no target at all
    let mut nerve = Nerve::new();
    nerve.current_action = Action {
        action_type: ActionType::Move,
        target_point: None,
        target_id: None,
        params: ActionParams { range: Some(0), min_range: None, no_skip: false, duration_ms: None },
    };
    let mut vel = Velocity { x: 3, y: 4 };
    let ents = no_entities();
    let r = run_action(&mut nerve, 1, Point { x: 0, y: 0 }, &mut vel, 100, &ents);
    assert_eq!(r, Err(ActionError::MissingTarget));
    assert!(matches!(nerve.current_action.action_type, ActionType::Move));
    assert_eq!((vel.x, vel.y), (3, 4));

    // a minimum range above the range
    let mut nerve = Nerve::new();
    nerve.current_action = move_action(Point { x: 9000, y: 0 }, Some(40_000), Some(50_000), false);
    let r = run_action(&mut nerve, 1, Point { x: 0, y: 0 }, &mut vel, 100, &ents);
    assert_eq!(r, Err(ActionError::InvalidRange));
    assert_eq!((vel.x, vel.y), (3, 4));
}

#[test]
fn move_inside_band_leaves_velocity_alone() {
    // distance 30000 lies inside [20000, 40000]: no reassignment this tick
    let mut nerve = Nerve::new();
    nerve.current_action = move_action(
        Point { x: 30_000, y: 0 },
        Some(40_000),
        Some(20_000),
        true,
    );
    let mut vel = Velocity { x: 777, y: -777 };
    let ents = no_entities();
    let r = run_action(&mut nerve, 1, Point { x: 0, y: 0 }, &mut vel, 100, &ents);
    assert!(r.is_ok());
    assert_eq!((vel.x, vel.y), (777, -777));
}

#[test]
fn flee_produces_outward_velocity_until_separated() {
    // a Flee decomposition: only a point target and a minimum range
    let threat = Point { x: 100_000, y: 100_000 };
    let mut nerve = Nerve::new();
    nerve.current_action = Action {
        action_type: ActionType::Move,
        target_point: Some(threat),
        target_id: None,
        params: ActionParams {
            range: None,
            min_range: Some(200_000),
            no_skip: false,
            duration_ms: None,
        },
    };
    let mut pos = Point { x: 150_000, y: 100_000 };
    let mut vel = Velocity { x: 0, y: 0 };
    let ents = no_entities();

    let mut ticks = 0u32;
    while !matches!(nerve.current_action.action_type, ActionType::Empty) {
        let r = run_action(&mut nerve, 1, pos, &mut vel, 100, &ents);
        assert!(r.is_ok());
        // while still inside the separation circle, motion points away
        assert!(vel.x >= 0);
        apply_velocity(&mut pos, &vel, 100);
        ticks += 1;
        assert!(ticks < 10_000, "flee failed to reach separation");
    }
    // arrival at the dead-zone boundary counts as completion
    let dist = pos.x - threat.x;
    assert!(dist >= 198_000, "popped too early at separation {dist}");
}

#[test]
fn attack_in_band_requeues_nothing() {
    let mut nerve = Nerve::new();
    let attack = Action {
        action_type: ActionType::Attack,
        target_point: None,
        target_id: Some(2),
        params: ActionParams {
            range: Some(40_000),
            min_range: Some(20_000),
            no_skip: false,
            duration_ms: None,
        },
    };
    nerve.current_action = attack;
    let mut vel = Velocity { x: 0, y: 0 };
    let ents = vec![EntityRef { id: 2, pos: Point { x: 30_000, y: 0 } }];
    for _ in 0..50 {
        let r = run_action(&mut nerve, 1, Point { x: 0, y: 0 }, &mut vel, 100, &ents);
        assert_eq!(r, Ok(Some(AnimationType::Attack)));
        assert!(matches!(nerve.current_action.action_type, ActionType::Attack));
        assert_eq!(nerve.action_queue.len(), 0);
    }
}

#[test]
fn attack_band_tolerance_is_one_unit() {
    let mk = |dist: i64| {
        let mut nerve = Nerve::new();
        nerve.current_action = Action {
            action_type: ActionType::Attack,
            target_point: None,
            target_id: Some(2),
            params: ActionParams {
                range: Some(40_000),
                min_range: Some(20_000),
                no_skip: false,
                duration_ms: None,
            },
        };
        let mut vel = Velocity { x: 0, y: 0 };
        let ents = vec![EntityRef { id: 2, pos: Point { x: dist, y: 0 } }];
        let r = run_action(&mut nerve, 1, Point { x: 0, y: 0 }, &mut vel, 100, &ents);
        assert!(r.is_ok());
        nerve
    };
    // within one unit beyond the range: still in band
    let nerve = mk(40_500);
    assert!(matches!(nerve.current_action.action_type, ActionType::Attack));
    assert_eq!(nerve.action_queue.len(), 0);
    // a full unit beyond: out of band, a Move is promoted and a fresh
    // Attack queued behind it
    let nerve = mk(41_000);
    assert!(matches!(nerve.current_action.action_type, ActionType::Move));
    assert_eq!(nerve.action_queue.len(), 1);
    assert!(matches!(nerve.action_queue[0].action_type, ActionType::Attack));
    // within one unit below the minimum range: still in band
    let nerve = mk(19_500);
    assert!(matches!(nerve.current_action.action_type, ActionType::Attack));
    // a full unit inside the minimum: out of band
    let nerve = mk(19_000);
    assert!(matches!(nerve.current_action.action_type, ActionType::Move));
}

#[test]
fn attack_with_queued_actions_defers_to_them() {
    let mut nerve = Nerve::new();
    nerve.current_action = Action {
        action_type: ActionType::Attack,
        target_point: None,
        target_id: Some(2),
        params: ActionParams {
            range: Some(40_000),
            min_range: None,
            no_skip: false,
            duration_ms: None,
        },
    };
    let queued = move_action(Point { x: 1, y: 1 }, Some(0), None, false);
    nerve.action_queue.push_back(queued);
    let mut vel = Velocity { x: 0, y: 0 };
    // far out of band, but the queue is nonempty: nothing changes
    let ents = vec![EntityRef { id: 2, pos: Point { x: 90_000, y: 0 } }];
    let r = run_action(&mut nerve, 1, Point { x: 0, y: 0 }, &mut vel, 100, &ents);
    assert!(r.is_ok());
    assert!(matches!(nerve.current_action.action_type, ActionType::Attack));
    assert_eq!(nerve.action_queue.len(), 1);
}

#[test]
fn attack_dead_target_completes() {
    let mut nerve = Nerve::new();
    nerve.current_action = Action {
        action_type: ActionType::Attack,
        target_point: None,
        target_id: Some(2),
        params: ActionParams { range: None, min_range: None, no_skip: false, duration_ms: None },
    };
    let mut vel = Velocity { x: 0, y: 0 };
    let ents = no_entities();
    let r = run_action(&mut nerve, 1, Point { x: 0, y: 0 }, &mut vel, 100, &ents);
    assert_eq!(r, Ok(Some(AnimationType::Attack)));
    assert!(matches!(nerve.current_action.action_type, ActionType::Empty));
}

#[test]
fn attack_without_target_id_is_an_error() {
    let mut nerve = Nerve::new();
    nerve.current_action = Action {
        action_type: ActionType::Attack,
        target_point: Some(Point { x: 1, y: 1 }),
        target_id: None,
        params: ActionParams { range: None, min_range: None, no_skip: false, duration_ms: None },
    };
    let mut vel = Velocity { x: 0, y: 0 };
    let ents = no_entities();
    let r = run_action(&mut nerve, 1, Point { x: 0, y: 0 }, &mut vel, 100, &ents);
    assert_eq!(r, Err(ActionError::MissingTarget));
}

#[test]
fn wait_times_out_then_advances() {
    let mut nerve = Nerve::new();
    nerve.current_action = Action {
        action_type: ActionType::Wait,
        target_point: None,
        target_id: None,
        params: ActionParams {
            range: None,
            min_range: None,
            no_skip: false,
            duration_ms: Some(250),
        },
    };
    nerve.action_queue.push_back(move_action(Point { x: 1, y: 1 }, Some(0), None, false));
    let mut vel = Velocity { x: 0, y: 0 };
    let ents = no_entities();
    // first tick creates the timer; three more drain 250 ms at 100 ms per
    // tick
    for tick in 0..4 {
        assert!(
            matches!(nerve.current_action.action_type, ActionType::Wait),
            "wait ended early at tick {tick}"
        );
        let r = run_action(&mut nerve, 1, Point { x: 0, y: 0 }, &mut vel, 100, &ents);
        assert_eq!(r, Ok(None));
    }
    assert!(matches!(nerve.current_action.action_type, ActionType::Move));
    assert_eq!(nerve.action_timer, None);
}

#[test]
fn wait_defaults_to_one_second() {
    let mut nerve = Nerve::new();
    nerve.current_action = Action {
        action_type: ActionType::Wait,
        target_point: None,
        target_id: None,
        params: ActionParams { range: None, min_range: None, no_skip: false, duration_ms: None },
    };
    let mut vel = Velocity { x: 0, y: 0 };
    let ents = no_entities();
    let r = run_action(&mut nerve, 1, Point { x: 0, y: 0 }, &mut vel, 100, &ents);
    assert_eq!(r, Ok(None));
    assert_eq!(nerve.action_timer, Some(1000));
}

#[test]
fn empty_action_zeroes_velocity_and_promotes() {
    let mut nerve = Nerve::new();
    let next = move_action(Point { x: 1, y: 1 }, Some(0), None, false);
    nerve.action_queue.push_back(next);
    let mut vel = Velocity { x: 123, y: -456 };
    let ents = no_entities();
    let r = run_action(&mut nerve, 1, Point { x: 0, y: 0 }, &mut vel, 100, &ents);
    assert_eq!(r, Ok(Some(AnimationType::Idle)));
    assert_eq!((vel.x, vel.y), (0, 0));
    assert!(matches!(nerve.current_action.action_type, ActionType::Move));
}
