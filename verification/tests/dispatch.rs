//! Order dispatch, idle behaviour, and entity identity.

use mercenaries::behaviour::{loiter_goal, simple_idle, Behaviour};
use mercenaries::action::{Action, ActionParams, ActionType, Nerve};
use mercenaries::command::{CommandType, Controlled};
use mercenaries::control::{
    convert_keycode_to_squad_pos, player_control, AttitudeType, InputState, KeyCode, MouseButton,
    Person, PersonTarget,
};
use mercenaries::geom::Point;
use mercenaries::map::TilePos;
use mercenaries::pathfind::Pathfinder;
use mercenaries::Id;

fn snapshot(mouse: Point, just: Vec<MouseButton>, keys: Vec<KeyCode>) -> InputState {
    InputState {
        mouse_position: mouse,
        mouse_just_presses: just,
        mouse_presses: Vec::new(),
        key_presses: keys,
    }
}

fn person_at(id: u128, attitude: AttitudeType, x: i64, y: i64) -> PersonTarget {
    PersonTarget {
        id,
        attitude,
        pos: Point { x, y },
        size: Point { x: 10_000, y: 10_000 },
    }
}

#[test]
fn keycode_to_squad_pos_mapping() {
    assert_eq!(convert_keycode_to_squad_pos(KeyCode::Key0), 0);
    assert_eq!(convert_keycode_to_squad_pos(KeyCode::Key1), 1);
    assert_eq!(convert_keycode_to_squad_pos(KeyCode::Key5), 5);
    assert_eq!(convert_keycode_to_squad_pos(KeyCode::Key9), 9);
    assert_eq!(convert_keycode_to_squad_pos(KeyCode::LShift), -1);
    assert_eq!(convert_keycode_to_squad_pos(KeyCode::Other), -1);
}

#[test]
fn click_on_empty_ground_issues_move_to_player() {
    let mouse = Point { x: 300_000, y: 200_000 };
    let inputs = snapshot(mouse, vec![MouseButton::Left], vec![]);
    let persons = vec![person_at(7, AttitudeType::Hostile, 50_000, 50_000)];
    let mut controlled = vec![Controlled::new(0), Controlled::new(1)];
    player_control(&inputs, &persons, &mut controlled);
    // with no squad key held, the order goes to squad index 0 alone
    let c = &controlled[0].current_command;
    assert!(matches!(c.command_type, CommandType::Move));
    assert_eq!(c.target_point, Some(mouse));
    assert_eq!(c.target_id, None);
    assert!(matches!(controlled[1].current_command.command_type, CommandType::Empty));
}

#[test]
fn click_on_hostile_issues_attack() {
    let mouse = Point { x: 51_000, y: 49_000 };
    let inputs = snapshot(mouse, vec![MouseButton::Left], vec![]);
    let persons = vec![
        person_at(3, AttitudeType::Squad, 300_000, 300_000),
        person_at(7, AttitudeType::Hostile, 50_000, 50_000),
    ];
    let mut controlled = vec![Controlled::new(0)];
    player_control(&inputs, &persons, &mut controlled);
    let c = &controlled[0].current_command;
    assert!(matches!(c.command_type, CommandType::Attack));
    assert_eq!(c.target_id, Some(7));
    assert_eq!(c.target_point, None);
}

#[test]
fn click_on_squad_member_issues_follow() {
    let mouse = Point { x: 300_000, y: 300_000 };
    let inputs = snapshot(mouse, vec![MouseButton::Left], vec![]);
    let persons = vec![person_at(3, AttitudeType::Squad, 300_000, 300_000)];
    let mut controlled = vec![Controlled::new(0)];
    player_control(&inputs, &persons, &mut controlled);
    let c = &controlled[0].current_command;
    assert!(matches!(c.command_type, CommandType::Follow));
    assert_eq!(c.target_id, Some(3));
}

#[test]
fn left_shift_turns_any_order_into_flee() {
    let mouse = Point { x: 51_000, y: 49_000 };
    let inputs = snapshot(mouse, vec![MouseButton::Left], vec![KeyCode::LShift]);
    let persons = vec![person_at(7, AttitudeType::Hostile, 50_000, 50_000)];
    let mut controlled = vec![Controlled::new(0)];
    player_control(&inputs, &persons, &mut controlled);
    let c = &controlled[0].current_command;
    assert!(matches!(c.command_type, CommandType::Flee));
    // a flee order carries both the point and the clicked entity
    assert_eq!(c.target_point, Some(mouse));
    assert_eq!(c.target_id, Some(7));
}

#[test]
fn left_control_turns_click_on_person_into_follow() {
    let mouse = Point { x: 51_000, y: 49_000 };
    let inputs = snapshot(mouse, vec![MouseButton::Left], vec![KeyCode::LControl]);
    let persons = vec![person_at(7, AttitudeType::Hostile, 50_000, 50_000)];
    let mut controlled = vec![Controlled::new(0)];
    player_control(&inputs, &persons, &mut controlled);
    assert!(matches!(controlled[0].current_command.command_type, CommandType::Follow));

    // without a clicked person, left control changes nothing
    let far = Point { x: 700_000, y: 400_000 };
    let inputs = snapshot(far, vec![MouseButton::Left], vec![KeyCode::LControl]);
    let mut controlled = vec![Controlled::new(0)];
    player_control(&inputs, &persons, &mut controlled);
    assert!(matches!(controlled[0].current_command.command_type, CommandType::Move));
}

#[test]
fn number_keys_select_squad_members() {
    let mouse = Point { x: 600_000, y: 100_000 };
    let inputs = snapshot(
        mouse,
        vec![MouseButton::Left],
        vec![KeyCode::Key1, KeyCode::Key3],
    );
    let persons = Vec::new();
    let mut controlled = vec![
        Controlled::new(0),
        Controlled::new(1),
        Controlled::new(2),
        Controlled::new(3),
    ];
    player_control(&inputs, &persons, &mut controlled);
    assert!(matches!(controlled[0].current_command.command_type, CommandType::Empty));
    assert!(matches!(controlled[1].current_command.command_type, CommandType::Move));
    assert!(matches!(controlled[2].current_command.command_type, CommandType::Empty));
    assert!(matches!(controlled[3].current_command.command_type, CommandType::Move));
}

#[test]
fn no_click_no_orders() {
    let inputs = snapshot(Point { x: 100, y: 100 }, vec![MouseButton::Right], vec![]);
    let persons = Vec::new();
    let mut controlled = vec![Controlled::new(0)];
    player_control(&inputs, &persons, &mut controlled);
    assert!(matches!(controlled[0].current_command.command_type, CommandType::Empty));
}

#[test]
fn first_listed_person_wins_the_click() {
    let mouse = Point { x: 50_000, y: 50_000 };
    let inputs = snapshot(mouse, vec![MouseButton::Left], vec![]);
    // two overlapping persons: the scan prefers the first
    let persons = vec![
        person_at(1, AttitudeType::Squad, 50_000, 50_000),
        person_at(2, AttitudeType::Hostile, 50_000, 50_000),
    ];
    let mut controlled = vec![Controlled::new(0)];
    player_control(&inputs, &persons, &mut controlled);
    let c = &controlled[0].current_command;
    assert!(matches!(c.command_type, CommandType::Follow));
    assert_eq!(c.target_id, Some(1));
}

#[test]
fn loiter_goal_is_clamped_into_the_window() {
    // zero draws: no deviation, but the corner clamps to the margin
    let g = loiter_goal(Point { x: 0, y: 0 }, 0, 0, 0, 0);
    assert_eq!((g.x, g.y), (10_000, 10_000));
    // draws that would leave the window clamp to the far margin
    let g = loiter_goal(Point { x: 795_000, y: 445_000 }, 200_000, 0, 200_000, 0);
    assert_eq!((g.x, g.y), (790_000, 440_000));
    // an interior deviation lands where the draws say, on both axes
    let g = loiter_goal(Point { x: 400_000, y: 225_000 }, 123, 23, 555, 55);
    assert_eq!((g.x, g.y), (400_100, 225_500));
}

#[test]
fn loiter_goal_reaches_the_full_range_on_each_axis() {
    let pos = Point { x: 400_000, y: 225_000 };
    // a maximal additive draw deviates a full 200 units, on y as on x
    let g = loiter_goal(pos, 200_000, 0, 0, 0);
    assert_eq!((g.x, g.y), (600_000, 225_000));
    let g = loiter_goal(pos, 0, 0, 200_000, 0);
    assert_eq!((g.x, g.y), (400_000, 425_000));
    // and never farther: an in-window entity keeps its goal within range
    let g = loiter_goal(pos, u32::MAX, 0, 0, u32::MAX);
    assert!((g.x - pos.x).abs() <= 200_000);
    assert!((g.y - pos.y).abs() <= 200_000);
}

#[test]
fn simple_idle_requests_a_path_only_when_idle() {
    let mut pf = Pathfinder::default();
    let busy = {
        let mut n = Nerve::new();
        n.current_action = Action {
            action_type: ActionType::Move,
            target_point: Some(Point { x: 1, y: 1 }),
            target_id: None,
            params: ActionParams {
                range: Some(0),
                min_range: None,
                no_skip: false,
                duration_ms: None,
            },
        };
        n
    };
    simple_idle(&busy, &mut pf, Point { x: 100_000, y: 100_000 });
    assert!(!pf.needs_pathfinding);

    let idle = Nerve::new();
    simple_idle(&idle, &mut pf, Point { x: 100_000, y: 100_000 });
    assert!(pf.needs_pathfinding);
    // the goal lies inside the window with its margin, on the goal tile,
    // and within the loiter range of the entity itself
    assert!(pf.real_goal.x >= 10_000 && pf.real_goal.x <= 790_000);
    assert!(pf.real_goal.y >= 10_000 && pf.real_goal.y <= 440_000);
    assert!((pf.real_goal.x - 100_000).abs() <= 200_000);
    assert!((pf.real_goal.y - 100_000).abs() <= 200_000);
    assert_eq!(
        TilePos::from_coords(pf.real_goal),
        Some(pf.path_goal)
    );
}

#[test]
fn behaviour_defaults_to_empty() {
    let b = Behaviour::default();
    assert!(matches!(
        b.current_behaviour,
        mercenaries::behaviour::BehaviourType::Empty
    ));
    assert!(matches!(
        b.current_behaviour_set,
        mercenaries::behaviour::BehaviourSet::Empty
    ));
}

#[test]
fn person_defaults_to_neutral() {
    let p = Person::default();
    assert!(matches!(p.attitude, AttitudeType::Neutral));
    let p = Person::new(AttitudeType::Hostile);
    assert!(matches!(p.attitude, AttitudeType::Hostile));
}

#[test]
fn ids_are_fresh_and_stable() {
    let a = Id::new();
    let b = Id::new();
    // two 128-bit random identifiers never collide in practice
    assert_ne!(a.id(), b.id());
    assert_eq!(a.id(), a.value);
}
