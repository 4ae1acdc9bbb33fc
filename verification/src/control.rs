//! Order dispatch: translating a debounced input snapshot and the squad
//! selection hotkeys into commands on the controlled entities.

use vstd::prelude::*;
use crate::geom::{Point, point_in_box, check_point_collision};
use crate::command::{Command, CommandType, Controlled, ControlledView};
use crate::SPAN_LIMIT;

verus! {

/// A mouse button of the input snapshot.
#[derive(Clone, Copy, Debug, PartialEq, Eq)]
pub enum MouseButton {
    Left,
    Right,
    Middle,
    Other,
}

/// A key of the input snapshot; only the keys the dispatch reads are told
/// apart.
#[derive(Clone, Copy, Debug, PartialEq, Eq)]
pub enum KeyCode {
    Key0,
    Key1,
    Key2,
    Key3,
    Key4,
    Key5,
    Key6,
    Key7,
    Key8,
    Key9,
    LShift,
    LControl,
    Other,
}

/// The debounced input snapshot the dispatch consumes: cursor position,
/// buttons newly pressed this tick, buttons currently held, keys currently
/// held.
#[derive(Debug)]
pub struct InputState {
    pub mouse_position: Point,
    pub mouse_just_presses: Vec<MouseButton>,
    pub mouse_presses: Vec<MouseButton>,
    pub key_presses: Vec<KeyCode>,
}

/// Disposition of a person toward the player.
#[derive(Clone, Copy, Debug, PartialEq, Eq)]
pub enum AttitudeType {
    Neutral,
    Squad,
    Hostile,
    Ally,
}

/// A person component: an entity with a disposition.
#[derive(Clone, Copy, Debug)]
pub struct Person {
    pub attitude: AttitudeType,
}

impl Default for Person {
    fn default() -> (p: Person)
        ensures
            p.attitude is Neutral,
    {
        Person { attitude: AttitudeType::Neutral }
    }
}

impl Person {
    pub fn new(att: AttitudeType) -> (p: Person)
        ensures
            p.attitude == att,
    {
        Person { attitude: att }
    }
}

/// One row of the clickable entity scan: id, disposition, position and
/// footprint size.
#[derive(Clone, Copy, Debug)]
pub struct PersonTarget {
    pub id: u128,
    pub attitude: AttitudeType,
    pub pos: Point,
    pub size: Point,
}

impl PersonTarget {
    pub open spec fn wf(self) -> bool {
        &&& self.pos.wf()
        &&& 0 <= self.size.x <= SPAN_LIMIT
        &&& 0 <= self.size.y <= SPAN_LIMIT
    }
}

/// The squad index a number key maps to, or -1 for any other key.
pub open spec fn squad_pos_of(key: KeyCode) -> i32 {
    match key {
        KeyCode::Key0 => 0i32,
        KeyCode::Key1 => 1i32,
        KeyCode::Key2 => 2i32,
        KeyCode::Key3 => 3i32,
        KeyCode::Key4 => 4i32,
        KeyCode::Key5 => 5i32,
        KeyCode::Key6 => 6i32,
        KeyCode::Key7 => 7i32,
        KeyCode::Key8 => 8i32,
        KeyCode::Key9 => 9i32,
        _ => -1i32,
    }
}

pub fn convert_keycode_to_squad_pos(key: KeyCode) -> (r: i32)
    ensures
        r == squad_pos_of(key),
{
    match key {
        KeyCode::Key0 => 0,
        KeyCode::Key1 => 1,
        KeyCode::Key2 => 2,
        KeyCode::Key3 => 3,
        KeyCode::Key4 => 4,
        KeyCode::Key5 => 5,
        KeyCode::Key6 => 6,
        KeyCode::Key7 => 7,
        KeyCode::Key8 => 8,
        KeyCode::Key9 => 9,
        _ => -1,
    }
}

/// The first listed person whose box contains the cursor, scanned front to
/// back.
pub open spec fn clicked_person(mouse: Point, persons: Seq<PersonTarget>) -> Option<PersonTarget>
    decreases persons.len(),
{
    if persons.len() == 0 {
        None
    } else if point_in_box(mouse, persons[0].pos, persons[0].size) {
        Some(persons[0])
    } else {
        clicked_person(mouse, persons.drop_first())
    }
}

/// Whether some held key is the left shift key.
pub open spec fn holds_lshift(keys: Seq<KeyCode>) -> bool {
    exists|i: int| 0 <= i < keys.len() && keys[i] is LShift
}

/// Whether some held key is the left control key.
pub open spec fn holds_lcontrol(keys: Seq<KeyCode>) -> bool {
    exists|i: int| 0 <= i < keys.len() && keys[i] is LControl
}

/// Whether some held key selects a squad index.
pub open spec fn any_squad_key(keys: Seq<KeyCode>) -> bool {
    exists|i: int| 0 <= i < keys.len() && squad_pos_of(#[trigger] keys[i]) >= 0
}

/// Whether the order goes to the entity at squad index `sp`: to the indices
/// of the held number keys, or to index 0 — the player — when none is held.
pub open spec fn squad_selected(keys: Seq<KeyCode>, sp: i32) -> bool {
    if any_squad_key(keys) {
        exists|i: int| 0 <= i < keys.len() && squad_pos_of(#[trigger] keys[i]) == sp
    } else {
        sp == 0
    }
}

/// The kind of command a click issues: move by default; attack a hostile or
/// neutral person, follow a squad member; left shift turns any of these into
/// flee, and left control turns a click on a person into follow.
pub open spec fn clicked_command_type(mouse: Point, persons: Seq<PersonTarget>, keys: Seq<KeyCode>) -> CommandType {
    let base = match clicked_person(mouse, persons) {
        None => CommandType::Move,
        Some(p) => match p.attitude {
            AttitudeType::Hostile => CommandType::Attack,
            AttitudeType::Neutral => CommandType::Attack,
            AttitudeType::Squad => CommandType::Follow,
            AttitudeType::Ally => CommandType::Move,
        },
    };
    if holds_lshift(keys) {
        CommandType::Flee
    } else if holds_lcontrol(keys) && clicked_person(mouse, persons) is Some {
        CommandType::Follow
    } else {
        base
    }
}

/// The command a click issues, given its kind and target.
pub open spec fn issued_command(kind: CommandType, mouse: Point, target: Option<u128>) -> Command {
    match kind {
        CommandType::Move => Command {
            command_type: CommandType::Move,
            target_point: Some(mouse),
            target_id: None,
        },
        CommandType::Attack => Command {
            command_type: CommandType::Attack,
            target_point: None,
            target_id: target,
        },
        CommandType::Flee => Command {
            command_type: CommandType::Flee,
            target_point: Some(mouse),
            target_id: target,
        },
        CommandType::Follow => Command {
            command_type: CommandType::Follow,
            target_point: None,
            target_id: target,
        },
        CommandType::Empty => Command {
            command_type: CommandType::Empty,
            target_point: None,
            target_id: None,
        },
    }
}

/// Whether the left mouse button was pressed this tick.
pub open spec fn left_just_pressed(buttons: Seq<MouseButton>) -> bool {
    exists|i: int| 0 <= i < buttons.len() && buttons[i] is Left
}

fn find_left_press(buttons: &Vec<MouseButton>) -> (r: bool)
    ensures
        r == left_just_pressed(buttons@),
{
    let mut i: usize = 0;
    while i < buttons.len()
        invariant
            i <= buttons@.len(),
            forall|j: int| 0 <= j < i ==> !((#[trigger] buttons@[j]) is Left),
        decreases buttons@.len() - i,
    {
        if let MouseButton::Left = buttons[i] {
            return true;
        }
        i = i + 1;
    }
    false
}

fn find_lshift(keys: &Vec<KeyCode>) -> (r: bool)
    ensures
        r == holds_lshift(keys@),
{
    let mut i: usize = 0;
    while i < keys.len()
        invariant
            i <= keys@.len(),
            forall|j: int| 0 <= j < i ==> !((#[trigger] keys@[j]) is LShift),
        decreases keys@.len() - i,
    {
        if let KeyCode::LShift = keys[i] {
            return true;
        }
        i = i + 1;
    }
    false
}

fn find_lcontrol(keys: &Vec<KeyCode>) -> (r: bool)
    ensures
        r == holds_lcontrol(keys@),
{
    let mut i: usize = 0;
    while i < keys.len()
        invariant
            i <= keys@.len(),
            forall|j: int| 0 <= j < i ==> !((#[trigger] keys@[j]) is LControl),
        decreases keys@.len() - i,
    {
        if let KeyCode::LControl = keys[i] {
            return true;
        }
        i = i + 1;
    }
    false
}

/// Whether the held keys select squad index `sp`.
fn is_squad_selected(keys: &Vec<KeyCode>, sp: i32) -> (r: bool)
    ensures
        r == squad_selected(keys@, sp),
{
    let mut any: bool = false;
    let mut matched: bool = false;
    let mut i: usize = 0;
    while i < keys.len()
        invariant
            i <= keys@.len(),
            any == exists|j: int| 0 <= j < i && squad_pos_of(#[trigger] keys@[j]) >= 0,
            matched == exists|j: int| 0 <= j < i && squad_pos_of(#[trigger] keys@[j]) == sp,
        decreases keys@.len() - i,
    {
        let v = convert_keycode_to_squad_pos(keys[i]);
        if v >= 0 {
            any = true;
        }
        if v == sp {
            matched = true;
        }
        i = i + 1;
    }
    if any {
        matched
    } else {
        sp == 0
    }
}

fn find_clicked(mouse: Point, persons: &Vec<PersonTarget>) -> (r: Option<PersonTarget>)
    requires
        mouse.span_ok(),
        forall|i: int| 0 <= i < persons@.len() ==> (#[trigger] persons@[i]).wf(),
    ensures
        r == clicked_person(mouse, persons@),
{
    let mut i: usize = 0;
    proof {
        assert(persons@.skip(0) =~= persons@);
    }
    while i < persons.len()
        invariant
            i <= persons@.len(),
            mouse.span_ok(),
            forall|j: int| 0 <= j < persons@.len() ==> (#[trigger] persons@[j]).wf(),
            clicked_person(mouse, persons@) == clicked_person(mouse, persons@.skip(i as int)),
        decreases persons@.len() - i,
    {
        let p = persons[i];
        proof {
            assert(persons@.skip(i as int)[0] == persons@[i as int]);
            assert(persons@.skip(i as int).drop_first() =~= persons@.skip(i as int + 1));
        }
        if check_point_collision(mouse, p.pos, p.size) {
            return Some(p);
        }
        i = i + 1;
    }
    proof {
        assert(persons@.skip(persons@.len() as int).len() == 0);
    }
    None
}

/// Dispatch one tick of player input: on a fresh left click, every
/// controlled entity whose squad index the held keys select receives the
/// issued command, replacing its current one; everything else is untouched.
pub fn player_control(
    inputs: &InputState,
    persons: &Vec<PersonTarget>,
    controlled: &mut Vec<Controlled>,
)
    requires
        inputs.mouse_position.span_ok(),
        forall|i: int| 0 <= i < persons@.len() ==> (#[trigger] persons@[i]).wf(),
    ensures
        final(controlled)@.len() == old(controlled)@.len(),
        !left_just_pressed(inputs.mouse_just_presses@) ==> forall|j: int|
            0 <= j < old(controlled)@.len() ==> (#[trigger] final(controlled)@[j])@ == old(
                controlled,
            )@[j]@,
        left_just_pressed(inputs.mouse_just_presses@) ==> forall|j: int|
            0 <= j < old(controlled)@.len() ==> (#[trigger] final(controlled)@[j])@ == (
            if squad_selected(inputs.key_presses@, old(controlled)@[j]@.squad_pos) {
                ControlledView {
                    current_command: issued_command(
                        clicked_command_type(
                            inputs.mouse_position,
                            persons@,
                            inputs.key_presses@,
                        ),
                        inputs.mouse_position,
                        match clicked_person(inputs.mouse_position, persons@) {
                            Some(p) => Some(p.id),
                            None => None,
                        },
                    ),
                    ..old(controlled)@[j]@
                }
            } else {
                old(controlled)@[j]@
            }),
{
    if !find_left_press(&inputs.mouse_just_presses) {
        return ;
    }

    let clicked = find_clicked(inputs.mouse_position, persons);
    let target_entity: Option<u128> = match &clicked {
        Some(p) => Some(p.id),
        None => None,
    };

    let mut command_type = match &clicked {
        None => CommandType::Move,
        Some(p) => match p.attitude {
            AttitudeType::Hostile => CommandType::Attack,
            AttitudeType::Neutral => CommandType::Attack,
            AttitudeType::Squad => CommandType::Follow,
            AttitudeType::Ally => CommandType::Move,
        },
    };
    // left shift switches any order to flee; left control takes a click on a
    // person to follow
    if find_lshift(&inputs.key_presses) {
        command_type = CommandType::Flee;
    } else if find_lcontrol(&inputs.key_presses) && target_entity.is_some() {
        command_type = CommandType::Follow;
    }

    let new_command = match command_type {
        CommandType::Move => Command {
            command_type: CommandType::Move,
            target_point: Some(inputs.mouse_position),
            target_id: None,
        },
        CommandType::Attack => Command {
            command_type: CommandType::Attack,
            target_point: None,
            target_id: target_entity,
        },
        CommandType::Flee => Command {
            command_type: CommandType::Flee,
            target_point: Some(inputs.mouse_position),
            target_id: target_entity,
        },
        CommandType::Follow => Command {
            command_type: CommandType::Follow,
            target_point: None,
            target_id: target_entity,
        },
        CommandType::Empty => Command {
            command_type: CommandType::Empty,
            target_point: None,
            target_id: None,
        },
    };

    let n = controlled.len();
    let mut j: usize = 0;
    while j < n
        invariant
            j <= n,
            n == controlled@.len(),
            controlled@.len() == old(controlled)@.len(),
            left_just_pressed(inputs.mouse_just_presses@),
            new_command == issued_command(
                clicked_command_type(inputs.mouse_position, persons@, inputs.key_presses@),
                inputs.mouse_position,
                match clicked_person(inputs.mouse_position, persons@) {
                    Some(p) => Some(p.id),
                    None => None,
                },
            ),
            forall|k: int| j <= k < n ==> (#[trigger] controlled@[k])@ == old(controlled)@[k]@,
            forall|k: int|
                0 <= k < j ==> (#[trigger] controlled@[k])@ == (if squad_selected(
                    inputs.key_presses@,
                    old(controlled)@[k]@.squad_pos,
                ) {
                    ControlledView {
                        current_command: new_command,
                        ..old(controlled)@[k]@
                    }
                } else {
                    old(controlled)@[k]@
                }),
        decreases n - j,
    {
        let sp = controlled[j].squad_pos;
        if is_squad_selected(&inputs.key_presses, sp) {
            let ghost pre = controlled@;
            let mut c = controlled.remove(j);
            c.current_command = new_command;
            controlled.insert(j, c);
            proof {
                assert(controlled@ =~= pre.update(j as int, controlled@[j as int]));
            }
        }
        j = j + 1;
    }
}

} // verus!
