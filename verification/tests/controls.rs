use creatura::keyboard::{
    brain_edits, joint_change, key_row, keyboard_commands, muscle_command, BrainEdit, JointChange,
    Key, KeyRow, MuscleCommand, KEY_ROWS,
};
use creatura::oscillator::{oscillator_assignment, oscillator_index};
use creatura::pickup::{pickup_actions, PickupAction};

#[test]
fn key_table() {
    assert_eq!(KEY_ROWS, 6);
    assert_eq!(
        key_row(0),
        KeyRow { increase: Key::KeyQ, reset: Key::KeyA, decrease: Key::KeyZ, toggle: Key::Digit1 }
    );
    assert_eq!(
        key_row(3),
        KeyRow { increase: Key::KeyR, reset: Key::KeyF, decrease: Key::KeyV, toggle: Key::Digit4 }
    );
    assert_eq!(
        key_row(5),
        KeyRow { increase: Key::KeyY, reset: Key::KeyJ, decrease: Key::KeyN, toggle: Key::Digit6 }
    );
}

#[test]
fn first_applicable_key_decides() {
    let row = key_row(0);
    let none: Vec<Key> = vec![];
    assert_eq!(muscle_command(row, &vec![Key::KeyZ, Key::KeyQ, Key::KeyA], &none), MuscleCommand::Increase);
    assert_eq!(muscle_command(row, &vec![Key::KeyZ, Key::KeyA], &none), MuscleCommand::Reset);
    assert_eq!(muscle_command(row, &vec![Key::KeyZ], &vec![Key::Digit1]), MuscleCommand::Decrease);
    assert_eq!(muscle_command(row, &none, &vec![Key::Digit1]), MuscleCommand::ToggleJoint);
    assert_eq!(muscle_command(row, &vec![Key::Digit1], &none), MuscleCommand::Hold);
    assert_eq!(muscle_command(row, &vec![Key::KeyW], &vec![Key::Digit2]), MuscleCommand::Hold);
}

#[test]
fn commands_cover_at_most_six_muscles() {
    let held = vec![Key::KeyW, Key::KeyN];
    let pressed = vec![Key::Digit1];
    let commands = keyboard_commands(9, &held, &pressed);
    assert_eq!(
        commands,
        vec![
            MuscleCommand::ToggleJoint,
            MuscleCommand::Increase,
            MuscleCommand::Hold,
            MuscleCommand::Hold,
            MuscleCommand::Hold,
            MuscleCommand::Decrease,
        ]
    );
    assert_eq!(keyboard_commands(2, &held, &pressed), vec![MuscleCommand::ToggleJoint, MuscleCommand::Increase]);
    assert!(keyboard_commands(0, &held, &pressed).is_empty());
}

#[test]
fn toggling_flips_the_joint() {
    assert_eq!(joint_change(true), JointChange::Enable);
    assert_eq!(joint_change(false), JointChange::Disable);
}

#[test]
fn brain_edits_in_order() {
    assert_eq!(brain_edits(false, false), vec![]);
    assert_eq!(brain_edits(true, false), vec![BrainEdit::Mutate]);
    assert_eq!(brain_edits(false, true), vec![BrainEdit::Generate]);
    assert_eq!(brain_edits(true, true), vec![BrainEdit::Mutate, BrainEdit::Generate]);
}

#[test]
fn oscillators_are_taken_in_turn() {
    assert_eq!(oscillator_assignment(5, 2), vec![0, 1, 0, 1, 0]);
    assert_eq!(oscillator_assignment(3, 4), vec![0, 1, 2]);
    assert_eq!(oscillator_assignment(0, 0), Vec::<usize>::new());
    assert_eq!(oscillator_index(7, 3), 1);
}

#[test]
fn pickup_actions_in_order() {
    assert_eq!(pickup_actions(false, false, false), vec![]);
    assert_eq!(pickup_actions(true, false, false), vec![PickupAction::Throw]);
    assert_eq!(pickup_actions(false, true, true), vec![PickupAction::Drop, PickupAction::Pull]);
    assert_eq!(
        pickup_actions(true, true, true),
        vec![PickupAction::Throw, PickupAction::Drop, PickupAction::Pull]
    );
    assert_eq!(pickup_actions(false, false, true), vec![PickupAction::Pull]);
}
