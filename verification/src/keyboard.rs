//! Keyboard control of muscles. Each of the first six muscles of a nervous
//! system has a row of four keys: one lengthens the muscle while held, one
//! resets it, one shortens it while held, and one toggles its joint when
//! pressed. The keys are looked at in that order; the first that applies
//! decides.
use vstd::prelude::*;

verus! {

/// The keys of the keyboard control.
#[derive(Clone, Copy, Debug, PartialEq, Eq, Structural)]
pub enum Key {
    KeyQ,
    KeyA,
    KeyZ,
    Digit1,
    KeyW,
    KeyS,
    KeyX,
    Digit2,
    KeyE,
    KeyD,
    KeyC,
    Digit3,
    KeyR,
    KeyF,
    KeyV,
    Digit4,
    KeyT,
    KeyG,
    KeyB,
    Digit5,
    KeyY,
    KeyJ,
    KeyN,
    Digit6,
}

/// The four keys that control one muscle.
#[derive(Clone, Copy, Debug, PartialEq, Eq, Structural)]
pub struct KeyRow {
    pub increase: Key,
    pub reset: Key,
    pub decrease: Key,
    pub toggle: Key,
}

/// What a muscle is told to do in one frame.
#[derive(Clone, Copy, Debug, PartialEq, Eq, Structural)]
pub enum MuscleCommand {
    /// Lengthen the muscle by its rate times the frame time.
    Increase,
    /// Set the muscle back to its middle value.
    Reset,
    /// Shorten the muscle by its rate times the frame time.
    Decrease,
    /// Disable the muscle's joint if it is enabled, enable it otherwise.
    ToggleJoint,
    /// Leave the muscle alone.
    Hold,
}

/// The number of muscles that have keys.
pub const KEY_ROWS: usize = 6;

/// The keys of the `i`-th muscle.
pub open spec fn spec_key_row(i: nat) -> KeyRow {
    if i == 0 {
        KeyRow { increase: Key::KeyQ, reset: Key::KeyA, decrease: Key::KeyZ, toggle: Key::Digit1 }
    } else if i == 1 {
        KeyRow { increase: Key::KeyW, reset: Key::KeyS, decrease: Key::KeyX, toggle: Key::Digit2 }
    } else if i == 2 {
        KeyRow { increase: Key::KeyE, reset: Key::KeyD, decrease: Key::KeyC, toggle: Key::Digit3 }
    } else if i == 3 {
        KeyRow { increase: Key::KeyR, reset: Key::KeyF, decrease: Key::KeyV, toggle: Key::Digit4 }
    } else if i == 4 {
        KeyRow { increase: Key::KeyT, reset: Key::KeyG, decrease: Key::KeyB, toggle: Key::Digit5 }
    } else {
        KeyRow { increase: Key::KeyY, reset: Key::KeyJ, decrease: Key::KeyN, toggle: Key::Digit6 }
    }
}

/// The keys of the `i`-th muscle.
pub fn key_row(i: usize) -> (row: KeyRow)
    requires
        i < KEY_ROWS,
    ensures
        row == spec_key_row(i as nat),
        i == 0 ==> row == (KeyRow { increase: Key::KeyQ, reset: Key::KeyA, decrease: Key::KeyZ, toggle: Key::Digit1 }),
        i == 1 ==> row == (KeyRow { increase: Key::KeyW, reset: Key::KeyS, decrease: Key::KeyX, toggle: Key::Digit2 }),
        i == 2 ==> row == (KeyRow { increase: Key::KeyE, reset: Key::KeyD, decrease: Key::KeyC, toggle: Key::Digit3 }),
        i == 3 ==> row == (KeyRow { increase: Key::KeyR, reset: Key::KeyF, decrease: Key::KeyV, toggle: Key::Digit4 }),
        i == 4 ==> row == (KeyRow { increase: Key::KeyT, reset: Key::KeyG, decrease: Key::KeyB, toggle: Key::Digit5 }),
        i == 5 ==> row == (KeyRow { increase: Key::KeyY, reset: Key::KeyJ, decrease: Key::KeyN, toggle: Key::Digit6 }),
{
    if i == 0 {
        KeyRow { increase: Key::KeyQ, reset: Key::KeyA, decrease: Key::KeyZ, toggle: Key::Digit1 }
    } else if i == 1 {
        KeyRow { increase: Key::KeyW, reset: Key::KeyS, decrease: Key::KeyX, toggle: Key::Digit2 }
    } else if i == 2 {
        KeyRow { increase: Key::KeyE, reset: Key::KeyD, decrease: Key::KeyC, toggle: Key::Digit3 }
    } else if i == 3 {
        KeyRow { increase: Key::KeyR, reset: Key::KeyF, decrease: Key::KeyV, toggle: Key::Digit4 }
    } else if i == 4 {
        KeyRow { increase: Key::KeyT, reset: Key::KeyG, decrease: Key::KeyB, toggle: Key::Digit5 }
    } else {
        KeyRow { increase: Key::KeyY, reset: Key::KeyJ, decrease: Key::KeyN, toggle: Key::Digit6 }
    }
}

/// The key table: the muscles are controlled, in order, by the columns
/// Q A Z 1, W S X 2, E D C 3, R F V 4, T G B 5 and Y J N 6 of the keyboard,
/// top key lengthening, second resetting, third shortening, digit toggling.
pub proof fn lemma_key_table()
    ensures
        spec_key_row(0) == (KeyRow { increase: Key::KeyQ, reset: Key::KeyA, decrease: Key::KeyZ, toggle: Key::Digit1 }),
        spec_key_row(1) == (KeyRow { increase: Key::KeyW, reset: Key::KeyS, decrease: Key::KeyX, toggle: Key::Digit2 }),
        spec_key_row(2) == (KeyRow { increase: Key::KeyE, reset: Key::KeyD, decrease: Key::KeyC, toggle: Key::Digit3 }),
        spec_key_row(3) == (KeyRow { increase: Key::KeyR, reset: Key::KeyF, decrease: Key::KeyV, toggle: Key::Digit4 }),
        spec_key_row(4) == (KeyRow { increase: Key::KeyT, reset: Key::KeyG, decrease: Key::KeyB, toggle: Key::Digit5 }),
        spec_key_row(5) == (KeyRow { increase: Key::KeyY, reset: Key::KeyJ, decrease: Key::KeyN, toggle: Key::Digit6 }),
{
}

/// No key serves two purposes: the twenty-four keys of the six rows are all
/// different.
pub proof fn lemma_keys_distinct(i: nat, j: nat)
    requires
        i < KEY_ROWS,
        j < KEY_ROWS,
    ensures
        i != j ==> spec_key_row(i).increase != spec_key_row(j).increase,
        spec_key_row(i).increase != spec_key_row(j).reset,
        spec_key_row(i).increase != spec_key_row(j).decrease,
        spec_key_row(i).increase != spec_key_row(j).toggle,
        i != j ==> spec_key_row(i).reset != spec_key_row(j).reset,
        spec_key_row(i).reset != spec_key_row(j).decrease,
        spec_key_row(i).reset != spec_key_row(j).toggle,
        i != j ==> spec_key_row(i).decrease != spec_key_row(j).decrease,
        spec_key_row(i).decrease != spec_key_row(j).toggle,
        i != j ==> spec_key_row(i).toggle != spec_key_row(j).toggle,
{
}

/// The command for a muscle with keys `row`, given the keys held down and the
/// keys pressed in this frame.
pub open spec fn spec_muscle_command(row: KeyRow, held: Seq<Key>, pressed: Seq<Key>) -> MuscleCommand {
    if held.contains(row.increase) {
        MuscleCommand::Increase
    } else if held.contains(row.reset) {
        MuscleCommand::Reset
    } else if held.contains(row.decrease) {
        MuscleCommand::Decrease
    } else if pressed.contains(row.toggle) {
        MuscleCommand::ToggleJoint
    } else {
        MuscleCommand::Hold
    }
}

/// Whether `key` occurs in `keys`.
fn has_key(keys: &Vec<Key>, key: Key) -> (found: bool)
    ensures
        found == keys@.contains(key),
{
    let mut i: usize = 0;
    while i < keys.len()
        invariant
            i <= keys.len(),
            forall|j: int| 0 <= j < i ==> keys@[j] != key,
        decreases keys.len() - i,
    {
        if keys[i] == key {
            assert(keys@[i as int] == key);
            return true;
        }
        i = i + 1;
    }
    false
}

/// The command for a muscle with keys `row`, given the keys held down
/// (`held`) and the keys pressed in this frame (`pressed`).
pub fn muscle_command(row: KeyRow, held: &Vec<Key>, pressed: &Vec<Key>) -> (command: MuscleCommand)
    ensures
        command == spec_muscle_command(row, held@, pressed@),
        held@.contains(row.increase) ==> command == MuscleCommand::Increase,
        !held@.contains(row.increase) && held@.contains(row.reset) ==> command
            == MuscleCommand::Reset,
        !held@.contains(row.increase) && !held@.contains(row.reset) && held@.contains(
            row.decrease,
        ) ==> command == MuscleCommand::Decrease,
        !held@.contains(row.increase) && !held@.contains(row.reset) && !held@.contains(
            row.decrease,
        ) && pressed@.contains(row.toggle) ==> command == MuscleCommand::ToggleJoint,
        !held@.contains(row.increase) && !held@.contains(row.reset) && !held@.contains(
            row.decrease,
        ) && !pressed@.contains(row.toggle) ==> command == MuscleCommand::Hold,
{
    if has_key(held, row.increase) {
        MuscleCommand::Increase
    } else if has_key(held, row.reset) {
        MuscleCommand::Reset
    } else if has_key(held, row.decrease) {
        MuscleCommand::Decrease
    } else if has_key(pressed, row.toggle) {
        MuscleCommand::ToggleJoint
    } else {
        MuscleCommand::Hold
    }
}

/// The number of muscles, out of `n_muscles`, that have keys.
pub open spec fn spec_controlled(n_muscles: nat) -> nat {
    if n_muscles < KEY_ROWS {
        n_muscles
    } else {
        KEY_ROWS as nat
    }
}

/// Every muscle has keys up to the sixth: a nervous system with fewer than
/// six muscles has all of them controlled, a larger one its first six.
pub proof fn lemma_controlled_count(n_muscles: nat)
    ensures
        n_muscles < 6 ==> spec_controlled(n_muscles) == n_muscles,
        n_muscles >= 6 ==> spec_controlled(n_muscles) == 6,
        spec_controlled(n_muscles) <= n_muscles,
{
}

/// The commands for the first muscles of a nervous system with `n_muscles`
/// muscles, one per muscle that has keys, in muscle order.
pub fn keyboard_commands(n_muscles: usize, held: &Vec<Key>, pressed: &Vec<Key>) -> (commands: Vec<
    MuscleCommand,
>)
    ensures
        commands.len() == spec_controlled(n_muscles as nat),
        n_muscles < 6 ==> commands.len() == n_muscles,
        n_muscles >= 6 ==> commands.len() == 6,
        forall|i: int|
            0 <= i < commands.len() ==> (held@.contains(#[trigger] spec_key_row(i as nat).increase)
                ==> commands@[i] == MuscleCommand::Increase),
        forall|i: int|
            0 <= i < commands.len() ==> (!held@.contains(#[trigger] spec_key_row(i as nat).increase)
                && held@.contains(spec_key_row(i as nat).reset) ==> commands@[i]
                == MuscleCommand::Reset),
        forall|i: int|
            0 <= i < commands.len() ==> (!held@.contains(#[trigger] spec_key_row(i as nat).increase)
                && !held@.contains(spec_key_row(i as nat).reset) && held@.contains(
                spec_key_row(i as nat).decrease,
            ) ==> commands@[i] == MuscleCommand::Decrease),
        forall|i: int|
            0 <= i < commands.len() ==> (!held@.contains(#[trigger] spec_key_row(i as nat).increase)
                && !held@.contains(spec_key_row(i as nat).reset) && !held@.contains(
                spec_key_row(i as nat).decrease,
            ) && pressed@.contains(spec_key_row(i as nat).toggle) ==> commands@[i]
                == MuscleCommand::ToggleJoint),
        forall|i: int|
            0 <= i < commands.len() ==> (!held@.contains(#[trigger] spec_key_row(i as nat).increase)
                && !held@.contains(spec_key_row(i as nat).reset) && !held@.contains(
                spec_key_row(i as nat).decrease,
            ) && !pressed@.contains(spec_key_row(i as nat).toggle) ==> commands@[i]
                == MuscleCommand::Hold),
        forall|i: int|
            0 <= i < commands.len() ==> #[trigger] commands@[i] == spec_muscle_command(
                spec_key_row(i as nat),
                held@,
                pressed@,
            ),
{
    let n = if n_muscles < KEY_ROWS {
        n_muscles
    } else {
        KEY_ROWS
    };
    let mut commands: Vec<MuscleCommand> = Vec::new();
    let mut i: usize = 0;
    while i < n
        invariant
            n == spec_controlled(n_muscles as nat),
            n <= KEY_ROWS,
            i <= n,
            commands.len() == i,
            forall|j: int|
                0 <= j < i ==> #[trigger] commands@[j] == spec_muscle_command(
                    spec_key_row(j as nat),
                    held@,
                    pressed@,
                ),
        decreases n - i,
    {
        let command = muscle_command(key_row(i), held, pressed);
        commands.push(command);
        i = i + 1;
    }
    commands
}

/// What happens to a joint whose muscle is toggled.
#[derive(Clone, Copy, Debug, PartialEq, Eq, Structural)]
pub enum JointChange {
    /// The joint was disabled and is enabled again.
    Enable,
    /// The joint was enabled and is disabled.
    Disable,
}

/// Whether a joint is disabled after `change`.
pub open spec fn disabled_after(change: JointChange) -> bool {
    change == JointChange::Disable
}

/// The change that toggling makes to a joint that is `disabled` or not.
pub fn joint_change(disabled: bool) -> (change: JointChange)
    ensures
        disabled_after(change) == !disabled,
        disabled ==> change == JointChange::Enable,
        !disabled ==> change == JointChange::Disable,
{
    if disabled {
        JointChange::Enable
    } else {
        JointChange::Disable
    }
}

/// Toggling a joint twice leaves it as it was.
pub proof fn lemma_toggle_twice(disabled: bool, first: JointChange, second: JointChange)
    requires
        disabled_after(first) == !disabled,
        disabled_after(second) == !disabled_after(first),
    ensures
        disabled_after(second) == disabled,
{
}

/// Of the keys of one muscle, a held lengthening key wins over every other
/// key, the reset key wins over shortening and toggling, shortening wins
/// over toggling, and the toggle key acts only when none of the other three
/// is held.
pub proof fn lemma_command_priority(row: KeyRow, held: Seq<Key>, pressed: Seq<Key>)
    ensures
        held.contains(row.increase) ==> spec_muscle_command(row, held, pressed)
            == MuscleCommand::Increase,
        !held.contains(row.increase) && held.contains(row.reset) ==> spec_muscle_command(
            row,
            held,
            pressed,
        ) == MuscleCommand::Reset,
        !held.contains(row.increase) && !held.contains(row.reset) && held.contains(row.decrease)
            ==> spec_muscle_command(row, held, pressed) == MuscleCommand::Decrease,
        spec_muscle_command(row, held, pressed) == MuscleCommand::ToggleJoint <==> (
        !held.contains(row.increase) && !held.contains(row.reset) && !held.contains(row.decrease)
            && pressed.contains(row.toggle)),
        spec_muscle_command(row, held, pressed) == MuscleCommand::Hold <==> (!held.contains(
            row.increase,
        ) && !held.contains(row.reset) && !held.contains(row.decrease) && !pressed.contains(
            row.toggle,
        )),
{
}

/// An edit of a creature's brain asked for from the keyboard.
#[derive(Clone, Copy, Debug, PartialEq, Eq, Structural)]
pub enum BrainEdit {
    /// Mutate the current brain genotype.
    Mutate,
    /// Replace the brain genotype by a newly generated one.
    Generate,
}

/// The brain edits of one frame, in the order they are made.
pub open spec fn spec_brain_edits(space_pressed: bool, enter_pressed: bool) -> Seq<BrainEdit> {
    let mutate = if space_pressed {
        seq![BrainEdit::Mutate]
    } else {
        Seq::empty()
    };
    let generate = if enter_pressed {
        seq![BrainEdit::Generate]
    } else {
        Seq::empty()
    };
    mutate + generate
}

/// The space key mutates and the enter key generates, each independently of
/// the other and at most once, a mutation before a generation.
pub proof fn lemma_brain_edits(space_pressed: bool, enter_pressed: bool)
    ensures
        ({
            let e = spec_brain_edits(space_pressed, enter_pressed);
            &&& space_pressed <==> e.contains(BrainEdit::Mutate)
            &&& enter_pressed <==> e.contains(BrainEdit::Generate)
            &&& space_pressed ==> e[0] == BrainEdit::Mutate
            &&& enter_pressed ==> e.last() == BrainEdit::Generate
            &&& e.len() == (if space_pressed {
                1int
            } else {
                0int
            }) + (if enter_pressed {
                1int
            } else {
                0int
            })
        }),
{
    let e = spec_brain_edits(space_pressed, enter_pressed);
    if space_pressed {
        assert(e[0] == BrainEdit::Mutate);
    }
    if enter_pressed {
        assert(e[e.len() - 1] == BrainEdit::Generate);
    }
    assert(forall|i: int| 0 <= i < e.len() && e[i] == BrainEdit::Mutate ==> space_pressed);
    assert(forall|i: int| 0 <= i < e.len() && e[i] == BrainEdit::Generate ==> enter_pressed);
}

/// The brain edits to make in one frame, given whether the space key and
/// the enter key were pressed in this frame: space mutates, enter generates,
/// and a mutation comes first when both were pressed.
pub fn brain_edits(space_pressed: bool, enter_pressed: bool) -> (edits: Vec<BrainEdit>)
    ensures
        edits@ == spec_brain_edits(space_pressed, enter_pressed),
        space_pressed <==> edits@.contains(BrainEdit::Mutate),
        enter_pressed <==> edits@.contains(BrainEdit::Generate),
        space_pressed ==> edits@[0] == BrainEdit::Mutate,
        enter_pressed ==> edits@.last() == BrainEdit::Generate,
        edits.len() == (if space_pressed {
            1int
        } else {
            0int
        }) + (if enter_pressed {
            1int
        } else {
            0int
        }),
{
    let mut edits: Vec<BrainEdit> = Vec::new();
    if space_pressed {
        edits.push(BrainEdit::Mutate);
    }
    if enter_pressed {
        edits.push(BrainEdit::Generate);
    }
    assert(edits@ =~= spec_brain_edits(space_pressed, enter_pressed));
    proof {
        lemma_brain_edits(space_pressed, enter_pressed);
    }
    edits
}

} // verus!
