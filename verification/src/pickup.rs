//! Mouse control of the pickup tool: a left click throws what is held, a
//! right click drops it, and holding the right button pulls.
use vstd::prelude::*;

verus! {

/// An action of the pickup tool.
#[derive(Clone, Copy, Debug, PartialEq, Eq, Structural)]
pub enum PickupAction {
    Throw,
    Drop,
    Pull,
}

/// The actions sent for one frame, in the order they are sent.
pub open spec fn spec_pickup_actions(
    left_pressed: bool,
    right_pressed: bool,
    right_held: bool,
) -> Seq<PickupAction> {
    let throw = if left_pressed {
        seq![PickupAction::Throw]
    } else {
        Seq::empty()
    };
    let drop = if right_pressed {
        seq![PickupAction::Drop]
    } else {
        Seq::empty()
    };
    let pull = if right_held {
        seq![PickupAction::Pull]
    } else {
        Seq::empty()
    };
    throw + drop + pull
}

/// The actions to send for one frame, given whether the left button was
/// pressed in this frame, whether the right button was pressed in this frame,
/// and whether the right button is held down.
pub fn pickup_actions(left_pressed: bool, right_pressed: bool, right_held: bool) -> (actions: Vec<
    PickupAction,
>)
    ensures
        actions@ == spec_pickup_actions(left_pressed, right_pressed, right_held),
        left_pressed <==> actions@.contains(PickupAction::Throw),
        right_pressed <==> actions@.contains(PickupAction::Drop),
        right_held <==> actions@.contains(PickupAction::Pull),
        left_pressed ==> actions@[0] == PickupAction::Throw,
        right_held ==> actions@.last() == PickupAction::Pull,
        actions.len() == (if left_pressed {
            1int
        } else {
            0int
        }) + (if right_pressed {
            1int
        } else {
            0int
        }) + (if right_held {
            1int
        } else {
            0int
        }),
{
    let mut actions: Vec<PickupAction> = Vec::new();
    if left_pressed {
        actions.push(PickupAction::Throw);
    }
    if right_pressed {
        actions.push(PickupAction::Drop);
    }
    if right_held {
        actions.push(PickupAction::Pull);
    }
    assert(actions@ =~= spec_pickup_actions(left_pressed, right_pressed, right_held));
    proof {
        lemma_pickup_actions(left_pressed, right_pressed, right_held);
    }
    actions
}

/// Each button acts on its own: a left click throws whatever the right
/// button does, a right click drops, holding the right button pulls; each
/// action is sent at most once, a throw first and a pull last.
pub proof fn lemma_pickup_actions(left_pressed: bool, right_pressed: bool, right_held: bool)
    ensures
        ({
            let a = spec_pickup_actions(left_pressed, right_pressed, right_held);
            &&& left_pressed <==> a.contains(PickupAction::Throw)
            &&& right_pressed <==> a.contains(PickupAction::Drop)
            &&& right_held <==> a.contains(PickupAction::Pull)
            &&& left_pressed ==> a[0] == PickupAction::Throw
            &&& right_held ==> a.last() == PickupAction::Pull
            &&& a.len() == (if left_pressed {
                1int
            } else {
                0int
            }) + (if right_pressed {
                1int
            } else {
                0int
            }) + (if right_held {
                1int
            } else {
                0int
            })
        }),
{
    let a = spec_pickup_actions(left_pressed, right_pressed, right_held);
    let t: Seq<PickupAction> = if left_pressed {
        seq![PickupAction::Throw]
    } else {
        Seq::empty()
    };
    let d: Seq<PickupAction> = if right_pressed {
        seq![PickupAction::Drop]
    } else {
        Seq::empty()
    };
    let p: Seq<PickupAction> = if right_held {
        seq![PickupAction::Pull]
    } else {
        Seq::empty()
    };
    assert(a =~= t + d + p);
    let i_d = t.len() as int;
    let i_p = (t.len() + d.len()) as int;
    if left_pressed {
        assert(a[0] == PickupAction::Throw);
    }
    if right_pressed {
        assert(a[i_d] == PickupAction::Drop);
    }
    if right_held {
        assert(a[i_p] == PickupAction::Pull);
    }
    assert(forall|i: int| 0 <= i < a.len() && a[i] == PickupAction::Throw ==> left_pressed && i == 0);
    assert(forall|i: int| 0 <= i < a.len() && a[i] == PickupAction::Drop ==> right_pressed);
    assert(forall|i: int| 0 <= i < a.len() && a[i] == PickupAction::Pull ==> right_held);
}

} // verus!
