//! Which oscillator of a brain drives which muscle: the muscles of a nervous
//! system take the oscillators in turn, starting over when they run out.
use vstd::prelude::*;

verus! {

/// The oscillator that drives muscle `muscle` when there are
/// `n_oscillators` oscillators.
pub fn oscillator_index(muscle: usize, n_oscillators: usize) -> (index: usize)
    requires
        n_oscillators > 0,
    ensures
        index == muscle % n_oscillators,
        index < n_oscillators,
{
    muscle % n_oscillators
}

/// The oscillator of each of `n_muscles` muscles, in muscle order. There must
/// be an oscillator when there is a muscle.
pub fn oscillator_assignment(n_muscles: usize, n_oscillators: usize) -> (assignment: Vec<usize>)
    requires
        n_muscles > 0 ==> n_oscillators > 0,
    ensures
        assignment.len() == n_muscles,
        forall|i: int| 0 <= i < n_muscles ==> #[trigger] assignment@[i] == i % (n_oscillators as int),
{
    let mut assignment: Vec<usize> = Vec::new();
    let mut i: usize = 0;
    while i < n_muscles
        invariant
            i <= n_muscles,
            n_muscles > 0 ==> n_oscillators > 0,
            assignment.len() == i,
            forall|j: int| 0 <= j < i ==> #[trigger] assignment@[j] == j % (n_oscillators as int),
        decreases n_muscles - i,
    {
        assignment.push(oscillator_index(i, n_oscillators));
        i = i + 1;
    }
    assignment
}

/// Every muscle is driven by an existing oscillator, muscles `n_oscillators`
/// apart share an oscillator, and when there are at least as many muscles as
/// oscillators every oscillator drives some muscle.
pub proof fn lemma_assignment_cycles(n_muscles: nat, n_oscillators: nat, assignment: Seq<usize>)
    requires
        n_oscillators > 0,
        assignment.len() == n_muscles,
        forall|i: int| 0 <= i < n_muscles ==> #[trigger] assignment[i] == i % (n_oscillators as int),
    ensures
        forall|i: int| 0 <= i < n_muscles ==> #[trigger] assignment[i] < n_oscillators,
        forall|i: int|
            0 <= i && i + n_oscillators < n_muscles ==> #[trigger] assignment[i + n_oscillators]
                == assignment[i],
        n_muscles >= n_oscillators ==> forall|o: int|
            0 <= o < n_oscillators ==> #[trigger] assignment.contains(o as usize),
{
    assert forall|i: int|
        0 <= i && i + n_oscillators < n_muscles implies #[trigger] assignment[i + n_oscillators]
        == assignment[i] by {
        assert((i + n_oscillators) % (n_oscillators as int) == i % (n_oscillators as int)) by {
            vstd::arithmetic::div_mod::lemma_mod_add_multiples_vanish(i, n_oscillators as int);
        }
    }
    if n_muscles >= n_oscillators {
        assert forall|o: int| 0 <= o < n_oscillators implies #[trigger] assignment.contains(
            o as usize,
        ) by {
            vstd::arithmetic::div_mod::lemma_small_mod(o as nat, n_oscillators);
            assert(assignment[o] == o);
        }
    }
}

} // verus!
