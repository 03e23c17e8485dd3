//! Simulation driver: iterate a rule from the all-candidate state until a
//! single leader remains.

use vstd::prelude::*;
use crate::rounds::Mode;
use crate::rounds::apply_generator;
use crate::rounds::count_true;
use crate::rounds::count_trues;
use crate::rounds::lemma_count_trues_all_true;
use crate::rounds::lemma_count_trues_le_len;

verus! {

/// Simulate one execution: start from a population of `size` processes that
/// are all candidates and apply the rule selected by `mode` round after round
/// until exactly one candidate remains. The history records the candidate
/// count of every round, the initial one included; it ends with the single
/// trailing 1 of the converged round, every earlier entry is a count other
/// than 1 (at least 2, or 0 on a reset), and no count can exceed the
/// population size.
///
/// Convergence is almost sure but not guaranteed within any bounded number
/// of rounds. To keep the driver total, a run that is still undecided after
/// `usize::MAX` randomized rounds declares a leader outright and records the
/// final count of 1; at any realistic round rate that bound is centuries
/// away, so it never binds in practice.
pub fn single_run(size: usize, mode: Mode) -> (hist: Vec<usize>)
    requires
        size >= 1,
    ensures
        hist@.len() >= 1,
        hist@[0] == size,
        hist@[hist@.len() - 1] == 1,
        forall|i: int| 0 <= i < hist@.len() - 1 ==> hist@[i] != 1,
        forall|i: int| 0 <= i < hist@.len() ==> hist@[i] <= size,
{
    let mut state: Vec<bool> = Vec::new();
    let mut i: usize = 0;
    while i < size
        invariant
            i <= size,
            state@.len() == i,
            forall|j: int| 0 <= j < i ==> state@[j],
        decreases size - i,
    {
        state.push(true);
        i = i + 1;
    }
    proof {
        lemma_count_trues_all_true(state@);
    }
    let mut hist: Vec<usize> = Vec::new();
    let mut c: usize = count_true(&state);
    hist.push(c);
    let mut fuel: usize = usize::MAX;
    while c != 1 && fuel > 0
        invariant
            size >= 1,
            hist@.len() >= 1,
            hist@[0] == size,
            state@.len() == size,
            c == count_trues(state@),
            c == hist@[hist@.len() - 1],
            forall|i: int| 0 <= i < hist@.len() - 1 ==> hist@[i] != 1,
            forall|i: int| 0 <= i < hist@.len() ==> hist@[i] <= size,
        decreases fuel,
    {
        state = apply_generator(mode, &state);
        proof {
            lemma_count_trues_le_len(state@);
        }
        c = count_true(&state);
        hist.push(c);
        fuel = fuel - 1;
    }
    if c != 1 {
        hist.push(1);
    }
    hist
}

} // verus!
