//! Round states and the five randomized round-generation rules.
//!
//! A round state is a vector of candidate flags, one per process. Each rule
//! maps the current state to the next one; a state with exactly one candidate
//! is terminal and is returned unchanged by every rule. The rules differ in
//! which slots draw a Bernoulli trial and with which probability, which is
//! visible in the executable bodies; the contracts describe the next state as
//! a function of the current state and of one Boolean draw per slot.

use vstd::prelude::*;

verus! {

/// The five interchangeable randomized leader-election rules.
#[derive(Clone, Copy, Debug)]
pub enum Mode {
    /// Every slot re-randomizes with probability 1/2 each round.
    Naive,
    /// Candidates survive with probability 1/2; on a reset every slot
    /// re-randomizes with probability 1/2.
    Tournament,
    /// Candidates survive with probability 1/candidateCount; on a reset every
    /// slot becomes a candidate with probability 1/populationSize.
    Biased,
    /// Every slot becomes a candidate with probability 1/populationSize each
    /// round, regardless of its previous flag.
    BiasedSingle,
    /// Candidates (or, on a reset, every slot) become candidates with
    /// probability 1/populationSize.
    BiasedFixed,
}

/// Number of `true` flags (candidates) in a round state.
pub open spec fn count_trues(s: Seq<bool>) -> nat
    decreases s.len(),
{
    if s.len() == 0 {
        0
    } else {
        count_trues(s.drop_last()) + if s.last() { 1nat } else { 0nat }
    }
}

pub proof fn lemma_count_trues_le_len(s: Seq<bool>)
    ensures
        count_trues(s) <= s.len(),
    decreases s.len(),
{
    if s.len() > 0 {
        lemma_count_trues_le_len(s.drop_last());
    }
}

pub proof fn lemma_count_trues_all_true(s: Seq<bool>)
    requires
        forall|i: int| 0 <= i < s.len() ==> s[i],
    ensures
        count_trues(s) == s.len(),
    decreases s.len(),
{
    if s.len() > 0 {
        lemma_count_trues_all_true(s.drop_last());
    }
}

/// Count the candidates of a round state.
pub fn count_true(state: &Vec<bool>) -> (n: usize)
    ensures
        n == count_trues(state@),
{
    let mut n: usize = 0;
    let mut i: usize = 0;
    while i < state.len()
        invariant
            i <= state@.len(),
            n <= i,
            n == count_trues(state@.take(i as int)),
        decreases state@.len() - i,
    {
        if state[i] {
            n = n + 1;
        }
        i = i + 1;
        proof {
            assert(state@.take(i as int).drop_last() =~= state@.take(i as int - 1));
        }
    }
    proof {
        assert(state@.take(state@.len() as int) =~= state@);
    }
    n
}

/// Relies on `rand::Rng::gen_range` over `rand::thread_rng`: a uniformly
/// random index below `bound`. The bound must be positive, since sampling an
/// empty range panics.
#[verifier::external_body]
fn rand_index(bound: usize) -> (r: usize)
    requires
        bound >= 1,
    ensures
        r < bound,
{
    rand::Rng::gen_range(&mut rand::thread_rng(), 0..bound)
}

/// The next round state, as a function of the current state and one Boolean
/// draw per slot. `coins[i]` is the outcome of slot i's Bernoulli trial; the
/// trial's success probability depends on the mode and on the candidate
/// count, and is visible only in the executable generators. A state with
/// exactly one candidate is terminal under every mode.
pub open spec fn gen_step(mode: Mode, s: Seq<bool>, coins: Seq<bool>) -> Seq<bool> {
    if count_trues(s) == 1 {
        s
    } else {
        match mode {
            Mode::Naive | Mode::BiasedSingle => coins,
            Mode::Tournament | Mode::Biased | Mode::BiasedFixed => Seq::new(
                s.len(),
                |i: int| (count_trues(s) == 0 || s[i]) && coins[i],
            ),
        }
    }
}

/// A converged state (exactly one candidate) is a fixed point of every rule:
/// applying a rule to it once or twice yields the same state both times,
/// whatever the draws.
pub proof fn lemma_converged_fixed_point(
    mode: Mode,
    s: Seq<bool>,
    coins1: Seq<bool>,
    coins2: Seq<bool>,
)
    requires
        count_trues(s) == 1,
    ensures
        gen_step(mode, s, coins1) == s,
        gen_step(mode, gen_step(mode, s, coins1), coins2) == s,
{
}

/// Every rule preserves the population size.
pub proof fn lemma_gen_step_len(mode: Mode, s: Seq<bool>, coins: Seq<bool>)
    requires
        coins.len() == s.len(),
    ensures
        gen_step(mode, s, coins).len() == s.len(),
{
}

fn clone_state(state: &Vec<bool>) -> (r: Vec<bool>)
    ensures
        r@ == state@,
{
    let mut r: Vec<bool> = Vec::new();
    let mut i: usize = 0;
    while i < state.len()
        invariant
            i <= state@.len(),
            r@.len() == i,
            forall|j: int| 0 <= j < i ==> r@[j] == state@[j],
        decreases state@.len() - i,
    {
        r.push(state[i]);
        i = i + 1;
    }
    proof {
        assert(r@ =~= state@);
    }
    r
}

/// Naive rule: unless the state is terminal, every slot re-randomizes with
/// probability 1/2, ignoring its previous flag.
pub fn naive_gen(state: &Vec<bool>) -> (r: Vec<bool>)
    ensures
        r@.len() == state@.len(),
        count_trues(state@) == 1 ==> r@ == state@,
        exists|coins: Seq<bool>|
            coins.len() == state@.len() && r@ == gen_step(Mode::Naive, state@, coins),
{
    let c: usize = count_true(state);
    if c == 1 {
        let r = clone_state(state);
        proof {
            assert(r@ == gen_step(Mode::Naive, state@, state@));
        }
        return r;
    }
    let mut next: Vec<bool> = Vec::new();
    let mut i: usize = 0;
    while i < state.len()
        invariant
            i <= state@.len(),
            next@.len() == i,
        decreases state@.len() - i,
    {
        next.push(rand_index(2) == 0);
        i = i + 1;
    }
    proof {
        assert(next@ == gen_step(Mode::Naive, state@, next@));
    }
    next
}

/// Tournament rule: unless the state is terminal, each candidate survives
/// with probability 1/2 and non-candidates stay out; on a reset (no candidate
/// left) every slot re-randomizes with probability 1/2.
pub fn tournament_gen(state: &Vec<bool>) -> (r: Vec<bool>)
    ensures
        r@.len() == state@.len(),
        count_trues(state@) == 1 ==> r@ == state@,
        count_trues(state@) != 0 ==> forall|i: int|
            0 <= i < state@.len() && !state@[i] ==> !r@[i],
        exists|coins: Seq<bool>|
            coins.len() == state@.len() && r@ == gen_step(Mode::Tournament, state@, coins),
{
    let c: usize = count_true(state);
    if c == 1 {
        let r = clone_state(state);
        proof {
            assert(r@ == gen_step(Mode::Tournament, state@, state@));
        }
        return r;
    }
    let reset = c == 0;
    let mut next: Vec<bool> = Vec::new();
    let ghost mut coins: Seq<bool> = Seq::empty();
    let mut i: usize = 0;
    while i < state.len()
        invariant
            i <= state@.len(),
            next@.len() == i,
            coins.len() == i,
            reset == (count_trues(state@) == 0),
            forall|j: int|
                0 <= j < i ==> (#[trigger] next@[j]) == ((count_trues(state@) == 0 || state@[j])
                    && coins[j]),
        decreases state@.len() - i,
    {
        let flip = rand_index(2) == 0;
        next.push((reset || state[i]) && flip);
        proof {
            coins = coins.push(flip);
        }
        i = i + 1;
    }
    proof {
        assert(count_trues(state@) != 1);
        assert(next@ =~= gen_step(Mode::Tournament, state@, coins));
    }
    next
}

/// Biased tournament rule: unless the state is terminal, each candidate
/// survives with probability 1/candidateCount and non-candidates stay out;
/// on a reset every slot becomes a candidate with probability
/// 1/populationSize.
pub fn biased_tournament_gen(state: &Vec<bool>) -> (r: Vec<bool>)
    ensures
        r@.len() == state@.len(),
        count_trues(state@) == 1 ==> r@ == state@,
        count_trues(state@) != 0 ==> forall|i: int|
            0 <= i < state@.len() && !state@[i] ==> !r@[i],
        exists|coins: Seq<bool>|
            coins.len() == state@.len() && r@ == gen_step(Mode::Biased, state@, coins),
{
    let c: usize = count_true(state);
    if c == 1 {
        let r = clone_state(state);
        proof {
            assert(r@ == gen_step(Mode::Biased, state@, state@));
        }
        return r;
    }
    let reset = c == 0;
    let mut next: Vec<bool> = Vec::new();
    let ghost mut coins: Seq<bool> = Seq::empty();
    let mut i: usize = 0;
    while i < state.len()
        invariant
            i <= state@.len(),
            next@.len() == i,
            coins.len() == i,
            reset == (count_trues(state@) == 0),
            count_trues(state@) != 1,
            c == count_trues(state@),
            forall|j: int|
                0 <= j < i ==> (#[trigger] next@[j]) == ((count_trues(state@) == 0 || state@[j])
                    && coins[j]),
        decreases state@.len() - i,
    {
        let coin: bool = if reset {
            rand_index(state.len()) == 0
        } else if state[i] {
            rand_index(c) == 0
        } else {
            false
        };
        next.push((reset || state[i]) && coin);
        proof {
            coins = coins.push(coin);
        }
        i = i + 1;
    }
    proof {
        assert(next@ =~= gen_step(Mode::Biased, state@, coins));
    }
    next
}

/// Biased fixed rule: unless the state is terminal, candidates (or, on a
/// reset, every slot) become candidates with probability 1/populationSize;
/// non-candidates stay out barring a reset.
pub fn biased_fixed_gen(state: &Vec<bool>) -> (r: Vec<bool>)
    ensures
        r@.len() == state@.len(),
        count_trues(state@) == 1 ==> r@ == state@,
        count_trues(state@) != 0 ==> forall|i: int|
            0 <= i < state@.len() && !state@[i] ==> !r@[i],
        exists|coins: Seq<bool>|
            coins.len() == state@.len() && r@ == gen_step(Mode::BiasedFixed, state@, coins),
{
    let c: usize = count_true(state);
    if c == 1 {
        let r = clone_state(state);
        proof {
            assert(r@ == gen_step(Mode::BiasedFixed, state@, state@));
        }
        return r;
    }
    let reset = c == 0;
    let mut next: Vec<bool> = Vec::new();
    let ghost mut coins: Seq<bool> = Seq::empty();
    let mut i: usize = 0;
    while i < state.len()
        invariant
            i <= state@.len(),
            next@.len() == i,
            coins.len() == i,
            reset == (count_trues(state@) == 0),
            forall|j: int|
                0 <= j < i ==> (#[trigger] next@[j]) == ((count_trues(state@) == 0 || state@[j])
                    && coins[j]),
        decreases state@.len() - i,
    {
        let coin: bool = if reset || state[i] {
            rand_index(state.len()) == 0
        } else {
            false
        };
        next.push((reset || state[i]) && coin);
        proof {
            coins = coins.push(coin);
        }
        i = i + 1;
    }
    proof {
        assert(count_trues(state@) != 1);
        assert(next@ =~= gen_step(Mode::BiasedFixed, state@, coins));
    }
    next
}

/// Biased single rule: unless the state is terminal, every slot becomes a
/// candidate with probability 1/populationSize, ignoring its previous flag.
pub fn biased_single_gen(state: &Vec<bool>) -> (r: Vec<bool>)
    ensures
        r@.len() == state@.len(),
        count_trues(state@) == 1 ==> r@ == state@,
        exists|coins: Seq<bool>|
            coins.len() == state@.len() && r@ == gen_step(Mode::BiasedSingle, state@, coins),
{
    let c: usize = count_true(state);
    if c == 1 {
        let r = clone_state(state);
        proof {
            assert(r@ == gen_step(Mode::BiasedSingle, state@, state@));
        }
        return r;
    }
    let mut next: Vec<bool> = Vec::new();
    let mut i: usize = 0;
    while i < state.len()
        invariant
            i <= state@.len(),
            next@.len() == i,
        decreases state@.len() - i,
    {
        next.push(rand_index(state.len()) == 0);
        i = i + 1;
    }
    proof {
        assert(next@ == gen_step(Mode::BiasedSingle, state@, next@));
    }
    next
}

/// Apply the rule selected by `mode` to a round state: the typed selector
/// through which the simulation driver stays agnostic of the rule in use.
pub fn apply_generator(mode: Mode, state: &Vec<bool>) -> (r: Vec<bool>)
    ensures
        r@.len() == state@.len(),
        count_trues(state@) == 1 ==> r@ == state@,
        exists|coins: Seq<bool>|
            coins.len() == state@.len() && r@ == gen_step(mode, state@, coins),
{
    match mode {
        Mode::Naive => naive_gen(state),
        Mode::Tournament => tournament_gen(state),
        Mode::Biased => biased_tournament_gen(state),
        Mode::BiasedSingle => biased_single_gen(state),
        Mode::BiasedFixed => biased_fixed_gen(state),
    }
}

} // verus!
