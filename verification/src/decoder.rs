//! The Viterbi decoder: a forward dynamic-programming pass over
//! log-probability bit patterns, then backtracking.
//!
//! The whole computation is pinned down at the specification level:
//! `score_col` is the forward recurrence, `back_ptr` and `path_state` the
//! backtracking, and `spec_outcome` says exactly on which inputs decoding
//! succeeds and which error each failing input earns. The executable
//! `viterbi` is proved to return precisely that.
//!
//! Observations are 1-based symbol indices in `[1, M]`; the decoded path
//! is 0-based state indices in `[0, N)`. Transition weights are read as
//! `trans[dst][src]`. The end state is chosen under a flat prior
//! `ln(1/N)`, applied to the last column only and independent of the
//! model's `initial_state`.
use vstd::prelude::*;

use crate::arith::add_bits;
use crate::arith::add_bits_exec;
use crate::arith::uniform_prior_bits;
use crate::arith::uniform_prior_exec;
use crate::ieee_bits::argmax_skipnan;
use crate::ieee_bits::best_in;
use crate::model::HMM;
use crate::model::ModelV;

verus! {

/// The ways a decode call can reject its input.
#[derive(Clone, Copy, Debug, PartialEq, Eq, Structural)]
pub enum ViterbiError {
    /// The observation sequence is empty.
    EmptyObservations,
    /// Some observation symbol falls outside `[1, M]`.
    SymbolOutOfRange,
    /// Every candidate of some argmax was NaN, so no state path is
    /// realizable (or the model has no states).
    NoViableState,
}

/// Filler for the score of a state with no viable predecessor. Decoding
/// reports `NoViableState` before any such score could matter.
pub const STUCK_SCORE: u64 = 0x7ff8_0000_0000_0000;

/// Whether the 1-based symbol `y` names a column of the emission matrix.
pub open spec fn symbol_ok(m: ModelV, y: usize) -> bool {
    1 <= y && y <= m.m()
}

/// Whether every observation symbol is in range.
pub open spec fn all_symbols_ok(m: ModelV, obs: Seq<usize>) -> bool {
    forall|t: int| 0 <= t < obs.len() ==> symbol_ok(m, #[trigger] obs[t])
}

/// The 0-based emission column of the observation at time `t`.
pub open spec fn col_of(obs: Seq<usize>, t: int) -> int {
    obs[t] - 1
}

/// The argmax candidates for destination state `s`, one per source
/// state `r`: the previous score of `r` plus the transition weight
/// read at `trans[s][r]`.
pub open spec fn step_cands(m: ModelV, prev: Seq<u64>, s: int) -> Seq<u64> {
    Seq::new(m.n() as nat, |r: int| add_bits(prev[r], m.trans[s][r]))
}

/// The score column at time `t`: for `t = 0`, emission plus
/// initial-state weight; afterwards, emission plus the best predecessor
/// candidate, NaN candidates never winning.
pub open spec fn score_col(m: ModelV, obs: Seq<usize>, t: nat) -> Seq<u64>
    decreases t,
{
    if t == 0 {
        Seq::new(m.n() as nat, |s: int| add_bits(m.em[s][col_of(obs, 0)], m.init[s]))
    } else {
        let prev = score_col(m, obs, (t - 1) as nat);
        Seq::new(
            m.n() as nat,
            |s: int| (match best_in(step_cands(m, prev, s)) {
                Some(p) => add_bits(m.em[s][col_of(obs, t as int)], p.1),
                None => STUCK_SCORE,
            }),
        )
    }
}

/// Whether some destination state at step `t >= 1` has no viable
/// predecessor: all its candidates are NaN, or there are no states.
pub open spec fn stuck_at(m: ModelV, obs: Seq<usize>, t: int) -> bool {
    exists|s: int|
        0 <= s < m.n() && best_in(
            #[trigger] step_cands(m, score_col(m, obs, (t - 1) as nat), s),
        ) is None
}

/// Whether any forward step gets stuck.
pub open spec fn any_stuck(m: ModelV, obs: Seq<usize>) -> bool {
    exists|t: int| 1 <= t < obs.len() && #[trigger] stuck_at(m, obs, t)
}

/// The end-state candidates a score column `col` over `n` states gives:
/// each entry plus the flat prior `ln(1/n)`, the same weight for every
/// state. A function of `col` and `n` alone; in particular the model's
/// `initial_state` plays no part in it.
pub open spec fn end_cands_of(col: Seq<u64>, n: int) -> Seq<u64> {
    Seq::new(n as nat, |s: int| add_bits(col[s], uniform_prior_bits(n as usize)))
}

/// The candidates for the end state: the last score column plus the
/// flat prior.
pub open spec fn end_cands(m: ModelV, obs: Seq<usize>) -> Seq<u64> {
    end_cands_of(score_col(m, obs, (obs.len() - 1) as nat), m.n())
}

/// The predecessor recorded for state `s` at step `t >= 1`: the argmax
/// source, earliest on ties.
pub open spec fn back_ptr(m: ModelV, obs: Seq<usize>, t: int, s: int) -> int {
    best_in(step_cands(m, score_col(m, obs, (t - 1) as nat), s))->Some_0.0
}

/// The state chosen for the last time step.
pub open spec fn end_state(m: ModelV, obs: Seq<usize>) -> int {
    best_in(end_cands(m, obs))->Some_0.0
}

/// The decoded state at time `t`: the end state at the last step, and
/// backwards from there the recorded predecessors.
pub open spec fn path_state(m: ModelV, obs: Seq<usize>, t: int) -> int
    decreases obs.len() - t,
{
    if t >= obs.len() - 1 {
        end_state(m, obs)
    } else {
        back_ptr(m, obs, t + 1, path_state(m, obs, t + 1))
    }
}

/// Whether decoding succeeds, and with which error it fails: empty
/// input first, then any out-of-range symbol, then a stuck step or a
/// fully-NaN end selection.
pub open spec fn spec_outcome(m: ModelV, obs: Seq<usize>) -> Result<(), ViterbiError> {
    if obs.len() == 0 {
        Err(ViterbiError::EmptyObservations)
    } else if !all_symbols_ok(m, obs) {
        Err(ViterbiError::SymbolOutOfRange)
    } else if any_stuck(m, obs) || best_in(end_cands(m, obs)) is None {
        Err(ViterbiError::NoViableState)
    } else {
        Ok(())
    }
}

/// Decoding is deterministic: a model and an observation sequence that
/// read the same as another pair decide the same outcome, the same
/// score columns and the same path, with no hidden randomness. Together
/// with `viterbi`'s contract, two calls on equal inputs return equal
/// results.
pub proof fn lemma_deterministic(m1: ModelV, m2: ModelV, obs1: Seq<usize>, obs2: Seq<usize>)
    requires
        m1 == m2,
        obs1 == obs2,
    ensures
        spec_outcome(m1, obs1) == spec_outcome(m2, obs2),
        forall|t: nat| score_col(m1, obs1, t) == score_col(m2, obs2, t),
        forall|t: int| path_state(m1, obs1, t) == path_state(m2, obs2, t),
{
}

/// The end-state selection treats every state as equally likely a
/// priori: two models with the same number of states add the same flat
/// prior weight `ln(1/N)` to a final score column, so from equal final
/// columns they would select the same end state — `initial_state`,
/// which may differ between them, is not consulted at the final step.
pub proof fn lemma_flat_prior_end_selection(m1: ModelV, m2: ModelV)
    requires
        m1.n() == m2.n(),
    ensures
        uniform_prior_bits(m1.n() as usize) == uniform_prior_bits(m2.n() as usize),
        forall|col: Seq<u64>| #[trigger] end_cands_of(col, m1.n()) == end_cands_of(col, m2.n()),
{
}

/// With a single observation no transition term takes part: the one
/// decoded state is chosen by the argmax, under the flat prior, over
/// emission weight plus initial-state weight alone.
pub proof fn lemma_single_observation(m: ModelV, obs: Seq<usize>)
    requires
        obs.len() == 1,
    ensures
        path_state(m, obs, 0) == best_in(
            end_cands_of(
                Seq::new(m.n() as nat, |s: int| add_bits(m.em[s][col_of(obs, 0)], m.init[s])),
                m.n(),
            ),
        )->Some_0.0,
{
    assert(score_col(m, obs, 0) =~= Seq::new(
        m.n() as nat,
        |s: int| add_bits(m.em[s][col_of(obs, 0)], m.init[s]),
    ));
}

/// Decodes the most likely state path for `observations` under `hmm`.
///
/// Succeeds exactly when `spec_outcome` says so, with the error it
/// names otherwise; on success the path has one 0-based state per
/// observation, each below `N`, and is exactly the backtracked path of
/// the specification recurrence. The bound on `N` keeps the flat-prior
/// computation exact on every machine.
#[verifier::loop_isolation(false)]
pub fn viterbi(hmm: &HMM, observations: &Vec<usize>) -> (r: Result<Vec<usize>, ViterbiError>)
    requires
        hmm@.wf(),
        hmm@.n() <= 0xffff_ffff,
    ensures
        (r is Ok) == (spec_outcome(hmm@, observations@) is Ok),
        r is Err ==> r->Err_0 == spec_outcome(hmm@, observations@)->Err_0,
        r is Ok ==> r->Ok_0@.len() == observations@.len(),
        r is Ok ==> forall|t: int|
            0 <= t < observations@.len() ==> (#[trigger] r->Ok_0@[t]) < hmm@.n()
                && r->Ok_0@[t] as int == path_state(hmm@, observations@, t),
{
    let t_len = observations.len();
    if t_len == 0 {
        return Err(ViterbiError::EmptyObservations);
    }
    let n = hmm.num_states();
    let m_size = hmm.alphabet_size();

    let mut t: usize = 0;
    while t < t_len
        invariant
            t <= t_len,
            forall|k: int| 0 <= k < t ==> symbol_ok(hmm@, #[trigger] observations@[k]),
        decreases t_len - t,
    {
        let y = observations[t];
        if y < 1 || y > m_size {
            return Err(ViterbiError::SymbolOutOfRange);
        }
        t = t + 1;
    }
    assert(all_symbols_ok(hmm@, observations@));
    assert(hmm@.m() >= 1 && hmm@.n() >= 1) by {
        assert(symbol_ok(hmm@, observations@[0]));
    }

    let mut scores: Vec<Vec<u64>> = Vec::new();
    let mut pointers: Vec<Vec<usize>> = Vec::new();

    let c0 = observations[0] - 1;
    let mut col0: Vec<u64> = Vec::new();
    let mut s: usize = 0;
    while s < n
        invariant
            s <= n,
            col0@.len() == s,
            forall|k: int| 0 <= k < s ==> col0@[k] == score_col(hmm@, observations@, 0)[k],
        decreases n - s,
    {
        col0.push(add_bits_exec(hmm.emission_at(s, c0), hmm.initial_at(s)));
        s = s + 1;
    }
    proof {
        assert(col0@ =~= score_col(hmm@, observations@, 0));
    }
    scores.push(col0);
    pointers.push(Vec::new());

    let mut t: usize = 1;
    while t < t_len
        invariant
            1 <= t <= t_len,
            scores@.len() == t,
            pointers@.len() == t,
            forall|tt: int| 0 <= tt < t ==> (#[trigger] scores@[tt])@ == score_col(
                hmm@,
                observations@,
                tt as nat,
            ),
            forall|tt: int| 1 <= tt < t ==> !stuck_at(hmm@, observations@, tt),
            forall|tt: int| 1 <= tt < t ==> (#[trigger] pointers@[tt])@.len() == hmm@.n(),
            forall|tt: int, ss: int|
                1 <= tt < t && 0 <= ss < hmm@.n() ==> (#[trigger] pointers@[tt]@[ss]) < hmm@.n()
                    && pointers@[tt]@[ss] as int == back_ptr(hmm@, observations@, tt, ss),
        decreases t_len - t,
    {
        let c = observations[t] - 1;
        let ghost prev_col = score_col(hmm@, observations@, (t - 1) as nat);
        assert(scores@[t - 1]@ == prev_col);
        let mut col: Vec<u64> = Vec::new();
        let mut ptr_col: Vec<usize> = Vec::new();
        let mut s: usize = 0;
        while s < n
            invariant
                s <= n,
                col@.len() == s,
                ptr_col@.len() == s,
                scores@.len() == t,
                scores@[t - 1]@ == prev_col,
                forall|k: int|
                    0 <= k < s ==> best_in(
                        #[trigger] step_cands(hmm@, prev_col, k),
                    ) is Some,
                forall|k: int| 0 <= k < s ==> (#[trigger] col@[k]) == score_col(
                    hmm@,
                    observations@,
                    t as nat,
                )[k],
                forall|k: int|
                    0 <= k < s ==> (#[trigger] ptr_col@[k]) < hmm@.n() && ptr_col@[k] as int
                        == back_ptr(hmm@, observations@, t as int, k),
            decreases n - s,
        {
            let mut cands: Vec<u64> = Vec::new();
            let mut src: usize = 0;
            while src < n
                invariant
                    src <= n,
                    cands@.len() == src,
                    scores@.len() == t,
                    scores@[t - 1]@ == prev_col,
                    s < n,
                    forall|k: int| 0 <= k < src ==> (#[trigger] cands@[k]) == add_bits(
                        prev_col[k],
                        hmm@.trans[s as int][k],
                    ),
                decreases n - src,
            {
                cands.push(add_bits_exec(scores[t - 1][src], hmm.transition_at(s, src)));
                src = src + 1;
            }
            proof {
                assert(cands@ =~= step_cands(hmm@, prev_col, s as int));
            }
            match argmax_skipnan(&cands) {
                None => {
                    proof {
                        assert(best_in(step_cands(hmm@, prev_col, s as int)) is None);
                        assert(stuck_at(hmm@, observations@, t as int));
                        assert(any_stuck(hmm@, observations@));
                    }
                    return Err(ViterbiError::NoViableState);
                },
                Some(best) => {
                    ptr_col.push(best.0);
                    col.push(add_bits_exec(hmm.emission_at(s, c), best.1));
                    proof {
                        assert(col@[s as int] == score_col(hmm@, observations@, t as nat)[s as int]);
                    }
                },
            }
            s = s + 1;
        }
        proof {
            assert(col@ =~= score_col(hmm@, observations@, t as nat));
        }
        scores.push(col);
        pointers.push(ptr_col);
        t = t + 1;
    }

    let u = uniform_prior_exec(n);
    let mut endc: Vec<u64> = Vec::new();
    let mut s: usize = 0;
    while s < n
        invariant
            s <= n,
            endc@.len() == s,
            scores@.len() == t_len,
            forall|tt: int| 0 <= tt < t_len ==> (#[trigger] scores@[tt])@ == score_col(
                hmm@,
                observations@,
                tt as nat,
            ),
            forall|k: int| 0 <= k < s ==> (#[trigger] endc@[k]) == end_cands(
                hmm@,
                observations@,
            )[k],
        decreases n - s,
    {
        endc.push(add_bits_exec(scores[t_len - 1][s], u));
        s = s + 1;
    }
    proof {
        assert(endc@ =~= end_cands(hmm@, observations@));
    }
    match argmax_skipnan(&endc) {
        None => {
            return Err(ViterbiError::NoViableState);
        },
        Some(best) => {
            let mut cur = best.0;
            assert(cur as int == end_state(hmm@, observations@));
            assert(cur as int == path_state(hmm@, observations@, t_len - 1));
            let mut rev: Vec<usize> = Vec::new();
            rev.push(cur);
            let mut tb: usize = t_len - 1;
            while 1 <= tb
                invariant
                    tb <= t_len - 1,
                    rev@.len() == t_len - tb,
                    cur < hmm@.n(),
                    cur as int == path_state(hmm@, observations@, tb as int),
                    rev@[rev@.len() - 1] == cur,
                    forall|k: int|
                        0 <= k < rev@.len() ==> (#[trigger] rev@[k]) < hmm@.n() && rev@[k] as int
                            == path_state(hmm@, observations@, t_len - 1 - k),
                decreases tb,
            {
                cur = pointers[tb][cur];
                proof {
                    assert(cur as int == back_ptr(
                        hmm@,
                        observations@,
                        tb as int,
                        path_state(hmm@, observations@, tb as int),
                    ));
                }
                rev.push(cur);
                tb = tb - 1;
            }
            let mut path: Vec<usize> = Vec::new();
            let mut i: usize = 0;
            while i < t_len
                invariant
                    i <= t_len,
                    path@.len() == i,
                    rev@.len() == t_len,
                    forall|k: int|
                        0 <= k < t_len ==> (#[trigger] rev@[k]) < hmm@.n() && rev@[k] as int
                            == path_state(hmm@, observations@, t_len - 1 - k),
                    forall|k: int| 0 <= k < i ==> (#[trigger] path@[k]) == rev@[t_len - 1 - k],
                decreases t_len - i,
            {
                path.push(rev[t_len - 1 - i]);
                i = i + 1;
            }
            Ok(path)
        },
    }
}

} // verus!
