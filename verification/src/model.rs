//! The hidden Markov model: three matrices of log-probabilities, shape-
//! checked once at construction and read-only afterwards.
//!
//! Every entry is the bit pattern of an IEEE-754 binary64 value, already
//! in log space; the model stores what it is given and transforms
//! nothing. With `N` states and an emission alphabet of `M` symbols,
//! `transitions` is `N`×`N`, `emissions` is `N`×`M` and `initial_state`
//! has length `N`.
use vstd::prelude::*;

verus! {

/// The mathematical reading of a model: its three matrices as sequences
/// of bit patterns.
pub struct ModelV {
    /// `trans[i][j]`: log-probability weight of the transition read at
    /// row `i`, column `j`. The decoder reads `trans[dst][src]` when it
    /// weighs the step from state `src` to state `dst`.
    pub trans: Seq<Seq<u64>>,
    /// `em[s][k]`: log-probability of observing symbol `k` in state `s`.
    pub em: Seq<Seq<u64>>,
    /// `init[s]`: log-probability of starting in state `s`.
    pub init: Seq<u64>,
}

impl ModelV {
    /// The number of hidden states.
    pub open spec fn n(self) -> int {
        self.init.len() as int
    }

    /// The size of the emission alphabet.
    pub open spec fn m(self) -> int {
        if self.em.len() == 0 {
            0
        } else {
            self.em[0].len() as int
        }
    }

    /// Shape consistency: `trans` is `n`×`n`, `em` has `n` rows of `m`
    /// columns each.
    pub open spec fn wf(self) -> bool {
        &&& self.trans.len() == self.n()
        &&& (forall|i: int| 0 <= i < self.n() ==> self.trans[i].len() == self.n())
        &&& self.em.len() == self.n()
        &&& (forall|i: int| 0 <= i < self.n() ==> self.em[i].len() == self.m())
    }
}

/// The ways construction can reject its input.
#[derive(Clone, Copy, Debug, PartialEq, Eq, Structural)]
pub enum ShapeError {
    /// `transitions` is not an `N`×`N` matrix for `N` the length of
    /// `initial_state`.
    TransitionsNotSquare,
    /// `emissions` does not have one row per state.
    EmissionRowCount,
    /// The rows of `emissions` do not all have one length.
    EmissionsRagged,
}

/// Whether `trans` is a square matrix of side `n`.
pub open spec fn square_of(trans: Seq<Seq<u64>>, n: int) -> bool {
    &&& trans.len() == n
    &&& forall|i: int| 0 <= i < n ==> trans[i].len() == n
}

/// Whether every row of `em` has the length of its first row.
pub open spec fn rectangular(em: Seq<Seq<u64>>) -> bool {
    forall|i: int| 0 <= i < em.len() ==> #[trigger] em[i].len() == em[0].len()
}

/// What construction decides for given matrices: the first shape fault
/// in the order they are checked, or nothing to object to.
pub open spec fn shape_check(
    trans: Seq<Seq<u64>>,
    em: Seq<Seq<u64>>,
    init: Seq<u64>,
) -> Result<(), ShapeError> {
    if !square_of(trans, init.len() as int) {
        Err(ShapeError::TransitionsNotSquare)
    } else if em.len() != init.len() {
        Err(ShapeError::EmissionRowCount)
    } else if !rectangular(em) {
        Err(ShapeError::EmissionsRagged)
    } else {
        Ok(())
    }
}

/// A hidden Markov model over bit-pattern log-probabilities. Immutable
/// once constructed; `new` is the only way to build one.
#[derive(Debug)]
pub struct HMM {
    transitions: Vec<Vec<u64>>,
    emissions: Vec<Vec<u64>>,
    initial_state: Vec<u64>,
}

impl View for HMM {
    type V = ModelV;

    closed spec fn view(&self) -> ModelV {
        ModelV {
            trans: self.transitions.deep_view(),
            em: self.emissions.deep_view(),
            init: self.initial_state.deep_view(),
        }
    }
}

impl HMM {
    /// Builds a model from its three matrices, taking ownership, or
    /// names the first shape mismatch. A valid shape always succeeds;
    /// the matrices are stored unchanged.
    pub fn new(
        transitions: Vec<Vec<u64>>,
        emissions: Vec<Vec<u64>>,
        initial_state: Vec<u64>,
    ) -> (r: Result<HMM, ShapeError>)
        ensures
            (r is Ok) == (shape_check(
                transitions.deep_view(),
                emissions.deep_view(),
                initial_state.deep_view(),
            ) is Ok),
            r is Err ==> r->Err_0 == shape_check(
                transitions.deep_view(),
                emissions.deep_view(),
                initial_state.deep_view(),
            )->Err_0,
            r is Ok ==> r->Ok_0@ == (ModelV {
                trans: transitions.deep_view(),
                em: emissions.deep_view(),
                init: initial_state.deep_view(),
            }),
            r is Ok ==> r->Ok_0@.wf(),
    {
        let n = initial_state.len();
        if transitions.len() != n {
            return Err(ShapeError::TransitionsNotSquare);
        }
        let mut i: usize = 0;
        while i < n
            invariant
                i <= n,
                n == initial_state.deep_view().len(),
                transitions.deep_view().len() == n,
                forall|k: int| 0 <= k < i ==> transitions.deep_view()[k].len() == n,
            decreases n - i,
        {
            if transitions[i].len() != n {
                proof {
                    assert(transitions.deep_view()[i as int] == transitions@[i as int].deep_view());
                }
                return Err(ShapeError::TransitionsNotSquare);
            }
            proof {
                assert(transitions.deep_view()[i as int] == transitions@[i as int].deep_view());
            }
            i = i + 1;
        }
        if emissions.len() != n {
            return Err(ShapeError::EmissionRowCount);
        }
        if n > 0 {
            let m = emissions[0].len();
            proof {
                assert(emissions.deep_view()[0] == emissions@[0].deep_view());
            }
            let mut j: usize = 1;
            while j < n
                invariant
                    1 <= j <= n,
                    n > 0,
                    n == initial_state.deep_view().len(),
                    square_of(transitions.deep_view(), n as int),
                    emissions.deep_view().len() == n,
                    emissions.deep_view()[0].len() == m,
                    forall|k: int| 0 <= k < j ==> emissions.deep_view()[k].len() == m,
                decreases n - j,
            {
                if emissions[j].len() != m {
                    proof {
                        assert(emissions.deep_view()[j as int] == emissions@[j as int].deep_view());
                    }
                    return Err(ShapeError::EmissionsRagged);
                }
                proof {
                    assert(emissions.deep_view()[j as int] == emissions@[j as int].deep_view());
                }
                j = j + 1;
            }
        }
        Ok(HMM { transitions, emissions, initial_state })
    }

    /// The number of hidden states.
    pub fn num_states(&self) -> (n: usize)
        ensures
            n == self@.n(),
    {
        self.initial_state.len()
    }

    /// The size of the emission alphabet.
    pub fn alphabet_size(&self) -> (m: usize)
        ensures
            m == self@.m(),
    {
        if self.emissions.len() == 0 {
            0
        } else {
            self.emissions[0].len()
        }
    }

    /// The transition weight read at row `dst`, column `src`.
    pub fn transition_at(&self, dst: usize, src: usize) -> (r: u64)
        requires
            self@.wf(),
            dst < self@.n(),
            src < self@.n(),
        ensures
            r == self@.trans[dst as int][src as int],
    {
        proof {
            assert(self@.trans[dst as int] == self.transitions@[dst as int].deep_view());
        }
        self.transitions[dst][src]
    }

    /// The emission weight of symbol column `col` in state `s`.
    pub fn emission_at(&self, s: usize, col: usize) -> (r: u64)
        requires
            self@.wf(),
            s < self@.n(),
            col < self@.m(),
        ensures
            r == self@.em[s as int][col as int],
    {
        proof {
            assert(self@.em[s as int] == self.emissions@[s as int].deep_view());
        }
        self.emissions[s][col]
    }

    /// The initial-state weight of state `s`.
    pub fn initial_at(&self, s: usize) -> (r: u64)
        requires
            s < self@.n(),
        ensures
            r == self@.init[s as int],
    {
        self.initial_state[s]
    }
}

} // verus!
