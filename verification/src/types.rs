//! Value types shared by the solver operations.

use vstd::prelude::*;

verus! {

/// An exact rational number. Probabilities in a [`StrategyProfile`] are
/// rationals with a positive denominator; they are not necessarily reduced.
#[derive(Clone, Copy, Debug, PartialEq, Eq, Structural)]
pub struct Ratio {
    pub num: i128,
    pub den: i128,
}

/// A pair of probability distributions, one over player 1's rows and one
/// over player 2's columns.
#[derive(Clone, Debug, PartialEq, Eq)]
pub struct StrategyProfile {
    pub player1: Vec<Ratio>,
    pub player2: Vec<Ratio>,
}

/// One cell of a payoff matrix: the payoff to each player under a joint action.
#[derive(Clone, Copy, Debug, PartialEq, Eq, Structural)]
pub struct Payoff {
    pub player1: i64,
    pub player2: i64,
}

/// The combined outcome of a game analysis.
#[derive(Clone, Debug, PartialEq, Eq)]
pub struct GameResult {
    pub equilibria: Vec<StrategyProfile>,
    pub dominant_strategies: Option<(Option<usize>, Option<usize>)>,
    pub minimax_value: Option<i64>,
}

/// The solver's only error: a payoff array whose length does not match
/// `rows * cols`. It carries the expected length and both supplied lengths.
#[derive(Clone, Copy, Debug, PartialEq, Eq, Structural)]
pub enum SolverError {
    InvalidInput { expected: usize, p1_len: usize, p2_len: usize },
}

} // verus!
