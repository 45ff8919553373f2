//! Two-player finite-game equilibrium solver.
//!
//! Given a pair of payoff matrices (`rows` x `cols`, flat row-major), the
//! solver finds pure-strategy Nash equilibria, the mixed-strategy equilibrium
//! of a 2x2 game, the maximin/minimax value and optimal pure strategies of a
//! zero-sum game, and strictly dominant strategies for each player.
//!
//! Payoffs are exact integers, so every comparison and every tie-break is
//! exact; mixed-strategy probabilities are exact rationals.

pub mod dominance;
pub mod minimax;
pub mod model;
pub mod nash;
pub mod payoff;
pub mod types;
