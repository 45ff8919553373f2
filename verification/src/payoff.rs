//! Validation of a payoff matrix before any analysis runs on it.

use vstd::prelude::*;

use crate::types::SolverError;

verus! {

/// Checks that both flat payoff arrays hold exactly `rows * cols` entries and
/// hands the matrix back unchanged; otherwise reports the expected length and
/// both supplied lengths. No analysis starts on an ill-sized matrix.
pub fn create_payoff_matrix(
    rows: usize,
    cols: usize,
    p1_payoffs: Vec<i64>,
    p2_payoffs: Vec<i64>,
) -> (r: Result<(usize, usize, Vec<i64>, Vec<i64>), SolverError>)
    requires
        rows * cols <= usize::MAX,
    ensures
        r is Ok <==> p1_payoffs@.len() == rows * cols && p2_payoffs@.len() == rows * cols,
        r matches Ok(m) ==> m.0 == rows && m.1 == cols && m.2@ == p1_payoffs@ && m.3@
            == p2_payoffs@,
        r matches Err(e) ==> e matches SolverError::InvalidInput { expected, p1_len, p2_len }
            && expected == rows * cols && p1_len == p1_payoffs@.len() && p2_len
            == p2_payoffs@.len(),
{
    let expected = rows * cols;
    if p1_payoffs.len() != expected || p2_payoffs.len() != expected {
        return Err(SolverError::InvalidInput {
            expected,
            p1_len: p1_payoffs.len(),
            p2_len: p2_payoffs.len(),
        });
    }
    Ok((rows, cols, p1_payoffs, p2_payoffs))
}

} // verus!
