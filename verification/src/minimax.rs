//! Maximin/minimax analysis of a zero-sum game.
//!
//! The payoff matrix is read from player 1's perspective. Player 1's maximin
//! row maximizes the row minimum; player 2's minimax column minimizes the
//! column maximum. Ties go to the lowest index. The reported value is always
//! player 1's guaranteed floor, the maximin value, whether or not it meets
//! the minimax ceiling in a saddle point.

use vstd::prelude::*;

use crate::model::{at, lemma_flat_index_bound};
use crate::types::SolverError;

verus! {

/// The least payoff in row `i` among columns `[0, n)`.
pub open spec fn row_min(p: Seq<i64>, cols: int, i: int, n: int) -> int
    decreases n,
{
    if n <= 1 {
        at(p, cols, i, 0)
    } else if at(p, cols, i, n - 1) < row_min(p, cols, i, n - 1) {
        at(p, cols, i, n - 1)
    } else {
        row_min(p, cols, i, n - 1)
    }
}

/// The greatest payoff in column `j` among rows `[0, n)`.
pub open spec fn col_max(p: Seq<i64>, cols: int, j: int, n: int) -> int
    decreases n,
{
    if n <= 1 {
        at(p, cols, 0, j)
    } else if at(p, cols, n - 1, j) > col_max(p, cols, j, n - 1) {
        at(p, cols, n - 1, j)
    } else {
        col_max(p, cols, j, n - 1)
    }
}

/// Computes the minimum payoff of row `i`.
fn row_min_value(payoffs: &Vec<i64>, rows: usize, cols: usize, i: usize) -> (m: i64)
    requires
        payoffs@.len() == rows * cols,
        i < rows,
        1 <= cols,
    ensures
        m == row_min(payoffs@, cols as int, i as int, cols as int),
{
    let n = payoffs.len();
    proof {
        lemma_flat_index_bound(rows as int, cols as int, i as int, 0);
    }
    let mut m: i64 = payoffs[i * cols];
    let mut j: usize = 1;
    while j < cols
        invariant
            n == payoffs@.len(),
            payoffs@.len() == rows * cols,
            i < rows,
            1 <= j <= cols,
            m == row_min(payoffs@, cols as int, i as int, j as int),
        decreases cols - j,
    {
        proof {
            lemma_flat_index_bound(rows as int, cols as int, i as int, j as int);
        }
        let v = payoffs[i * cols + j];
        if v < m {
            m = v;
        }
        j += 1;
    }
    m
}

/// Computes the maximum payoff of column `j`.
fn col_max_value(payoffs: &Vec<i64>, rows: usize, cols: usize, j: usize) -> (m: i64)
    requires
        payoffs@.len() == rows * cols,
        j < cols,
        1 <= rows,
    ensures
        m == col_max(payoffs@, cols as int, j as int, rows as int),
{
    let n = payoffs.len();
    proof {
        lemma_flat_index_bound(rows as int, cols as int, 0, j as int);
    }
    let mut m: i64 = payoffs[j];
    let mut i: usize = 1;
    while i < rows
        invariant
            n == payoffs@.len(),
            payoffs@.len() == rows * cols,
            j < cols,
            1 <= i <= rows,
            m == col_max(payoffs@, cols as int, j as int, i as int),
        decreases rows - i,
    {
        proof {
            lemma_flat_index_bound(rows as int, cols as int, i as int, j as int);
        }
        let v = payoffs[i * cols + j];
        if v > m {
            m = v;
        }
        i += 1;
    }
    m
}

/// Solves a zero-sum game by maximin/minimax.
///
/// Returns `(value, best_row, best_col)`: `best_row` is the first row whose
/// minimum payoff is greatest, `best_col` the first column whose maximum
/// payoff is least, and `value` the maximin value — the payoff floor that
/// `best_row` guarantees player 1. Rejects a payoff array whose length is not
/// `rows * cols`.
pub fn minimax_solve(rows: usize, cols: usize, payoffs: Vec<i64>) -> (r: Result<
    (i64, usize, usize),
    SolverError,
>)
    requires
        1 <= rows,
        1 <= cols,
        rows * cols <= usize::MAX,
    ensures
        r is Ok <==> payoffs@.len() == rows * cols,
        r matches Ok(v) ==> {
            &&& v.1 < rows
            &&& v.0 == row_min(payoffs@, cols as int, v.1 as int, cols as int)
            &&& forall|i: int|
                0 <= i < rows ==> #[trigger] row_min(payoffs@, cols as int, i, cols as int) <= v.0
            &&& forall|i: int|
                0 <= i < v.1 ==> #[trigger] row_min(payoffs@, cols as int, i, cols as int) < v.0
            &&& v.2 < cols
            &&& forall|j: int|
                0 <= j < cols ==> col_max(payoffs@, cols as int, v.2 as int, rows as int)
                    <= #[trigger] col_max(payoffs@, cols as int, j, rows as int)
            &&& forall|j: int|
                0 <= j < v.2 ==> #[trigger] col_max(payoffs@, cols as int, j, rows as int)
                    > col_max(payoffs@, cols as int, v.2 as int, rows as int)
        },
        r matches Err(e) ==> e matches SolverError::InvalidInput { expected, p1_len, p2_len }
            && expected == rows * cols && p1_len == payoffs@.len() && p2_len == payoffs@.len(),
{
    if payoffs.len() != rows * cols {
        return Err(SolverError::InvalidInput {
            expected: rows * cols,
            p1_len: payoffs.len(),
            p2_len: payoffs.len(),
        });
    }

    // Maximin: player 1 maximizes their minimum payoff; first row wins ties.
    let mut best_row: usize = 0;
    let mut maximin: i64 = row_min_value(&payoffs, rows, cols, 0);
    let mut i: usize = 1;
    while i < rows
        invariant
            payoffs@.len() == rows * cols,
            1 <= rows,
            1 <= cols,
            1 <= i <= rows,
            best_row < i,
            maximin == row_min(payoffs@, cols as int, best_row as int, cols as int),
            forall|i2: int|
                0 <= i2 < i ==> #[trigger] row_min(payoffs@, cols as int, i2, cols as int)
                    <= maximin,
            forall|i2: int|
                0 <= i2 < best_row ==> #[trigger] row_min(payoffs@, cols as int, i2, cols as int)
                    < maximin,
        decreases rows - i,
    {
        let m = row_min_value(&payoffs, rows, cols, i);
        if m > maximin {
            maximin = m;
            best_row = i;
        }
        i += 1;
    }

    // Minimax: player 2 minimizes player 1's maximum payoff; first column
    // wins ties. Only the column index is reported: the returned value is
    // the maximin floor whether or not the two brackets meet.
    let mut best_col: usize = 0;
    let mut minimax: i64 = col_max_value(&payoffs, rows, cols, 0);
    let mut j: usize = 1;
    while j < cols
        invariant
            payoffs@.len() == rows * cols,
            1 <= rows,
            1 <= cols,
            1 <= j <= cols,
            best_col < j,
            minimax == col_max(payoffs@, cols as int, best_col as int, rows as int),
            forall|j2: int|
                0 <= j2 < j ==> minimax <= #[trigger] col_max(
                    payoffs@,
                    cols as int,
                    j2,
                    rows as int,
                ),
            forall|j2: int|
                0 <= j2 < best_col ==> #[trigger] col_max(payoffs@, cols as int, j2, rows as int)
                    > minimax,
        decreases cols - j,
    {
        let m = col_max_value(&payoffs, rows, cols, j);
        if m < minimax {
            minimax = m;
            best_col = j;
        }
        j += 1;
    }

    Ok((maximin, best_row, best_col))
}

} // verus!
