//! Strictly dominant strategies.
//!
//! A row is strictly dominant for player 1 when, against every column, it
//! pays strictly more than every other row; symmetrically for player 2 over
//! columns. Comparison is exact: payoffs that tie anywhere defeat dominance.

use vstd::prelude::*;

use crate::model::{at, lemma_flat_index_bound};

verus! {

/// Row `i` strictly dominates every other row of `p`: for every other row `k`
/// and every column `j`, `p[i, j] > p[k, j]`.
pub open spec fn row_strictly_dominant(p: Seq<i64>, rows: int, cols: int, i: int) -> bool {
    forall|k: int, j: int|
        0 <= k < rows && k != i && 0 <= j < cols ==> #[trigger] at(p, cols, k, j) < at(
            p,
            cols,
            i,
            j,
        )
}

/// Column `j` strictly dominates every other column of `p`: for every other
/// column `l` and every row `i`, `p[i, j] > p[i, l]`.
pub open spec fn col_strictly_dominant(p: Seq<i64>, rows: int, cols: int, j: int) -> bool {
    forall|l: int, i: int|
        0 <= l < cols && l != j && 0 <= i < rows ==> #[trigger] at(p, cols, i, l) < at(
            p,
            cols,
            i,
            j,
        )
}

/// `r` names the strictly dominant row of lowest index, or nothing when no
/// row is strictly dominant.
pub open spec fn is_first_dominant_row(p: Seq<i64>, rows: int, cols: int, r: Option<usize>) -> bool {
    match r {
        Some(i) => i < rows && row_strictly_dominant(p, rows, cols, i as int) && forall|k: int|
            0 <= k < i ==> !row_strictly_dominant(p, rows, cols, k),
        None => forall|i: int| 0 <= i < rows ==> !row_strictly_dominant(p, rows, cols, i),
    }
}

/// `r` names the strictly dominant column of lowest index, or nothing when no
/// column is strictly dominant.
pub open spec fn is_first_dominant_col(p: Seq<i64>, rows: int, cols: int, r: Option<usize>) -> bool {
    match r {
        Some(j) => j < cols && col_strictly_dominant(p, rows, cols, j as int) && forall|l: int|
            0 <= l < j ==> !col_strictly_dominant(p, rows, cols, l),
        None => forall|j: int| 0 <= j < cols ==> !col_strictly_dominant(p, rows, cols, j),
    }
}

/// At most one row can be strictly dominant: two dominant rows would each
/// have to pay strictly more than the other.
pub proof fn lemma_dominant_row_unique(p: Seq<i64>, rows: int, cols: int, i1: int, i2: int)
    requires
        1 <= cols,
        0 <= i1 < rows,
        0 <= i2 < rows,
        row_strictly_dominant(p, rows, cols, i1),
        row_strictly_dominant(p, rows, cols, i2),
    ensures
        i1 == i2,
{
    if i1 != i2 {
        assert(at(p, cols, i1, 0) < at(p, cols, i2, 0));
        assert(at(p, cols, i2, 0) < at(p, cols, i1, 0));
    }
}

/// At most one column can be strictly dominant.
pub proof fn lemma_dominant_col_unique(p: Seq<i64>, rows: int, cols: int, j1: int, j2: int)
    requires
        1 <= rows,
        0 <= j1 < cols,
        0 <= j2 < cols,
        col_strictly_dominant(p, rows, cols, j1),
        col_strictly_dominant(p, rows, cols, j2),
    ensures
        j1 == j2,
{
    if j1 != j2 {
        assert(at(p, cols, 0, j1) < at(p, cols, 0, j2));
        assert(at(p, cols, 0, j2) < at(p, cols, 0, j1));
    }
}

/// Decides whether row `i` strictly dominates every other row.
fn row_dominates(payoffs: &Vec<i64>, rows: usize, cols: usize, i: usize) -> (b: bool)
    requires
        payoffs@.len() == rows * cols,
        i < rows,
    ensures
        b <==> row_strictly_dominant(payoffs@, rows as int, cols as int, i as int),
{
    let n = payoffs.len();
    let mut k: usize = 0;
    while k < rows
        invariant
            n == payoffs@.len(),
            payoffs@.len() == rows * cols,
            i < rows,
            k <= rows,
            forall|k2: int, j2: int|
                0 <= k2 < k && k2 != i && 0 <= j2 < cols ==> #[trigger] at(
                    payoffs@,
                    cols as int,
                    k2,
                    j2,
                ) < at(payoffs@, cols as int, i as int, j2),
        decreases rows - k,
    {
        if k != i {
            let mut j: usize = 0;
            while j < cols
                invariant
                    n == payoffs@.len(),
                    payoffs@.len() == rows * cols,
                    i < rows,
                    k < rows,
                    k != i,
                    j <= cols,
                    forall|j2: int|
                        0 <= j2 < j ==> #[trigger] at(payoffs@, cols as int, k as int, j2) < at(
                            payoffs@,
                            cols as int,
                            i as int,
                            j2,
                        ),
                decreases cols - j,
            {
                proof {
                    lemma_flat_index_bound(rows as int, cols as int, i as int, j as int);
                    lemma_flat_index_bound(rows as int, cols as int, k as int, j as int);
                }
                if payoffs[i * cols + j] <= payoffs[k * cols + j] {
                    proof {
                        assert(at(payoffs@, cols as int, i as int, j as int) <= at(
                            payoffs@,
                            cols as int,
                            k as int,
                            j as int,
                        ));
                    }
                    return false;
                }
                j += 1;
            }
        }
        k += 1;
    }
    true
}

/// Decides whether column `j` strictly dominates every other column.
fn col_dominates(payoffs: &Vec<i64>, rows: usize, cols: usize, j: usize) -> (b: bool)
    requires
        payoffs@.len() == rows * cols,
        j < cols,
    ensures
        b <==> col_strictly_dominant(payoffs@, rows as int, cols as int, j as int),
{
    let n = payoffs.len();
    let mut l: usize = 0;
    while l < cols
        invariant
            n == payoffs@.len(),
            payoffs@.len() == rows * cols,
            j < cols,
            l <= cols,
            forall|l2: int, i2: int|
                0 <= l2 < l && l2 != j && 0 <= i2 < rows ==> #[trigger] at(
                    payoffs@,
                    cols as int,
                    i2,
                    l2,
                ) < at(payoffs@, cols as int, i2, j as int),
        decreases cols - l,
    {
        if l != j {
            let mut i: usize = 0;
            while i < rows
                invariant
                    n == payoffs@.len(),
                    payoffs@.len() == rows * cols,
                    j < cols,
                    l < cols,
                    l != j,
                    i <= rows,
                    forall|i2: int|
                        0 <= i2 < i ==> #[trigger] at(payoffs@, cols as int, i2, l as int) < at(
                            payoffs@,
                            cols as int,
                            i2,
                            j as int,
                        ),
                decreases rows - i,
            {
                proof {
                    lemma_flat_index_bound(rows as int, cols as int, i as int, j as int);
                    lemma_flat_index_bound(rows as int, cols as int, i as int, l as int);
                }
                if payoffs[i * cols + j] <= payoffs[i * cols + l] {
                    proof {
                        assert(at(payoffs@, cols as int, i as int, j as int) <= at(
                            payoffs@,
                            cols as int,
                            i as int,
                            l as int,
                        ));
                    }
                    return false;
                }
                i += 1;
            }
        }
        l += 1;
    }
    true
}

/// The strictly dominant row of lowest index for player 1, or nothing.
pub fn find_p1_dominant(rows: usize, cols: usize, payoffs: &Vec<i64>) -> (r: Option<usize>)
    requires
        payoffs@.len() == rows * cols,
    ensures
        is_first_dominant_row(payoffs@, rows as int, cols as int, r),
{
    let mut i: usize = 0;
    while i < rows
        invariant
            payoffs@.len() == rows * cols,
            i <= rows,
            forall|k: int|
                0 <= k < i ==> !row_strictly_dominant(payoffs@, rows as int, cols as int, k),
        decreases rows - i,
    {
        if row_dominates(payoffs, rows, cols, i) {
            return Some(i);
        }
        i += 1;
    }
    None
}

/// The strictly dominant column of lowest index for player 2, or nothing.
pub fn find_p2_dominant(rows: usize, cols: usize, payoffs: &Vec<i64>) -> (r: Option<usize>)
    requires
        payoffs@.len() == rows * cols,
    ensures
        is_first_dominant_col(payoffs@, rows as int, cols as int, r),
{
    let mut j: usize = 0;
    while j < cols
        invariant
            payoffs@.len() == rows * cols,
            j <= cols,
            forall|l: int|
                0 <= l < j ==> !col_strictly_dominant(payoffs@, rows as int, cols as int, l),
        decreases cols - j,
    {
        if col_dominates(payoffs, rows, cols, j) {
            return Some(j);
        }
        j += 1;
    }
    None
}

/// Finds the strictly dominant strategies of both players: the first strictly
/// dominant row of `p1_payoffs` and the first strictly dominant column of
/// `p2_payoffs`, each or nothing. When a row is returned it pays player 1
/// strictly more than every other row against every column, and symmetrically
/// for the returned column and player 2.
pub fn find_dominant_strategies(
    rows: usize,
    cols: usize,
    p1_payoffs: Vec<i64>,
    p2_payoffs: Vec<i64>,
) -> (r: (Option<usize>, Option<usize>))
    requires
        p1_payoffs@.len() == rows * cols,
        p2_payoffs@.len() == rows * cols,
    ensures
        is_first_dominant_row(p1_payoffs@, rows as int, cols as int, r.0),
        is_first_dominant_col(p2_payoffs@, rows as int, cols as int, r.1),
{
    let p1_dom = find_p1_dominant(rows, cols, &p1_payoffs);
    let p2_dom = find_p2_dominant(rows, cols, &p2_payoffs);
    (p1_dom, p2_dom)
}

} // verus!
