//! The mathematical model of a payoff matrix: flat row-major indexing and
//! the lemmas that connect a `(row, column)` pair with its flat index.

use vstd::prelude::*;

verus! {

/// The payoff at row `i`, column `j` of a flat row-major matrix with `cols`
/// columns, as a mathematical integer.
pub open spec fn at(p: Seq<i64>, cols: int, i: int, j: int) -> int {
    p[i * cols + j] as int
}

/// A flat row-major index stays inside the matrix.
pub proof fn lemma_flat_index_bound(rows: int, cols: int, i: int, j: int)
    by (nonlinear_arith)
    requires
        0 <= i < rows,
        0 <= j < cols,
    ensures
        0 <= i * cols + j < rows * cols,
{
}

/// Row and column can be read back from a flat row-major index.
pub proof fn lemma_flat_index_inverse(cols: int, i: int, j: int)
    requires
        0 < cols,
        0 <= i,
        0 <= j < cols,
    ensures
        (i * cols + j) / cols == i,
        (i * cols + j) % cols == j,
{
    vstd::arithmetic::div_mod::lemma_fundamental_div_mod_converse(i * cols + j, cols, i, j);
}

} // verus!
