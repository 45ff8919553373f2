//! Nash equilibria of a two-player game.
//!
//! A brute-force pass finds every pure-strategy equilibrium in row-major scan
//! order; for a 2x2 game a closed-form pass appends the interior
//! mixed-strategy equilibrium when the indifference system has one.

use vstd::prelude::*;

use crate::model::{at, lemma_flat_index_bound, lemma_flat_index_inverse};
use crate::types::{Ratio, StrategyProfile};

verus! {

/// Cell `(i, j)` is a pure-strategy Nash equilibrium: no row pays player 1
/// strictly more at column `j`, and no column pays player 2 strictly more at
/// row `i`.
pub open spec fn is_pure_nash(
    p1: Seq<i64>,
    p2: Seq<i64>,
    rows: int,
    cols: int,
    i: int,
    j: int,
) -> bool {
    &&& forall|r: int| 0 <= r < rows ==> #[trigger] at(p1, cols, r, j) <= at(p1, cols, i, j)
    &&& forall|c: int| 0 <= c < cols ==> #[trigger] at(p2, cols, i, c) <= at(p2, cols, i, j)
}

/// The pure-equilibrium cells among the first `t` cells of the row-major
/// scan, in scan order.
pub open spec fn pure_cells_upto(
    p1: Seq<i64>,
    p2: Seq<i64>,
    rows: int,
    cols: int,
    t: int,
) -> Seq<(int, int)>
    decreases t,
{
    if t <= 0 {
        Seq::empty()
    } else {
        let prev = pure_cells_upto(p1, p2, rows, cols, t - 1);
        if is_pure_nash(p1, p2, rows, cols, (t - 1) / cols, (t - 1) % cols) {
            prev.push(((t - 1) / cols, (t - 1) % cols))
        } else {
            prev
        }
    }
}

/// All pure-equilibrium cells of the matrix, in row-major scan order.
pub open spec fn pure_cells(p1: Seq<i64>, p2: Seq<i64>, rows: int, cols: int) -> Seq<(int, int)> {
    pure_cells_upto(p1, p2, rows, cols, rows * cols)
}

/// The probability that a one-hot distribution on action `k` puts on action
/// `t`: one at `k`, zero elsewhere.
pub open spec fn pure_weight(t: int, k: int) -> Ratio {
    if t == k {
        Ratio { num: 1, den: 1 }
    } else {
        Ratio { num: 0, den: 1 }
    }
}

/// `s` is the one-hot distribution of length `len` on action `k`.
pub open spec fn is_one_hot(s: Seq<Ratio>, len: int, k: int) -> bool {
    s.len() == len && forall|t: int| 0 <= t < len ==> #[trigger] s[t] == pure_weight(t, k)
}

/// The numerator of the indifference solution of a 2x2 payoff column
/// `[a, b, c, d]` (row-major): `d - b`.
pub open spec fn mix_numer(p: Seq<i64>) -> int {
    p[3] - p[1]
}

/// The denominator of the indifference solution: `(a - b) - (c - d)`.
pub open spec fn mix_denom(p: Seq<i64>) -> int {
    (p[0] - p[1]) - (p[2] - p[3])
}

/// The indifference equation over `p` has a unique solution and it lies
/// strictly inside `(0, 1)`.
pub open spec fn mix_interior(p: Seq<i64>) -> bool {
    let n = mix_numer(p);
    let d = mix_denom(p);
    &&& d != 0
    &&& if d > 0 {
        0 < n < d
    } else {
        d < n < 0
    }
}

/// A 2x2 game has an interior mixed equilibrium exactly when both
/// indifference solutions exist and are interior: player 2's mixing
/// probability solves player 1's indifference equation and conversely.
pub open spec fn mixed_exists(p1: Seq<i64>, p2: Seq<i64>) -> bool {
    mix_interior(p1) && mix_interior(p2)
}

/// `r` is the exact rational `n / d` and its denominator is positive.
pub open spec fn ratio_eq(r: Ratio, n: int, d: int) -> bool {
    r.den > 0 && r.num * d == n * r.den
}

/// `r` lies strictly between zero and one.
pub open spec fn strictly_interior(r: Ratio) -> bool {
    r.den > 0 && 0 < r.num < r.den
}

/// `sp` is the interior mixed-strategy equilibrium of the 2x2 game
/// `(p1, p2)`: each distribution has two entries, each entry is strictly
/// inside `(0, 1)`, each distribution sums exactly to one, player 1's
/// probability of row 0 solves player 2's indifference equation, and
/// player 2's probability of column 0 solves player 1's.
pub open spec fn is_mixed_profile(sp: StrategyProfile, p1: Seq<i64>, p2: Seq<i64>) -> bool {
    let s1 = sp.player1@;
    let s2 = sp.player2@;
    &&& s1.len() == 2 && s2.len() == 2
    &&& ratio_eq(s1[0], mix_numer(p2), mix_denom(p2))
    &&& ratio_eq(s1[1], mix_denom(p2) - mix_numer(p2), mix_denom(p2))
    &&& ratio_eq(s2[0], mix_numer(p1), mix_denom(p1))
    &&& ratio_eq(s2[1], mix_denom(p1) - mix_numer(p1), mix_denom(p1))
    &&& strictly_interior(s1[0]) && strictly_interior(s1[1])
    &&& strictly_interior(s2[0]) && strictly_interior(s2[1])
    &&& s1[0].den == s1[1].den && s1[0].num + s1[1].num == s1[0].den
    &&& s2[0].den == s2[1].den && s2[0].num + s2[1].num == s2[0].den
}

/// Profile `k` of `r` is the one-hot profile of pure-equilibrium cell `k`.
pub open spec fn profiles_match(
    r: Seq<StrategyProfile>,
    cells: Seq<(int, int)>,
    rows: int,
    cols: int,
) -> bool {
    &&& r.len() == cells.len()
    &&& forall|k: int|
        0 <= k < cells.len() ==> is_one_hot(#[trigger] r[k].player1@, rows, cells[k].0)
            && is_one_hot(r[k].player2@, cols, cells[k].1)
}

/// The full statement of `find_nash_equilibria`: the result lists the one-hot
/// profile of every pure-equilibrium cell in row-major scan order, followed by
/// the interior mixed equilibrium when the game is 2x2 and has one.
pub open spec fn nash_result_matches(
    p1: Seq<i64>,
    p2: Seq<i64>,
    rows: int,
    cols: int,
    r: Seq<StrategyProfile>,
) -> bool {
    let cells = pure_cells(p1, p2, rows, cols);
    let mixed = rows == 2 && cols == 2 && mixed_exists(p1, p2);
    &&& profiles_match(r.take(cells.len() as int), cells, rows, cols)
    &&& r.len() == cells.len() + (if mixed {
        1int
    } else {
        0int
    })
    &&& mixed ==> is_mixed_profile(r[cells.len() as int], p1, p2)
}

/// Builds the one-hot distribution of length `len` on action `k`.
fn one_hot(len: usize, k: usize) -> (s: Vec<Ratio>)
    requires
        k < len,
    ensures
        is_one_hot(s@, len as int, k as int),
{
    let mut s: Vec<Ratio> = Vec::new();
    let mut t: usize = 0;
    while t < len
        invariant
            t <= len,
            s@.len() == t,
            forall|t2: int| 0 <= t2 < t ==> #[trigger] s@[t2] == pure_weight(t2, k as int),
        decreases len - t,
    {
        if t == k {
            s.push(Ratio { num: 1, den: 1 });
        } else {
            s.push(Ratio { num: 0, den: 1 });
        }
        t += 1;
    }
    s
}

/// Decides whether cell `(i, j)` is a pure-strategy Nash equilibrium.
fn cell_is_pure(
    p1: &Vec<i64>,
    p2: &Vec<i64>,
    rows: usize,
    cols: usize,
    i: usize,
    j: usize,
) -> (b: bool)
    requires
        p1@.len() == rows * cols,
        p2@.len() == rows * cols,
        i < rows,
        j < cols,
    ensures
        b <==> is_pure_nash(p1@, p2@, rows as int, cols as int, i as int, j as int),
{
    let n1 = p1.len();
    let n2 = p2.len();
    proof {
        lemma_flat_index_bound(rows as int, cols as int, i as int, j as int);
    }
    let p1_current = p1[i * cols + j];
    let p2_current = p2[i * cols + j];

    // Can player 1 improve by deviating to another row?
    let mut r: usize = 0;
    while r < rows
        invariant
            n1 == p1@.len(),
            p1@.len() == rows * cols,
            i < rows,
            j < cols,
            r <= rows,
            p1_current == at(p1@, cols as int, i as int, j as int),
            forall|r2: int|
                0 <= r2 < r ==> #[trigger] at(p1@, cols as int, r2, j as int) <= at(
                    p1@,
                    cols as int,
                    i as int,
                    j as int,
                ),
        decreases rows - r,
    {
        proof {
            lemma_flat_index_bound(rows as int, cols as int, r as int, j as int);
        }
        if p1[r * cols + j] > p1_current {
            proof {
                assert(at(p1@, cols as int, r as int, j as int) > at(
                    p1@,
                    cols as int,
                    i as int,
                    j as int,
                ));
            }
            return false;
        }
        r += 1;
    }

    // Can player 2 improve by deviating to another column?
    let mut c: usize = 0;
    while c < cols
        invariant
            n2 == p2@.len(),
            p2@.len() == rows * cols,
            i < rows,
            j < cols,
            c <= cols,
            p2_current == at(p2@, cols as int, i as int, j as int),
            forall|c2: int|
                0 <= c2 < c ==> #[trigger] at(p2@, cols as int, i as int, c2) <= at(
                    p2@,
                    cols as int,
                    i as int,
                    j as int,
                ),
        decreases cols - c,
    {
        proof {
            lemma_flat_index_bound(rows as int, cols as int, i as int, c as int);
        }
        if p2[i * cols + c] > p2_current {
            proof {
                assert(at(p2@, cols as int, i as int, c as int) > at(
                    p2@,
                    cols as int,
                    i as int,
                    j as int,
                ));
            }
            return false;
        }
        c += 1;
    }
    true
}

/// The interior mixed-strategy equilibrium of a 2x2 game, when the
/// indifference system of each player is non-degenerate and both mixing
/// probabilities land strictly inside `(0, 1)`; otherwise nothing. A
/// degenerate system (zero denominator) and a boundary or exterior solution
/// are both reported as no mixed equilibrium.
pub fn find_2x2_mixed(_rows: usize, _cols: usize, p1: &Vec<i64>, p2: &Vec<i64>) -> (r: Option<
    StrategyProfile,
>)
    requires
        p1@.len() == 4,
        p2@.len() == 4,
    ensures
        r is Some <==> mixed_exists(p1@, p2@),
        r matches Some(sp) ==> is_mixed_profile(sp, p1@, p2@),
{
    // Player 2 mixes columns with probability q of column 0, making player 1
    // indifferent between its rows: q solves
    // a*q + b*(1-q) = c*q + d*(1-q) for [a, b, c, d] = p1.
    let a = p1[0] as i128;
    let b = p1[1] as i128;
    let c = p1[2] as i128;
    let d = p1[3] as i128;
    let denom_q = (a - b) - (c - d);
    if denom_q == 0 {
        return None;
    }
    let num_q = d - b;

    // Player 1 mixes rows with probability p of row 0, making player 2
    // indifferent between its columns.
    let e = p2[0] as i128;
    let f = p2[1] as i128;
    let g = p2[2] as i128;
    let h = p2[3] as i128;
    let denom_p = (e - f) - (g - h);
    if denom_p == 0 {
        return None;
    }
    let num_p = h - f;

    // Both probabilities must lie strictly inside (0, 1).
    let q_interior = if denom_q > 0 {
        0 < num_q && num_q < denom_q
    } else {
        denom_q < num_q && num_q < 0
    };
    let p_interior = if denom_p > 0 {
        0 < num_p && num_p < denom_p
    } else {
        denom_p < num_p && num_p < 0
    };
    if !p_interior || !q_interior {
        return None;
    }

    // Normalize each rational to a positive denominator.
    let (qn, qd) = if denom_q > 0 {
        (num_q, denom_q)
    } else {
        (-num_q, -denom_q)
    };
    let (pn, pd) = if denom_p > 0 {
        (num_p, denom_p)
    } else {
        (-num_p, -denom_p)
    };
    proof {
        assert(qn * denom_q == num_q * qd) by (nonlinear_arith)
            requires
                (qn == num_q && qd == denom_q) || (qn == -num_q && qd == -denom_q),
        ;
        assert((qd - qn) * denom_q == (denom_q - num_q) * qd) by (nonlinear_arith)
            requires
                (qn == num_q && qd == denom_q) || (qn == -num_q && qd == -denom_q),
        ;
        assert(pn * denom_p == num_p * pd) by (nonlinear_arith)
            requires
                (pn == num_p && pd == denom_p) || (pn == -num_p && pd == -denom_p),
        ;
        assert((pd - pn) * denom_p == (denom_p - num_p) * pd) by (nonlinear_arith)
            requires
                (pn == num_p && pd == denom_p) || (pn == -num_p && pd == -denom_p),
        ;
    }

    let mut player1: Vec<Ratio> = Vec::new();
    player1.push(Ratio { num: pn, den: pd });
    player1.push(Ratio { num: pd - pn, den: pd });
    let mut player2: Vec<Ratio> = Vec::new();
    player2.push(Ratio { num: qn, den: qd });
    player2.push(Ratio { num: qd - qn, den: qd });
    Some(StrategyProfile { player1, player2 })
}

/// Finds the Nash equilibria of the game `(p1_payoffs, p2_payoffs)`.
///
/// Every pure-strategy equilibrium cell is reported as a one-hot profile, in
/// row-major scan order; for a 2x2 game the interior mixed-strategy
/// equilibrium, when it exists, is appended last.
pub fn find_nash_equilibria(
    rows: usize,
    cols: usize,
    p1_payoffs: Vec<i64>,
    p2_payoffs: Vec<i64>,
) -> (r: Vec<StrategyProfile>)
    requires
        p1_payoffs@.len() == rows * cols,
        p2_payoffs@.len() == rows * cols,
    ensures
        nash_result_matches(p1_payoffs@, p2_payoffs@, rows as int, cols as int, r@),
{
    let ghost gp1 = p1_payoffs@;
    let ghost gp2 = p2_payoffs@;
    let mut equilibria: Vec<StrategyProfile> = Vec::new();

    let mut i: usize = 0;
    while i < rows
        invariant
            p1_payoffs@ == gp1,
            p2_payoffs@ == gp2,
            gp1.len() == rows * cols,
            gp2.len() == rows * cols,
            i <= rows,
            profiles_match(
                equilibria@,
                pure_cells_upto(gp1, gp2, rows as int, cols as int, i as int * cols as int),
                rows as int,
                cols as int,
            ),
        decreases rows - i,
    {
        let mut j: usize = 0;
        while j < cols
            invariant
                p1_payoffs@ == gp1,
                p2_payoffs@ == gp2,
                gp1.len() == rows * cols,
                gp2.len() == rows * cols,
                i < rows,
                j <= cols,
                profiles_match(
                    equilibria@,
                    pure_cells_upto(
                        gp1,
                        gp2,
                        rows as int,
                        cols as int,
                        i as int * cols as int + j as int,
                    ),
                    rows as int,
                    cols as int,
                ),
            decreases cols - j,
        {
            let ghost t = i as int * cols as int + j as int;
            let ghost cells_t = pure_cells_upto(gp1, gp2, rows as int, cols as int, t);
            let ghost old_eq = equilibria@;
            proof {
                lemma_flat_index_inverse(cols as int, i as int, j as int);
                assert(t / cols as int == i as int && t % cols as int == j as int);
            }
            let ghost cells_next = pure_cells_upto(gp1, gp2, rows as int, cols as int, t + 1);
            if cell_is_pure(&p1_payoffs, &p2_payoffs, rows, cols, i, j) {
                let s1 = one_hot(rows, i);
                let s2 = one_hot(cols, j);
                let prof = StrategyProfile { player1: s1, player2: s2 };
                let ghost gprof = prof;
                equilibria.push(prof);
                proof {
                    assert(cells_next == cells_t.push((i as int, j as int)));
                    assert(equilibria@ == old_eq.push(gprof));
                    assert forall|k: int|
                        0 <= k < cells_next.len() implies is_one_hot(
                        #[trigger] equilibria@[k].player1@,
                        rows as int,
                        cells_next[k].0,
                    ) && is_one_hot(equilibria@[k].player2@, cols as int, cells_next[k].1) by {
                        if k < cells_t.len() {
                            assert(equilibria@[k] == old_eq[k]);
                            assert(cells_next[k] == cells_t[k]);
                        } else {
                            assert(equilibria@[k] == gprof);
                            assert(cells_next[k] == (i as int, j as int));
                        }
                    }
                    assert(profiles_match(equilibria@, cells_next, rows as int, cols as int));
                }
            } else {
                proof {
                    assert(cells_next == cells_t);
                }
            }
            j += 1;
        }
        proof {
            assert((i as int + 1) * cols as int == i as int * cols as int + cols as int)
                by (nonlinear_arith);
        }
        i += 1;
    }

    let ghost cells = pure_cells(gp1, gp2, rows as int, cols as int);
    proof {
        assert(equilibria@.len() == cells.len());
        assert(equilibria@.take(cells.len() as int) =~= equilibria@);
    }

    // A 2x2 game may also have an interior mixed-strategy equilibrium.
    if rows == 2 && cols == 2 {
        if let Some(mixed) = find_2x2_mixed(rows, cols, &p1_payoffs, &p2_payoffs) {
            equilibria.push(mixed);
            proof {
                assert(equilibria@.take(cells.len() as int) =~= equilibria@.drop_last());
            }
        }
    }
    equilibria
}

/// Membership in the scan prefix: a cell stands among the pure-equilibrium
/// cells of the first `t` scan positions exactly when its flat index lies
/// below `t` and it is a pure-strategy Nash equilibrium.
proof fn lemma_pure_cells_upto_membership(
    p1: Seq<i64>,
    p2: Seq<i64>,
    rows: int,
    cols: int,
    t: int,
    i: int,
    j: int,
)
    requires
        0 < cols,
        0 <= t,
        0 <= i,
        0 <= j < cols,
    ensures
        pure_cells_upto(p1, p2, rows, cols, t).contains((i, j)) <==> (i * cols + j < t
            && is_pure_nash(p1, p2, rows, cols, i, j)),
    decreases t,
{
    if t <= 0 {
        assert(i * cols + j >= 0) by (nonlinear_arith)
            requires
                i >= 0,
                j >= 0,
                cols > 0,
        ;
    } else {
        lemma_pure_cells_upto_membership(p1, p2, rows, cols, t - 1, i, j);
        let ti = (t - 1) / cols;
        let tj = (t - 1) % cols;
        vstd::arithmetic::div_mod::lemma_fundamental_div_mod(t - 1, cols);
        vstd::arithmetic::div_mod::lemma_mod_bound(t - 1, cols);
        assert(ti >= 0) by (nonlinear_arith)
            requires
                t - 1 >= 0,
                cols > 0,
                t - 1 == cols * ti + tj,
                0 <= tj < cols,
        ;
        assert((i == ti && j == tj) <==> i * cols + j == t - 1) by (nonlinear_arith)
            requires
                t - 1 == cols * ti + tj,
                0 <= tj < cols,
                0 <= j < cols,
                0 <= i,
                0 <= ti,
        ;
        let prev = pure_cells_upto(p1, p2, rows, cols, t - 1);
        let cur = pure_cells_upto(p1, p2, rows, cols, t);
        if is_pure_nash(p1, p2, rows, cols, ti, tj) {
            assert(cur == prev.push((ti, tj)));
            if cur.contains((i, j)) {
                let idx = cur.lemma_contains_to_index((i, j));
                if idx < prev.len() {
                    assert(prev[idx] == (i, j));
                    assert(prev.contains((i, j)));
                } else {
                    assert((i, j) == (ti, tj));
                }
            }
            if i * cols + j < t && is_pure_nash(p1, p2, rows, cols, i, j) {
                if i * cols + j < t - 1 {
                    let idx = prev.lemma_contains_to_index((i, j));
                    assert(cur[idx] == (i, j));
                    assert(cur.contains((i, j)));
                } else {
                    assert(cur[prev.len() as int] == (i, j));
                    assert(cur.contains((i, j)));
                }
            }
        } else {
            assert(cur == prev);
        }
    }
}

/// The pure pass is sound and complete: a cell stands in `pure_cells`
/// exactly when it is a pure-strategy Nash equilibrium of the game.
pub proof fn lemma_pure_cells_exact(
    p1: Seq<i64>,
    p2: Seq<i64>,
    rows: int,
    cols: int,
    i: int,
    j: int,
)
    requires
        0 < cols,
        0 <= i < rows,
        0 <= j < cols,
    ensures
        pure_cells(p1, p2, rows, cols).contains((i, j)) <==> is_pure_nash(
            p1,
            p2,
            rows,
            cols,
            i,
            j,
        ),
{
    lemma_flat_index_bound(rows, cols, i, j);
    lemma_pure_cells_upto_membership(p1, p2, rows, cols, rows * cols, i, j);
}

/// Index `r` is hit by the relabeling `sigma` of `[0, n)`.
pub open spec fn maps_onto(sigma: Seq<int>, n: int, r: int) -> bool {
    exists|k: int| 0 <= k < n && #[trigger] sigma[k] == r
}

/// Pure Nash membership is invariant under relabeling the actions: when `q1`,
/// `q2` arise from `p1`, `p2` by permuting rows with `sigma` and columns with
/// `tau`, cell `(i, j)` is a pure equilibrium of the relabeled game exactly
/// when cell `(sigma[i], tau[j])` is one of the original game.
pub proof fn lemma_pure_nash_relabeling(
    p1: Seq<i64>,
    p2: Seq<i64>,
    q1: Seq<i64>,
    q2: Seq<i64>,
    rows: int,
    cols: int,
    sigma: Seq<int>,
    tau: Seq<int>,
    i: int,
    j: int,
)
    requires
        p1.len() == rows * cols,
        p2.len() == rows * cols,
        q1.len() == rows * cols,
        q2.len() == rows * cols,
        sigma.len() == rows,
        tau.len() == cols,
        forall|k: int| 0 <= k < rows ==> 0 <= #[trigger] sigma[k] < rows,
        forall|l: int| 0 <= l < cols ==> 0 <= #[trigger] tau[l] < cols,
        forall|k1: int, k2: int|
            0 <= k1 < rows && 0 <= k2 < rows && sigma[k1] == sigma[k2] ==> k1 == k2,
        forall|l1: int, l2: int|
            0 <= l1 < cols && 0 <= l2 < cols && tau[l1] == tau[l2] ==> l1 == l2,
        forall|r: int| 0 <= r < rows ==> #[trigger] maps_onto(sigma, rows, r),
        forall|c: int| 0 <= c < cols ==> #[trigger] maps_onto(tau, cols, c),
        forall|k: int, l: int|
            0 <= k < rows && 0 <= l < cols ==> #[trigger] at(q1, cols, k, l) == at(
                p1,
                cols,
                sigma[k],
                tau[l],
            ),
        forall|k: int, l: int|
            0 <= k < rows && 0 <= l < cols ==> #[trigger] at(q2, cols, k, l) == at(
                p2,
                cols,
                sigma[k],
                tau[l],
            ),
        0 <= i < rows,
        0 <= j < cols,
    ensures
        is_pure_nash(q1, q2, rows, cols, i, j) <==> is_pure_nash(p1, p2, rows, cols, sigma[i], tau[j]),
{
    if is_pure_nash(q1, q2, rows, cols, i, j) {
        assert forall|r: int| 0 <= r < rows implies #[trigger] at(p1, cols, r, tau[j]) <= at(
            p1,
            cols,
            sigma[i],
            tau[j],
        ) by {
            assert(maps_onto(sigma, rows, r));
            let k = choose|k: int| 0 <= k < rows && #[trigger] sigma[k] == r;
            assert(at(q1, cols, k, j) == at(p1, cols, r, tau[j]));
            assert(at(q1, cols, k, j) <= at(q1, cols, i, j));
            assert(at(q1, cols, i, j) == at(p1, cols, sigma[i], tau[j]));
        }
        assert forall|c: int| 0 <= c < cols implies #[trigger] at(p2, cols, sigma[i], c) <= at(
            p2,
            cols,
            sigma[i],
            tau[j],
        ) by {
            assert(maps_onto(tau, cols, c));
            let l = choose|l: int| 0 <= l < cols && #[trigger] tau[l] == c;
            assert(at(q2, cols, i, l) == at(p2, cols, sigma[i], c));
            assert(at(q2, cols, i, l) <= at(q2, cols, i, j));
            assert(at(q2, cols, i, j) == at(p2, cols, sigma[i], tau[j]));
        }
        assert(is_pure_nash(p1, p2, rows, cols, sigma[i], tau[j]));
    }
    if is_pure_nash(p1, p2, rows, cols, sigma[i], tau[j]) {
        assert forall|k: int| 0 <= k < rows implies #[trigger] at(q1, cols, k, j) <= at(
            q1,
            cols,
            i,
            j,
        ) by {
            assert(at(q1, cols, k, j) == at(p1, cols, sigma[k], tau[j]));
            assert(at(p1, cols, sigma[k], tau[j]) <= at(p1, cols, sigma[i], tau[j]));
            assert(at(q1, cols, i, j) == at(p1, cols, sigma[i], tau[j]));
        }
        assert forall|c: int| 0 <= c < cols implies #[trigger] at(q2, cols, i, c) <= at(
            q2,
            cols,
            i,
            j,
        ) by {
            assert(at(q2, cols, i, c) == at(p2, cols, sigma[i], tau[c]));
            assert(at(p2, cols, sigma[i], tau[c]) <= at(p2, cols, sigma[i], tau[j]));
            assert(at(q2, cols, i, j) == at(p2, cols, sigma[i], tau[j]));
        }
        assert(is_pure_nash(q1, q2, rows, cols, i, j));
    }
}

} // verus!
