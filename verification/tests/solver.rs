use equilibria::dominance::{find_dominant_strategies, find_p1_dominant, find_p2_dominant};
use equilibria::minimax::minimax_solve;
use equilibria::nash::{find_2x2_mixed, find_nash_equilibria};
use equilibria::payoff::create_payoff_matrix;
use equilibria::types::{Ratio, SolverError, StrategyProfile};

fn one(n: i128, d: i128) -> Ratio {
    Ratio { num: n, den: d }
}

fn assert_one_hot(s: &[Ratio], k: usize) {
    for (t, r) in s.iter().enumerate() {
        if t == k {
            assert_eq!(*r, one(1, 1));
        } else {
            assert_eq!(*r, one(0, 1));
        }
    }
}

fn assert_half(r: &Ratio) {
    assert!(r.den > 0);
    assert_eq!(r.num * 2, r.den);
}

fn assert_distribution(s: &[Ratio]) {
    let den = s[0].den;
    assert!(den > 0);
    let mut total: i128 = 0;
    for r in s {
        assert_eq!(r.den, den);
        assert!(r.num >= 0);
        total += r.num;
    }
    assert_eq!(total, den);
}

// A coordination game: both pure equilibria on the diagonal, and the
// indifference point p = q = 1/2 strictly inside (0, 1), so a mixed
// equilibrium is appended after the pure ones.
#[test]
fn coordination_game_equilibria() {
    let eqs = find_nash_equilibria(2, 2, vec![3, 0, 0, 3], vec![3, 0, 0, 3]);
    assert_eq!(eqs.len(), 3);
    assert_one_hot(&eqs[0].player1, 0);
    assert_one_hot(&eqs[0].player2, 0);
    assert_one_hot(&eqs[1].player1, 1);
    assert_one_hot(&eqs[1].player2, 1);
    let mixed = &eqs[2];
    assert_half(&mixed.player1[0]);
    assert_half(&mixed.player1[1]);
    assert_half(&mixed.player2[0]);
    assert_half(&mixed.player2[1]);
    assert_distribution(&mixed.player1);
    assert_distribution(&mixed.player2);
}

// Matching pennies: no pure equilibrium; the unique mixed equilibrium plays
// both actions with probability exactly 1/2.
#[test]
fn matching_pennies_mixed_only() {
    let eqs = find_nash_equilibria(2, 2, vec![1, -1, -1, 1], vec![-1, 1, 1, -1]);
    assert_eq!(eqs.len(), 1);
    let mixed = &eqs[0];
    assert_eq!(mixed.player1.len(), 2);
    assert_eq!(mixed.player2.len(), 2);
    for r in mixed.player1.iter().chain(mixed.player2.iter()) {
        assert!(r.den > 0 && 0 < r.num && r.num < r.den);
        assert_half(r);
    }
    assert_distribution(&mixed.player1);
    assert_distribution(&mixed.player2);
}

// Maximin row 0 guarantees 3 (row 1 only 2); column 0's maximum 4 beats
// column 1's maximum 5, so the saddle bracket is (row 0, column 0).
#[test]
fn minimax_saddle_example() {
    let r = minimax_solve(2, 2, vec![4, 3, 2, 5]).unwrap();
    assert_eq!(r, (3, 0, 0));
}

// A degenerate 1x1 game: the single action is dominant for both players, the
// minimax value is the single payoff, and the one pure equilibrium plays it
// with probability one.
#[test]
fn one_by_one_game() {
    let dom = find_dominant_strategies(1, 1, vec![7], vec![7]);
    assert_eq!(dom, (Some(0), Some(0)));
    assert_eq!(minimax_solve(1, 1, vec![7]).unwrap(), (7, 0, 0));
    let eqs = find_nash_equilibria(1, 1, vec![7], vec![7]);
    assert_eq!(eqs.len(), 1);
    assert_eq!(eqs[0].player1, vec![one(1, 1)]);
    assert_eq!(eqs[0].player2, vec![one(1, 1)]);
}

#[test]
fn minimax_rejects_wrong_length() {
    let r = minimax_solve(2, 2, vec![1, 2, 3]);
    assert_eq!(
        r,
        Err(SolverError::InvalidInput { expected: 4, p1_len: 3, p2_len: 3 })
    );
}

#[test]
fn minimax_first_index_wins_ties() {
    // all rows and columns tie: the lowest indices win
    assert_eq!(minimax_solve(2, 2, vec![1, 1, 1, 1]).unwrap(), (1, 0, 0));
}

#[test]
fn minimax_rectangular_game() {
    // row minima 1 and 0; column maxima 4, 2 and 6
    let r = minimax_solve(2, 3, vec![1, 2, 3, 4, 0, 6]).unwrap();
    assert_eq!(r, (1, 0, 1));
}

// A prisoner's-dilemma payoff shape: defecting (row 1, column 1) strictly
// dominates for each player.
#[test]
fn dominant_strategies_found() {
    let dom = find_dominant_strategies(2, 2, vec![3, 0, 5, 1], vec![3, 5, 0, 1]);
    assert_eq!(dom, (Some(1), Some(1)));
}

// Strict dominance requires strictly higher payoffs everywhere; a tie in a
// single cell defeats it.
#[test]
fn dominance_defeated_by_tie() {
    let dom = find_dominant_strategies(2, 2, vec![5, 1, 5, 0], vec![4, 4, 2, 3]);
    assert_eq!(dom.0, None);
    let dom2 = find_dominant_strategies(2, 2, vec![3, 0, 0, 3], vec![3, 0, 0, 3]);
    assert_eq!(dom2, (None, None));
}

// A degenerate indifference system (zero denominator for player 1's payoffs)
// reports no mixed equilibrium; the pure pass is unaffected.
#[test]
fn mixed_skipped_when_degenerate() {
    let eqs = find_nash_equilibria(2, 2, vec![1, 1, 1, 1], vec![-1, 1, 1, -1]);
    assert_eq!(eqs.len(), 2);
    assert_one_hot(&eqs[0].player1, 0);
    assert_one_hot(&eqs[0].player2, 1);
    assert_one_hot(&eqs[1].player1, 1);
    assert_one_hot(&eqs[1].player2, 0);
}

// A solution landing exactly on the boundary of (0, 1) is excluded: here
// q = 0 for player 1's payoffs, so no mixed equilibrium is reported.
#[test]
fn mixed_excluded_at_boundary() {
    let mixed = find_2x2_mixed(2, 2, &vec![2, 1, 0, 1], &vec![-1, 1, 1, -1]);
    assert!(mixed.is_none());
    let eqs = find_nash_equilibria(2, 2, vec![2, 1, 0, 1], vec![-1, 1, 1, -1]);
    assert_eq!(eqs.len(), 1);
    assert_one_hot(&eqs[0].player1, 0);
    assert_one_hot(&eqs[0].player2, 1);
}

// An asymmetric mixed equilibrium: for p1 = [0, 2, 3, 0] the indifference
// solution is q = (0-2)/((0-2)-(3-0)) = 2/5, and for p2 = [0, 3, 2, 0] it is
// p = (0-3)/((0-3)-(2-0)) = 3/5.
#[test]
fn mixed_asymmetric_values() {
    let mixed = find_2x2_mixed(2, 2, &vec![0, 2, 3, 0], &vec![0, 3, 2, 0]).unwrap();
    assert_eq!(mixed.player1[0].num * 5, mixed.player1[0].den * 3);
    assert_eq!(mixed.player1[1].num * 5, mixed.player1[1].den * 2);
    assert_eq!(mixed.player2[0].num * 5, mixed.player2[0].den * 2);
    assert_eq!(mixed.player2[1].num * 5, mixed.player2[1].den * 3);
    assert_distribution(&mixed.player1);
    assert_distribution(&mixed.player2);
}

// Relabeling the actions relabels the pure equilibria and nothing else:
// swapping both rows of an asymmetric coordination game moves its diagonal
// equilibria to the anti-diagonal, in the new scan order.
#[test]
fn pure_equilibria_follow_relabeling() {
    let eqs = find_nash_equilibria(2, 2, vec![3, 0, 0, 2], vec![3, 0, 0, 2]);
    assert_eq!(eqs.len(), 3);
    assert_one_hot(&eqs[0].player1, 0);
    assert_one_hot(&eqs[0].player2, 0);
    assert_one_hot(&eqs[1].player1, 1);
    assert_one_hot(&eqs[1].player2, 1);

    // rows swapped in both matrices
    let swapped = find_nash_equilibria(2, 2, vec![0, 2, 3, 0], vec![0, 2, 3, 0]);
    assert_eq!(swapped.len(), 3);
    assert_one_hot(&swapped[0].player1, 0);
    assert_one_hot(&swapped[0].player2, 1);
    assert_one_hot(&swapped[1].player1, 1);
    assert_one_hot(&swapped[1].player2, 0);
}

#[test]
fn payoff_matrix_validation() {
    let ok = create_payoff_matrix(2, 3, vec![1, 2, 3, 4, 5, 6], vec![6, 5, 4, 3, 2, 1]);
    assert_eq!(
        ok.unwrap(),
        (2, 3, vec![1, 2, 3, 4, 5, 6], vec![6, 5, 4, 3, 2, 1])
    );
    let bad = create_payoff_matrix(2, 3, vec![1, 2, 3], vec![6, 5, 4, 3, 2, 1]);
    assert_eq!(
        bad,
        Err(SolverError::InvalidInput { expected: 6, p1_len: 3, p2_len: 6 })
    );
}

// An equilibrium of a larger game: in a 3x3 game with a strict saddle cell,
// only that cell survives the pure pass and no mixed pass runs.
#[test]
fn three_by_three_single_equilibrium() {
    // cell (1, 1) holds the best payoff of its column for player 1 and of
    // its row for player 2
    let p1 = vec![0, 1, 0, 2, 5, 1, 0, 3, 0];
    let p2 = vec![0, 2, 0, 1, 5, 3, 0, 1, 0];
    let eqs = find_nash_equilibria(3, 3, p1, p2);
    assert_eq!(
        eqs,
        vec![StrategyProfile {
            player1: vec![one(0, 1), one(1, 1), one(0, 1)],
            player2: vec![one(0, 1), one(1, 1), one(0, 1)],
        }]
    );
}

// Matching pennies as a zero-sum game: every row guarantees only -1 and
// every column concedes 1, so the first indices win on both sides.
#[test]
fn minimax_negative_payoffs() {
    let r = minimax_solve(2, 2, vec![1, -1, -1, 1]).unwrap();
    assert_eq!(r, (-1, 0, 0));
}

#[test]
fn per_player_dominance_helpers() {
    assert_eq!(find_p1_dominant(2, 2, &vec![3, 0, 5, 1]), Some(1));
    assert_eq!(find_p1_dominant(2, 2, &vec![5, 1, 5, 0]), None);
    assert_eq!(find_p2_dominant(2, 2, &vec![3, 5, 0, 1]), Some(1));
    assert_eq!(find_p2_dominant(2, 2, &vec![4, 4, 2, 3]), None);
}
