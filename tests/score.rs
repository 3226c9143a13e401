use mastermind::{calc_hint, Guess, Hint};
use rand::rngs::StdRng;
use rand::{Rng, SeedableRng};

/// The classical scoring: mark exact matches, then pair off equal colors
/// among what is left, one at a time.
fn classical_score(guess: &[usize], solution: &[usize]) -> Hint {
    let mut g: Vec<Option<usize>> = guess.iter().map(|x| Some(*x)).collect();
    let mut s: Vec<Option<usize>> = solution.iter().map(|x| Some(*x)).collect();
    let mut bulls = 0;
    for i in 0..g.len() {
        if g[i] == s[i] {
            bulls += 1;
            g[i] = None;
            s[i] = None;
        }
    }
    let mut cows = 0;
    for i in 0..g.len() {
        if g[i].is_none() {
            continue;
        }
        for j in 0..s.len() {
            if s[j].is_some() && g[i] == s[j] {
                cows += 1;
                g[i] = None;
                s[j] = None;
                break;
            }
        }
    }
    Hint { bulls, cows }
}

fn hint(guess: &[usize], solution: &[usize], colors: usize) -> Hint {
    calc_hint(&Guess(guess.to_vec()), &Guess(solution.to_vec()), colors)
}

#[test]
fn hint_matches_classical_scoring_on_random_rows() {
    let mut rng = StdRng::seed_from_u64(42);
    for _ in 0..2000 {
        let len = rng.gen_range(1, 9);
        let colors = rng.gen_range(1, 8);
        let g: Vec<usize> = (0..len).map(|_| rng.gen_range(0, colors)).collect();
        let s: Vec<usize> = (0..len).map(|_| rng.gen_range(0, colors)).collect();
        assert_eq!(hint(&g, &s, colors), classical_score(&g, &s), "{:?} {:?}", g, s);
    }
}

#[test]
fn hint_exact_values() {
    assert_eq!(hint(&[0, 1, 2, 3], &[0, 1, 2, 3], 6), Hint { bulls: 4, cows: 0 });
    assert_eq!(hint(&[3, 2, 1, 0], &[0, 1, 2, 3], 6), Hint { bulls: 0, cows: 4 });
    assert_eq!(hint(&[0, 0, 1, 1], &[1, 0, 0, 2], 6), Hint { bulls: 1, cows: 2 });
    assert_eq!(hint(&[5, 5, 5, 5], &[5, 0, 0, 0], 6), Hint { bulls: 1, cows: 0 });
    assert_eq!(hint(&[0, 1, 1, 2], &[1, 2, 3, 1], 4), Hint { bulls: 0, cows: 3 });
}

#[test]
fn hint_of_empty_rows() {
    assert_eq!(hint(&[], &[], 3), Hint { bulls: 0, cows: 0 });
}

#[test]
fn hint_disjoint_colors_is_zero() {
    assert_eq!(hint(&[0, 1, 0, 1], &[2, 3, 4, 2], 6), Hint { bulls: 0, cows: 0 });
}

#[test]
fn hint_perfect_guess_with_repeats() {
    assert_eq!(hint(&[4, 4, 1, 4], &[4, 4, 1, 4], 5), Hint { bulls: 4, cows: 0 });
}

#[test]
fn hint_unchanged_by_relabeling() {
    let perm = [3usize, 5, 0, 1, 4, 2];
    let g = [0usize, 2, 2, 5];
    let s = [2usize, 0, 1, 5];
    let gm: Vec<usize> = g.iter().map(|c| perm[*c]).collect();
    let sm: Vec<usize> = s.iter().map(|c| perm[*c]).collect();
    assert_eq!(hint(&g, &s, 6), hint(&gm, &sm, 6));
    assert_eq!(hint(&g, &s, 6), Hint { bulls: 1, cows: 2 });
}

#[test]
fn hint_bulls_and_cows_within_holes() {
    let mut rng = StdRng::seed_from_u64(7);
    for _ in 0..500 {
        let len = rng.gen_range(0, 7);
        let g: Vec<usize> = (0..len).map(|_| rng.gen_range(0, 3)).collect();
        let s: Vec<usize> = (0..len).map(|_| rng.gen_range(0, 3)).collect();
        let h = hint(&g, &s, 3);
        assert!(h.bulls + h.cows <= len);
    }
}
