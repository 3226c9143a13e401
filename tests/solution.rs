use mastermind::{generate_solution, GameConfig};
use rand::rngs::StdRng;
use rand::SeedableRng;

#[test]
fn no_duplicate_solutions_have_distinct_colors() {
    let mut rng = StdRng::seed_from_u64(3);
    let cfg = GameConfig::new(6, 8, 4, false).unwrap();
    let mut freq = [0usize; 6];
    let rounds = 6000;
    for _ in 0..rounds {
        let s = generate_solution(&mut rng, &cfg);
        assert_eq!(s.0.len(), 4);
        for i in 0..4 {
            assert!(s.0[i] < 6);
            freq[s.0[i]] += 1;
            for j in 0..i {
                assert_ne!(s.0[i], s.0[j]);
            }
        }
    }
    // each color is expected 4000 times
    for f in freq.iter() {
        assert!(*f > 3600 && *f < 4400, "{:?}", freq);
    }
}

#[test]
fn no_duplicates_with_all_colors_uses_each_once() {
    let mut rng = StdRng::seed_from_u64(9);
    let cfg = GameConfig::new(5, 8, 5, false).unwrap();
    let mut s = generate_solution(&mut rng, &cfg).0;
    s.sort();
    assert_eq!(s, vec![0, 1, 2, 3, 4]);
}

#[test]
fn duplicate_solutions_stay_in_range() {
    let mut rng = StdRng::seed_from_u64(5);
    let cfg = GameConfig::new(2, 8, 7, true).unwrap();
    let mut seen_repeat = false;
    for _ in 0..50 {
        let s = generate_solution(&mut rng, &cfg).0;
        assert_eq!(s.len(), 7);
        assert!(s.iter().all(|c| *c < 2));
        seen_repeat |= s.iter().filter(|c| **c == s[0]).count() > 1;
    }
    assert!(seen_repeat);
}

#[test]
fn same_seed_same_solution() {
    let cfg = GameConfig::new(6, 8, 4, true).unwrap();
    let a = generate_solution(&mut StdRng::seed_from_u64(11), &cfg);
    let b = generate_solution(&mut StdRng::seed_from_u64(11), &cfg);
    assert_eq!(a.0, b.0);
}
