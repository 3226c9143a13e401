use vstd::prelude::*;
use vstd::multiset::Multiset;
use crate::code::{colors_below, Guess};

verus! {

broadcast use
    vstd::multiset::group_multiset_axioms,
    vstd::multiset::lemma_intersection_count,
    vstd::seq_lib::group_to_multiset_ensures,
;

/// The score of a guess: how many of its colors stand at the right place
/// (bulls), and how many more are right but misplaced (cows).
#[derive(Debug, Clone, Copy, Default, PartialEq, Eq, Structural)]
pub struct Hint {
    /// correct color, correct position
    pub bulls: usize,
    /// correct color, wrong position
    pub cows: usize,
}

/// Number of positions at which `g` and `s` hold the same color
/// (the two rows are read aligned at their start and have equal length).
pub open spec fn bulls_of(g: Seq<usize>, s: Seq<usize>) -> nat
    decreases g.len(),
{
    if g.len() == 0 || s.len() == 0 {
        0
    } else {
        bulls_of(g.drop_last(), s.drop_last()) + if g.last() == s.last() {
            1nat
        } else {
            0nat
        }
    }
}

/// The colors of `a`, in order, at the positions where `a` and `b` differ:
/// what is left of `a` once the exact matches are taken out.
pub open spec fn unmatched(a: Seq<usize>, b: Seq<usize>) -> Seq<usize>
    decreases a.len(),
{
    if a.len() == 0 || b.len() == 0 {
        Seq::empty()
    } else if a.last() == b.last() {
        unmatched(a.drop_last(), b.drop_last())
    } else {
        unmatched(a.drop_last(), b.drop_last()).push(a.last())
    }
}

/// Number of cows: once the exact matches are removed, the size of the
/// common part of what remains of the guess and of the solution, taken as
/// multisets of colors.
pub open spec fn cows_of(g: Seq<usize>, s: Seq<usize>) -> nat {
    unmatched(g, s).to_multiset().intersection_with(unmatched(s, g).to_multiset()).len()
}

/// Sum of the multiplicities in `m` of the colors `0 .. k`.
spec fn sum_counts(m: Multiset<usize>, k: usize) -> nat
    decreases k,
{
    if k == 0 {
        0
    } else {
        sum_counts(m, (k - 1) as usize) + m.count((k - 1) as usize)
    }
}

proof fn lemma_unmatched_step(a: Seq<usize>, b: Seq<usize>, i: int)
    requires
        a.len() == b.len(),
        0 <= i < a.len(),
    ensures
        a.subrange(0, i + 1).drop_last() == a.subrange(0, i),
        b.subrange(0, i + 1).drop_last() == b.subrange(0, i),
        unmatched(a.subrange(0, i + 1), b.subrange(0, i + 1)) == if a[i] == b[i] {
            unmatched(a.subrange(0, i), b.subrange(0, i))
        } else {
            unmatched(a.subrange(0, i), b.subrange(0, i)).push(a[i])
        },
        bulls_of(a.subrange(0, i + 1), b.subrange(0, i + 1)) == bulls_of(
            a.subrange(0, i),
            b.subrange(0, i),
        ) + if a[i] == b[i] {
            1nat
        } else {
            0nat
        },
{
    assert(a.subrange(0, i + 1).drop_last() =~= a.subrange(0, i));
    assert(b.subrange(0, i + 1).drop_last() =~= b.subrange(0, i));
}

/// What is left of `a` after the exact matches is no longer than `a`, and
/// the exact matches make up the difference.
pub proof fn lemma_unmatched_len(a: Seq<usize>, b: Seq<usize>)
    requires
        a.len() == b.len(),
    ensures
        unmatched(a, b).len() + bulls_of(a, b) == a.len(),
        unmatched(b, a).len() + bulls_of(a, b) == a.len(),
    decreases a.len(),
{
    if a.len() > 0 {
        lemma_unmatched_len(a.drop_last(), b.drop_last());
    }
}

proof fn lemma_sum_counts_remove(m: Multiset<usize>, x: usize, k: usize)
    requires
        m.count(x) > 0,
    ensures
        sum_counts(m, k) == sum_counts(m.remove(x), k) + if x < k {
            1nat
        } else {
            0nat
        },
    decreases k,
{
    if k > 0 {
        lemma_sum_counts_remove(m, x, (k - 1) as usize);
    }
}

proof fn lemma_sum_counts_empty(m: Multiset<usize>, k: usize)
    requires
        m.len() == 0,
    ensures
        sum_counts(m, k) == 0,
    decreases k,
{
    vstd::multiset::lemma_multiset_empty_len(m);
    if k > 0 {
        lemma_sum_counts_empty(m, (k - 1) as usize);
    }
}

/// Summing the multiplicities of the colors below `k` never exceeds the size
/// of the multiset, and gives it exactly when every element is below `k`.
proof fn lemma_sum_counts_len(m: Multiset<usize>, k: usize)
    ensures
        sum_counts(m, k) <= m.len(),
        (forall|x: usize| #[trigger] m.count(x) > 0 ==> x < k) ==> sum_counts(m, k) == m.len(),
    decreases m.len(),
{
    if m.len() == 0 {
        lemma_sum_counts_empty(m, k);
    } else {
        let x = m.choose();
        let r = m.remove(x);
        assert(Multiset::singleton(x).subset_of(m));
        assert(r.len() == m.len() - 1);
        lemma_sum_counts_remove(m, x, k);
        lemma_sum_counts_len(r, k);
        if forall|y: usize| #[trigger] m.count(y) > 0 ==> y < k {
            assert forall|y: usize| #[trigger] r.count(y) > 0 implies y < k by {
                assert(m.count(y) > 0);
            }
        }
    }
}

proof fn lemma_sum_counts_mono(m: Multiset<usize>, k: usize, j: usize)
    requires
        j <= k,
    ensures
        sum_counts(m, j) <= sum_counts(m, k),
    decreases k,
{
    if j < k {
        lemma_sum_counts_mono(m, (k - 1) as usize, j);
    }
}

proof fn lemma_count_le_len(s: Seq<usize>, x: usize)
    ensures
        s.to_multiset().count(x) <= s.len(),
{
    assert(s.to_multiset().len() == s.len());
}

/// Every color in what is left of `a` is one of `a`'s colors.
proof fn lemma_unmatched_colors(a: Seq<usize>, b: Seq<usize>, n: nat)
    requires
        colors_below(a, n),
    ensures
        colors_below(unmatched(a, b), n),
        forall|x: usize| #[trigger] unmatched(a, b).to_multiset().count(x) > 0 ==> x < n,
    decreases a.len(),
{
    if a.len() > 0 && b.len() > 0 {
        lemma_unmatched_colors(a.drop_last(), b.drop_last(), n);
    }
    let u = unmatched(a, b);
    assert forall|x: usize| #[trigger] u.to_multiset().count(x) > 0 implies x < n by {
        assert(u.contains(x));
    }
}

/// Scores `guess` against `solution`: exact matches are bulls; the other
/// positions are tallied per color, and each color adds the smaller of its
/// two tallies to the cows.
pub fn calc_hint(guess: &Guess, solution: &Guess, num_colors: usize) -> (r: Hint)
    requires
        guess@.len() == solution@.len(),
        colors_below(guess@, num_colors as nat),
        colors_below(solution@, num_colors as nat),
    ensures
        r.bulls == bulls_of(guess@, solution@),
        r.cows == cows_of(guess@, solution@),
{
    let g = &guess.0;
    let s = &solution.0;
    let n = g.len();
    let mut guess_counts: Vec<usize> = Vec::new();
    let mut solution_counts: Vec<usize> = Vec::new();
    let mut c: usize = 0;
    while c < num_colors
        invariant
            c <= num_colors,
            guess_counts@.len() == c,
            solution_counts@.len() == c,
            forall|j: int| 0 <= j < c ==> guess_counts@[j] == 0 && solution_counts@[j] == 0,
        decreases num_colors - c,
    {
        guess_counts.push(0);
        solution_counts.push(0);
        c += 1;
    }
    let mut bulls: usize = 0;
    let mut i: usize = 0;
    while i < n
        invariant
            n == g@.len() == s@.len(),
            g@ == guess@,
            s@ == solution@,
            colors_below(g@, num_colors as nat),
            colors_below(s@, num_colors as nat),
            i <= n,
            bulls == bulls_of(g@.subrange(0, i as int), s@.subrange(0, i as int)),
            guess_counts@.len() == num_colors,
            solution_counts@.len() == num_colors,
            forall|j: int|
                0 <= j < num_colors ==> #[trigger] guess_counts@[j] == unmatched(
                    g@.subrange(0, i as int),
                    s@.subrange(0, i as int),
                ).to_multiset().count(j as usize),
            forall|j: int|
                0 <= j < num_colors ==> #[trigger] solution_counts@[j] == unmatched(
                    s@.subrange(0, i as int),
                    g@.subrange(0, i as int),
                ).to_multiset().count(j as usize),
        decreases n - i,
    {
        let ghost gp = g@.subrange(0, i as int);
        let ghost sp = s@.subrange(0, i as int);
        proof {
            lemma_unmatched_step(g@, s@, i as int);
            lemma_unmatched_step(s@, g@, i as int);
            lemma_unmatched_len(gp, sp);
            lemma_count_le_len(unmatched(gp, sp), g@[i as int]);
            lemma_count_le_len(unmatched(sp, gp), s@[i as int]);
        }
        let gc = g[i];
        let sc = s[i];
        if gc == sc {
            bulls += 1;
        } else {
            assert(guess_counts@[gc as int] <= i);
            let v = guess_counts[gc] + 1;
            guess_counts.set(gc, v);
            let w = solution_counts[sc] + 1;
            solution_counts.set(sc, w);
        }
        i += 1;
    }
    assert(g@.subrange(0, n as int) =~= g@);
    assert(s@.subrange(0, n as int) =~= s@);
    let ghost mg = unmatched(g@, s@).to_multiset();
    let ghost ms = unmatched(s@, g@).to_multiset();
    let ghost both = mg.intersection_with(ms);
    proof {
        lemma_unmatched_len(g@, s@);
        lemma_sum_counts_len(mg, num_colors);
        lemma_unmatched_colors(g@, s@, num_colors as nat);
        assert forall|x: usize| #[trigger] both.count(x) > 0 implies x < num_colors by {
            assert(mg.count(x) > 0);
        }
        lemma_sum_counts_len(both, num_colors);
        assert(both.len() <= mg.len()) by {
            lemma_sum_counts_le(both, mg, num_colors);
        }
    }
    let mut cows: usize = 0;
    let mut c: usize = 0;
    while c < num_colors
        invariant
            c <= num_colors,
            guess_counts@.len() == num_colors,
            solution_counts@.len() == num_colors,
            forall|j: int| 0 <= j < num_colors ==> #[trigger] guess_counts@[j] == mg.count(j as usize),
            forall|j: int| 0 <= j < num_colors ==> #[trigger] solution_counts@[j] == ms.count(j as usize),
            both == mg.intersection_with(ms),
            cows == sum_counts(both, c),
            sum_counts(both, num_colors) <= n,
        decreases num_colors - c,
    {
        proof {
            lemma_sum_counts_mono(both, num_colors, (c + 1) as usize);
            assert(sum_counts(both, (c + 1) as usize) == sum_counts(both, c) + both.count(c));
            assert(guess_counts@[c as int] == mg.count(c));
            assert(solution_counts@[c as int] == ms.count(c));
        }
        let a = guess_counts[c];
        let b = solution_counts[c];
        cows += if a < b {
            a
        } else {
            b
        };
        c += 1;
    }
    Hint { bulls, cows }
}

proof fn lemma_sum_counts_le(a: Multiset<usize>, b: Multiset<usize>, k: usize)
    requires
        forall|x: usize| #[trigger] a.count(x) <= b.count(x),
    ensures
        sum_counts(a, k) <= sum_counts(b, k),
    decreases k,
{
    if k > 0 {
        lemma_sum_counts_le(a, b, (k - 1) as usize);
    }
}

proof fn lemma_intersection_len(a: Multiset<usize>, b: Multiset<usize>)
    ensures
        a.intersection_with(b).len() <= a.len(),
{
    let i = a.intersection_with(b);
    assert(i.subset_of(a));
    assert(a.sub(i).len() == a.len() - i.len());
}

/// Bulls and cows together never exceed the number of holes: a position
/// counts at most once, either as an exact match or as a misplaced color.
pub proof fn lemma_hint_within_holes(g: Seq<usize>, s: Seq<usize>)
    requires
        g.len() == s.len(),
    ensures
        bulls_of(g, s) + cows_of(g, s) <= g.len(),
{
    lemma_unmatched_len(g, s);
    lemma_intersection_len(unmatched(g, s).to_multiset(), unmatched(s, g).to_multiset());
}

proof fn lemma_unmatched_self(s: Seq<usize>)
    ensures
        bulls_of(s, s) == s.len(),
        unmatched(s, s) == Seq::<usize>::empty(),
    decreases s.len(),
{
    if s.len() > 0 {
        lemma_unmatched_self(s.drop_last());
    }
}

/// A guess equal to the solution scores one bull per hole and no cows.
pub proof fn lemma_perfect_guess(s: Seq<usize>)
    ensures
        bulls_of(s, s) == s.len(),
        cows_of(s, s) == 0,
{
    lemma_unmatched_self(s);
    let e = unmatched(s, s).to_multiset();
    assert(e.len() == 0);
    lemma_intersection_len(e, e);
}

proof fn lemma_unmatched_all_differ(a: Seq<usize>, b: Seq<usize>)
    requires
        a.len() == b.len(),
        forall|i: int| 0 <= i < a.len() ==> a[i] != b[i],
    ensures
        bulls_of(a, b) == 0,
        unmatched(a, b) == a,
        unmatched(b, a) == b,
    decreases a.len(),
{
    if a.len() > 0 {
        lemma_unmatched_all_differ(a.drop_last(), b.drop_last());
        assert(a.drop_last().push(a.last()) =~= a);
        assert(b.drop_last().push(b.last()) =~= b);
    }
}

/// A guess that shares no color with the solution scores no bulls and no
/// cows.
pub proof fn lemma_disjoint_colors(g: Seq<usize>, s: Seq<usize>)
    requires
        g.len() == s.len(),
        forall|i: int, j: int| 0 <= i < g.len() && 0 <= j < s.len() ==> g[i] != s[j],
    ensures
        bulls_of(g, s) == 0,
        cows_of(g, s) == 0,
{
    lemma_unmatched_all_differ(g, s);
    let both = g.to_multiset().intersection_with(s.to_multiset());
    assert forall|x: usize| #[trigger] both.count(x) == 0 by {
        if g.to_multiset().count(x) > 0 && s.to_multiset().count(x) > 0 {
            assert(g.contains(x));
            assert(s.contains(x));
        }
    }
    assert(both =~= Multiset::empty());
}

/// A bull in every hole happens only when the guess is the solution.
pub proof fn lemma_all_bulls_is_equal(g: Seq<usize>, s: Seq<usize>)
    requires
        g.len() == s.len(),
        bulls_of(g, s) == g.len(),
    ensures
        g == s,
    decreases g.len(),
{
    if g.len() > 0 {
        lemma_unmatched_len(g.drop_last(), s.drop_last());
        lemma_all_bulls_is_equal(g.drop_last(), s.drop_last());
        assert(g =~= g.drop_last().push(g.last()));
        assert(s =~= s.drop_last().push(s.last()));
    } else {
        assert(g =~= s);
    }
}

/// `f` never sends two colors to the same one.
pub open spec fn injective(f: spec_fn(usize) -> usize) -> bool {
    forall|x: usize, y: usize| #[trigger] f(x) == #[trigger] f(y) ==> x == y
}

proof fn lemma_relabel_multiset_len(a: Multiset<usize>, b: Multiset<usize>, f: spec_fn(usize) -> usize)
    requires
        injective(f),
        forall|x: usize| #[trigger] b.count(f(x)) == a.count(x),
        forall|y: usize| #[trigger] b.count(y) > 0 ==> exists|x: usize| #[trigger] f(x) == y,
    ensures
        a.len() == b.len(),
    decreases a.len(),
{
    if a.len() == 0 {
        vstd::multiset::lemma_multiset_empty_len(a);
        if b.len() > 0 {
            let y = b.choose();
            assert(b.count(y) > 0);
            let x = choose|x: usize| #[trigger] f(x) == y;
            assert(a.count(x) == b.count(f(x)));
        }
    } else {
        let x = a.choose();
        let a2 = a.remove(x);
        let b2 = b.remove(f(x));
        assert(a.count(x) > 0);
        assert(b.count(f(x)) > 0);
        assert(Multiset::singleton(x).subset_of(a));
        assert(Multiset::singleton(f(x)).subset_of(b));
        assert(a2.len() == a.len() - 1);
        assert(b2.len() == b.len() - 1);
        assert forall|z: usize| #[trigger] b2.count(f(z)) == a2.count(z) by {
            assert(b.count(f(z)) == a.count(z));
            if z != x {
                assert(f(z) != f(x));
            }
        }
        assert forall|y: usize| #[trigger] b2.count(y) > 0 implies exists|z: usize| #[trigger] f(z) == y by {
            assert(b.count(y) > 0);
        }
        lemma_relabel_multiset_len(a2, b2, f);
    }
}

proof fn lemma_relabel_to_multiset(a: Seq<usize>, f: spec_fn(usize) -> usize)
    requires
        injective(f),
    ensures
        forall|x: usize| #[trigger] a.map_values(f).to_multiset().count(f(x)) == a.to_multiset().count(x),
        forall|y: usize| #[trigger] a.map_values(f).to_multiset().count(y) > 0 ==> exists|x: usize| #[trigger] f(x) == y,
    decreases a.len(),
{
    let m = a.map_values(f);
    if a.len() > 0 {
        let a2 = a.drop_last();
        lemma_relabel_to_multiset(a2, f);
        assert(a =~= a2.push(a.last()));
        assert(m =~= a2.map_values(f).push(f(a.last())));
        assert forall|x: usize| #[trigger] m.to_multiset().count(f(x)) == a.to_multiset().count(x) by {
            if x != a.last() {
                assert(f(x) != f(a.last()));
            }
        }
    } else {
        assert(m.to_multiset().len() == 0);
        assert(a.to_multiset().len() == 0);
        vstd::multiset::lemma_multiset_empty_len(m.to_multiset());
        vstd::multiset::lemma_multiset_empty_len(a.to_multiset());
    }
    assert forall|y: usize| #[trigger] m.to_multiset().count(y) > 0 implies exists|x: usize| #[trigger] f(x) == y by {
        assert(m.contains(y));
        let i = choose|i: int| 0 <= i < m.len() && m[i] == y;
        assert(f(a[i]) == y);
    }
}

proof fn lemma_relabel_unmatched(g: Seq<usize>, s: Seq<usize>, f: spec_fn(usize) -> usize)
    requires
        injective(f),
        g.len() == s.len(),
    ensures
        bulls_of(g.map_values(f), s.map_values(f)) == bulls_of(g, s),
        unmatched(g.map_values(f), s.map_values(f)) == unmatched(g, s).map_values(f),
        unmatched(s.map_values(f), g.map_values(f)) == unmatched(s, g).map_values(f),
    decreases g.len(),
{
    let gf = g.map_values(f);
    let sf = s.map_values(f);
    if g.len() == 0 {
        assert(unmatched(g, s).map_values(f) =~= Seq::<usize>::empty());
        assert(unmatched(s, g).map_values(f) =~= Seq::<usize>::empty());
    } else {
        lemma_relabel_unmatched(g.drop_last(), s.drop_last(), f);
        assert(gf.drop_last() =~= g.drop_last().map_values(f));
        assert(sf.drop_last() =~= s.drop_last().map_values(f));
        assert(g.last() == s.last() <==> f(g.last()) == f(s.last()));
        assert(unmatched(g.drop_last(), s.drop_last()).push(g.last()).map_values(f) =~= unmatched(
            g.drop_last(),
            s.drop_last(),
        ).map_values(f).push(f(g.last())));
        assert(unmatched(s.drop_last(), g.drop_last()).push(s.last()).map_values(f) =~= unmatched(
            s.drop_last(),
            g.drop_last(),
        ).map_values(f).push(f(s.last())));
    }
}

/// Renaming the colors one-to-one, the same way in guess and solution,
/// leaves the score unchanged.
pub proof fn lemma_relabel_score(g: Seq<usize>, s: Seq<usize>, f: spec_fn(usize) -> usize)
    requires
        injective(f),
        g.len() == s.len(),
    ensures
        bulls_of(g.map_values(f), s.map_values(f)) == bulls_of(g, s),
        cows_of(g.map_values(f), s.map_values(f)) == cows_of(g, s),
{
    lemma_relabel_unmatched(g, s, f);
    let ug = unmatched(g, s);
    let us = unmatched(s, g);
    lemma_relabel_to_multiset(ug, f);
    lemma_relabel_to_multiset(us, f);
    let a = ug.to_multiset().intersection_with(us.to_multiset());
    let b = ug.map_values(f).to_multiset().intersection_with(us.map_values(f).to_multiset());
    assert forall|x: usize| #[trigger] b.count(f(x)) == a.count(x) by {
        assert(ug.map_values(f).to_multiset().count(f(x)) == ug.to_multiset().count(x));
        assert(us.map_values(f).to_multiset().count(f(x)) == us.to_multiset().count(x));
    }
    assert forall|y: usize| #[trigger] b.count(y) > 0 implies exists|x: usize| #[trigger] f(x) == y by {
        assert(ug.map_values(f).to_multiset().count(y) > 0);
    }
    lemma_relabel_multiset_len(a, b, f);
}

/// Sum over the colors `0 .. k` of the smaller of each color's
/// multiplicities in `a` and in `b`.
pub open spec fn sum_min_counts(a: Multiset<usize>, b: Multiset<usize>, k: usize) -> nat
    decreases k,
{
    if k == 0 {
        0
    } else {
        sum_min_counts(a, b, (k - 1) as usize) + if a.count((k - 1) as usize) < b.count(
            (k - 1) as usize,
        ) {
            a.count((k - 1) as usize)
        } else {
            b.count((k - 1) as usize)
        }
    }
}

proof fn lemma_sum_min_is_intersection(a: Multiset<usize>, b: Multiset<usize>, k: usize)
    ensures
        sum_min_counts(a, b, k) == sum_counts(a.intersection_with(b), k),
    decreases k,
{
    if k > 0 {
        lemma_sum_min_is_intersection(a, b, (k - 1) as usize);
    }
}

/// The cows counted per color agree with the cows counted by pairing off the
/// leftover colors: for rows over the colors `0 .. n`, summing each color's
/// smaller leftover tally gives the size of the common part of the leftovers.
pub proof fn lemma_cows_per_color(g: Seq<usize>, s: Seq<usize>, n: usize)
    requires
        g.len() == s.len(),
        colors_below(g, n as nat),
        colors_below(s, n as nat),
    ensures
        cows_of(g, s) == sum_min_counts(
            unmatched(g, s).to_multiset(),
            unmatched(s, g).to_multiset(),
            n,
        ),
{
    let mg = unmatched(g, s).to_multiset();
    let ms = unmatched(s, g).to_multiset();
    let both = mg.intersection_with(ms);
    lemma_unmatched_colors(g, s, n as nat);
    assert forall|x: usize| #[trigger] both.count(x) > 0 implies x < n by {
        assert(mg.count(x) > 0);
    }
    lemma_sum_counts_len(both, n);
    lemma_sum_min_is_intersection(mg, ms, n);
}

} // verus!
