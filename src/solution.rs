use vstd::prelude::*;
use rand::rngs::StdRng;
use crate::code::{colors_below, Guess};
use crate::config::GameConfig;

verus! {

/// Declares `rand::rngs::StdRng`, rand's seedable standard generator, which
/// the library only carries through to the draws below.
#[verifier::external_type_specification]
#[verifier::external_body]
pub struct ExStdRng(StdRng);

/// Relies on rand's `Rng::gen_range(low, high)`: a value in `low .. high`;
/// it panics when `low >= high`, which `requires` rules out.
#[verifier::external_body]
fn draw_below(rng: &mut StdRng, high: usize) -> (r: usize)
    requires
        0 < high,
    ensures
        r < high,
{
    rand::Rng::gen_range(rng, 0, high)
}

/// Relies on rand's `seq::index::sample(rng, length, amount)`: exactly
/// `amount` distinct indices from `0 .. length`, in random order; it panics
/// when `amount > length`, which `requires` rules out.
#[verifier::external_body]
fn sample_distinct(rng: &mut StdRng, length: usize, amount: usize) -> (r: Vec<usize>)
    requires
        amount <= length,
    ensures
        r@.len() == amount,
        r@.no_duplicates(),
        forall|i: int| 0 <= i < r@.len() ==> #[trigger] r@[i] < length,
{
    rand::seq::index::sample(rng, length, amount).into_vec()
}

/// Draws a hidden solution for `config`: `hole_count` colors below
/// `num_colors`, drawn independently when duplicates are allowed, and
/// all different otherwise.
pub fn generate_solution(rng: &mut StdRng, config: &GameConfig) -> (r: Guess)
    requires
        config.valid(),
    ensures
        r@.len() == config.hole_count,
        colors_below(r@, config.num_colors as nat),
        !config.allow_duplicates ==> r@.no_duplicates(),
{
    if config.allow_duplicates {
        let mut colors: Vec<usize> = Vec::new();
        let mut i: usize = 0;
        while i < config.hole_count
            invariant
                config.valid(),
                i <= config.hole_count,
                colors@.len() == i,
                colors_below(colors@, config.num_colors as nat),
            decreases config.hole_count - i,
        {
            let c = draw_below(rng, config.num_colors);
            colors.push(c);
            i += 1;
        }
        Guess(colors)
    } else {
        Guess(sample_distinct(rng, config.num_colors, config.hole_count))
    }
}

} // verus!
