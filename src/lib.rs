//! Core of a terminal code-breaking game: rows of color indices, the
//! bulls-and-cows scoring of a guess against a hidden solution, generation of
//! that solution, and the state machine that turns player commands into play.

mod code;
mod config;
mod game;
mod keys;
mod score;
mod solution;

pub use code::{colors_below, Guess};
pub use config::{ConfigError, GameConfig, MAX_COLORS};
pub use game::{
    hint_of, lemma_exact_guess_wins, lemma_guarded_commands, lemma_single_wrong_guess_loses,
    lemma_terminal_is_final, Command, Game, GameModel, State,
};
pub use keys::{color_of_char, command_of_key, key_command, parse_color_number, Key};
pub use score::{
    bulls_of, calc_hint, cows_of, injective, lemma_all_bulls_is_equal, lemma_cows_per_color,
    lemma_disjoint_colors, lemma_hint_within_holes, lemma_perfect_guess, lemma_relabel_score,
    lemma_unmatched_len, sum_min_counts, unmatched, Hint,
};
pub use solution::generate_solution;
