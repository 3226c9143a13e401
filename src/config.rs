use vstd::prelude::*;

verus! {

/// Number of colors the board can show; no game may use more.
pub const MAX_COLORS: usize = 7;

/// Why a requested configuration cannot be played.
#[derive(Debug, Clone, Copy, PartialEq, Eq, Structural)]
pub enum ConfigError {
    /// The number of colors, guesses or holes is zero.
    ZeroCount,
    /// More colors than the board can show.
    TooManyColors,
    /// Duplicates are forbidden but there are fewer colors than holes, so no
    /// solution can be drawn.
    FewerColorsThanHoles,
}

/// The rules of one game.
#[derive(Debug, Clone, Copy, PartialEq, Eq, Structural)]
pub struct GameConfig {
    /// Number of colors, numbered `0 .. num_colors`.
    pub num_colors: usize,
    /// Number of guesses the player may submit.
    pub max_guesses: usize,
    /// Number of holes in a row.
    pub hole_count: usize,
    /// Whether the solution may repeat a color.
    pub allow_duplicates: bool,
}

impl GameConfig {
    /// The configuration can be played: all counts positive, the colors fit
    /// the board, and a solution without repeats exists when one is asked for.
    pub open spec fn valid(self) -> bool {
        &&& self.num_colors > 0
        &&& self.max_guesses > 0
        &&& self.hole_count > 0
        &&& self.num_colors <= MAX_COLORS
        &&& (!self.allow_duplicates ==> self.hole_count <= self.num_colors)
    }

    /// Checks a requested configuration before play starts.
    pub fn new(num_colors: usize, max_guesses: usize, hole_count: usize, allow_duplicates: bool) -> (r:
        Result<GameConfig, ConfigError>)
        ensures
            num_colors == 0 || max_guesses == 0 || hole_count == 0 ==> r == Err::<
                GameConfig,
                ConfigError,
            >(ConfigError::ZeroCount),
            num_colors > 0 && max_guesses > 0 && hole_count > 0 && num_colors > MAX_COLORS ==> r
                == Err::<GameConfig, ConfigError>(ConfigError::TooManyColors),
            num_colors > 0 && max_guesses > 0 && hole_count > 0 && num_colors <= MAX_COLORS
                && !allow_duplicates && hole_count > num_colors ==> r == Err::<
                GameConfig,
                ConfigError,
            >(ConfigError::FewerColorsThanHoles),
            r is Ok <==> (GameConfig { num_colors, max_guesses, hole_count, allow_duplicates }).valid(),
            r matches Ok(c) ==> c == (GameConfig { num_colors, max_guesses, hole_count, allow_duplicates }),
    {
        if num_colors == 0 || max_guesses == 0 || hole_count == 0 {
            Err(ConfigError::ZeroCount)
        } else if num_colors > MAX_COLORS {
            Err(ConfigError::TooManyColors)
        } else if !allow_duplicates && hole_count > num_colors {
            Err(ConfigError::FewerColorsThanHoles)
        } else {
            Ok(GameConfig { num_colors, max_guesses, hole_count, allow_duplicates })
        }
    }
}

} // verus!
