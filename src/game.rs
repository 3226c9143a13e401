use vstd::prelude::*;
use rand::rngs::StdRng;
use crate::code::{colors_below, Guess};
use crate::config::GameConfig;
use crate::score::{bulls_of, calc_hint, cows_of, lemma_all_bulls_is_equal, lemma_perfect_guess,
    lemma_unmatched_len, Hint};
use crate::solution::generate_solution;

verus! {

/// Where a game stands.
#[derive(Debug, Clone, Copy, PartialEq, Eq, Structural)]
pub enum State {
    Playing,
    Won,
    Lost,
}

/// One player command, in the order the player issued them.
#[derive(Debug, Clone, Copy, PartialEq, Eq, Structural)]
pub enum Command {
    /// Place a color in the next free hole of the current guess.
    AppendColor(usize),
    /// Take back the last placed color.
    RemoveLast,
    /// Submit the current guess once it is full.
    Submit,
    /// End the session.
    Quit,
}

/// The mathematical content of a game.
pub struct GameModel {
    pub config: GameConfig,
    pub solution: Seq<usize>,
    pub guesses: Seq<Seq<usize>>,
    pub hints: Seq<Hint>,
    pub current: Seq<usize>,
}

/// The hint that `g` earns against `s`.
pub open spec fn hint_of(g: Seq<usize>, s: Seq<usize>) -> Hint {
    Hint { bulls: bulls_of(g, s) as usize, cows: cows_of(g, s) as usize }
}

impl GameModel {
    /// The game's invariant: a valid configuration; a solution, submitted
    /// guesses and a current guess made of valid colors, the submitted ones
    /// full and the current one never longer; each hint the score of the
    /// guess at the same index; and no guess submitted after the game ended.
    pub open spec fn valid(self) -> bool {
        let holes = self.config.hole_count;
        let colors = self.config.num_colors as nat;
        &&& self.config.valid()
        &&& self.solution.len() == holes
        &&& colors_below(self.solution, colors)
        &&& self.guesses.len() == self.hints.len()
        &&& self.guesses.len() <= self.config.max_guesses
        &&& forall|i: int|
            0 <= i < self.guesses.len() ==> {
                &&& (#[trigger] self.guesses[i]).len() == holes
                &&& colors_below(self.guesses[i], colors)
                &&& self.hints[i] == hint_of(self.guesses[i], self.solution)
            }
        &&& forall|i: int| 0 <= i < self.hints.len() - 1 ==> (#[trigger] self.hints[i]).bulls != holes
        &&& self.current.len() <= holes
        &&& colors_below(self.current, colors)
    }

    /// Won once the last hint has a bull in every hole, else lost once every
    /// allowed guess is used, else still playing.
    pub open spec fn status(self) -> State {
        if self.hints.len() > 0 && self.hints.last().bulls == self.config.hole_count {
            State::Won
        } else if self.guesses.len() >= self.config.max_guesses {
            State::Lost
        } else {
            State::Playing
        }
    }

    /// `AppendColor(color)`: the color joins the current guess while the game
    /// is on, the guess has a free hole and the color exists; else nothing.
    pub open spec fn append_color(self, color: usize) -> GameModel {
        if self.status() == State::Playing && self.current.len() < self.config.hole_count && color
            < self.config.num_colors {
            GameModel { current: self.current.push(color), ..self }
        } else {
            self
        }
    }

    /// `RemoveLast`: the last color leaves the current guess while the game
    /// is on and the guess is not empty; else nothing.
    pub open spec fn remove_last_color(self) -> GameModel {
        if self.status() == State::Playing && self.current.len() > 0 {
            GameModel { current: self.current.drop_last(), ..self }
        } else {
            self
        }
    }

    /// `Submit`: while the game is on and the current guess is full, the
    /// guess and its hint join the history and the current guess empties;
    /// else nothing.
    pub open spec fn submit_guess(self) -> GameModel {
        if self.status() == State::Playing && self.current.len() == self.config.hole_count {
            GameModel {
                guesses: self.guesses.push(self.current),
                hints: self.hints.push(hint_of(self.current, self.solution)),
                current: Seq::empty(),
                ..self
            }
        } else {
            self
        }
    }

    /// The game after one command; `Quit` changes nothing.
    pub open spec fn step(self, cmd: Command) -> GameModel {
        match cmd {
            Command::AppendColor(c) => self.append_color(c),
            Command::RemoveLast => self.remove_last_color(),
            Command::Submit => self.submit_guess(),
            Command::Quit => self,
        }
    }
}

/// A game in progress: the hidden solution, the submitted guesses with their
/// hints, and the guess being filled in.
pub struct Game {
    config: GameConfig,
    solution: Guess,
    guesses: Vec<Guess>,
    hints: Vec<Hint>,
    current_guess: Guess,
}

impl View for Game {
    type V = GameModel;

    closed spec fn view(&self) -> GameModel {
        GameModel {
            config: self.config,
            solution: self.solution@,
            guesses: self.guesses@.map_values(|g: Guess| g@),
            hints: self.hints@,
            current: self.current_guess@,
        }
    }
}

impl Game {
    /// The game's invariant, over its model.
    pub open spec fn wf(&self) -> bool {
        self@.valid()
    }

    /// Starts a game against a given solution.
    pub fn with_solution(config: GameConfig, solution: Guess) -> (r: Game)
        requires
            config.valid(),
            solution@.len() == config.hole_count,
            colors_below(solution@, config.num_colors as nat),
        ensures
            r.wf(),
            r@.config == config,
            r@.solution == solution@,
            r@.guesses == Seq::<Seq<usize>>::empty(),
            r@.hints == Seq::<Hint>::empty(),
            r@.current == Seq::<usize>::empty(),
    {
        let r = Game {
            config,
            solution,
            guesses: Vec::new(),
            hints: Vec::new(),
            current_guess: Guess::new(),
        };
        assert(r@.guesses =~= Seq::<Seq<usize>>::empty());
        r
    }

    /// Starts a game against a solution drawn from `rng`: no repeated color
    /// unless the configuration allows duplicates.
    pub fn new(config: GameConfig, rng: &mut StdRng) -> (r: Game)
        requires
            config.valid(),
        ensures
            r.wf(),
            r@.config == config,
            !config.allow_duplicates ==> r@.solution.no_duplicates(),
            r@.guesses == Seq::<Seq<usize>>::empty(),
            r@.hints == Seq::<Hint>::empty(),
            r@.current == Seq::<usize>::empty(),
    {
        let solution = generate_solution(rng, &config);
        Game::with_solution(config, solution)
    }

    /// The rules of this game.
    pub fn config(&self) -> (r: GameConfig)
        ensures
            r == self@.config,
    {
        self.config
    }

    /// The submitted guesses, oldest first.
    pub fn guesses(&self) -> (r: &[Guess])
        ensures
            r@.map_values(|g: Guess| g@) == self@.guesses,
    {
        self.guesses.as_slice()
    }

    /// The hints, paired by index with the submitted guesses.
    pub fn hints(&self) -> (r: &[Hint])
        ensures
            r@ == self@.hints,
    {
        self.hints.as_slice()
    }

    /// The guess being filled in.
    pub fn current_guess(&self) -> (r: &Guess)
        ensures
            r@ == self@.current,
    {
        &self.current_guess
    }

    /// The solution, revealed only once the game is won or lost.
    pub fn solution(&self) -> (r: Option<&Guess>)
        requires
            self.wf(),
        ensures
            r is Some <==> self@.status() != State::Playing,
            r matches Some(s) ==> s@ == self@.solution,
    {
        if self.status() == State::Playing {
            None
        } else {
            Some(&self.solution)
        }
    }

    /// Where the game stands, computed from the last hint and the number of
    /// guesses.
    pub fn status(&self) -> (r: State)
        requires
            self.wf(),
        ensures
            r == self@.status(),
    {
        let n = self.hints.len();
        if n > 0 && self.hints[n - 1].bulls == self.config.hole_count {
            State::Won
        } else if self.guesses.len() >= self.config.max_guesses {
            State::Lost
        } else {
            State::Playing
        }
    }

    /// Places `color` in the next hole of the current guess; a no-op when
    /// the game is over, the guess is full or the color does not exist.
    pub fn append_color(&mut self, color: usize)
        requires
            old(self).wf(),
        ensures
            final(self).wf(),
            final(self)@ == old(self)@.append_color(color),
    {
        if self.status() == State::Playing && self.current_guess.0.len() < self.config.hole_count
            && color < self.config.num_colors {
            self.current_guess.0.push(color);
        }
    }

    /// Takes back the last color of the current guess; a no-op when the game
    /// is over or the guess is empty.
    pub fn remove_last_color(&mut self)
        requires
            old(self).wf(),
        ensures
            final(self).wf(),
            final(self)@ == old(self)@.remove_last_color(),
    {
        if self.status() == State::Playing && self.current_guess.0.len() > 0 {
            self.current_guess.0.pop();
        }
    }

    /// Submits the current guess: scores it, appends it and its hint to the
    /// history and empties the current guess. A no-op when the game is over
    /// or the guess is not full.
    pub fn submit_guess(&mut self)
        requires
            old(self).wf(),
        ensures
            final(self).wf(),
            final(self)@ == old(self)@.submit_guess(),
    {
        if self.status() == State::Playing && self.current_guess.0.len() == self.config.hole_count {
            let ghost before = self@;
            let mut guess = Guess::new();
            std::mem::swap(&mut guess, &mut self.current_guess);
            let hint = calc_hint(&guess, &self.solution, self.config.num_colors);
            self.guesses.push(guess);
            self.hints.push(hint);
            proof {
                assert(self@.guesses =~= before.guesses.push(before.current));
                assert(self@.hints =~= before.hints.push(hint_of(before.current, before.solution)));
                assert(self@ == before.submit_guess());
            }
        }
    }

    /// Applies one command and says whether the session goes on: it ends on
    /// `Quit` and once the game is won or lost.
    pub fn apply(&mut self, cmd: Command) -> (r: bool)
        requires
            old(self).wf(),
        ensures
            final(self).wf(),
            final(self)@ == old(self)@.step(cmd),
            r == (cmd != Command::Quit && final(self)@.status() == State::Playing),
    {
        match cmd {
            Command::AppendColor(c) => self.append_color(c),
            Command::RemoveLast => self.remove_last_color(),
            Command::Submit => self.submit_guess(),
            Command::Quit => {
                return false;
            },
        }
        self.status() == State::Playing
    }
}

/// Once the game is won or lost, every command leaves it as it is.
pub proof fn lemma_terminal_is_final(m: GameModel, cmd: Command)
    requires
        m.status() != State::Playing,
    ensures
        m.step(cmd) == m,
{
}

/// Placing a color in a full guess changes nothing, and neither does
/// submitting a guess that is not full.
pub proof fn lemma_guarded_commands(m: GameModel, color: usize)
    ensures
        m.current.len() >= m.config.hole_count ==> m.append_color(color) == m,
        m.current.len() != m.config.hole_count ==> m.submit_guess() == m,
{
}

/// Submitting the solution itself scores a bull in every hole and no cow,
/// and wins.
pub proof fn lemma_exact_guess_wins(m: GameModel)
    requires
        m.valid(),
        m.status() == State::Playing,
        m.current == m.solution,
    ensures
        m.submit_guess().hints.last() == (Hint { bulls: m.config.hole_count, cows: 0 }),
        m.submit_guess().status() == State::Won,
{
    lemma_perfect_guess(m.solution);
}

/// With a single guess allowed, submitting anything but the solution loses.
pub proof fn lemma_single_wrong_guess_loses(m: GameModel)
    requires
        m.valid(),
        m.config.max_guesses == 1,
        m.guesses.len() == 0,
        m.current.len() == m.config.hole_count,
        m.current != m.solution,
    ensures
        m.submit_guess().guesses.len() == 1,
        m.submit_guess().status() == State::Lost,
{
    lemma_unmatched_len(m.current, m.solution);
    if bulls_of(m.current, m.solution) == m.config.hole_count {
        lemma_all_bulls_is_equal(m.current, m.solution);
    }
}

} // verus!
