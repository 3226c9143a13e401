use mastermind::{Command, ConfigError, Game, GameConfig, Guess, Hint, State, MAX_COLORS};
use rand::rngs::StdRng;
use rand::SeedableRng;

fn config(colors: usize, guesses: usize, holes: usize, dup: bool) -> GameConfig {
    GameConfig::new(colors, guesses, holes, dup).unwrap()
}

fn type_row(game: &mut Game, row: &[usize]) {
    for c in row {
        assert!(game.apply(Command::AppendColor(*c)));
    }
}

#[test]
fn win_scenario() {
    let mut game = Game::with_solution(config(6, 8, 4, true), Guess(vec![0, 1, 2, 3]));
    assert_eq!(game.status(), State::Playing);
    assert!(game.solution().is_none());
    type_row(&mut game, &[0, 1, 2, 3]);
    assert!(!game.apply(Command::Submit));
    assert_eq!(game.hints(), &[Hint { bulls: 4, cows: 0 }]);
    assert_eq!(game.status(), State::Won);
    assert_eq!(game.solution().unwrap().0, vec![0, 1, 2, 3]);
}

#[test]
fn loss_scenario() {
    let mut game = Game::with_solution(config(6, 1, 4, true), Guess(vec![0, 1, 2, 3]));
    type_row(&mut game, &[0, 1, 2, 4]);
    assert!(!game.apply(Command::Submit));
    assert_eq!(game.hints(), &[Hint { bulls: 3, cows: 0 }]);
    assert_eq!(game.status(), State::Lost);
    assert!(game.solution().is_some());
}

#[test]
fn loss_after_all_guesses() {
    let mut game = Game::with_solution(config(6, 2, 2, true), Guess(vec![5, 5]));
    type_row(&mut game, &[0, 1]);
    assert!(game.apply(Command::Submit));
    assert_eq!(game.status(), State::Playing);
    type_row(&mut game, &[1, 0]);
    assert!(!game.apply(Command::Submit));
    assert_eq!(game.status(), State::Lost);
    assert_eq!(game.guesses().len(), 2);
    assert_eq!(game.guesses()[1].0, vec![1, 0]);
}

#[test]
fn append_beyond_holes_is_noop() {
    let mut game = Game::with_solution(config(6, 8, 3, true), Guess(vec![0, 1, 2]));
    type_row(&mut game, &[4, 4, 4]);
    game.append_color(1);
    assert_eq!(game.current_guess().0, vec![4, 4, 4]);
}

#[test]
fn append_unknown_color_is_noop() {
    let mut game = Game::with_solution(config(3, 8, 3, true), Guess(vec![0, 1, 2]));
    game.append_color(3);
    assert!(game.current_guess().is_empty());
}

#[test]
fn submit_partial_guess_is_noop() {
    let mut game = Game::with_solution(config(6, 8, 4, true), Guess(vec![0, 1, 2, 3]));
    type_row(&mut game, &[0, 1]);
    assert!(game.apply(Command::Submit));
    assert!(game.guesses().is_empty());
    assert!(game.hints().is_empty());
    assert_eq!(game.current_guess().0, vec![0, 1]);
}

#[test]
fn remove_last_and_on_empty() {
    let mut game = Game::with_solution(config(6, 8, 4, true), Guess(vec![0, 1, 2, 3]));
    game.remove_last_color();
    assert!(game.current_guess().is_empty());
    type_row(&mut game, &[2, 3]);
    assert!(game.apply(Command::RemoveLast));
    assert_eq!(game.current_guess().0, vec![2]);
}

#[test]
fn commands_after_win_change_nothing() {
    let mut game = Game::with_solution(config(6, 8, 2, true), Guess(vec![1, 2]));
    type_row(&mut game, &[1, 2]);
    game.submit_guess();
    assert_eq!(game.status(), State::Won);
    game.append_color(0);
    game.submit_guess();
    game.remove_last_color();
    assert!(game.current_guess().is_empty());
    assert_eq!(game.guesses().len(), 1);
    assert_eq!(game.hints().len(), 1);
    assert_eq!(game.status(), State::Won);
}

#[test]
fn commands_after_loss_change_nothing() {
    let mut game = Game::with_solution(config(6, 1, 2, true), Guess(vec![1, 2]));
    type_row(&mut game, &[2, 1]);
    game.submit_guess();
    assert_eq!(game.status(), State::Lost);
    assert_eq!(game.hints(), &[Hint { bulls: 0, cows: 2 }]);
    game.append_color(0);
    game.submit_guess();
    assert_eq!(game.guesses().len(), 1);
    assert!(game.current_guess().is_empty());
}

#[test]
fn quit_stops_the_session() {
    let mut game = Game::with_solution(config(6, 8, 4, true), Guess(vec![0, 1, 2, 3]));
    assert!(!game.apply(Command::Quit));
    assert_eq!(game.status(), State::Playing);
}

#[test]
fn config_errors() {
    assert_eq!(GameConfig::new(0, 8, 4, true), Err(ConfigError::ZeroCount));
    assert_eq!(GameConfig::new(6, 0, 4, true), Err(ConfigError::ZeroCount));
    assert_eq!(GameConfig::new(6, 8, 0, true), Err(ConfigError::ZeroCount));
    assert_eq!(GameConfig::new(MAX_COLORS + 1, 8, 4, true), Err(ConfigError::TooManyColors));
    assert_eq!(GameConfig::new(3, 8, 4, false), Err(ConfigError::FewerColorsThanHoles));
    assert!(GameConfig::new(3, 8, 4, true).is_ok());
    assert!(GameConfig::new(MAX_COLORS, 8, 7, false).is_ok());
}

#[test]
fn new_game_starts_empty() {
    let mut rng = StdRng::seed_from_u64(1);
    let game = Game::new(config(6, 8, 4, false), &mut rng);
    assert_eq!(game.status(), State::Playing);
    assert!(game.guesses().is_empty());
    assert!(game.current_guess().is_empty());
    assert_eq!(game.config().hole_count, 4);
}
