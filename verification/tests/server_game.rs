//! Tests of the game-state API: player actions on the game.

use minesweeper::domain::{Difficulty, Features, GameState, Position};
use minesweeper::game::{Game, GameConfig};
use minesweeper::server::{apply_action, ActionOutcome};
use minesweeper::wire::{ActionDto, ActionKind, GameSnapshot, PositionDto};

fn action(
    kind: ActionKind,
    row: Option<usize>,
    col: Option<usize>,
    difficulty: Option<&str>,
) -> ActionDto {
    ActionDto {
        kind,
        row,
        col,
        difficulty: difficulty.map(str::to_owned),
    }
}

#[test]
fn mod_reveal_action_places_mines_and_starts_playing() {
    // Preset Mines so the First Click is deterministically safe: #19
    // removed the protection, so a random game could lose on (0, 0).
    // Two Mines adjacent to (0, 0) make it reveal a Number, not cascade.
    let mut game = Game::with_mines(
        Difficulty::Beginner,
        Features::NONE,
        &[Position::new(0, 1), Position::new(1, 0)],
    );
    apply_action(
        &mut game,
        &action(ActionKind::Reveal, Some(0), Some(0), None),
    )
    .unwrap();
    assert_eq!(game.game_state(), GameState::Playing);
}

#[test]
fn mod_new_game_action_switches_difficulty() {
    let mut game =
        Game::with_config(GameConfig::new(Difficulty::Beginner, Features::NONE, None));
    apply_action(
        &mut game,
        &action(ActionKind::NewGame, None, None, Some("expert")),
    )
    .unwrap();
    assert_eq!(game.difficulty(), Difficulty::Expert);
    assert_eq!(game.size(), Difficulty::Expert.size());
}

#[test]
fn mod_new_game_without_difficulty_keeps_current() {
    let mut game = Game::with_config(GameConfig::new(Difficulty::Expert, Features::NONE, None));
    apply_action(&mut game, &action(ActionKind::NewGame, None, None, None)).unwrap();
    assert_eq!(game.difficulty(), Difficulty::Expert);
}

#[test]
fn mod_missing_coordinates_are_rejected() {
    let mut game =
        Game::with_config(GameConfig::new(Difficulty::Beginner, Features::NONE, None));
    let err =
        apply_action(&mut game, &action(ActionKind::Reveal, None, None, None)).unwrap_err();
    assert!(err.contains("row and col"));
}

#[test]
fn mod_bad_difficulty_is_rejected() {
    let mut game =
        Game::with_config(GameConfig::new(Difficulty::Beginner, Features::NONE, None));
    let err = apply_action(
        &mut game,
        &action(ActionKind::NewGame, None, None, Some("insane")),
    )
    .unwrap_err();
    assert!(err.contains("invalid difficulty"));
}

#[test]
fn prank_first_reveal_loses_with_trigger_in_snapshot() {
    let mut game = Game::with_config(GameConfig::new(
        Difficulty::Beginner,
        Features::prank(),
        None,
    ));
    apply_action(
        &mut game,
        &action(ActionKind::Reveal, Some(0), Some(0), None),
    )
    .unwrap();
    let dto = GameSnapshot::from_game(&game);
    assert_eq!(dto.game_state, "lost");
    assert_eq!(dto.trigger, Some(PositionDto { row: 0, col: 0 }));
    // The wire only ever shows a Lost game — the Prank Feature is invisible on it (ADR-0002).
}

#[test]
fn mod_fixed_seed_is_reused_for_every_new_game() {
    let mut game = Game::with_config(GameConfig::new(
        Difficulty::Beginner,
        Features::NONE,
        Some(42),
    ));
    apply_action(&mut game, &action(ActionKind::NewGame, None, None, None)).unwrap();
    // A pinned Seed is deferred: committed only at the First Click.
    assert_eq!(game.committed_seed(), None);
    game.reveal_cell(Position::new(0, 0));
    assert_eq!(game.committed_seed(), Some(42));
    apply_action(
        &mut game,
        &action(ActionKind::NewGame, None, None, Some("expert")),
    )
    .unwrap();
    game.reveal_cell(Position::new(0, 0));
    assert_eq!(game.committed_seed(), Some(42));
}

#[test]
fn mod_new_game_without_fixed_seed_draws_fresh_seeds() {
    let mut game =
        Game::with_config(GameConfig::new(Difficulty::Beginner, Features::NONE, None));
    apply_action(&mut game, &action(ActionKind::NewGame, None, None, None)).unwrap();
    game.reveal_cell(Position::new(0, 0));
    let first = game.committed_seed().unwrap();
    apply_action(&mut game, &action(ActionKind::NewGame, None, None, None)).unwrap();
    game.reveal_cell(Position::new(0, 0));
    assert_ne!(game.committed_seed().unwrap(), first);
}

#[test]
fn new_game_action_reports_a_new_game() {
    let mut game = Game::with_config(GameConfig::new(
        Difficulty::Beginner,
        Features::NONE,
        Some(7),
    ));
    let outcome =
        apply_action(&mut game, &action(ActionKind::NewGame, None, None, None)).unwrap();
    assert!(matches!(outcome, ActionOutcome::NewGame));
    // A pinned Seed is deferred to the First Click.
    assert_eq!(game.committed_seed(), None);
    let outcome = apply_action(
        &mut game,
        &action(ActionKind::Reveal, Some(0), Some(0), None),
    )
    .unwrap();
    assert!(matches!(outcome, ActionOutcome::Applied));
    assert_eq!(game.committed_seed(), Some(7));
}

#[test]
fn new_game_reuses_session_features_and_seed() {
    let mut game = Game::with_config(GameConfig::new(
        Difficulty::Beginner,
        Features::prank(),
        None,
    ));
    apply_action(&mut game, &action(ActionKind::NewGame, None, None, None)).unwrap();
    assert_eq!(game.features(), Features::prank());
    // Prank is non-reproducible: the Seed is dropped at the model
    // boundary (ADR-0010), so the committed Seed is a local draw at the
    // First Click, not a pinned value.
    assert_eq!(game.committed_seed(), None);
    apply_action(
        &mut game,
        &action(ActionKind::Reveal, Some(0), Some(0), None),
    )
    .unwrap();
    assert_eq!(game.game_state(), GameState::Lost);
    assert_ne!(game.committed_seed(), Some(5));
}

#[test]
fn new_game_without_seed_is_random_and_unpranked() {
    let mut game =
        Game::with_config(GameConfig::new(Difficulty::Beginner, Features::NONE, None));
    apply_action(&mut game, &action(ActionKind::NewGame, None, None, None)).unwrap();
    assert_eq!(game.features(), Features::NONE);
    assert_eq!(game.committed_seed(), None);
}
