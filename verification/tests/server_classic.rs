//! Tests of the game-state API over the mode-based game: snapshots and
//! player actions.

use minesweeper::classic::{Game, GameMode};
use minesweeper::classic_server::{apply_action, snapshot};
use minesweeper::domain::{Difficulty, GameState, Position};
use minesweeper::wire::{ActionDto, ActionKind, ContentDto, PositionDto};
use minesweeper::classic_server::{cell_state_str, difficulty_str, game_state_str};
use minesweeper::domain::CellState;
use minesweeper::classic_server::parse_difficulty;

fn action(
    kind: ActionKind,
    row: Option<usize>,
    col: Option<usize>,
    difficulty: Option<&str>,
) -> ActionDto {
    ActionDto {
        kind,
        row,
        col,
        difficulty: difficulty.map(str::to_owned),
    }
}

#[test]
fn snapshot_reflects_a_fresh_game() {
    let game = Game::new(Difficulty::Beginner, GameMode::Classic);
    let dto = snapshot(&game);
    assert_eq!(dto.game_state, "ready");
    assert_eq!(dto.difficulty, "beginner");
    assert_eq!(dto.rows, 9);
    assert_eq!(dto.cols, 9);
    assert_eq!(dto.flags_remaining, 10);
    assert_eq!(dto.elapsed_secs, 0);
    assert_eq!(dto.trigger, None);
    assert_eq!(dto.cells.len(), 81);
    assert!(
        dto.cells
            .iter()
            .all(|c| c.state == "hidden" && c.content.is_none())
    );
}

#[test]
fn server_reveal_action_places_mines_and_starts_playing() {
    // Preset Mines so the First Click is deterministically safe: #19
    // removed the protection, so a random game could lose on (0, 0).
    // Two Mines adjacent to (0, 0) make it reveal a Number, not cascade.
    let mut game = Game::with_mines(
        Difficulty::Beginner,
        GameMode::Classic,
        &[Position::new(0, 1), Position::new(1, 0)],
    );
    apply_action(
        &mut game,
        GameMode::Classic,
        None,
        &action(ActionKind::Reveal, Some(0), Some(0), None),
    )
    .unwrap();
    assert_eq!(game.game_state(), GameState::Playing);
}

#[test]
fn server_new_game_action_switches_difficulty() {
    let mut game = Game::new(Difficulty::Beginner, GameMode::Classic);
    apply_action(
        &mut game,
        GameMode::Classic,
        None,
        &action(ActionKind::NewGame, None, None, Some("expert")),
    )
    .unwrap();
    assert_eq!(game.difficulty(), Difficulty::Expert);
    assert_eq!(game.size(), Difficulty::Expert.size());
}

#[test]
fn server_new_game_without_difficulty_keeps_current() {
    let mut game = Game::new(Difficulty::Expert, GameMode::Classic);
    apply_action(
        &mut game,
        GameMode::Classic,
        None,
        &action(ActionKind::NewGame, None, None, None),
    )
    .unwrap();
    assert_eq!(game.difficulty(), Difficulty::Expert);
}

#[test]
fn server_missing_coordinates_are_rejected() {
    let mut game = Game::new(Difficulty::Beginner, GameMode::Classic);
    let err = apply_action(
        &mut game,
        GameMode::Classic,
        None,
        &action(ActionKind::Reveal, None, None, None),
    )
    .unwrap_err();
    assert!(err.contains("row and col"));
}

#[test]
fn server_bad_difficulty_is_rejected() {
    let mut game = Game::new(Difficulty::Beginner, GameMode::Classic);
    let err = apply_action(
        &mut game,
        GameMode::Classic,
        None,
        &action(ActionKind::NewGame, None, None, Some("insane")),
    )
    .unwrap_err();
    assert!(err.contains("invalid difficulty"));
}

#[test]
fn prank_mode_first_reveal_loses_with_trigger_in_snapshot() {
    let mut game = Game::new(Difficulty::Beginner, GameMode::Prank);
    apply_action(
        &mut game,
        GameMode::Prank,
        None,
        &action(ActionKind::Reveal, Some(0), Some(0), None),
    )
    .unwrap();
    let dto = snapshot(&game);
    assert_eq!(dto.game_state, "lost");
    assert_eq!(dto.trigger, Some(PositionDto { row: 0, col: 0 }));
    // The wire only ever shows a Lost game — the mode itself is invisible (ADR-0002).
}

#[test]
fn snapshot_maps_mine_and_number_content() {
    let mut game = Game::with_mines(
        Difficulty::Beginner,
        GameMode::Classic,
        &[Position::new(0, 0)],
    );
    game.reveal_cell(Position::new(0, 0));
    let dto = snapshot(&game);
    assert_eq!(dto.game_state, "lost");
    assert_eq!(dto.trigger, Some(PositionDto { row: 0, col: 0 }));
    assert_eq!(dto.cells[0].state, "revealed");
    assert_eq!(dto.cells[0].content, Some(ContentDto::Mine));

    let mut game = Game::with_mines(
        Difficulty::Beginner,
        GameMode::Classic,
        &[Position::new(0, 0)],
    );
    game.reveal_cell(Position::new(1, 1)); // one neighbor Mine
    let dto = snapshot(&game);
    let idx = dto.cols + 1;
    assert_eq!(dto.cells[idx].state, "revealed");
    assert_eq!(dto.cells[idx].content, Some(ContentDto::Number(1)));
}

#[test]
fn won_snapshot_flags_all_mines() {
    let mut game = Game::with_mines(
        Difficulty::Beginner,
        GameMode::Classic,
        &[Position::new(0, 0)],
    );
    let size = Difficulty::Beginner.size();
    for row in 0..size.rows {
        for col in 0..size.cols {
            if Position::new(row, col) != Position::new(0, 0) {
                game.reveal_cell(Position::new(row, col));
            }
        }
    }
    let dto = snapshot(&game);
    assert_eq!(dto.game_state, "won");
    assert_eq!(dto.flags_remaining, 0);
    // The lone Mine is serialized as a Flag on the Won board.
    assert_eq!(dto.cells[0].state, "flagged");
    assert_eq!(dto.cells[0].content, None);
}

#[test]
fn server_fixed_seed_is_reused_for_every_new_game() {
    let mut game = Game::new(Difficulty::Beginner, GameMode::Classic);
    apply_action(
        &mut game,
        GameMode::Classic,
        Some(42),
        &action(ActionKind::NewGame, None, None, None),
    )
    .unwrap();
    assert_eq!(game.seed(), 42);
    apply_action(
        &mut game,
        GameMode::Classic,
        Some(42),
        &action(ActionKind::NewGame, None, None, Some("expert")),
    )
    .unwrap();
    assert_eq!(game.seed(), 42);
}

#[test]
fn server_new_game_without_fixed_seed_draws_fresh_seeds() {
    let mut game = Game::new(Difficulty::Beginner, GameMode::Classic);
    apply_action(
        &mut game,
        GameMode::Classic,
        None,
        &action(ActionKind::NewGame, None, None, None),
    )
    .unwrap();
    let first = game.seed();
    apply_action(
        &mut game,
        GameMode::Classic,
        None,
        &action(ActionKind::NewGame, None, None, None),
    )
    .unwrap();
    assert_ne!(game.seed(), first);
}

#[test]
fn new_game_action_reports_the_created_seed() {
    let mut game = Game::new(Difficulty::Beginner, GameMode::Classic);
    let seed = apply_action(
        &mut game,
        GameMode::Classic,
        Some(7),
        &action(ActionKind::NewGame, None, None, None),
    )
    .unwrap()
    .expect("a new game was created");
    assert_eq!(seed, 7);
    let created = apply_action(
        &mut game,
        GameMode::Classic,
        None,
        &action(ActionKind::Reveal, Some(0), Some(0), None),
    )
    .unwrap();
    assert_eq!(created, None);
}

#[test]
fn wire_names_of_states_difficulties_and_cells() {
    assert_eq!(cell_state_str(CellState::Hidden), "hidden");
    assert_eq!(cell_state_str(CellState::Flagged), "flagged");
    assert_eq!(cell_state_str(CellState::Revealed), "revealed");
    assert_eq!(game_state_str(GameState::Won), "won");
    assert_eq!(difficulty_str(Difficulty::Intermediate), "intermediate");
}

#[test]
fn difficulty_names_parse_whatever_their_case() {
    assert_eq!(parse_difficulty("EXPERT"), Ok(Difficulty::Expert));
    assert_eq!(parse_difficulty("Beginner"), Ok(Difficulty::Beginner));
    assert_eq!(parse_difficulty("2"), Ok(Difficulty::Intermediate));
    assert_eq!(parse_difficulty("Insane"), Err("invalid difficulty 'insane': expected beginner|intermediate|expert or 1|2|3".to_string()));
}
