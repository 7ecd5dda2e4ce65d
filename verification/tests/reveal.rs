//! Tests of the Reveal cascade's extent and of the Timer across actions.

use minesweeper::domain::{CellState, Difficulty, Features, GameState, Position};
use minesweeper::game::Game;

#[test]
fn a_cascade_stops_at_a_wall_of_mines() {
    let wall: Vec<Position> = (0..9).map(|row| Position::new(row, 4)).collect();
    let mut game = Game::with_mines(Difficulty::Beginner, Features::NONE, &wall);
    game.reveal_cell(Position::new(0, 0));
    assert_eq!(game.game_state(), GameState::Playing);
    for row in 0..9 {
        for col in 0..4 {
            assert_eq!(game.cell_view(Position::new(row, col)).state, CellState::Revealed);
        }
        for col in 4..9 {
            assert_eq!(game.cell_view(Position::new(row, col)).state, CellState::Hidden);
        }
    }
}

#[test]
fn a_chord_is_a_noop_when_flags_exceed_its_number() {
    let mut game = Game::with_mines(Difficulty::Beginner, Features::NONE, &[Position::new(0, 0)]);
    game.reveal_cell(Position::new(1, 1));
    for col in 0..9 {
        game.toggle_flag(Position::new(3, col));
    }
    game.toggle_flag(Position::new(0, 0));
    game.toggle_flag(Position::new(0, 1));
    assert_eq!(game.flags_remaining(), -1);
    game.chord(Position::new(1, 1));
    assert_eq!(game.game_state(), GameState::Playing);
    assert_eq!(game.cell_view(Position::new(0, 1)).state, CellState::Flagged);
    assert_eq!(game.cell_view(Position::new(1, 0)).state, CellState::Hidden);
    assert_eq!(game.flags_remaining(), -1);
}

#[test]
fn an_ended_game_keeps_its_elapsed_time() {
    let mut game = Game::with_mines(
        Difficulty::Beginner,
        Features::NONE,
        &[Position::new(0, 0), Position::new(8, 8)],
    );
    game.reveal_cell(Position::new(0, 0));
    assert_eq!(game.game_state(), GameState::Lost);
    let frozen = game.elapsed();
    game.chord(Position::new(1, 1));
    game.reveal_cell(Position::new(4, 4));
    assert_eq!(game.elapsed(), frozen);
}
