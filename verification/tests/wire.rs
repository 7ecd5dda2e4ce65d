//! Tests of the wire snapshot of a game.

use minesweeper::domain::{Difficulty, Features, Position};
use minesweeper::game::{Game, GameConfig};
use minesweeper::wire::{ContentDto, GameSnapshot, PositionDto};

#[test]
fn wire_from_game_reflects_a_fresh_game() {
    let game = Game::with_config(GameConfig::new(Difficulty::Beginner, Features::NONE, None));
    let dto = GameSnapshot::from_game(&game);
    assert_eq!(dto.game_state, "ready");
    assert_eq!(dto.difficulty, "beginner");
    assert_eq!(dto.rows, 9);
    assert_eq!(dto.cols, 9);
    assert_eq!(dto.flags_remaining, 10);
    assert_eq!(dto.elapsed_secs, 0);
    assert_eq!(dto.trigger, None);
    assert_eq!(dto.cells.len(), 81);
    assert!(
        dto.cells
            .iter()
            .all(|c| c.state == "hidden" && c.content.is_none())
    );
}

#[test]
fn from_game_maps_mine_and_number_content() {
    let mut game =
        Game::with_mines(Difficulty::Beginner, Features::NONE, &[Position::new(0, 0)]);
    game.reveal_cell(Position::new(0, 0));
    let dto = GameSnapshot::from_game(&game);
    assert_eq!(dto.game_state, "lost");
    assert_eq!(dto.trigger, Some(PositionDto { row: 0, col: 0 }));
    assert_eq!(dto.cells[0].state, "revealed");
    assert_eq!(dto.cells[0].content, Some(ContentDto::Mine));

    let mut game =
        Game::with_mines(Difficulty::Beginner, Features::NONE, &[Position::new(0, 0)]);
    game.reveal_cell(Position::new(1, 1)); // one neighbor Mine
    let dto = GameSnapshot::from_game(&game);
    let idx = dto.cols + 1;
    assert_eq!(dto.cells[idx].state, "revealed");
    assert_eq!(dto.cells[idx].content, Some(ContentDto::Number(1)));
}

#[test]
fn from_game_flags_all_mines_on_won() {
    let mut game =
        Game::with_mines(Difficulty::Beginner, Features::NONE, &[Position::new(0, 0)]);
    let size = Difficulty::Beginner.size();
    for row in 0..size.rows {
        for col in 0..size.cols {
            if Position::new(row, col) != Position::new(0, 0) {
                game.reveal_cell(Position::new(row, col));
            }
        }
    }
    let dto = GameSnapshot::from_game(&game);
    assert_eq!(dto.game_state, "won");
    assert_eq!(dto.flags_remaining, 0);
    // The lone Mine is serialized as a Flag on the Won board.
    assert_eq!(dto.cells[0].state, "flagged");
    assert_eq!(dto.cells[0].content, None);
}
