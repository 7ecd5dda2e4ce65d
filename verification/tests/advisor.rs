//! Tests of the advisor's board view, renderings, prompts and timestamps.

use minesweeper::advisor::{image_bytes, BoardView, InputMode};
use minesweeper::calendar::{civil_from_days, current_timestamp};
use minesweeper::domain::{CellContent, CellState, CellView, Difficulty, Features, GameState, Position};
use minesweeper::game::{Game, GameConfig};
use minesweeper::protocol::ContentBlock;

fn sample_view() -> BoardView {
    // 2x2: (0,0) revealed 0, (0,1) flagged, (1,0) revealed 2, (1,1) hidden.
    BoardView {
        difficulty: Difficulty::Beginner,
        state: GameState::Playing,
        rows: 2,
        cols: 2,
        mine_count: 10,
        flags_remaining: 9,
        cells: vec![
            CellView {
                state: CellState::Revealed,
                content: Some(CellContent::Number(0)),
            },
            CellView {
                state: CellState::Flagged,
                content: None,
            },
            CellView {
                state: CellState::Revealed,
                content: Some(CellContent::Number(2)),
            },
            CellView {
                state: CellState::Hidden,
                content: None,
            },
        ],
    }
}

fn fresh_game() -> Game {
    Game::with_config(GameConfig::new(Difficulty::Beginner, Features::NONE, None))
}

#[test]
fn mod_from_game_reflects_a_fresh_game() {
    let view = BoardView::from_game(&fresh_game());
    assert_eq!(view.difficulty, Difficulty::Beginner);
    assert_eq!(view.state, GameState::Ready);
    assert_eq!(view.rows, 9);
    assert_eq!(view.cols, 9);
    assert_eq!(view.mine_count, 10);
    assert_eq!(view.flags_remaining, 10);
    assert_eq!(view.cells.len(), 81);
    assert!(
        view.cells
            .iter()
            .all(|c| c.state == CellState::Hidden && c.content.is_none())
    );
}

#[test]
fn mod_from_game_flags_remaining_can_be_negative() {
    let mut game =
        Game::with_mines(Difficulty::Beginner, Features::NONE, &[Position::new(0, 0)]);
    // Over-flag: place more Flags than the 10-mine budget.
    for row in 0..2 {
        for col in 0..6 {
            game.toggle_flag(Position::new(row, col));
        }
    }
    let view = BoardView::from_game(&game);
    assert_eq!(view.flags_remaining, 10 - 12);
}

#[test]
fn mod_from_game_reads_only_visible_state() {
    // Reveal a non-mine so we're mid-game; the two Mines stay hidden.
    let mut game = Game::with_mines(
        Difficulty::Beginner,
        Features::NONE,
        &[Position::new(0, 1), Position::new(1, 0)],
    );
    game.reveal_cell(Position::new(0, 0));
    assert_eq!(game.game_state(), GameState::Playing);
    let view = BoardView::from_game(&game);
    // The hidden Mine cells are visible as Hidden, not as Revealed Mine.
    assert_eq!(view.cells[0 * 9 + 1].state, CellState::Hidden);
    assert_eq!(view.cells[1 * 9 + 0].state, CellState::Hidden);
    assert_eq!(view.cells[0 * 9 + 0].state, CellState::Revealed);
    assert_eq!(view.cells[0 * 9 + 0].content, Some(CellContent::Number(2)));
}

#[test]
fn mod_system_prompt_is_the_trimmed_core_plus_the_modes_own_section() {
    for (mode, legend) in [
        (InputMode::Plain, "- `.`：未开"),
        (InputMode::Emoji, "- ⬛：未开"),
        (InputMode::Image, "扫雷布局将以棋盘截图的形式展现给你。"),
    ] {
        let p = mode.system_prompt();
        assert!(p.contains("坐标写作 (row,col)"), "core missing: {mode:?}");
        assert!(p.contains(legend), "own section missing: {mode:?}");
        assert!(!p.ends_with('\n'), "trailing newline: {mode:?}");
        assert!(!p.contains("\n\n\n"), "extra blank line: {mode:?}");
    }
}

#[test]
fn mod_a_mode_carries_only_its_own_legend() {
    let plain = InputMode::Plain.system_prompt();
    let emoji = InputMode::Emoji.system_prompt();
    let image = InputMode::Image.system_prompt();
    assert!(plain.contains("- `F`：插旗"));
    assert!(!plain.contains("- 🚩：插旗"));
    assert!(emoji.contains("- 🚩：插旗"));
    assert!(!emoji.contains("- `F`：插旗"));
    assert!(!image.contains("- `F`：插旗"));
    assert!(!image.contains("- 🚩：插旗"));
}

#[test]
fn mod_plain_user_message_is_the_bare_board() {
    let blocks = InputMode::Plain.user_message(&sample_view(), "");
    assert_eq!(blocks, vec![ContentBlock::Text("0F\n2.".to_string())]);
}

#[test]
fn mod_emoji_user_message_is_the_bare_board() {
    let blocks = InputMode::Emoji.user_message(&sample_view(), "");
    assert_eq!(blocks, vec![ContentBlock::Text("⬜🚩\n2️⃣⬛".to_string())]);
}

#[test]
fn mod_image_user_message_is_the_screenshot_alone() {
    let blocks = InputMode::Image.user_message(&sample_view(), "data:image/png;base64,AAAA");
    assert_eq!(
        blocks,
        vec![ContentBlock::ImageUrl(
            "data:image/png;base64,AAAA".to_string()
        )]
    );
}

#[test]
fn mod_civil_from_days_matches_the_unix_epoch() {
    assert_eq!(civil_from_days(0), "19700101");
}

#[test]
fn mod_current_timestamp_is_yyyymmdd_hhmmss() {
    let ts = current_timestamp();
    // `YYYYMMDD_HHMMSS` = 8 digits + '_' + 6 digits.
    assert_eq!(ts.len(), 15);
    assert!(
        ts.chars()
            .enumerate()
            .all(|(i, c)| { (i == 8 && c == '_') || (i != 8 && c.is_ascii_digit()) })
    );
}

#[test]
fn lib_system_prompt_is_the_trimmed_core_plus_the_modes_own_section() {
    for (mode, legend) in [
        (InputMode::Plain, "- `.`：未开"),
        (InputMode::Emoji, "- ⬛：未开"),
        (InputMode::Image, "扫雷布局将以棋盘截图的形式展现给你。"),
    ] {
        let p = mode.system_prompt();
        assert!(p.contains("坐标写作 (row,col)"), "core missing: {mode:?}");
        assert!(p.contains(legend), "own section missing: {mode:?}");
        assert!(!p.ends_with('\n'), "trailing newline: {mode:?}");
        assert!(!p.contains("\n\n\n"), "extra blank line: {mode:?}");
    }
}

#[test]
fn lib_a_mode_carries_only_its_own_legend() {
    let plain = InputMode::Plain.system_prompt();
    let emoji = InputMode::Emoji.system_prompt();
    let image = InputMode::Image.system_prompt();
    assert!(plain.contains("- `F`：插旗"));
    assert!(!plain.contains("- 🚩：插旗"));
    assert!(emoji.contains("- 🚩：插旗"));
    assert!(!emoji.contains("- `F`：插旗"));
    assert!(!image.contains("- `F`：插旗"));
    assert!(!image.contains("- 🚩：插旗"));
}

#[test]
fn lib_civil_from_days_matches_the_unix_epoch() {
    assert_eq!(civil_from_days(0), "19700101");
}

#[test]
fn lib_current_timestamp_is_yyyymmdd_hhmmss() {
    let ts = current_timestamp();
    // `YYYYMMDD_HHMMSS` = 8 digits + '_' + 6 digits.
    assert_eq!(ts.len(), 15);
    assert!(
        ts.chars()
            .enumerate()
            .all(|(i, c)| { (i == 8 && c == '_') || (i != 8 && c.is_ascii_digit()) })
    );
}

#[test]
fn lib_from_game_reflects_a_fresh_game() {
    let view = BoardView::from_game(&fresh_game());
    assert_eq!(view.difficulty, Difficulty::Beginner);
    assert_eq!(view.state, GameState::Ready);
    assert_eq!(view.rows, 9);
    assert_eq!(view.cols, 9);
    assert_eq!(view.mine_count, 10);
    assert_eq!(view.flags_remaining, 10);
    assert_eq!(view.cells.len(), 81);
    assert!(
        view.cells
            .iter()
            .all(|c| c.state == CellState::Hidden && c.content.is_none())
    );
}

#[test]
fn lib_from_game_flags_remaining_can_be_negative() {
    let mut game =
        Game::with_mines(Difficulty::Beginner, Features::NONE, &[Position::new(0, 0)]);
    // Over-flag: place more Flags than the 10-mine budget.
    for row in 0..2 {
        for col in 0..6 {
            game.toggle_flag(Position::new(row, col));
        }
    }
    let view = BoardView::from_game(&game);
    assert_eq!(view.flags_remaining, 10 - 12);
}

#[test]
fn lib_from_game_reads_only_visible_state() {
    // Reveal a non-mine so we're mid-game; the two Mines stay hidden.
    let mut game = Game::with_mines(
        Difficulty::Beginner,
        Features::NONE,
        &[Position::new(0, 1), Position::new(1, 0)],
    );
    game.reveal_cell(Position::new(0, 0));
    assert_eq!(game.game_state(), GameState::Playing);
    let view = BoardView::from_game(&game);
    // The hidden Mine cells are visible as Hidden, not as Revealed Mine.
    assert_eq!(view.cells[0 * 9 + 1].state, CellState::Hidden);
    assert_eq!(view.cells[1 * 9 + 0].state, CellState::Hidden);
    assert_eq!(view.cells[0 * 9 + 0].state, CellState::Revealed);
    assert_eq!(view.cells[0 * 9 + 0].content, Some(CellContent::Number(2)));
}

#[test]
fn lib_plain_user_message_is_the_bare_board() {
    let blocks = InputMode::Plain.user_message(&sample_view(), "");
    assert_eq!(blocks, vec![ContentBlock::Text("0F\n2.".to_string())]);
}

#[test]
fn lib_emoji_user_message_is_the_bare_board() {
    let blocks = InputMode::Emoji.user_message(&sample_view(), "");
    assert_eq!(blocks, vec![ContentBlock::Text("⬜🚩\n2️⃣⬛".to_string())]);
}

#[test]
fn lib_image_user_message_is_the_screenshot_alone() {
    let blocks = InputMode::Image.user_message(&sample_view(), "data:image/png;base64,AAAA");
    assert_eq!(
        blocks,
        vec![ContentBlock::ImageUrl(
            "data:image/png;base64,AAAA".to_string()
        )]
    );
}

// The decoding half of persisting a screenshot; writing the file is the
// server's.

#[test]
fn lib_persist_image_rejects_non_data_urls() {
    assert!(image_bytes("not-a-data-url").is_err());
    assert!(image_bytes("data:text/plain,hello").is_err());
    assert!(image_bytes("data:image/png;base64,!!!").is_err());
}

#[test]
fn lib_persist_image_writes_for_valid_base64() {
    // "AAAA" decodes to 3 bytes; we write them regardless of PNG validity.
    assert!(image_bytes("data:image/png;base64,AAAA").is_ok());
}

#[test]
fn mod_persist_image_rejects_non_data_urls() {
    assert!(image_bytes("not-a-data-url").is_err());
    assert!(image_bytes("data:text/plain,hello").is_err());
    assert!(image_bytes("data:image/png;base64,!!!").is_err());
}

#[test]
fn mod_persist_image_writes_for_valid_base64() {
    assert!(image_bytes("data:image/png;base64,AAAA").is_ok());
}

#[test]
fn image_bytes_decodes_the_payload_after_the_marker() {
    assert_eq!(image_bytes("data:image/png;base64,AAAA"), Ok(vec![0, 0, 0]));
    assert_eq!(image_bytes("data:image/png;base64,aGk="), Ok(b"hi".to_vec()));
    assert_eq!(image_bytes("not-a-data-url"), Err("not a base64 data URL".to_string()));
}
