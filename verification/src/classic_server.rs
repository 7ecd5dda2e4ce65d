//! The game-state API over the mode-based game: the snapshot the client
//! renders from, and how a player action changes the live game. Every New
//! Game is created under the Pinned policy, with the session's fixed Seed or
//! a fresh random one.

use vstd::prelude::*;

use crate::board::{chorded, flag_toggled};
use crate::classic::{
    classic_revealed, fresh_classic, mode_features, ClassicModel, Game, GameConfig, GameMode, SeedPolicy,
};
use crate::clock::{duration_secs, whole_seconds, TimerPhase};
use crate::domain::{
    ascii_lower, cell_state_name, difficulty_name, difficulty_named, game_state_name,
    invalid_difficulty_message, CellState, Difficulty, GameState, Position, Seed,
};
use crate::sampling::random_seed;
use crate::server::missing_coordinates_message;
use crate::wire::{board_cells, cells_show, position_dto, position_to_dto, ActionDto, ActionKind, CellDto, PositionDto};

verus! {

/// The full game state the client renders from.
pub struct StateDto {
    pub game_state: &'static str,
    pub difficulty: &'static str,
    pub rows: usize,
    pub cols: usize,
    pub flags_remaining: i32,
    pub elapsed_secs: u64,
    /// The Trigger Mine of a Lost game; `None` otherwise.
    pub trigger: Option<PositionDto>,
    /// One entry per Cell, row-major.
    pub cells: Vec<CellDto>,
}

/// The wire name of a game state.
pub fn game_state_str(state: GameState) -> (r: &'static str)
    ensures
        r@ == game_state_name(state),
{
    state.as_str()
}

/// The wire name of a difficulty.
pub fn difficulty_str(difficulty: Difficulty) -> (r: &'static str)
    ensures
        r@ == difficulty_name(difficulty),
{
    difficulty.as_str()
}

/// The wire name of a Cell state.
pub fn cell_state_str(state: CellState) -> (r: &'static str)
    ensures
        r@ == cell_state_name(state),
{
    state.as_str()
}

/// Builds the wire snapshot of a game: its state and difficulty names, the
/// board size, the Flags Remaining counter, the whole seconds on the Timer,
/// the Trigger of a Lost game, and every Cell row-major.
pub fn snapshot(game: &Game) -> (r: StateDto)
    requires
        game@.wf(),
    ensures
        r.game_state@ == game_state_name(game@.board.state),
        r.difficulty@ == difficulty_name(game@.config.difficulty),
        r.rows == game@.board.size.rows,
        r.cols == game@.board.size.cols,
        r.flags_remaining == game@.board.flags_remaining(),
        game@.timer is Idle ==> r.elapsed_secs == 0,
        game@.timer matches TimerPhase::Frozen(d, _) ==> r.elapsed_secs == duration_secs(d),
        r.trigger == position_dto(game@.board.trigger),
        cells_show(r.cells@, game@.board),
{
    let size = game.size();
    let cells = board_cells(game.board());
    let elapsed = game.elapsed();
    StateDto {
        game_state: game_state_str(game.game_state()),
        difficulty: difficulty_str(game.difficulty()),
        rows: size.rows,
        cols: size.cols,
        flags_remaining: game.flags_remaining(),
        elapsed_secs: whole_seconds(&elapsed),
        trigger: position_to_dto(game.trigger()),
        cells,
    }
}

/// Parses a difficulty name, case-insensitively (ASCII), also accepting the
/// classic 1/2/3 numbers.
pub fn parse_difficulty(s: &str) -> (r: Result<Difficulty, String>)
    ensures
        difficulty_named(ascii_lower(s@)) matches Some(d) ==> r == Ok::<Difficulty, String>(d),
        difficulty_named(ascii_lower(s@)) is None ==> (r matches Err(msg) && msg@
            == invalid_difficulty_message(ascii_lower(s@))),
{
    Difficulty::parse(s)
}

/// The effect of a Reveal, Flag or Chord of `pos` on a game.
pub open spec fn classic_action_applied(o: ClassicModel, n: ClassicModel, kind: ActionKind, pos: Position) -> bool {
    match kind {
        ActionKind::Reveal => classic_revealed(o, n, pos),
        ActionKind::Flag => n == (ClassicModel { board: flag_toggled(o.board, pos), ..o }),
        ActionKind::Chord => n.config == o.config && chorded(o.board, n.board, pos),
        ActionKind::NewGame => false,
    }
}

/// The game a New Game starts: a Pinned game of the mode at the Difficulty
/// with the Seed.
pub open spec fn pinned_game(d: Difficulty, mode: GameMode, seed: Seed) -> ClassicModel {
    fresh_classic(
        GameConfig { difficulty: d, seed_policy: SeedPolicy::Pinned, features: mode_features(mode), seed },
    )
}

/// Applies an action to the game, replacing it for a new-game. A new-game
/// creates a Pinned game of the mode at the named Difficulty (the current one
/// when absent), with the fixed Seed or a fresh random one, and returns that
/// Seed; an unknown Difficulty is rejected. A Reveal, Flag or Chord needs
/// both coordinates and returns `None`.
pub fn apply_action(game: &mut Game, mode: GameMode, fixed_seed: Option<Seed>, action: &ActionDto) -> (r:
    Result<Option<Seed>, String>)
    requires
        old(game)@.wf(),
    ensures
        final(game)@.wf(),
        action.kind == ActionKind::NewGame ==> match action.difficulty {
            Some(raw) => match difficulty_named(ascii_lower(raw@)) {
                Some(d) => r matches Ok(Some(s)) && final(game)@ == pinned_game(d, mode, s) && (
                fixed_seed matches Some(f) ==> s == f),
                None => r matches Err(e) && e@ == invalid_difficulty_message(ascii_lower(raw@))
                    && final(game)@ == old(game)@,
            },
            None => r matches Ok(Some(s)) && final(game)@ == pinned_game(
                old(game)@.config.difficulty,
                mode,
                s,
            ) && (fixed_seed matches Some(f) ==> s == f),
        },
        action.kind != ActionKind::NewGame ==> match (action.row, action.col) {
            (Some(row), Some(col)) => r == Ok::<Option<Seed>, String>(None)
                && classic_action_applied(old(game)@, final(game)@, action.kind, Position { row, col }),
            _ => r matches Err(e) && e@ == missing_coordinates_message() && final(game)@ == old(game)@,
        },
{
    match action.kind {
        ActionKind::NewGame => {
            let difficulty = match &action.difficulty {
                Some(raw) => match parse_difficulty(raw.as_str()) {
                    Ok(d) => d,
                    Err(e) => {
                        return Err(e);
                    },
                },
                None => game.difficulty(),
            };
            let seed = match fixed_seed {
                Some(s) => s,
                None => random_seed(),
            };
            *game = Game::with_seed(difficulty, mode, seed);
            Ok(Some(seed))
        },
        _ => {
            let (row, col) = match (action.row, action.col) {
                (Some(row), Some(col)) => (row, col),
                _ => {
                    return Err(String::from_str("action requires row and col"));
                },
            };
            let pos = Position::new(row, col);
            match action.kind {
                ActionKind::Reveal => game.reveal_cell(pos),
                ActionKind::Flag => game.toggle_flag(pos),
                _ => game.chord(pos),
            }
            Ok(None)
        },
    }
}

} // verus!
