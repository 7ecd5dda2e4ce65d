//! The decisions of the game-state API: how a player action from the client
//! changes the single live game. The HTTP handlers around it are the
//! server's; this module holds what they decide.

use vstd::prelude::*;

use crate::board::{chorded, flag_toggled};
use crate::domain::{ascii_lower, difficulty_named, invalid_difficulty_message, Difficulty, Position};
use crate::game::{fresh_game, revealed, session_config, Game, GameModel};
use crate::wire::{ActionDto, ActionKind};

verus! {

/// The outcome of applying a player action to the game.
#[derive(Debug, Clone, Copy, PartialEq, Eq, Structural)]
pub enum ActionOutcome {
    /// A New Game replaced the previous one; its Seed is committed at its
    /// First Click.
    NewGame,
    /// A Reveal, Flag or Chord was applied to the existing game.
    Applied,
}

/// The message of a Reveal, Flag or Chord without both coordinates.
pub open spec fn missing_coordinates_message() -> Seq<char> {
    "action requires row and col"@
}

/// The effect of a Reveal, Flag or Chord of `pos` on a game.
pub open spec fn action_applied(o: GameModel, n: GameModel, kind: ActionKind, pos: Position) -> bool {
    match kind {
        ActionKind::Reveal => revealed(o, n, pos),
        ActionKind::Flag => n == (GameModel { board: flag_toggled(o.board, pos), ..o }),
        ActionKind::Chord => {
            &&& n.config == o.config
            &&& n.committed_seed == o.committed_seed
            &&& chorded(o.board, n.board, pos)
        },
        ActionKind::NewGame => false,
    }
}

/// The game a New Game starts: the same Features and pinned Seed, at the
/// given Difficulty.
pub open spec fn next_game(o: GameModel, d: Difficulty) -> GameModel {
    fresh_game(session_config(d, o.config.features, o.config.pinned_seed))
}

/// Applies a player action to the game. A new-game starts a fresh game from
/// the game's own config, switching the Difficulty when one is named (an
/// unknown name is rejected and the game kept); a Reveal, Flag or Chord
/// needs both coordinates and is rejected without them.
pub fn apply_action(game: &mut Game, action: &ActionDto) -> (r: Result<ActionOutcome, String>)
    requires
        old(game)@.wf(),
    ensures
        final(game)@.wf(),
        action.kind == ActionKind::NewGame ==> match action.difficulty {
            Some(raw) => match difficulty_named(ascii_lower(raw@)) {
                Some(d) => r == Ok::<ActionOutcome, String>(ActionOutcome::NewGame) && final(game)@
                    == next_game(old(game)@, d),
                None => r matches Err(e) && e@ == invalid_difficulty_message(ascii_lower(raw@))
                    && final(game)@ == old(game)@,
            },
            None => r == Ok::<ActionOutcome, String>(ActionOutcome::NewGame) && final(game)@
                == next_game(old(game)@, old(game)@.config.difficulty),
        },
        action.kind != ActionKind::NewGame ==> match (action.row, action.col) {
            (Some(row), Some(col)) => r == Ok::<ActionOutcome, String>(ActionOutcome::Applied)
                && action_applied(old(game)@, final(game)@, action.kind, Position { row, col }),
            _ => r matches Err(e) && e@ == missing_coordinates_message() && final(game)@ == old(game)@,
        },
{
    match action.kind {
        ActionKind::NewGame => {
            let difficulty = match &action.difficulty {
                Some(raw) => match Difficulty::parse(raw.as_str()) {
                    Ok(d) => Some(d),
                    Err(e) => {
                        return Err(e);
                    },
                },
                None => None,
            };
            game.new_game(difficulty);
            Ok(ActionOutcome::NewGame)
        },
        _ => {
            let (row, col) = match (action.row, action.col) {
                (Some(row), Some(col)) => (row, col),
                _ => {
                    return Err(String::from_str("action requires row and col"));
                },
            };
            let pos = Position::new(row, col);
            match action.kind {
                ActionKind::Reveal => game.reveal_cell(pos),
                ActionKind::Flag => game.toggle_flag(pos),
                _ => game.chord(pos),
            }
            Ok(ActionOutcome::Applied)
        },
    }
}

} // verus!
