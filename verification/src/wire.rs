//! The wire shapes exchanged with the frontend: the game snapshot the client
//! renders from, and the player action it sends. `GameSnapshot::from_game`
//! maps a game into the snapshot; the JSON encoding itself is the server's.

use vstd::prelude::*;

use crate::board::{law_lost_board, Board, BoardModel};
use crate::clock::{duration_secs, whole_seconds, TimerPhase};
use crate::domain::{cell_state_name, difficulty_name, game_state_name, CellContent, CellView, GameState, Position};
use crate::game::Game;
use crate::geometry::{cell_index, cell_total, lemma_cell_index, lemma_position_of, position_of};

verus! {

/// The full game state the client renders from.
pub struct GameSnapshot {
    pub game_state: &'static str,
    pub difficulty: &'static str,
    pub rows: usize,
    pub cols: usize,
    pub flags_remaining: i32,
    pub elapsed_secs: u64,
    /// The Trigger Mine of a Lost game; `None` otherwise.
    pub trigger: Option<PositionDto>,
    /// One entry per Cell, row-major.
    pub cells: Vec<CellDto>,
}

/// A Cell's coordinates on the wire.
#[derive(Debug, Clone, Copy, PartialEq, Eq, Structural)]
pub struct PositionDto {
    pub row: usize,
    pub col: usize,
}

/// One Cell on the wire: its state name and, once Revealed, its content.
#[derive(Debug)]
pub struct CellDto {
    pub state: &'static str,
    /// `Some` only for Revealed Cells: `"mine"` or the neighbor count.
    pub content: Option<ContentDto>,
}

/// The content of a Revealed Cell: the string `"mine"` or a plain number on
/// the wire.
#[derive(Debug, Clone, Copy, PartialEq, Eq, Structural)]
pub enum ContentDto {
    Mine,
    Number(u8),
}

/// A player action from the client.
#[derive(Debug)]
pub struct ActionDto {
    pub kind: ActionKind,
    pub row: Option<usize>,
    pub col: Option<usize>,
    /// `new-game` only; absent keeps the current difficulty.
    pub difficulty: Option<String>,
}

/// The kinds of player action.
#[derive(Debug, Clone, Copy, PartialEq, Eq, Structural)]
pub enum ActionKind {
    Reveal,
    Flag,
    Chord,
    NewGame,
}

/// The wire content of a Cell's content.
pub open spec fn content_dto(c: Option<CellContent>) -> Option<ContentDto> {
    match c {
        Some(CellContent::Number(n)) => Some(ContentDto::Number(n)),
        Some(CellContent::Mine) => Some(ContentDto::Mine),
        None => None,
    }
}

/// Whether a wire Cell shows what the player sees of a Cell.
pub open spec fn cell_dto_shows(d: CellDto, v: CellView) -> bool {
    &&& d.state@ == cell_state_name(v.state)
    &&& d.content == content_dto(v.content)
}

/// Whether a wire Cell list shows a board, row-major.
pub open spec fn cells_show(cells: Seq<CellDto>, b: BoardModel) -> bool {
    &&& cells.len() == cell_total(b.size)
    &&& forall|i: int|
        0 <= i < cells.len() ==> cell_dto_shows(#[trigger] cells[i], b.view_of(position_of(b.size, i)))
}

/// The wire form of an optional position.
pub open spec fn position_dto(p: Option<Position>) -> Option<PositionDto> {
    match p {
        Some(q) => Some(PositionDto { row: q.row, col: q.col }),
        None => None,
    }
}

/// Maps a Cell's content to the wire.
fn content_to_dto(c: Option<CellContent>) -> (r: Option<ContentDto>)
    ensures
        r == content_dto(c),
{
    match c {
        Some(CellContent::Number(n)) => Some(ContentDto::Number(n)),
        Some(CellContent::Mine) => Some(ContentDto::Mine),
        None => None,
    }
}

/// Maps an optional position to the wire.
pub(crate) fn position_to_dto(p: Option<Position>) -> (r: Option<PositionDto>)
    ensures
        r == position_dto(p),
{
    match p {
        Some(q) => Some(PositionDto { row: q.row, col: q.col }),
        None => None,
    }
}

/// Every Cell of a board on the wire, row-major.
pub(crate) fn board_cells(board: &Board) -> (r: Vec<CellDto>)
    requires
        board@.shape_ok(),
    ensures
        cells_show(r@, board@),
{
    let size = board.size();
    proof {
        lemma_cell_index(size, Position { row: 0, col: 0 }, Position { row: 0, col: 0 });
    }
    let total = size.rows * size.cols;
    let mut cells: Vec<CellDto> = Vec::new();
    let mut i: usize = 0;
    while i < total
        invariant
            board@.shape_ok(),
            size == board@.size,
            total == cell_total(size),
            i <= total,
            cells@.len() == i,
            forall|j: int|
                0 <= j < i ==> cell_dto_shows(#[trigger] cells@[j], board@.view_of(position_of(size, j))),
        decreases total - i,
    {
        proof {
            lemma_position_of(size, i as int);
        }
        let pos = Position::new(i / size.cols, i % size.cols);
        assert(pos == position_of(size, i as int));
        let view = board.cell_view(pos);
        cells.push(CellDto { state: view.state.as_str(), content: content_to_dto(view.content) });
        i += 1;
    }
    cells
}

impl GameSnapshot {
    /// Builds the wire snapshot of a game: its state and difficulty names,
    /// the board size, the Flags Remaining counter, the whole seconds on the
    /// Timer, the Trigger of a Lost game, and every Cell row-major.
    pub fn from_game(game: &Game) -> (r: Self)
        requires
            game@.wf(),
        ensures
            r.game_state@ == game_state_name(game@.board.state),
            r.difficulty@ == difficulty_name(game@.config.difficulty),
            r.rows == game@.board.size.rows,
            r.cols == game@.board.size.cols,
            r.flags_remaining == game@.board.flags_remaining(),
            game@.timer is Idle ==> r.elapsed_secs == 0,
            game@.timer matches TimerPhase::Frozen(d, _) ==> r.elapsed_secs == duration_secs(d),
            r.trigger == position_dto(game@.board.trigger),
            cells_show(r.cells@, game@.board),
    {
        let size = game.size();
        let cells = board_cells(game.board());
        let elapsed = game.elapsed();
        GameSnapshot {
            game_state: game.game_state().as_str(),
            difficulty: game.difficulty().as_str(),
            rows: size.rows,
            cols: size.cols,
            flags_remaining: game.flags_remaining(),
            elapsed_secs: whole_seconds(&elapsed),
            trigger: position_to_dto(game.trigger()),
            cells,
        }
    }
}

/// In the snapshot of a Lost game the Trigger names, by its row and column,
/// the wire Cell at `row * cols + col`, which shows the Mine that lost the
/// game, and that Cell is the board's Trigger.
pub proof fn law_trigger_marks_the_lost_mine(b: BoardModel, cells: Seq<CellDto>, trigger: Option<PositionDto>)
    requires
        b.wf(),
        b.state == GameState::Lost,
        cells_show(cells, b),
        trigger == position_dto(b.trigger),
    ensures
        trigger matches Some(t) && t.row < b.size.rows && t.col < b.size.cols
            && cells[t.row * b.size.cols + t.col].content == Some(ContentDto::Mine)
            && b.trigger == Some(Position { row: t.row, col: t.col }),
{
    law_lost_board(b);
    let q = b.trigger->0;
    let i = cell_index(b.size, q);
    lemma_cell_index(b.size, q, q);
    lemma_position_of(b.size, i);
    let p = position_of(b.size, i);
    if p != q {
        lemma_cell_index(b.size, p, q);
    }
    assert(cell_dto_shows(cells[i], b.view_of(p)));
}

} // verus!
