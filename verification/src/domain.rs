//! The Minesweeper domain vocabulary: board sizes, difficulties, positions,
//! cell states and the opt-in Features. Every enum exposes its canonical wire
//! name through `as_str()`, which the wire and text adapters reuse.

use vstd::prelude::*;

use crate::text::{ascii_lowercase, str_equals};

verus! {

/// The value fixed when a Game is created that determines the Mine layout.
pub type Seed = u32;

/// The Board's dimensions in Cells, in (rows, cols) order.
#[derive(Debug, Clone, Copy, PartialEq, Eq, Structural)]
pub struct BoardSize {
    pub rows: usize,
    pub cols: usize,
}

impl BoardSize {
    pub fn new(rows: usize, cols: usize) -> (r: Self)
        ensures
            r.rows == rows,
            r.cols == cols,
    {
        BoardSize { rows, cols }
    }
}

/// One of the three classic difficulty presets.
#[derive(Debug, Clone, Copy, PartialEq, Eq, Structural)]
pub enum Difficulty {
    Beginner,
    Intermediate,
    Expert,
}

/// The classic board size of a difficulty.
pub open spec fn difficulty_size(d: Difficulty) -> BoardSize {
    match d {
        Difficulty::Beginner => BoardSize { rows: 9, cols: 9 },
        Difficulty::Intermediate => BoardSize { rows: 16, cols: 16 },
        Difficulty::Expert => BoardSize { rows: 16, cols: 30 },
    }
}

/// The number of Mines of a difficulty.
pub open spec fn difficulty_mines(d: Difficulty) -> usize {
    match d {
        Difficulty::Beginner => 10,
        Difficulty::Intermediate => 40,
        Difficulty::Expert => 99,
    }
}

/// The canonical name of a difficulty.
pub open spec fn difficulty_name(d: Difficulty) -> Seq<char> {
    match d {
        Difficulty::Beginner => "beginner"@,
        Difficulty::Intermediate => "intermediate"@,
        Difficulty::Expert => "expert"@,
    }
}

/// The difficulty a (lowercased) name or classic number denotes, if any.
pub open spec fn difficulty_named(lower: Seq<char>) -> Option<Difficulty> {
    if lower == "beginner"@ || lower == "1"@ {
        Some(Difficulty::Beginner)
    } else if lower == "intermediate"@ || lower == "2"@ {
        Some(Difficulty::Intermediate)
    } else if lower == "expert"@ || lower == "3"@ {
        Some(Difficulty::Expert)
    } else {
        None
    }
}

/// ASCII lowercasing of one character: 'A'..='Z' map to 'a'..='z'.
pub open spec fn ascii_lower_char(c: char) -> char {
    if 'A' <= c && c <= 'Z' {
        ((c as u32) + 32) as char
    } else {
        c
    }
}

/// ASCII lowercasing of a string; non-ASCII characters are unchanged.
pub open spec fn ascii_lower(s: Seq<char>) -> Seq<char> {
    Seq::new(s.len(), |i: int| ascii_lower_char(s[i]))
}

/// The message of a rejected difficulty name.
pub open spec fn invalid_difficulty_message(lower: Seq<char>) -> Seq<char> {
    "invalid difficulty '"@ + lower + "': expected beginner|intermediate|expert or 1|2|3"@
}

impl Difficulty {
    /// The classic board size for this difficulty.
    pub fn size(self) -> (r: BoardSize)
        ensures
            r == difficulty_size(self),
    {
        match self {
            Difficulty::Beginner => BoardSize::new(9, 9),
            Difficulty::Intermediate => BoardSize::new(16, 16),
            Difficulty::Expert => BoardSize::new(16, 30),
        }
    }

    /// Total number of Mines on the board.
    pub fn mine_count(self) -> (r: usize)
        ensures
            r == difficulty_mines(self),
    {
        match self {
            Difficulty::Beginner => 10,
            Difficulty::Intermediate => 40,
            Difficulty::Expert => 99,
        }
    }

    /// The canonical wire/format name: `beginner` / `intermediate` / `expert`.
    pub fn as_str(self) -> (r: &'static str)
        ensures
            r@ == difficulty_name(self),
    {
        match self {
            Difficulty::Beginner => "beginner",
            Difficulty::Intermediate => "intermediate",
            Difficulty::Expert => "expert",
        }
    }

    /// Parses a difficulty name, case-insensitively (ASCII), also accepting
    /// the classic 1/2/3 numbers.
    pub fn parse(s: &str) -> (r: Result<Self, String>)
        ensures
            difficulty_named(ascii_lower(s@)) matches Some(d) ==> r == Ok::<Difficulty, String>(d),
            difficulty_named(ascii_lower(s@)) is None ==> (r matches Err(msg)
                && msg@ == invalid_difficulty_message(ascii_lower(s@))),
    {
        let lower = ascii_lowercase(s);
        let l = lower.as_str();
        if str_equals(l, "beginner") || str_equals(l, "1") {
            Ok(Difficulty::Beginner)
        } else if str_equals(l, "intermediate") || str_equals(l, "2") {
            Ok(Difficulty::Intermediate)
        } else if str_equals(l, "expert") || str_equals(l, "3") {
            Ok(Difficulty::Expert)
        } else {
            let mut msg = String::from_str("invalid difficulty '");
            msg.append(l);
            msg.append("': expected beginner|intermediate|expert or 1|2|3");
            Err(msg)
        }
    }
}

/// A Cell's coordinates on the Board, in (row, col) order.
#[derive(Debug, Clone, Copy, PartialEq, Eq, Hash, Structural)]
pub struct Position {
    pub row: usize,
    pub col: usize,
}

impl Position {
    pub fn new(row: usize, col: usize) -> (r: Self)
        ensures
            r.row == row,
            r.col == col,
    {
        Position { row, col }
    }
}

/// The player-visible state of a Cell.
#[derive(Debug, Clone, Copy, PartialEq, Eq, Structural)]
pub enum CellState {
    Hidden,
    Revealed,
    Flagged,
}

/// The canonical wire name of a cell state.
pub open spec fn cell_state_name(s: CellState) -> Seq<char> {
    match s {
        CellState::Hidden => "hidden"@,
        CellState::Flagged => "flagged"@,
        CellState::Revealed => "revealed"@,
    }
}

impl CellState {
    /// The canonical wire name: `hidden` / `flagged` / `revealed`.
    pub fn as_str(self) -> (r: &'static str)
        ensures
            r@ == cell_state_name(self),
    {
        match self {
            CellState::Hidden => "hidden",
            CellState::Flagged => "flagged",
            CellState::Revealed => "revealed",
        }
    }
}

/// The content of a Cell, visible only after it is Revealed.
#[derive(Debug, Clone, Copy, PartialEq, Eq, Structural)]
pub enum CellContent {
    /// Adjacent Mine count (0 = empty Cell).
    Number(u8),
    Mine,
}

/// What a Cell looks like to the outside world.
#[derive(Debug, Clone, Copy, PartialEq, Eq, Structural)]
pub struct CellView {
    pub state: CellState,
    /// `Some` only for Revealed Cells.
    pub content: Option<CellContent>,
}

/// An opt-in behavior that modifies how a game plays. The only Feature is
/// Prank: the First Click is always a Mine.
#[derive(Debug, Clone, Copy, PartialEq, Eq, Hash, Structural)]
pub enum Feature {
    Prank,
}

/// The set of opt-in Features enabled on a Game; presence means the behavior
/// is on. With Prank the only Feature, the set is either empty or `{Prank}`.
#[allow(non_camel_case_types)]
#[derive(Debug, Clone, Copy, PartialEq, Eq, Structural)]
pub enum Features {
    /// The empty feature set.
    NONE,
    /// The set holding only the Prank Feature.
    PRANK,
}

impl Default for Features {
    /// The empty feature set.
    fn default() -> (r: Self)
        ensures
            r == Features::NONE,
    {
        Features::NONE
    }
}

/// Whether a feature set holds the Prank Feature.
pub open spec fn has_prank(f: Features) -> bool {
    f == Features::PRANK
}

impl Features {
    /// A set with only the Prank Feature.
    pub fn prank() -> (r: Self)
        ensures
            r == Features::PRANK,
            has_prank(r),
    {
        Features::PRANK
    }

    /// Whether the given Feature is enabled (present in the set).
    pub fn contains(self, feature: Feature) -> (r: bool)
        ensures
            r == has_prank(self),
    {
        match feature {
            Feature::Prank => match self {
                Features::NONE => false,
                Features::PRANK => true,
            },
        }
    }
}

/// The state of a game.
#[derive(Debug, Clone, Copy, PartialEq, Eq, Structural)]
pub enum GameState {
    /// Board exists; no Cell Revealed, Timer not started.
    Ready,
    /// Mines placed, game in progress.
    Playing,
    /// All non-Mine Cells Revealed.
    Won,
    /// A Mine was Revealed.
    Lost,
}

/// The canonical wire name of a game state.
pub open spec fn game_state_name(s: GameState) -> Seq<char> {
    match s {
        GameState::Ready => "ready"@,
        GameState::Playing => "playing"@,
        GameState::Won => "won"@,
        GameState::Lost => "lost"@,
    }
}

impl GameState {
    /// The canonical wire/format name: `ready` / `playing` / `won` / `lost`.
    pub fn as_str(self) -> (r: &'static str)
        ensures
            r@ == game_state_name(self),
    {
        match self {
            GameState::Ready => "ready",
            GameState::Playing => "playing",
            GameState::Won => "won",
            GameState::Lost => "lost",
        }
    }
}

/// Every difficulty's wire name is lowercase and denotes that difficulty,
/// so it parses back to it whatever ASCII case it is written in.
pub proof fn law_difficulty_name_parses_back(d: Difficulty, s: Seq<char>)
    requires
        ascii_lower(s) == difficulty_name(d),
    ensures
        ascii_lower(difficulty_name(d)) == difficulty_name(d),
        difficulty_named(difficulty_name(d)) == Some(d),
        difficulty_named(ascii_lower(s)) == Some(d),
{
    reveal_strlit("beginner");
    reveal_strlit("intermediate");
    reveal_strlit("expert");
    reveal_strlit("1");
    reveal_strlit("2");
    reveal_strlit("3");
    assert(ascii_lower(difficulty_name(d)) =~= difficulty_name(d));
}

} // verus!
