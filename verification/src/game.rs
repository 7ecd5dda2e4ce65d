//! A Minesweeper game: standard rules plus the optional Prank Feature and an
//! optional pinned Seed. Every game places its Mines at the First Click: a
//! pinned Seed reproduces the exact layout; a random game draws Seeds until
//! the First Click and its neighbors are Mine-free; a Prank game forces the
//! clicked Cell in.

use vstd::prelude::*;

use std::time::Duration;

use crate::board::{
    chorded, contains_position, flag_toggled, fresh_board, law_reveal_outcome,
    lemma_clear_region_is_zero, opened, Board, BoardModel,
};
use crate::clock::{duration_from_secs, duration_secs, timer_after, Timer, TimerPhase};
use crate::domain::{
    difficulty_mines, difficulty_size, has_prank, BoardSize, CellContent, CellState, CellView, Difficulty,
    Feature, Features, GameState, Position, Seed,
};
use crate::geometry::{cell_total, in_bounds, valid_size};
use crate::sampling::{
    layout_ok, mine_layout, random_seed, region_clear, safe_layout, sample_mines, spread_layout,
};

verus! {

/// The configuration a Game is created from: a Difficulty, the Features,
/// and an optional pinned Seed.
#[derive(Debug, Clone, Copy, PartialEq, Eq, Structural)]
pub struct GameConfig {
    pub difficulty: Difficulty,
    pub features: Features,
    /// `Some` pins one Seed for every game (the layout is reproduced);
    /// `None` draws a fresh random Seed per game.
    pub pinned_seed: Option<Seed>,
}

/// The configuration of a session: a Prank game drops any pinned Seed, as
/// Prank is not reproducible.
pub open spec fn session_config(difficulty: Difficulty, features: Features, pinned_seed: Option<Seed>) -> GameConfig {
    GameConfig {
        difficulty,
        features,
        pinned_seed: if has_prank(features) {
            None
        } else {
            pinned_seed
        },
    }
}

impl GameConfig {
    /// Builds a `GameConfig` from a Difficulty, the session's Features, and
    /// the pinned Seed; a Prank game drops the Seed.
    pub fn new(difficulty: Difficulty, features: Features, pinned_seed: Option<Seed>) -> (r: Self)
        ensures
            r == session_config(difficulty, features, pinned_seed),
    {
        let pinned_seed = if features.contains(Feature::Prank) {
            None
        } else {
            pinned_seed
        };
        GameConfig { difficulty, features, pinned_seed }
    }
}

/// Every preset board is a valid size with room for its Mines plus a
/// Mine-free 3x3 region.
pub proof fn lemma_difficulty_room(d: Difficulty)
    ensures
        valid_size(difficulty_size(d)),
        difficulty_mines(d) + 9 <= cell_total(difficulty_size(d)),
        1 <= difficulty_mines(d) <= 4096,
{
    match d {
        Difficulty::Beginner => assert(9 * 9 == 81),
        Difficulty::Intermediate => assert(16 * 16 == 256),
        Difficulty::Expert => assert(16 * 30 == 480),
    }
}

/// The mathematical model of a game.
pub struct GameModel {
    pub config: GameConfig,
    pub board: BoardModel,
    /// The Seed of the Mine layout, once placed.
    pub committed_seed: Option<Seed>,
    pub timer: TimerPhase,
}

/// A fresh game of a configuration: a fresh board of its Difficulty, no
/// Mines, no committed Seed, an idle Timer.
pub open spec fn fresh_game(config: GameConfig) -> GameModel {
    GameModel {
        config,
        board: fresh_board(difficulty_size(config.difficulty), difficulty_mines(config.difficulty) as nat),
        committed_seed: None,
        timer: TimerPhase::Idle,
    }
}

impl GameModel {
    /// The game invariant.
    pub open spec fn wf(self) -> bool {
        &&& self.board.wf()
        &&& self.board.size == difficulty_size(self.config.difficulty)
        &&& self.board.mine_count == difficulty_mines(self.config.difficulty)
        &&& (self.committed_seed is Some <==> self.board.mines is Some)
        &&& (self.timer is Idle <==> self.board.state == GameState::Ready)
        &&& (self.timer is Frozen <==> self.board.ended())
    }
}

/// Whether a Reveal of `pos` does anything: the game is on, `pos` is on the
/// board, and its Cell is Hidden (a Flag blocks the Reveal).
pub open spec fn reveal_applies(m: GameModel, pos: Position) -> bool {
    &&& !m.board.ended()
    &&& in_bounds(m.board.size, pos)
    &&& m.board.cell(pos) == CellState::Hidden
}

/// Where the Mines of a game come from at its First Click on `pos`.
pub open spec fn first_click_layout(o: GameModel, n: GameModel, pos: Position) -> bool {
    let size = o.board.size;
    let count = o.board.mine_count as usize;
    if has_prank(o.config.features) {
        // Prank: a fresh layout with the clicked Cell forced in.
        &&& n.committed_seed is Some
        &&& n.board.mines matches Some(m) && m.len() == count && m.contains(pos) && layout_ok(size, m)
    } else if o.board.mines is Some {
        // A preset layout stays.
        &&& n.board.mines == o.board.mines
        &&& n.committed_seed == o.committed_seed
    } else {
        match o.config.pinned_seed {
            // A pinned Seed reproduces its layout exactly.
            Some(s) => {
                &&& n.committed_seed == Some(s)
                &&& n.board.mines == Some(mine_layout(size, s, count))
                &&& n.board.mines matches Some(m) && m.len() == count && layout_ok(size, m)
            },
            // A random game keeps the clicked Cell and its neighbors clear.
            None => {
                &&& n.committed_seed matches Some(s) && n.board.mines matches Some(m)
                    && (m == mine_layout(size, s, count) || m == spread_layout(size, count, pos, s))
                    && (region_clear(mine_layout(size, s, count), pos) ==> m == mine_layout(size, s, count))
                &&& n.board.mines matches Some(m) && m.len() == count && layout_ok(size, m)
                    && region_clear(m, pos)
            },
        }
    }
}

/// The effect of a Reveal of `pos`: nothing when it does not apply;
/// otherwise the Mines are placed if this is the First Click, and the Cell is
/// opened as the board rules say (cascade, then Won / Lost resolution).
pub open spec fn revealed(o: GameModel, n: GameModel, pos: Position) -> bool {
    if reveal_applies(o, pos) {
        &&& n.config == o.config
        &&& opened(BoardModel { mines: n.board.mines, ..o.board }, n.board, pos)
        &&& o.board.state == GameState::Ready ==> first_click_layout(o, n, pos)
        &&& o.board.state != GameState::Ready ==> n.board.mines == o.board.mines && n.committed_seed
            == o.committed_seed && timer_after(o.timer, n.timer, n.board.ended())
    } else {
        n == o
    }
}

/// A Minesweeper game.
#[derive(Debug, Clone)]
pub struct Game {
    config: GameConfig,
    board: Board,
    committed_seed: Option<Seed>,
    timer: Timer,
}

impl View for Game {
    type V = GameModel;

    closed spec fn view(&self) -> GameModel {
        GameModel {
            config: self.config,
            board: self.board@,
            committed_seed: self.committed_seed,
            timer: self.timer.phase(),
        }
    }
}

impl Game {
    /// Creates a game from an explicit `GameConfig`. Mines are deferred to
    /// the First Click for every game.
    pub fn with_config(config: GameConfig) -> (g: Self)
        ensures
            g@ == fresh_game(config),
            g@.wf(),
    {
        Self::build(config)
    }

    fn build(config: GameConfig) -> (g: Self)
        ensures
            g@ == fresh_game(config),
            g@.wf(),
    {
        proof {
            lemma_difficulty_room(config.difficulty);
        }
        let size = config.difficulty.size();
        let mine_count = config.difficulty.mine_count();
        Game {
            config,
            board: Board::new(size, mine_count),
            committed_seed: None,
            timer: Timer::new(),
        }
    }

    /// Starts a fresh game from this game's config, optionally switching
    /// Difficulty; the same Features and pinned Seed are reused.
    pub fn new_game(&mut self, difficulty: Option<Difficulty>)
        ensures
            final(self)@ == fresh_game(
                session_config(
                    match difficulty {
                        Some(d) => d,
                        None => old(self)@.config.difficulty,
                    },
                    old(self)@.config.features,
                    old(self)@.config.pinned_seed,
                ),
            ),
            final(self)@.wf(),
    {
        let difficulty = match difficulty {
            Some(d) => d,
            None => self.config.difficulty,
        };
        let config = GameConfig::new(difficulty, self.config.features, self.config.pinned_seed);
        *self = Self::build(config);
    }

    /// Creates a game with a preset Mine list and no pinned Seed. For a
    /// non-Prank game the First Click is not protected; a Prank game ignores
    /// the preset and samples its own Mines at the First Click. The Mine
    /// count stays the Difficulty's, whatever the preset's length.
    pub fn with_mines(difficulty: Difficulty, features: Features, mines: &[Position]) -> (g: Self)
        requires
            forall|i: int| 0 <= i < mines@.len() ==> in_bounds(difficulty_size(difficulty), #[trigger] mines@[i]),
        ensures
            g@ == (GameModel {
                board: BoardModel { mines: Some(mines@), ..fresh_game(g@.config).board },
                committed_seed: Some(0),
                ..fresh_game(GameConfig { difficulty, features, pinned_seed: None })
            }),
            g@.wf(),
    {
        let mut game = Self::with_config(GameConfig { difficulty, features, pinned_seed: None });
        let mut preset: Vec<Position> = Vec::new();
        let mut i: usize = 0;
        while i < mines.len()
            invariant
                i <= mines@.len(),
                preset@ == mines@.take(i as int),
            decreases mines.len() - i,
        {
            preset.push(mines[i]);
            assert(mines@.take(i + 1) =~= preset@);
            i += 1;
        }
        assert(mines@.take(mines@.len() as int) =~= mines@);
        game.board.place_mines(preset);
        game.committed_seed = Some(0);
        game
    }

    /// The board of this game.
    pub(crate) fn board(&self) -> (r: &Board)
        ensures
            r@ == self@.board,
    {
        &self.board
    }

    /// The current game state.
    pub fn game_state(&self) -> (r: GameState)
        ensures
            r == self@.board.state,
    {
        self.board.state()
    }

    /// The board size.
    pub fn size(&self) -> (r: BoardSize)
        ensures
            r == self@.board.size,
    {
        self.board.size()
    }

    /// The difficulty this game was created with.
    pub fn difficulty(&self) -> (r: Difficulty)
        ensures
            r == self@.config.difficulty,
    {
        self.config.difficulty
    }

    /// The set of Features enabled on this game.
    pub fn features(&self) -> (r: Features)
        ensures
            r == self@.config.features,
    {
        self.config.features
    }

    /// The committed layout Seed, or `None` while the Mines aren't placed.
    pub fn committed_seed(&self) -> (r: Option<Seed>)
        ensures
            r == self@.committed_seed,
    {
        self.committed_seed
    }

    /// The placed Mines, if any; `None` until placed.
    pub fn mines(&self) -> (r: Option<&[Position]>)
        ensures
            match self@.board.mines {
                Some(m) => r matches Some(s) && s@ == m,
                None => r is None,
            },
    {
        self.board.mine_list()
    }

    /// The Trigger Mine of a Lost game; `None` otherwise.
    pub fn trigger(&self) -> (r: Option<Position>)
        ensures
            r == self@.board.trigger,
    {
        self.board.trigger()
    }

    /// The visible state of a Cell.
    pub fn cell_view(&self, pos: Position) -> (r: CellView)
        requires
            self@.wf(),
            in_bounds(self@.board.size, pos),
        ensures
            r == self@.board.view_of(pos),
    {
        self.board.cell_view(pos)
    }

    /// The mine count minus the number of placed Flags; negative when the
    /// player has over-flagged.
    pub fn flags_remaining(&self) -> (r: i32)
        requires
            self@.wf(),
        ensures
            r == self@.board.flags_remaining(),
    {
        self.board.flags_remaining()
    }

    /// The time on the Timer: zero before the First Click, frozen once the
    /// game has ended.
    pub fn elapsed(&self) -> (r: Duration)
        ensures
            self@.timer is Idle ==> r == duration_from_secs(0) && duration_secs(r) == 0,
            self@.timer matches TimerPhase::Frozen(d, _) ==> r == d,
    {
        self.timer.elapsed()
    }

    /// Reveals a Cell. A no-op when the game has ended, the Cell is Flagged
    /// or Revealed, or it is off the board. The First Click places the Mines
    /// and starts the Timer; the Timer freezes when the game ends.
    pub fn reveal_cell(&mut self, pos: Position)
        requires
            old(self)@.wf(),
        ensures
            final(self)@.wf(),
            revealed(old(self)@, final(self)@, pos),
    {
        let state = self.board.state();
        if state == GameState::Won || state == GameState::Lost {
            return;
        }
        if !(pos.row < self.board.size().rows && pos.col < self.board.size().cols) {
            return;
        }
        if self.board.cell_state(pos) != CellState::Hidden {
            return;
        }
        let ghost o = self@;
        if state == GameState::Ready {
            if self.config.features.contains(Feature::Prank) {
                self.place_prank_mines(pos);
            } else if !self.board.has_mines() {
                match self.config.pinned_seed {
                    Some(seed) => self.place_mines_by_pinned_seed(seed),
                    None => self.place_mines_for_safe_first_click(pos),
                }
            }
            self.timer.start();
        }
        let ghost placed = self@;
        assert(placed.board == (BoardModel { mines: placed.board.mines, ..o.board }));
        self.board.open(pos);
        if self.board.state() == GameState::Won || self.board.state() == GameState::Lost {
            self.timer.freeze();
        }
    }

    /// Places the Mines of a Prank game at the First Click: a layout from a
    /// fresh Seed, with the clicked Cell swapped in if it is absent.
    fn place_prank_mines(&mut self, first_click: Position)
        requires
            old(self)@.wf(),
            old(self)@.board.state == GameState::Ready,
            in_bounds(old(self)@.board.size, first_click),
        ensures
            final(self)@.config == old(self)@.config,
            final(self)@.timer == old(self)@.timer,
            final(self)@.board == (BoardModel { mines: final(self)@.board.mines, ..old(self)@.board }),
            final(self)@.committed_seed is Some,
            final(self)@.board.mines matches Some(m) && m.len() == old(self)@.board.mine_count
                && m.contains(first_click) && layout_ok(old(self)@.board.size, m),
            final(self)@.board.wf(),
    {
        proof {
            lemma_difficulty_room(self@.config.difficulty);
        }
        let candidate = random_seed();
        let size = self.board.size();
        let count = self.board.mine_count();
        let mut mines = sample_mines(size, count, candidate);
        let ghost drawn = mines@;
        if !contains_position(&mines, first_click) {
            mines.pop();
            let ghost kept = mines@;
            mines.push(first_click);
            proof {
                assert(mines@[mines@.len() - 1] == first_click);
                assert forall|i: int| 0 <= i < kept.len() implies kept[i] == drawn[i] && kept[i] != first_click by {
                    assert(kept[i] == drawn[i]);
                }
                assert forall|i: int| 0 <= i < mines@.len() implies in_bounds(size, #[trigger] mines@[i]) by {
                    if i < kept.len() {
                        assert(mines@[i] == kept[i]);
                    }
                }
                assert forall|i: int, j: int| 0 <= i < mines@.len() && 0 <= j < mines@.len() && i != j implies mines@[i] != mines@[j] by {
                    if i < kept.len() {
                        assert(mines@[i] == kept[i]);
                    }
                    if j < kept.len() {
                        assert(mines@[j] == kept[j]);
                    }
                }
            }
        }
        self.board.place_mines(mines);
        self.committed_seed = Some(candidate);
    }

    /// Places the Mines of a pinned Seed at the First Click: the exact layout
    /// of the Seed, the First Click unprotected.
    fn place_mines_by_pinned_seed(&mut self, seed: Seed)
        requires
            old(self)@.wf(),
            old(self)@.board.state == GameState::Ready,
        ensures
            final(self)@.config == old(self)@.config,
            final(self)@.timer == old(self)@.timer,
            final(self)@.board == (BoardModel { mines: final(self)@.board.mines, ..old(self)@.board }),
            final(self)@.committed_seed == Some(seed),
            final(self)@.board.mines == Some(mine_layout(old(self)@.board.size, seed, old(self)@.board.mine_count as usize)),
            final(self)@.board.mines matches Some(m) && m.len() == old(self)@.board.mine_count
                && layout_ok(old(self)@.board.size, m),
            final(self)@.board.wf(),
    {
        proof {
            lemma_difficulty_room(self@.config.difficulty);
        }
        let mines = sample_mines(self.board.size(), self.board.mine_count(), seed);
        self.board.place_mines(mines);
        self.committed_seed = Some(seed);
    }

    /// Makes a random game's First Click safe: Seeds are drawn until the
    /// clicked Cell's 3x3 is Mine-free, and the accepted Seed (with its
    /// layout) becomes the game's Mines.
    fn place_mines_for_safe_first_click(&mut self, first_click: Position)
        requires
            old(self)@.wf(),
            old(self)@.board.state == GameState::Ready,
            in_bounds(old(self)@.board.size, first_click),
        ensures
            final(self)@.config == old(self)@.config,
            final(self)@.timer == old(self)@.timer,
            final(self)@.board == (BoardModel { mines: final(self)@.board.mines, ..old(self)@.board }),
            final(self)@.committed_seed matches Some(s) && final(self)@.board.mines matches Some(m)
                && (m == mine_layout(old(self)@.board.size, s, old(self)@.board.mine_count as usize)
                || m == spread_layout(old(self)@.board.size, old(self)@.board.mine_count as usize, first_click, s))
                && (region_clear(mine_layout(old(self)@.board.size, s, old(self)@.board.mine_count as usize), first_click)
                ==> m == mine_layout(old(self)@.board.size, s, old(self)@.board.mine_count as usize)),
            final(self)@.board.mines matches Some(m) && m.len() == old(self)@.board.mine_count
                && layout_ok(old(self)@.board.size, m) && region_clear(m, first_click),
            final(self)@.board.wf(),
    {
        proof {
            lemma_difficulty_room(self@.config.difficulty);
        }
        let candidate = random_seed();
        let (seed, mines) = safe_layout(self.board.size(), self.board.mine_count(), first_click, candidate);
        self.board.place_mines(mines);
        self.committed_seed = Some(seed);
    }

    /// Toggles a Flag on a Hidden Cell, or removes one. A no-op on Revealed
    /// Cells, off the board, and once the game has ended; over-flagging is
    /// allowed.
    pub fn toggle_flag(&mut self, pos: Position)
        requires
            old(self)@.wf(),
        ensures
            final(self)@.wf(),
            final(self)@ == (GameModel { board: flag_toggled(old(self)@.board, pos), ..old(self)@ }),
    {
        self.board.toggle_flag(pos);
    }

    /// Chord: on a Revealed numeric Cell whose Flag count matches its number,
    /// Reveals all unflagged neighbors, each cascading as a click would. A
    /// no-op otherwise.
    pub fn chord(&mut self, pos: Position)
        requires
            old(self)@.wf(),
        ensures
            final(self)@.wf(),
            final(self)@.config == old(self)@.config,
            final(self)@.committed_seed == old(self)@.committed_seed,
            chorded(old(self)@.board, final(self)@.board, pos),
            final(self)@.board == old(self)@.board ==> final(self)@.timer == old(self)@.timer,
            final(self)@.board != old(self)@.board ==> timer_after(
                old(self)@.timer,
                final(self)@.timer,
                final(self)@.board.ended(),
            ),
    {
        let state = self.board.state();
        if state == GameState::Won || state == GameState::Lost {
            return;
        }
        self.board.chord(pos);
        if self.board.state() == GameState::Won || self.board.state() == GameState::Lost {
            self.timer.freeze();
        }
    }
}


// ---------------------------------------------------------------------
// Laws of the game

/// What every game keeps, whatever has been played: the Seed is committed
/// exactly when the Mines are placed, the Trigger exists exactly when the
/// game is Lost, the Timer runs exactly between the First Click and the end
/// of the game, and a Won game has nothing left on the Flags Remaining
/// counter.
pub proof fn law_game_invariant(g: GameModel)
    requires
        g.wf(),
    ensures
        g.committed_seed is Some <==> g.board.mines is Some,
        g.board.trigger is Some <==> g.board.state == GameState::Lost,
        g.timer is Idle <==> g.board.state == GameState::Ready,
        g.timer is Frozen <==> g.board.ended(),
        g.board.state == GameState::Won ==> g.board.flags_remaining() == 0,
{
}

/// An ended game rejects every action: a Reveal, a Flag or a Chord changes
/// nothing.
pub proof fn law_ended_game_rejects_actions(o: GameModel, n: GameModel, pos: Position)
    requires
        o.board.ended(),
    ensures
        revealed(o, n, pos) ==> n == o,
        flag_toggled(o.board, pos) == o.board,
        chorded(o.board, n.board, pos) ==> n.board == o.board,
{
}

/// A Flag blocks a Reveal, and so does the edge of the board: nothing
/// happens, the game does not even start.
pub proof fn law_flag_blocks_reveal(o: GameModel, n: GameModel, pos: Position)
    requires
        !in_bounds(o.board.size, pos) || o.board.cell(pos) == CellState::Flagged,
        revealed(o, n, pos),
    ensures
        n == o,
{
}

/// In a Prank game the First Click is always a Mine: the game is Lost at
/// once with the clicked Cell as the Trigger, shown as a Mine, and the
/// layout keeps the Difficulty's Mine count.
pub proof fn law_prank_first_click_loses(o: GameModel, n: GameModel, pos: Position)
    requires
        o.wf(),
        o.board.state == GameState::Ready,
        has_prank(o.config.features),
        in_bounds(o.board.size, pos),
        o.board.cell(pos) == CellState::Hidden,
        revealed(o, n, pos),
    ensures
        n.board.state == GameState::Lost,
        n.board.trigger == Some(pos),
        n.board.view_of(pos).content == Some(CellContent::Mine),
        n.board.mines matches Some(m) && m.len() == o.board.mine_count,
{
    let b = BoardModel { mines: n.board.mines, ..o.board };
    law_reveal_outcome(b, n.board, pos);
}

/// In a random (unpinned, non-Prank) game the First Click is safe: it is
/// never a Mine and it opens as a zero Cell, whatever the drawn Seed.
pub proof fn law_random_first_click_is_safe(o: GameModel, n: GameModel, pos: Position)
    requires
        o.wf(),
        o.board.state == GameState::Ready,
        !has_prank(o.config.features),
        o.config.pinned_seed is None,
        o.board.mines is None,
        in_bounds(o.board.size, pos),
        o.board.cell(pos) == CellState::Hidden,
        revealed(o, n, pos),
    ensures
        n.board.state != GameState::Lost,
        n.board.view_of(pos).content == Some(CellContent::Number(0)),
{
    let b = BoardModel { mines: n.board.mines, ..o.board };
    let m = n.board.mines->0;
    lemma_clear_region_is_zero(o.board.size, m, pos);
    law_reveal_outcome(b, n.board, pos);
}

/// The same pinned Seed and Difficulty reproduce the same Mine layout,
/// wherever the First Click falls: the layout of the Seed, with exactly the
/// Difficulty's Mine count, all distinct and on the board.
pub proof fn law_pinned_seed_reproduces_layout(
    o1: GameModel,
    n1: GameModel,
    p1: Position,
    o2: GameModel,
    n2: GameModel,
    p2: Position,
)
    requires
        o1.wf(),
        o2.wf(),
        o1.config == o2.config,
        o1.config.pinned_seed is Some,
        !has_prank(o1.config.features),
        o1.board.state == GameState::Ready,
        o2.board.state == GameState::Ready,
        o1.board.mines is None,
        o2.board.mines is None,
        reveal_applies(o1, p1),
        reveal_applies(o2, p2),
        revealed(o1, n1, p1),
        revealed(o2, n2, p2),
    ensures
        n1.board.mines == n2.board.mines,
        n1.committed_seed == o1.config.pinned_seed,
        n2.committed_seed == o1.config.pinned_seed,
        n1.board.mines matches Some(m) && m.len() == o1.board.mine_count && layout_ok(
            o1.board.size,
            m,
        ),
{
}

/// The Seed a random game committed replays its board whenever that Seed's
/// own layout spares the click (every Seed the game accepted does): a game
/// pinned to that Seed, clicked on the same Cell, gets the same layout, and
/// the click is as safe there. (A random game that found no such Seed within
/// its draws spreads its Mines over the free Cells instead; then the Seed's
/// own layout does not spare the click and it does not replay.)
pub proof fn law_accepted_seed_replays(
    o: GameModel,
    n: GameModel,
    r: GameModel,
    rn: GameModel,
    pos: Position,
)
    requires
        o.wf(),
        o.board.state == GameState::Ready,
        !has_prank(o.config.features),
        o.config.pinned_seed is None,
        o.board.mines is None,
        reveal_applies(o, pos),
        revealed(o, n, pos),
        n.committed_seed matches Some(s) && region_clear(
            mine_layout(o.board.size, s, o.board.mine_count as usize),
            pos,
        ),
        r.wf(),
        r.config == (GameConfig { pinned_seed: n.committed_seed, ..o.config }),
        r.board.state == GameState::Ready,
        r.board.mines is None,
        reveal_applies(r, pos),
        revealed(r, rn, pos),
    ensures
        rn.board.mines == n.board.mines,
        rn.committed_seed == n.committed_seed,
        rn.board.state != GameState::Lost,
        rn.board.view_of(pos).content == Some(CellContent::Number(0)),
{
    let m = n.board.mines->0;
    lemma_clear_region_is_zero(o.board.size, m, pos);
    law_reveal_outcome(BoardModel { mines: rn.board.mines, ..r.board }, rn.board, pos);
}

} // verus!
