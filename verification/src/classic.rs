//! The mode-based game API: a game is created in a `GameMode` (Classic or
//! Prank) under a `SeedPolicy`. A Pinned Classic game places its Mines at
//! creation and leaves the First Click unprotected; a Random game defers them
//! to the First Click, re-drawing the Seed until the clicked Cell's 3x3 is
//! Mine-free; a Prank game places them at the First Click, forcing the
//! clicked Cell in.

use vstd::prelude::*;

use std::time::Duration;

use crate::board::{
    chorded, contains_position, flag_toggled, fresh_board, law_reveal_outcome,
    lemma_clear_region_is_zero, opened, Board, BoardModel,
};
use crate::clock::{duration_from_secs, duration_secs, timer_after, Timer, TimerPhase};
use crate::domain::{
    difficulty_mines, difficulty_size, has_prank, BoardSize, CellContent, CellState, CellView, Difficulty,
    Feature, Features, GameState, Position, Seed,
};
use crate::game::lemma_difficulty_room;
use crate::geometry::in_bounds;
use crate::sampling::{
    forced_layout, layout_ok, mine_layout, random_seed, region_clear, safe_layout, sample_mines,
    sample_mines_forced, spread_layout,
};

verus! {

/// How a game is played: standard rules, or the Prank Feature.
#[derive(Debug, Clone, Copy, PartialEq, Eq, Structural)]
pub enum GameMode {
    /// Standard rules; no Features.
    Classic,
    /// The First Click is always a Mine.
    Prank,
}

/// The canonical wire name of a game mode.
pub open spec fn game_mode_name(m: GameMode) -> Seq<char> {
    match m {
        GameMode::Classic => "classic"@,
        GameMode::Prank => "prank"@,
    }
}

/// The Features a game mode stands for.
pub open spec fn mode_features(m: GameMode) -> Features {
    match m {
        GameMode::Classic => Features::NONE,
        GameMode::Prank => Features::PRANK,
    }
}

impl GameMode {
    /// The canonical wire name: `classic` / `prank`.
    pub fn as_str(self) -> (r: &'static str)
        ensures
            r@ == game_mode_name(self),
    {
        match self {
            GameMode::Classic => "classic",
            GameMode::Prank => "prank",
        }
    }
}

/// The origin of the Mine layout: where the Mines come from and whether the
/// First Click is protected.
#[derive(Debug, Clone, Copy, PartialEq, Eq, Structural)]
pub enum SeedPolicy {
    /// The full Mine set is placed at creation from the fixed Seed,
    /// reproducing the layout exactly; the First Click is unprotected.
    Pinned,
    /// Mine placement waits for the First Click, re-drawing the Seed until
    /// the clicked Cell's 3x3 is Mine-free.
    Random,
}

/// The configuration a Game is created from: a Difficulty, a SeedPolicy, a
/// set of Features, and the Seed.
#[derive(Debug, Clone, Copy, PartialEq, Eq, Structural)]
pub struct GameConfig {
    pub difficulty: Difficulty,
    pub seed_policy: SeedPolicy,
    pub features: Features,
    pub seed: Seed,
}

/// The mathematical model of a game.
pub struct ClassicModel {
    pub config: GameConfig,
    pub board: BoardModel,
    pub timer: TimerPhase,
}

/// Whether a configuration places its Mines at creation.
pub open spec fn places_at_creation(config: GameConfig) -> bool {
    !has_prank(config.features) && config.seed_policy == SeedPolicy::Pinned
}

/// A fresh game of a configuration: a Pinned Classic game already holds its
/// Seed's layout.
pub open spec fn fresh_classic(config: GameConfig) -> ClassicModel {
    let size = difficulty_size(config.difficulty);
    let count = difficulty_mines(config.difficulty);
    ClassicModel {
        config,
        board: BoardModel {
            mines: if places_at_creation(config) {
                Some(mine_layout(size, config.seed, count))
            } else {
                None
            },
            ..fresh_board(size, count as nat)
        },
        timer: TimerPhase::Idle,
    }
}

impl ClassicModel {
    /// The game invariant.
    pub open spec fn wf(self) -> bool {
        &&& self.board.wf()
        &&& self.board.size == difficulty_size(self.config.difficulty)
        &&& self.board.mine_count == difficulty_mines(self.config.difficulty)
        &&& places_at_creation(self.config) ==> self.board.mines is Some
        &&& (self.timer is Idle <==> self.board.state == GameState::Ready)
        &&& (self.timer is Frozen <==> self.board.ended())
    }

    /// The committed replay Seed: the Seed, once the Mine layout is fixed.
    pub open spec fn committed_seed(self) -> Option<Seed> {
        if self.board.mines is Some {
            Some(self.config.seed)
        } else {
            None
        }
    }
}

/// Whether a Reveal of `pos` does anything.
pub open spec fn classic_reveal_applies(m: ClassicModel, pos: Position) -> bool {
    &&& !m.board.ended()
    &&& in_bounds(m.board.size, pos)
    &&& m.board.cell(pos) == CellState::Hidden
}

/// A layout with `pos` added unless already there.
pub open spec fn with_forced(m: Seq<Position>, pos: Position) -> Seq<Position> {
    if m.contains(pos) {
        m
    } else {
        m.push(pos)
    }
}

/// Where the Mines of a game come from at its First Click on `pos`.
pub open spec fn classic_first_click(o: ClassicModel, n: ClassicModel, pos: Position) -> bool {
    let size = o.board.size;
    let count = o.board.mine_count as usize;
    if has_prank(o.config.features) {
        &&& n.config == o.config
        &&& n.board.mines == Some(
            match o.board.mines {
                Some(preset) => with_forced(preset, pos),
                None => forced_layout(size, o.config.seed, count, pos),
            },
        )
    } else if o.config.seed_policy == SeedPolicy::Random {
        &&& n.config == (GameConfig { seed: n.config.seed, ..o.config })
        &&& n.board.mines matches Some(m) && m.len() == count && layout_ok(size, m) && region_clear(m, pos)
            && (m == mine_layout(size, n.config.seed, count) || m == spread_layout(size, count, pos, n.config.seed))
            && (region_clear(mine_layout(size, n.config.seed, count), pos) ==> m == mine_layout(
            size,
            n.config.seed,
            count,
        ))
    } else {
        &&& n.config == o.config
        &&& n.board.mines == o.board.mines
    }
}

/// The effect of a Reveal of `pos`.
pub open spec fn classic_revealed(o: ClassicModel, n: ClassicModel, pos: Position) -> bool {
    if classic_reveal_applies(o, pos) {
        &&& opened(BoardModel { mines: n.board.mines, ..o.board }, n.board, pos)
        &&& o.board.state == GameState::Ready ==> classic_first_click(o, n, pos)
        &&& o.board.state != GameState::Ready ==> n.config == o.config && n.board.mines == o.board.mines
            && timer_after(o.timer, n.timer, n.board.ended())
    } else {
        n == o
    }
}

/// A Minesweeper game created in a `GameMode` under a `SeedPolicy`.
#[derive(Debug)]
pub struct Game {
    config: GameConfig,
    board: Board,
    timer: Timer,
}

impl View for Game {
    type V = ClassicModel;

    closed spec fn view(&self) -> ClassicModel {
        ClassicModel { config: self.config, board: self.board@, timer: self.timer.phase() }
    }
}

impl Game {
    /// Creates a game in `Ready` state with a fresh random Seed under the
    /// Random policy: Mines wait for the First Click.
    pub fn new(difficulty: Difficulty, mode: GameMode) -> (g: Self)
        ensures
            g@ == fresh_classic(
                GameConfig {
                    difficulty,
                    seed_policy: SeedPolicy::Random,
                    features: mode_features(mode),
                    seed: g@.config.seed,
                },
            ),
            g@.wf(),
    {
        let seed = random_seed();
        Self::with_config(
            GameConfig {
                difficulty,
                seed_policy: SeedPolicy::Random,
                features: Self::mode_features(mode),
                seed,
            },
        )
    }

    /// Creates a game in `Ready` state whose Mine layout derives from the
    /// given Seed under the Pinned policy: the same Seed and Difficulty
    /// reproduce the same layout.
    pub fn with_seed(difficulty: Difficulty, mode: GameMode, seed: Seed) -> (g: Self)
        ensures
            g@ == fresh_classic(
                GameConfig {
                    difficulty,
                    seed_policy: SeedPolicy::Pinned,
                    features: mode_features(mode),
                    seed,
                },
            ),
            g@.wf(),
            g@.board.mines matches Some(m) ==> m.len() == g@.board.mine_count && layout_ok(g@.board.size, m),
    {
        Self::with_config(
            GameConfig {
                difficulty,
                seed_policy: SeedPolicy::Pinned,
                features: Self::mode_features(mode),
                seed,
            },
        )
    }

    /// Creates a game from an explicit `GameConfig`.
    pub fn with_config(config: GameConfig) -> (g: Self)
        ensures
            g@ == fresh_classic(config),
            g@.wf(),
            g@.board.mines matches Some(m) ==> m.len() == g@.board.mine_count && layout_ok(g@.board.size, m),
    {
        Self::build(config)
    }

    /// The Features a game mode stands for.
    fn mode_features(mode: GameMode) -> (r: Features)
        ensures
            r == mode_features(mode),
    {
        match mode {
            GameMode::Classic => Features::NONE,
            GameMode::Prank => Features::prank(),
        }
    }

    /// Builds a game from its configuration: a Pinned Classic game commits
    /// its Mine set at once; the others wait for the First Click.
    fn build(config: GameConfig) -> (g: Self)
        ensures
            g@ == fresh_classic(config),
            g@.wf(),
            g@.board.mines matches Some(m) ==> m.len() == g@.board.mine_count && layout_ok(g@.board.size, m),
    {
        proof {
            lemma_difficulty_room(config.difficulty);
        }
        let size = config.difficulty.size();
        let mine_count = config.difficulty.mine_count();
        let mut game = Game { config, board: Board::new(size, mine_count), timer: Timer::new() };
        if game.place_mines_at_creation() {
            let mines = sample_mines(size, mine_count, config.seed);
            game.board.place_mines(mines);
        }
        game
    }

    /// Whether the Mine layout is placed at creation.
    fn place_mines_at_creation(&self) -> (r: bool)
        ensures
            r == places_at_creation(self@.config),
    {
        !self.config.features.contains(Feature::Prank) && self.config.seed_policy == SeedPolicy::Pinned
    }

    /// Creates a Pinned game with Seed 0 whose Mines are the preset list. A
    /// Classic caller is responsible for First Click safety; in a Prank game
    /// the First Click is still forced into the list. The Mine count stays
    /// the Difficulty's, whatever the preset's length.
    pub fn with_mines(difficulty: Difficulty, mode: GameMode, mines: &[Position]) -> (g: Self)
        requires
            forall|i: int| 0 <= i < mines@.len() ==> in_bounds(difficulty_size(difficulty), #[trigger] mines@[i]),
        ensures
            g@ == (ClassicModel {
                board: BoardModel { mines: Some(mines@), ..g@.board },
                ..fresh_classic(
                    GameConfig {
                        difficulty,
                        seed_policy: SeedPolicy::Pinned,
                        features: mode_features(mode),
                        seed: 0,
                    },
                )
            }),
            g@.board == (BoardModel {
                mines: Some(mines@),
                ..fresh_board(difficulty_size(difficulty), difficulty_mines(difficulty) as nat)
            }),
            g@.wf(),
    {
        let mut game = Self::with_seed(difficulty, mode, 0);
        let mut preset: Vec<Position> = Vec::new();
        let mut i: usize = 0;
        while i < mines.len()
            invariant
                i <= mines@.len(),
                preset@ == mines@.take(i as int),
            decreases mines.len() - i,
        {
            preset.push(mines[i]);
            assert(mines@.take(i + 1) =~= preset@);
            i += 1;
        }
        assert(mines@.take(mines@.len() as int) =~= mines@);
        game.board.place_mines(preset);
        game
    }

    /// The board of this game.
    pub(crate) fn board(&self) -> (r: &Board)
        ensures
            r@ == self@.board,
    {
        &self.board
    }

    /// The current game state.
    pub fn game_state(&self) -> (r: GameState)
        ensures
            r == self@.board.state,
    {
        self.board.state()
    }

    /// The board size.
    pub fn size(&self) -> (r: BoardSize)
        ensures
            r == self@.board.size,
    {
        self.board.size()
    }

    /// The difficulty this game was created with.
    pub fn difficulty(&self) -> (r: Difficulty)
        ensures
            r == self@.config.difficulty,
    {
        self.config.difficulty
    }

    /// The current Seed (provisional until the layout is fixed).
    pub fn seed(&self) -> (r: Seed)
        ensures
            r == self@.config.seed,
    {
        self.config.seed
    }

    /// The SeedPolicy this game was created with.
    pub fn seed_policy(&self) -> (r: SeedPolicy)
        ensures
            r == self@.config.seed_policy,
    {
        self.config.seed_policy
    }

    /// The set of Features enabled on this game.
    pub fn features(&self) -> (r: Features)
        ensures
            r == self@.config.features,
    {
        self.config.features
    }

    /// The committed replay Seed, or `None` while the Mine layout isn't
    /// fixed yet.
    pub fn committed_seed(&self) -> (r: Option<Seed>)
        ensures
            r == self@.committed_seed(),
    {
        if self.board.has_mines() {
            Some(self.config.seed)
        } else {
            None
        }
    }

    /// The placed Mines, if any; `None` until placed.
    pub fn mines(&self) -> (r: Option<&[Position]>)
        ensures
            match self@.board.mines {
                Some(m) => r matches Some(s) && s@ == m,
                None => r is None,
            },
    {
        self.board.mine_list()
    }

    /// The Trigger Mine of a Lost game; `None` otherwise.
    pub fn trigger(&self) -> (r: Option<Position>)
        ensures
            r == self@.board.trigger,
    {
        self.board.trigger()
    }

    /// The visible state of a Cell.
    pub fn cell_view(&self, pos: Position) -> (r: CellView)
        requires
            self@.wf(),
            in_bounds(self@.board.size, pos),
        ensures
            r == self@.board.view_of(pos),
    {
        self.board.cell_view(pos)
    }

    /// The mine count minus the number of placed Flags; negative when the
    /// player has over-flagged.
    pub fn flags_remaining(&self) -> (r: i32)
        requires
            self@.wf(),
        ensures
            r == self@.board.flags_remaining(),
    {
        self.board.flags_remaining()
    }

    /// The time on the Timer: zero before the First Click, frozen once the
    /// game has ended.
    pub fn elapsed(&self) -> (r: Duration)
        ensures
            self@.timer is Idle ==> r == duration_from_secs(0) && duration_secs(r) == 0,
            self@.timer matches TimerPhase::Frozen(d, _) ==> r == d,
    {
        self.timer.elapsed()
    }

    /// Reveals a Cell. A no-op when the game has ended, the Cell is Flagged
    /// or Revealed, or it is off the board. The First Click places the Prank
    /// Mines or makes a Random game safe, and starts the Timer.
    pub fn reveal_cell(&mut self, pos: Position)
        requires
            old(self)@.wf(),
        ensures
            final(self)@.wf(),
            classic_revealed(old(self)@, final(self)@, pos),
    {
        let state = self.board.state();
        if state == GameState::Won || state == GameState::Lost {
            return;
        }
        if !(pos.row < self.board.size().rows && pos.col < self.board.size().cols) {
            return;
        }
        if self.board.cell_state(pos) != CellState::Hidden {
            return;
        }
        if state == GameState::Ready {
            if self.config.features.contains(Feature::Prank) {
                self.place_mines(pos);
            } else {
                match self.config.seed_policy {
                    SeedPolicy::Random => self.ensure_safe_first_click(pos),
                    SeedPolicy::Pinned => {},
                }
            }
            self.timer.start();
        }
        self.board.open(pos);
        if self.board.state() == GameState::Won || self.board.state() == GameState::Lost {
            self.timer.freeze();
        }
    }

    /// Places the Mines of a Prank game at the First Click: the clicked Cell
    /// is forced into the Mine list — added to a preset, or forced into the
    /// Seed's layout.
    fn place_mines(&mut self, first_click: Position)
        requires
            old(self)@.wf(),
            old(self)@.board.state == GameState::Ready,
            in_bounds(old(self)@.board.size, first_click),
        ensures
            final(self)@.config == old(self)@.config,
            final(self)@.timer == old(self)@.timer,
            final(self)@.board == (BoardModel { mines: final(self)@.board.mines, ..old(self)@.board }),
            final(self)@.board.mines == Some(
                match old(self)@.board.mines {
                    Some(preset) => with_forced(preset, first_click),
                    None => forced_layout(old(self)@.board.size, old(self)@.config.seed, old(self)@.board.mine_count as usize, first_click),
                },
            ),
            final(self)@.board.wf(),
    {
        proof {
            lemma_difficulty_room(self@.config.difficulty);
        }
        let size = self.board.size();
        let mut mines = match self.board.mine_list() {
            Some(preset) => {
                let mut v: Vec<Position> = Vec::new();
                let mut i: usize = 0;
                while i < preset.len()
                    invariant
                        i <= preset@.len(),
                        v@ == preset@.take(i as int),
                    decreases preset.len() - i,
                {
                    v.push(preset[i]);
                    assert(preset@.take(i + 1) =~= v@);
                    i += 1;
                }
                assert(preset@.take(preset@.len() as int) =~= preset@);
                v
            },
            None => sample_mines_forced(size, self.board.mine_count(), self.config.seed, first_click),
        };
        let ghost before = mines@;
        if !contains_position(&mines, first_click) {
            mines.push(first_click);
            proof {
                assert forall|i: int| 0 <= i < mines@.len() implies in_bounds(size, #[trigger] mines@[i]) by {
                    if i < before.len() {
                        assert(mines@[i] == before[i]);
                    }
                }
            }
        }
        self.board.place_mines(mines);
    }

    /// Makes a Random game's First Click safe: the Seed is re-drawn until the
    /// clicked Cell's 3x3 is Mine-free, and the accepted Seed (with its
    /// layout) becomes the game's.
    fn ensure_safe_first_click(&mut self, pos: Position)
        requires
            old(self)@.wf(),
            old(self)@.board.state == GameState::Ready,
            in_bounds(old(self)@.board.size, pos),
        ensures
            final(self)@.config == (GameConfig { seed: final(self)@.config.seed, ..old(self)@.config }),
            final(self)@.timer == old(self)@.timer,
            final(self)@.board == (BoardModel { mines: final(self)@.board.mines, ..old(self)@.board }),
            final(self)@.board.mines matches Some(m) && m.len() == old(self)@.board.mine_count
                && layout_ok(old(self)@.board.size, m) && region_clear(m, pos)
                && (m == mine_layout(old(self)@.board.size, final(self)@.config.seed, old(self)@.board.mine_count as usize)
                || m == spread_layout(old(self)@.board.size, old(self)@.board.mine_count as usize, pos, final(self)@.config.seed))
                && (region_clear(mine_layout(old(self)@.board.size, final(self)@.config.seed, old(self)@.board.mine_count as usize), pos)
                ==> m == mine_layout(old(self)@.board.size, final(self)@.config.seed, old(self)@.board.mine_count as usize)),
            final(self)@.board.wf(),
    {
        proof {
            lemma_difficulty_room(self@.config.difficulty);
        }
        let (seed, mines) = safe_layout(self.board.size(), self.board.mine_count(), pos, self.config.seed);
        self.board.place_mines(mines);
        self.config.seed = seed;
    }

    /// Toggles a Flag on a Hidden Cell, or removes one. A no-op on Revealed
    /// Cells, off the board, and once the game has ended.
    pub fn toggle_flag(&mut self, pos: Position)
        requires
            old(self)@.wf(),
        ensures
            final(self)@.wf(),
            final(self)@ == (ClassicModel { board: flag_toggled(old(self)@.board, pos), ..old(self)@ }),
    {
        self.board.toggle_flag(pos);
    }

    /// Chord: on a Revealed numeric Cell whose Flag count matches its number,
    /// Reveals all unflagged neighbors, each cascading as a click would. A
    /// no-op otherwise.
    pub fn chord(&mut self, pos: Position)
        requires
            old(self)@.wf(),
        ensures
            final(self)@.wf(),
            final(self)@.config == old(self)@.config,
            chorded(old(self)@.board, final(self)@.board, pos),
            final(self)@.board == old(self)@.board ==> final(self)@.timer == old(self)@.timer,
            final(self)@.board != old(self)@.board ==> timer_after(
                old(self)@.timer,
                final(self)@.timer,
                final(self)@.board.ended(),
            ),
    {
        let state = self.board.state();
        if state == GameState::Won || state == GameState::Lost {
            return;
        }
        self.board.chord(pos);
        if self.board.state() == GameState::Won || self.board.state() == GameState::Lost {
            self.timer.freeze();
        }
    }
}


// ---------------------------------------------------------------------
// Laws of the mode-based game

/// A Pinned Classic game holds its Seed's layout from creation, so the same
/// Seed and Difficulty reproduce the same Mines before any click.
pub proof fn law_pinned_classic_layout_at_creation(c1: GameConfig, c2: GameConfig)
    requires
        places_at_creation(c1),
        places_at_creation(c2),
        c1.difficulty == c2.difficulty,
        c1.seed == c2.seed,
    ensures
        fresh_classic(c1).board.mines == Some(
            mine_layout(difficulty_size(c1.difficulty), c1.seed, difficulty_mines(c1.difficulty)),
        ),
        fresh_classic(c1).board.mines == fresh_classic(c2).board.mines,
        fresh_classic(c1).committed_seed() == Some(c1.seed),
{
}

/// In a Prank game the First Click is always a Mine: the game is Lost at
/// once with the clicked Cell as the Trigger, shown as a Mine.
pub proof fn law_classic_prank_first_click_loses(o: ClassicModel, n: ClassicModel, pos: Position)
    requires
        o.wf(),
        o.board.state == GameState::Ready,
        has_prank(o.config.features),
        in_bounds(o.board.size, pos),
        o.board.cell(pos) == CellState::Hidden,
        classic_revealed(o, n, pos),
    ensures
        n.board.state == GameState::Lost,
        n.board.trigger == Some(pos),
        n.board.view_of(pos).content == Some(CellContent::Mine),
{
    let m = n.board.mines->0;
    assert(m.contains(pos)) by {
        match o.board.mines {
            Some(preset) => {
                if !preset.contains(pos) {
                    assert(m == preset.push(pos));
                    assert(m[m.len() - 1] == pos);
                }
            },
            None => {
                let f = forced_layout(o.board.size, o.config.seed, o.board.mine_count as usize, pos);
                assert(m == f);
                assert(f[f.len() - 1] == pos);
            },
        }
    }
    law_reveal_outcome(BoardModel { mines: n.board.mines, ..o.board }, n.board, pos);
}

/// In a Prank game the same Seed and the same First Click reproduce the
/// same layout: the Seed's layout with the clicked Cell forced in.
pub proof fn law_classic_prank_layout_reproducible(
    o1: ClassicModel,
    n1: ClassicModel,
    o2: ClassicModel,
    n2: ClassicModel,
    pos: Position,
)
    requires
        o1.wf(),
        o2.wf(),
        o1.config == o2.config,
        has_prank(o1.config.features),
        o1.board.state == GameState::Ready,
        o2.board.state == GameState::Ready,
        o1.board.mines is None,
        o2.board.mines is None,
        classic_reveal_applies(o1, pos),
        classic_reveal_applies(o2, pos),
        classic_revealed(o1, n1, pos),
        classic_revealed(o2, n2, pos),
    ensures
        n1.board.mines == n2.board.mines,
        n1.board.mines == Some(
            forced_layout(o1.board.size, o1.config.seed, o1.board.mine_count as usize, pos),
        ),
{
}

/// In a Random (non-Prank) game the First Click is safe: it is never a Mine
/// and it opens as a zero Cell, whatever the drawn Seed.
pub proof fn law_classic_random_first_click_is_safe(o: ClassicModel, n: ClassicModel, pos: Position)
    requires
        o.wf(),
        o.board.state == GameState::Ready,
        !has_prank(o.config.features),
        o.config.seed_policy == SeedPolicy::Random,
        in_bounds(o.board.size, pos),
        o.board.cell(pos) == CellState::Hidden,
        classic_revealed(o, n, pos),
    ensures
        n.board.state != GameState::Lost,
        n.board.view_of(pos).content == Some(CellContent::Number(0)),
        n.committed_seed() == Some(n.config.seed),
{
    let m = n.board.mines->0;
    lemma_clear_region_is_zero(o.board.size, m, pos);
    law_reveal_outcome(BoardModel { mines: n.board.mines, ..o.board }, n.board, pos);
}

} // verus!
