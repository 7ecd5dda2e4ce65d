//! The board engine shared by every game flavor: the Cells, the Mines, the
//! Flag counter and the game state, with the rules that change them —
//! Flag toggling, the Reveal cascade through zero Cells, Chording, and the
//! Won / Lost resolution of the final board.

use vstd::prelude::*;

use crate::domain::{BoardSize, CellContent, CellState, CellView, GameState, Position};
use crate::geometry::{
    adjacent, cell_at, cell_index, cell_total, in_bounds, lemma_cell_index, lemma_neighbor_seq,
    neighbor_seq, neighbors, valid_size,
};
use crate::sampling::region_clear;

verus! {

/// The mathematical model of a board.
pub struct BoardModel {
    pub size: BoardSize,
    /// The recipe Mine count; the zero reference of the Flag counter.
    pub mine_count: nat,
    /// The Mine positions, once placed.
    pub mines: Option<Seq<Position>>,
    /// One state per Cell, row-major.
    pub cells: Seq<CellState>,
    /// The Flag counter.
    pub flags: nat,
    pub state: GameState,
    /// The Trigger Mine of a Lost game.
    pub trigger: Option<Position>,
}

/// Whether `q` holds a Mine.
pub open spec fn mine_at(mines: Option<Seq<Position>>, q: Position) -> bool {
    match mines {
        Some(m) => m.contains(q),
        None => false,
    }
}

/// How many Cells of `s` hold a Mine.
pub open spec fn count_mines(mines: Option<Seq<Position>>, s: Seq<Position>) -> nat
    decreases s.len(),
{
    if s.len() == 0 {
        0
    } else {
        count_mines(mines, s.drop_last()) + if mine_at(mines, s.last()) {
            1nat
        } else {
            0nat
        }
    }
}

/// The number of Mines around `q`.
pub open spec fn adjacent_mine_count(size: BoardSize, mines: Option<Seq<Position>>, q: Position) -> nat {
    count_mines(mines, neighbor_seq(size, q))
}

/// How many Cells of `s` are in state `st` in `cells`.
pub open spec fn count_in_state(
    size: BoardSize,
    cells: Seq<CellState>,
    s: Seq<Position>,
    st: CellState,
) -> nat
    decreases s.len(),
{
    if s.len() == 0 {
        0
    } else {
        count_in_state(size, cells, s.drop_last(), st) + if cell_at(size, cells, s.last()) == st {
            1nat
        } else {
            0nat
        }
    }
}

/// How many entries of a cell list are in state `st`.
pub open spec fn count_cells(cells: Seq<CellState>, st: CellState) -> nat
    decreases cells.len(),
{
    if cells.len() == 0 {
        0
    } else {
        count_cells(cells.drop_last(), st) + if cells.last() == st {
            1nat
        } else {
            0nat
        }
    }
}

/// Whether every non-Mine Cell is Revealed.
pub open spec fn all_clear(size: BoardSize, mines: Option<Seq<Position>>, cells: Seq<CellState>) -> bool {
    forall|q: Position|
        in_bounds(size, q) && !mine_at(mines, q) ==> #[trigger] cell_at(size, cells, q)
            == CellState::Revealed
}

/// Whether `q` went from Hidden in `o` to Revealed in `c`.
pub open spec fn newly_revealed(size: BoardSize, o: Seq<CellState>, c: Seq<CellState>, q: Position) -> bool {
    &&& in_bounds(size, q)
    &&& cell_at(size, o, q) == CellState::Hidden
    &&& cell_at(size, c, q) == CellState::Revealed
}

/// Whether `q` is a newly Revealed zero Cell (no Mine, no adjacent Mine).
pub open spec fn newly_zero(
    size: BoardSize,
    mines: Option<Seq<Position>>,
    o: Seq<CellState>,
    c: Seq<CellState>,
    q: Position,
) -> bool {
    &&& newly_revealed(size, o, c, q)
    &&& !mine_at(mines, q)
    &&& adjacent_mine_count(size, mines, q) == 0
}

/// Every newly Revealed Cell other than a start touches a newly Revealed
/// zero Cell of lower rank `d`: following such neighbors down the ranks
/// always ends at a start, so each newly Revealed Cell is reached from a
/// start through newly Revealed zero Cells.
pub open spec fn reached_by_rank(
    size: BoardSize,
    mines: Option<Seq<Position>>,
    o: Seq<CellState>,
    c: Seq<CellState>,
    starts: Set<Position>,
    d: spec_fn(Position) -> nat,
) -> bool {
    forall|q: Position|
        #[trigger] newly_revealed(size, o, c, q) && !starts.contains(q) ==> exists|r: Position|
            adjacent(q, r) && #[trigger] newly_zero(size, mines, o, c, r) && d(r) < d(q)
}

/// The Reveal cascade from the Cells `starts`: each start is Revealed, and
/// so is every non-Mine Cell around a Revealed zero Cell, transitively, and
/// nothing else. Precisely: only Hidden Cells change, and only to Revealed;
/// every start is Revealed; a Mine is Revealed only as a start; every newly
/// Revealed zero Cell has no Hidden neighbor left; and every other newly
/// Revealed Cell is reached from a start through newly Revealed zero Cells
/// (a ranking of the newly Revealed Cells witnesses it), so the cascade is
/// the least such set.
pub open spec fn cascade(
    size: BoardSize,
    mines: Option<Seq<Position>>,
    o: Seq<CellState>,
    c: Seq<CellState>,
    starts: Set<Position>,
) -> bool {
    &&& c.len() == o.len()
    &&& forall|q: Position|
        in_bounds(size, q) ==> (#[trigger] cell_at(size, c, q) == cell_at(size, o, q) || (cell_at(
            size,
            o,
            q,
        ) == CellState::Hidden && cell_at(size, c, q) == CellState::Revealed))
    &&& forall|q: Position| #[trigger]
        starts.contains(q) ==> newly_revealed(size, o, c, q)
    &&& forall|q: Position|
        newly_revealed(size, o, c, q) && mine_at(mines, q) ==> #[trigger] starts.contains(q)
    &&& forall|q: Position, r: Position|
        newly_zero(size, mines, o, c, q) && in_bounds(size, r) && #[trigger] adjacent(q, r)
            ==> #[trigger] cell_at(size, c, r) != CellState::Hidden
    &&& exists|d: spec_fn(Position) -> nat| #[trigger] reached_by_rank(size, mines, o, c, starts, d)
}

/// The Lost board: every unflagged Mine is Revealed, nothing else changes.
pub open spec fn lost_cells(
    size: BoardSize,
    mines: Option<Seq<Position>>,
    c: Seq<CellState>,
    n: Seq<CellState>,
) -> bool {
    &&& n.len() == c.len()
    &&& forall|q: Position|
        in_bounds(size, q) ==> #[trigger] cell_at(size, n, q) == if mine_at(mines, q) && cell_at(
            size,
            c,
            q,
        ) != CellState::Flagged {
            CellState::Revealed
        } else {
            cell_at(size, c, q)
        }
}

/// The Won board: every Hidden Mine is Flagged, nothing else changes.
pub open spec fn won_cells(
    size: BoardSize,
    mines: Option<Seq<Position>>,
    c: Seq<CellState>,
    n: Seq<CellState>,
) -> bool {
    &&& n.len() == c.len()
    &&& forall|q: Position|
        in_bounds(size, q) ==> #[trigger] cell_at(size, n, q) == if mine_at(mines, q) && cell_at(
            size,
            c,
            q,
        ) == CellState::Hidden {
            CellState::Flagged
        } else {
            cell_at(size, c, q)
        }
}

impl BoardModel {
    #[verifier::inline]
    pub open spec fn cell(self, q: Position) -> CellState {
        cell_at(self.size, self.cells, q)
    }

    #[verifier::inline]
    pub open spec fn is_mine(self, q: Position) -> bool {
        mine_at(self.mines, q)
    }

    pub open spec fn adjacent_mines(self, q: Position) -> nat {
        adjacent_mine_count(self.size, self.mines, q)
    }

    pub open spec fn flagged_neighbors(self, q: Position) -> nat {
        count_in_state(self.size, self.cells, neighbor_seq(self.size, q), CellState::Flagged)
    }

    pub open spec fn ended(self) -> bool {
        self.state == GameState::Won || self.state == GameState::Lost
    }

    /// The structural shape of a board.
    pub open spec fn shape_ok(self) -> bool {
        &&& valid_size(self.size)
        &&& self.cells.len() == cell_total(self.size)
        &&& self.mine_count <= 4096
        &&& self.mines matches Some(m) ==> forall|i: int|
            0 <= i < m.len() ==> in_bounds(self.size, #[trigger] m[i])
    }

    /// The board invariant.
    pub open spec fn wf(self) -> bool {
        &&& self.shape_ok()
        &&& self.state != GameState::Won ==> self.flags == count_cells(self.cells, CellState::Flagged)
        &&& self.state == GameState::Won ==> self.flags == self.mine_count
        &&& (self.trigger is Some <==> self.state == GameState::Lost)
        &&& self.state != GameState::Ready ==> self.mines is Some
        &&& self.trigger matches Some(t) ==> in_bounds(self.size, t) && self.is_mine(t) && self.cell(
            t,
        ) == CellState::Revealed
        &&& self.state == GameState::Ready ==> forall|q: Position|
            in_bounds(self.size, q) ==> #[trigger] self.cell(q) != CellState::Revealed
        &&& self.state != GameState::Lost ==> forall|q: Position|
            in_bounds(self.size, q) && #[trigger] self.cell(q) == CellState::Revealed
                ==> !self.is_mine(q)
        &&& self.state == GameState::Lost ==> forall|q: Position|
            in_bounds(self.size, q) && self.is_mine(q) ==> #[trigger] self.cell(q)
                != CellState::Hidden
        &&& self.state == GameState::Won ==> forall|q: Position|
            in_bounds(self.size, q) ==> if self.is_mine(q) {
                #[trigger] self.cell(q) == CellState::Flagged
            } else {
                self.cell(q) == CellState::Revealed
            }
        &&& self.state == GameState::Playing ==> !all_clear(self.size, self.mines, self.cells)
    }

    /// What a Cell looks like to the player.
    pub open spec fn view_of(self, q: Position) -> CellView {
        CellView {
            state: self.cell(q),
            content: if self.cell(q) == CellState::Revealed {
                Some(
                    if self.is_mine(q) {
                        CellContent::Mine
                    } else {
                        CellContent::Number(self.adjacent_mines(q) as u8)
                    },
                )
            } else {
                None
            },
        }
    }

    /// The Flags Remaining counter: the Mine count minus the placed Flags.
    pub open spec fn flags_remaining(self) -> int {
        self.mine_count - self.flags
    }
}

/// A fresh board: every Cell Hidden, no Mines, no Flags, `Ready`.
pub open spec fn fresh_board(size: BoardSize, mine_count: nat) -> BoardModel {
    BoardModel {
        size,
        mine_count,
        mines: None,
        cells: Seq::new(cell_total(size) as nat, |i: int| CellState::Hidden),
        flags: 0,
        state: GameState::Ready,
        trigger: None,
    }
}

/// The effect of toggling a Flag at `pos`: a Hidden Cell becomes Flagged, a
/// Flagged one Hidden; nothing happens on a Revealed Cell, off the board, or
/// once the game has ended.
pub open spec fn flag_toggled(m: BoardModel, pos: Position) -> BoardModel {
    if m.ended() || !in_bounds(m.size, pos) {
        m
    } else if m.cell(pos) == CellState::Hidden {
        BoardModel {
            cells: m.cells.update(cell_index(m.size, pos), CellState::Flagged),
            flags: m.flags + 1,
            ..m
        }
    } else if m.cell(pos) == CellState::Flagged {
        BoardModel {
            cells: m.cells.update(cell_index(m.size, pos), CellState::Hidden),
            flags: (m.flags - 1) as nat,
            ..m
        }
    } else {
        m
    }
}

/// How a board is resolved after cascading to the cells `c`: Lost on the
/// Trigger `hit` (unflagged Mines Revealed), else Won when every non-Mine
/// Cell is Revealed (Hidden Mines Flagged, Flag counter at the Mine count),
/// else still Playing.
pub open spec fn resolved(o: BoardModel, c: Seq<CellState>, n: BoardModel, hit: Option<Position>) -> bool {
    &&& n.size == o.size
    &&& n.mine_count == o.mine_count
    &&& n.mines == o.mines
    &&& match hit {
        Some(t) => {
            &&& n.state == GameState::Lost
            &&& n.trigger == Some(t)
            &&& n.flags == o.flags
            &&& lost_cells(o.size, o.mines, c, n.cells)
        },
        None => {
            &&& n.trigger is None
            &&& if all_clear(o.size, o.mines, c) {
                &&& n.state == GameState::Won
                &&& n.flags == o.mine_count
                &&& won_cells(o.size, o.mines, c, n.cells)
            } else {
                &&& n.state == GameState::Playing
                &&& n.flags == o.flags
                &&& n.cells == c
            }
        },
    }
}

/// A Reveal of the Hidden Cell `pos` via the intermediate cells `c`.
pub open spec fn opened_via(o: BoardModel, n: BoardModel, pos: Position, c: Seq<CellState>) -> bool {
    &&& cascade(o.size, o.mines, o.cells, c, set![pos])
    &&& resolved(
        o,
        c,
        n,
        if o.is_mine(pos) {
            Some(pos)
        } else {
            None
        },
    )
}

/// A Reveal of the Hidden Cell `pos`: the cascade from `pos`, then the
/// resolution of the board (Lost on `pos` if it is a Mine).
pub open spec fn opened(o: BoardModel, n: BoardModel, pos: Position) -> bool {
    exists|c: Seq<CellState>| #[trigger] opened_via(o, n, pos, c)
}

/// Whether a Chord on `pos` does anything: the game is on, `pos` is a
/// Revealed numbered Cell, and its Flagged neighbors match its number.
pub open spec fn chord_applies(m: BoardModel, pos: Position) -> bool {
    &&& !m.ended()
    &&& in_bounds(m.size, pos)
    &&& m.cell(pos) == CellState::Revealed
    &&& m.adjacent_mines(pos) != 0
    &&& m.flagged_neighbors(pos) == m.adjacent_mines(pos)
}

/// The Hidden neighbors of `pos`.
pub open spec fn hidden_neighbors(m: BoardModel, pos: Position) -> Set<Position> {
    Set::new(
        |q: Position| in_bounds(m.size, q) && adjacent(pos, q) && m.cell(q) == CellState::Hidden,
    )
}

/// The first Cell of `s` that is a Hidden Mine in `m`.
pub open spec fn first_hidden_mine(m: BoardModel, s: Seq<Position>) -> Option<Position>
    decreases s.len(),
{
    if s.len() == 0 {
        None
    } else {
        match first_hidden_mine(m, s.drop_last()) {
            Some(t) => Some(t),
            None => if m.cell(s.last()) == CellState::Hidden && m.is_mine(s.last()) {
                Some(s.last())
            } else {
                None
            },
        }
    }
}

/// A Chord on `pos` via the intermediate cells `c`.
pub open spec fn chorded_via(o: BoardModel, n: BoardModel, pos: Position, c: Seq<CellState>) -> bool {
    &&& cascade(o.size, o.mines, o.cells, c, hidden_neighbors(o, pos))
    &&& resolved(o, c, n, first_hidden_mine(o, neighbor_seq(o.size, pos)))
}

/// A Chord on `pos`: when it applies, every Hidden neighbor is Revealed as
/// by a click (each cascading), and the game is Lost on the first Hidden
/// Mine among them in row-major order, else resolved as after a Reveal.
/// Otherwise nothing changes.
pub open spec fn chorded(o: BoardModel, n: BoardModel, pos: Position) -> bool {
    if chord_applies(o, pos) {
        exists|c: Seq<CellState>| #[trigger] chorded_via(o, n, pos, c)
    } else {
        n == o
    }
}

// ---------------------------------------------------------------------
// Counting lemmas

proof fn lemma_count_cells_update(s: Seq<CellState>, i: int, v: CellState, st: CellState)
    requires
        0 <= i < s.len(),
    ensures
        count_cells(s.update(i, v), st) + (if s[i] == st {
            1int
        } else {
            0
        }) == count_cells(s, st) + (if v == st {
            1int
        } else {
            0
        }),
    decreases s.len(),
{
    let u = s.update(i, v);
    if i == s.len() - 1 {
        assert(u.drop_last() =~= s.drop_last());
    } else {
        lemma_count_cells_update(s.drop_last(), i, v, st);
        assert(u.drop_last() =~= s.drop_last().update(i, v));
    }
}

proof fn lemma_count_cells_bound(s: Seq<CellState>, st: CellState)
    ensures
        count_cells(s, st) <= s.len(),
    decreases s.len(),
{
    if s.len() > 0 {
        lemma_count_cells_bound(s.drop_last(), st);
    }
}

proof fn lemma_count_cells_all(s: Seq<CellState>, st: CellState)
    requires
        forall|i: int| 0 <= i < s.len() ==> s[i] != st,
    ensures
        count_cells(s, st) == 0,
    decreases s.len(),
{
    if s.len() > 0 {
        lemma_count_cells_all(s.drop_last(), st);
    }
}

proof fn lemma_count_mines_zero(mines: Option<Seq<Position>>, s: Seq<Position>)
    requires
        count_mines(mines, s) == 0,
    ensures
        forall|i: int| 0 <= i < s.len() ==> !mine_at(mines, #[trigger] s[i]),
    decreases s.len(),
{
    if s.len() > 0 {
        lemma_count_mines_zero(mines, s.drop_last());
        assert forall|i: int| 0 <= i < s.len() implies !mine_at(mines, #[trigger] s[i]) by {
            if i < s.len() - 1 {
                assert(s[i] == s.drop_last()[i]);
            }
        }
    }
}

proof fn lemma_count_mines_bound(mines: Option<Seq<Position>>, s: Seq<Position>)
    ensures
        count_mines(mines, s) <= s.len(),
    decreases s.len(),
{
    if s.len() > 0 {
        lemma_count_mines_bound(mines, s.drop_last());
    }
}

/// No Mine touches a Cell with no adjacent Mine.
pub proof fn lemma_zero_has_no_adjacent_mine(size: BoardSize, mines: Option<Seq<Position>>, q: Position, r: Position)
    requires
        adjacent_mine_count(size, mines, q) == 0,
        in_bounds(size, r),
        adjacent(q, r),
    ensures
        !mine_at(mines, r),
{
    lemma_neighbor_seq(size, q);
    lemma_count_mines_zero(mines, neighbor_seq(size, q));
    let s = neighbor_seq(size, q);
    assert(s.contains(r));
    let j = choose|j: int| 0 <= j < s.len() && s[j] == r;
    assert(!mine_at(mines, s[j]));
}

/// A Cell has at most eight adjacent Mines.
pub proof fn lemma_adjacent_mines_bound(size: BoardSize, mines: Option<Seq<Position>>, q: Position)
    ensures
        adjacent_mine_count(size, mines, q) <= 8,
{
    lemma_neighbor_seq(size, q);
    lemma_count_mines_bound(mines, neighbor_seq(size, q));
}

/// Revealing one Hidden Cell that does not cascade (a Mine or a numbered
/// Cell) is a cascade from that Cell.
proof fn lemma_single_reveal(
    size: BoardSize,
    mines: Option<Seq<Position>>,
    o: Seq<CellState>,
    c: Seq<CellState>,
    pos: Position,
)
    requires
        valid_size(size),
        o.len() == cell_total(size),
        c == o.update(cell_index(size, pos), CellState::Revealed),
        in_bounds(size, pos),
        cell_at(size, o, pos) == CellState::Hidden,
        mine_at(mines, pos) || adjacent_mine_count(size, mines, pos) != 0,
    ensures
        cascade(size, mines, o, c, set![pos]),
{
    lemma_cell_index(size, pos, pos);
    assert forall|q: Position| in_bounds(size, q) implies #[trigger] cell_at(size, c, q) == if q == pos {
        CellState::Revealed
    } else {
        cell_at(size, o, q)
    } by {
        lemma_cell_index(size, pos, q);
    }
    assert forall|q: Position| #[trigger] newly_revealed(size, o, c, q) implies q == pos by {}
    assert(c.len() == o.len());
    assert(forall|q: Position| #[trigger] set![pos].contains(q) ==> newly_revealed(size, o, c, q));
    assert(forall|q: Position| newly_revealed(size, o, c, q) && mine_at(mines, q) ==> #[trigger] set![pos].contains(q));
    assert(forall|q: Position, r: Position|
        newly_zero(size, mines, o, c, q) && in_bounds(size, r) && #[trigger] adjacent(q, r)
            ==> #[trigger] cell_at(size, c, r) != CellState::Hidden);
    let d = |q: Position| 0nat;
    assert(reached_by_rank(size, mines, o, c, set![pos], d));
}

/// Two cascades in a row are one cascade from the union of their starts.
proof fn lemma_cascade_compose(
    size: BoardSize,
    mines: Option<Seq<Position>>,
    o: Seq<CellState>,
    a: Seq<CellState>,
    b: Seq<CellState>,
    s1: Set<Position>,
    s2: Set<Position>,
    s: Set<Position>,
)
    requires
        cascade(size, mines, o, a, s1),
        cascade(size, mines, a, b, s2),
        forall|q: Position| #[trigger] s.contains(q) ==> newly_revealed(size, o, b, q),
        forall|q: Position| #[trigger] s1.contains(q) ==> s.contains(q),
        forall|q: Position| #[trigger] s2.contains(q) ==> s.contains(q),
    ensures
        cascade(size, mines, o, b, s),
{
    assert forall|q: Position| in_bounds(size, q) implies (#[trigger] cell_at(size, b, q) == cell_at(
        size,
        o,
        q,
    ) || (cell_at(size, o, q) == CellState::Hidden && cell_at(size, b, q) == CellState::Revealed)) by {
        assert(cell_at(size, a, q) == cell_at(size, o, q) || (cell_at(size, o, q) == CellState::Hidden
            && cell_at(size, a, q) == CellState::Revealed));
        assert(cell_at(size, b, q) == cell_at(size, a, q) || (cell_at(size, a, q) == CellState::Hidden
            && cell_at(size, b, q) == CellState::Revealed));
    }
    assert forall|q: Position| newly_revealed(size, o, b, q) && mine_at(mines, q) implies #[trigger] s.contains(
        q,
    ) by {
        if cell_at(size, a, q) == CellState::Hidden {
            assert(newly_revealed(size, a, b, q));
            assert(s2.contains(q));
        } else {
            assert(newly_revealed(size, o, a, q));
            assert(s1.contains(q));
        }
    }
    assert forall|q: Position, r: Position|
        newly_zero(size, mines, o, b, q) && in_bounds(size, r) && #[trigger] adjacent(q, r)
            implies #[trigger] cell_at(size, b, r) != CellState::Hidden by {
        if cell_at(size, a, q) == CellState::Hidden {
            assert(newly_zero(size, mines, a, b, q));
        } else {
            assert(newly_zero(size, mines, o, a, q));
            assert(cell_at(size, a, r) != CellState::Hidden);
            assert(cell_at(size, b, r) == cell_at(size, a, r) || (cell_at(size, a, r) == CellState::Hidden
                && cell_at(size, b, r) == CellState::Revealed));
        }
    }
    let d1 = choose|d: spec_fn(Position) -> nat| #[trigger] reached_by_rank(size, mines, o, a, s1, d);
    let d2 = choose|d: spec_fn(Position) -> nat| #[trigger] reached_by_rank(size, mines, a, b, s2, d);
    let d = |x: Position| if newly_revealed(size, o, a, x) {
        d1(x)
    } else {
        d2(x)
    };
    assert forall|q: Position| #[trigger] newly_revealed(size, o, b, q) && !s.contains(q) implies exists|
        r: Position,
    | adjacent(q, r) && #[trigger] newly_zero(size, mines, o, b, r) && d(r) < d(q) by {
        if cell_at(size, a, q) == CellState::Hidden {
            assert(newly_revealed(size, a, b, q));
            assert(!s2.contains(q));
            let r = choose|r: Position|
                adjacent(q, r) && #[trigger] newly_zero(size, mines, a, b, r) && d2(r) < d2(q);
            assert(cell_at(size, a, r) == cell_at(size, o, r) || (cell_at(size, o, r) == CellState::Hidden
                && cell_at(size, a, r) == CellState::Revealed));
            assert(newly_zero(size, mines, o, b, r));
            assert(!newly_revealed(size, o, a, r));
            assert(!newly_revealed(size, o, a, q));
        } else {
            assert(newly_revealed(size, o, a, q));
            assert(!s1.contains(q));
            let r = choose|r: Position|
                adjacent(q, r) && #[trigger] newly_zero(size, mines, o, a, r) && d1(r) < d1(q);
            assert(cell_at(size, b, r) == cell_at(size, a, r) || (cell_at(size, a, r) == CellState::Hidden
                && cell_at(size, b, r) == CellState::Revealed));
            assert(newly_zero(size, mines, o, b, r));
        }
    }
    assert(reached_by_rank(size, mines, o, b, s, d));
}

/// Leaving the cells alone is a cascade from no start.
proof fn lemma_cascade_none(size: BoardSize, mines: Option<Seq<Position>>, o: Seq<CellState>)
    ensures
        cascade(size, mines, o, o, Set::empty()),
{
    let d = |q: Position| 0nat;
    assert(reached_by_rank(size, mines, o, o, Set::empty(), d));
}

/// What `first_hidden_mine` finds is a Hidden Mine of the list, and when it
/// finds none, the list holds no Hidden Mine.
proof fn lemma_first_hidden_mine(m: BoardModel, s: Seq<Position>)
    ensures
        first_hidden_mine(m, s) matches Some(t) ==> s.contains(t) && m.cell(t) == CellState::Hidden
            && m.is_mine(t),
        first_hidden_mine(m, s) is None ==> forall|i: int|
            0 <= i < s.len() ==> !(m.cell(#[trigger] s[i]) == CellState::Hidden && m.is_mine(s[i])),
    decreases s.len(),
{
    if s.len() > 0 {
        lemma_first_hidden_mine(m, s.drop_last());
        if let Some(t) = first_hidden_mine(m, s.drop_last()) {
            let j = choose|j: int| 0 <= j < s.drop_last().len() && s.drop_last()[j] == t;
            assert(s[j] == t);
        } else if first_hidden_mine(m, s) is None {
            assert forall|i: int| 0 <= i < s.len() implies !(m.cell(#[trigger] s[i]) == CellState::Hidden
                && m.is_mine(s[i])) by {
                if i < s.len() - 1 {
                    assert(s[i] == s.drop_last()[i]);
                }
            }
        } else {
            assert(s[s.len() - 1] == s.last());
        }
    }
}

/// A resolved board keeps the board invariant.
proof fn lemma_resolved_wf(
    o: BoardModel,
    c: Seq<CellState>,
    n: BoardModel,
    starts: Set<Position>,
    hit: Option<Position>,
)
    requires
        o.wf(),
        !o.ended(),
        o.mines is Some,
        cascade(o.size, o.mines, o.cells, c, starts),
        resolved(o, c, n, hit),
        count_cells(c, CellState::Flagged) == count_cells(o.cells, CellState::Flagged),
        hit is Some ==> count_cells(n.cells, CellState::Flagged) == count_cells(
            o.cells,
            CellState::Flagged,
        ),
        hit matches Some(t) ==> starts.contains(t) && o.is_mine(t),
        hit is None ==> forall|q: Position| #[trigger] starts.contains(q) ==> !o.is_mine(q),
    ensures
        n.wf(),
{
    let size = o.size;
    let mines = o.mines;
    assert forall|q: Position| in_bounds(size, q) && o.is_mine(q) implies #[trigger] cell_at(size, c, q)
        == cell_at(size, o.cells, q) || starts.contains(q) by {
        if cell_at(size, c, q) != cell_at(size, o.cells, q) {
            assert(newly_revealed(size, o.cells, c, q));
        }
    }
    assert forall|q: Position| in_bounds(size, q) && o.is_mine(q) && !starts.contains(q) implies #[trigger] cell_at(
        size,
        c,
        q,
    ) != CellState::Revealed by {
        assert(cell_at(size, c, q) == cell_at(size, o.cells, q));
    }
    match hit {
        Some(t) => {
            assert(newly_revealed(size, o.cells, c, t));
            assert forall|q: Position| in_bounds(size, q) && n.is_mine(q) implies #[trigger] n.cell(q)
                != CellState::Hidden by {
                assert(cell_at(size, n.cells, q) == if mine_at(mines, q) && cell_at(size, c, q)
                    != CellState::Flagged {
                    CellState::Revealed
                } else {
                    cell_at(size, c, q)
                });
            }
            assert(n.cell(t) == CellState::Revealed);
        },
        None => {
            assert forall|q: Position| in_bounds(size, q) && #[trigger] cell_at(size, c, q)
                == CellState::Revealed implies !o.is_mine(q) by {
                if o.is_mine(q) {
                    if starts.contains(q) {
                    } else {
                        assert(cell_at(size, c, q) == cell_at(size, o.cells, q));
                    }
                }
            }
            if all_clear(size, mines, c) {
                assert forall|q: Position| in_bounds(size, q) implies if n.is_mine(q) {
                    #[trigger] n.cell(q) == CellState::Flagged
                } else {
                    n.cell(q) == CellState::Revealed
                } by {
                    assert(cell_at(size, n.cells, q) == if mine_at(mines, q) && cell_at(size, c, q)
                        == CellState::Hidden {
                        CellState::Flagged
                    } else {
                        cell_at(size, c, q)
                    });
                    if !o.is_mine(q) {
                        assert(cell_at(size, c, q) == CellState::Revealed);
                    }
                }
                assert forall|q: Position| in_bounds(size, q) && #[trigger] n.cell(q)
                    == CellState::Revealed implies !n.is_mine(q) by {
                    if n.is_mine(q) {
                        assert(n.cell(q) == CellState::Flagged);
                    }
                }
            } else {
                assert(n.cells == c);
            }
        },
    }
}

// ---------------------------------------------------------------------
// The executable board

/// Whether `pos` occurs in `m`.
pub fn contains_position(m: &Vec<Position>, pos: Position) -> (r: bool)
    ensures
        r == m@.contains(pos),
{
    let mut i: usize = 0;
    while i < m.len()
        invariant
            i <= m@.len(),
            forall|j: int| 0 <= j < i ==> m@[j] != pos,
        decreases m.len() - i,
    {
        if m[i] == pos {
            assert(m@[i as int] == pos);
            return true;
        }
        i += 1;
    }
    false
}

/// A Minesweeper board: its Cells, its Mines, the Flag counter and the game
/// state.
#[derive(Debug, Clone)]
pub struct Board {
    size: BoardSize,
    mine_count: usize,
    mines: Option<Vec<Position>>,
    cells: Vec<CellState>,
    flags: usize,
    state: GameState,
    trigger: Option<Position>,
}

impl View for Board {
    type V = BoardModel;

    closed spec fn view(&self) -> BoardModel {
        BoardModel {
            size: self.size,
            mine_count: self.mine_count as nat,
            mines: match self.mines {
                Some(v) => Some(v@),
                None => None,
            },
            cells: self.cells@,
            flags: self.flags as nat,
            state: self.state,
            trigger: self.trigger,
        }
    }
}

impl Board {
    /// A fresh board of `size` whose recipe holds `mine_count` Mines.
    pub fn new(size: BoardSize, mine_count: usize) -> (b: Board)
        requires
            valid_size(size),
            mine_count <= 4096,
        ensures
            b@ == fresh_board(size, mine_count as nat),
            b@.wf(),
    {
        proof {
            lemma_cell_index(size, Position { row: 0, col: 0 }, Position { row: 0, col: 0 });
        }
        let total = size.rows * size.cols;
        let mut cells: Vec<CellState> = Vec::new();
        let mut i: usize = 0;
        while i < total
            invariant
                i <= total,
                cells@.len() == i,
                forall|j: int| 0 <= j < i ==> cells@[j] == CellState::Hidden,
            decreases total - i,
        {
            cells.push(CellState::Hidden);
            i += 1;
        }
        let b = Board {
            size,
            mine_count,
            mines: None,
            cells,
            flags: 0,
            state: GameState::Ready,
            trigger: None,
        };
        assert(b@.cells =~= fresh_board(size, mine_count as nat).cells);
        proof {
            lemma_count_cells_all(b@.cells, CellState::Flagged);
            assert forall|q: Position| in_bounds(size, q) implies #[trigger] b@.cell(q)
                != CellState::Revealed by {
                lemma_cell_index(size, q, q);
            }
        }
        b
    }

    pub fn size(&self) -> (r: BoardSize)
        ensures
            r == self@.size,
    {
        self.size
    }

    pub fn mine_count(&self) -> (r: usize)
        ensures
            r == self@.mine_count,
    {
        self.mine_count
    }

    pub fn state(&self) -> (r: GameState)
        ensures
            r == self@.state,
    {
        self.state
    }

    pub fn trigger(&self) -> (r: Option<Position>)
        ensures
            r == self@.trigger,
    {
        self.trigger
    }

    pub fn has_mines(&self) -> (r: bool)
        ensures
            r == self@.mines is Some,
    {
        self.mines.is_some()
    }

    /// The placed Mines, if any.
    pub fn mine_list(&self) -> (r: Option<&[Position]>)
        ensures
            match self@.mines {
                Some(m) => r matches Some(s) && s@ == m,
                None => r is None,
            },
    {
        match &self.mines {
            Some(v) => Some(v.as_slice()),
            None => None,
        }
    }

    /// Fixes the Mine layout of a `Ready` board.
    pub fn place_mines(&mut self, mines: Vec<Position>)
        requires
            old(self)@.wf(),
            old(self)@.state == GameState::Ready,
            forall|i: int| 0 <= i < mines@.len() ==> in_bounds(old(self)@.size, #[trigger] mines@[i]),
        ensures
            final(self)@ == (BoardModel { mines: Some(mines@), ..old(self)@ }),
            final(self)@.wf(),
    {
        self.mines = Some(mines);
        assert(self@.cells == old(self)@.cells);
    }

    /// The Flags Remaining counter; negative when over-flagged.
    pub fn flags_remaining(&self) -> (r: i32)
        requires
            self@.wf(),
        ensures
            r == self@.flags_remaining(),
    {
        proof {
            lemma_count_cells_bound(self@.cells, CellState::Flagged);
            lemma_cell_index(self@.size, Position { row: 0, col: 0 }, Position { row: 0, col: 0 });
        }
        self.mine_count as i32 - self.flags as i32
    }

    fn index(&self, pos: Position) -> (r: usize)
        requires
            self@.shape_ok(),
            in_bounds(self@.size, pos),
        ensures
            r == cell_index(self@.size, pos),
            r < self@.cells.len(),
    {
        proof {
            lemma_cell_index(self@.size, pos, pos);
        }
        pos.row * self.size.cols + pos.col
    }

    /// The state of the Cell at `pos`.
    pub fn cell_state(&self, pos: Position) -> (r: CellState)
        requires
            self@.shape_ok(),
            in_bounds(self@.size, pos),
        ensures
            r == self@.cell(pos),
    {
        let i = self.index(pos);
        self.cells[i]
    }

    /// Sets the state of the Cell at `pos`, leaving every other Cell alone.
    fn set_cell(&mut self, pos: Position, st: CellState)
        requires
            old(self)@.shape_ok(),
            in_bounds(old(self)@.size, pos),
        ensures
            final(self)@ == (BoardModel {
                cells: old(self)@.cells.update(cell_index(old(self)@.size, pos), st),
                ..old(self)@
            }),
            forall|q: Position|
                in_bounds(old(self)@.size, q) ==> #[trigger] final(self)@.cell(q) == if q == pos {
                    st
                } else {
                    old(self)@.cell(q)
                },
            final(self)@.shape_ok(),
            forall|s: CellState|
                count_cells(final(self)@.cells, s) + (if old(self)@.cell(pos) == s {
                    1int
                } else {
                    0
                }) == #[trigger] count_cells(old(self)@.cells, s) + (if st == s {
                    1int
                } else {
                    0
                }),
    {
        let i = self.index(pos);
        self.cells.set(i, st);
        proof {
            let size = old(self)@.size;
            assert(self@.cells == old(self)@.cells.update(i as int, st));
            assert forall|q: Position| in_bounds(size, q) implies #[trigger] self@.cell(q) == if q
                == pos {
                st
            } else {
                old(self)@.cell(q)
            } by {
                lemma_cell_index(size, pos, q);

            }
            assert forall|s: CellState|
                count_cells(self@.cells, s) + (if old(self)@.cell(pos) == s {
                    1int
                } else {
                    0
                }) == #[trigger] count_cells(old(self)@.cells, s) + (if st == s {
                    1int
                } else {
                    0
                }) by {
                lemma_count_cells_update(old(self)@.cells, i as int, st, s);
            }
        }
    }

    /// Whether the Cell at `pos` holds a Mine.
    pub fn is_mine(&self, pos: Position) -> (r: bool)
        ensures
            r == self@.is_mine(pos),
    {
        match &self.mines {
            None => false,
            Some(m) => contains_position(m, pos),
        }
    }

    /// The number of Mines around `pos`.
    pub fn adjacent_mines(&self, pos: Position) -> (r: u8)
        requires
            self@.shape_ok(),
            in_bounds(self@.size, pos),
        ensures
            r == self@.adjacent_mines(pos),
            r <= 8,
    {
        let nbrs = neighbors(self.size, pos);
        let mut count: u8 = 0;
        let mut i: usize = 0;
        proof {
            lemma_neighbor_seq(self@.size, pos);
        }
        while i < nbrs.len()
            invariant
                i <= nbrs@.len(),
                nbrs@.len() <= 8,
                count == count_mines(self@.mines, nbrs@.take(i as int)),
                count <= i,
            decreases nbrs.len() - i,
        {
            assert(nbrs@.take(i + 1).drop_last() =~= nbrs@.take(i as int));
            if self.is_mine(nbrs[i]) {
                count += 1;
            }
            i += 1;
        }
        assert(nbrs@.take(nbrs@.len() as int) =~= nbrs@);
        count
    }

    /// The number of Flagged Cells around `pos`.
    fn flagged_neighbors(&self, pos: Position) -> (r: usize)
        requires
            self@.shape_ok(),
            in_bounds(self@.size, pos),
        ensures
            r == self@.flagged_neighbors(pos),
    {
        let nbrs = neighbors(self.size, pos);
        let mut count: usize = 0;
        let mut i: usize = 0;
        proof {
            lemma_neighbor_seq(self@.size, pos);
        }
        while i < nbrs.len()
            invariant
                self@.shape_ok(),
                i <= nbrs@.len(),
                nbrs@ == neighbor_seq(self@.size, pos),
                nbrs@.len() <= 8,
                forall|j: int| 0 <= j < nbrs@.len() ==> in_bounds(self@.size, #[trigger] nbrs@[j]),
                count == count_in_state(self@.size, self@.cells, nbrs@.take(i as int), CellState::Flagged),
                count <= i,
            decreases nbrs.len() - i,
        {
            assert(nbrs@.take(i + 1).drop_last() =~= nbrs@.take(i as int));
            if self.cell_state(nbrs[i]) == CellState::Flagged {
                count += 1;
            }
            i += 1;
        }
        assert(nbrs@.take(nbrs@.len() as int) =~= nbrs@);
        count
    }

    /// What the Cell at `pos` looks like to the player.
    pub fn cell_view(&self, pos: Position) -> (r: CellView)
        requires
            self@.shape_ok(),
            in_bounds(self@.size, pos),
        ensures
            r == self@.view_of(pos),
    {
        let state = self.cell_state(pos);
        let content = match state {
            CellState::Revealed => Some(
                if self.is_mine(pos) {
                    CellContent::Mine
                } else {
                    CellContent::Number(self.adjacent_mines(pos))
                },
            ),
            _ => None,
        };
        CellView { state, content }
    }

    /// Reveals the Hidden Cell `pos` and applies the cascade rule: a zero
    /// Cell also Reveals its surrounding non-Mine Cells, cascading through
    /// connected zero Cells. A Mine never cascades.
    #[verifier::rlimit(50)]
    fn cascade_from(&mut self, pos: Position)
        requires
            old(self)@.shape_ok(),
            in_bounds(old(self)@.size, pos),
            old(self)@.cell(pos) == CellState::Hidden,
        ensures
            final(self)@ == (BoardModel { cells: final(self)@.cells, ..old(self)@ }),
            final(self)@.shape_ok(),
            cascade(old(self)@.size, old(self)@.mines, old(self)@.cells, final(self)@.cells, set![pos]),
            count_cells(final(self)@.cells, CellState::Flagged) == count_cells(
                old(self)@.cells,
                CellState::Flagged,
            ),
    {
        let ghost base = self@;
        let ghost o = self@.cells;
        let ghost size = self@.size;
        let ghost mines = self@.mines;
        self.set_cell(pos, CellState::Revealed);
        assert(count_cells(self@.cells, CellState::Flagged) == count_cells(o, CellState::Flagged));
        if self.is_mine(pos) || self.adjacent_mines(pos) != 0 {
            proof {
                lemma_single_reveal(size, mines, o, self@.cells, pos);
            }
            return;
        }
        let ghost mut d: spec_fn(Position) -> nat = |q: Position| 0nat;
        let mut stack: Vec<Position> = Vec::new();
        stack.push(pos);
        proof {
            assert forall|q: Position| #[trigger] newly_revealed(size, o, self@.cells, q) implies q == pos by {}
            assert(stack@[0] == pos);
            assert(reached_by_rank(size, mines, o, self@.cells, set![pos], d));
        }
        while stack.len() > 0
            invariant
                self@ == (BoardModel { cells: self@.cells, ..base }),
                self@.shape_ok(),
                base.shape_ok(),
                o == base.cells,
                size == base.size,
                mines == base.mines,
                in_bounds(size, pos),
                newly_zero(size, mines, o, self@.cells, pos),
                count_cells(self@.cells, CellState::Flagged) == count_cells(o, CellState::Flagged),
                forall|q: Position|
                    in_bounds(size, q) ==> (#[trigger] cell_at(size, self@.cells, q) == cell_at(
                        size,
                        o,
                        q,
                    ) || (cell_at(size, o, q) == CellState::Hidden && cell_at(size, self@.cells, q)
                        == CellState::Revealed)),
                forall|q: Position| #[trigger] newly_revealed(size, o, self@.cells, q) ==> !mine_at(mines, q),
                forall|q: Position, r: Position|
                    newly_zero(size, mines, o, self@.cells, q) && in_bounds(size, r) && #[trigger] adjacent(
                        q,
                        r,
                    ) && !stack@.contains(q) ==> #[trigger] cell_at(size, self@.cells, r)
                        != CellState::Hidden,
                reached_by_rank(size, mines, o, self@.cells, set![pos], d),
                forall|i: int|
                    0 <= i < stack@.len() ==> #[trigger] newly_zero(size, mines, o, self@.cells, stack@[i]),
            decreases count_cells(self@.cells, CellState::Hidden), stack@.len(),
        {
            let ghost st = stack@;
            let p = stack.pop().unwrap();
            assert(p == st[st.len() - 1]);
            assert(stack@ =~= st.drop_last());
            assert(newly_zero(size, mines, o, self@.cells, p));
            assert forall|q: Position| st.contains(q) && !stack@.contains(q) implies q == p by {
                let k = choose|k: int| 0 <= k < st.len() && st[k] == q;
                if k < st.len() - 1 {
                    assert(stack@[k] == q);
                }
            }
            assert forall|k: int| 0 <= k < stack@.len() implies #[trigger] newly_zero(size, mines, o, self@.cells, stack@[k]) by {
                assert(stack@[k] == st[k]);
            }
            let nbrs = neighbors(self.size, p);
            proof {
                lemma_neighbor_seq(size, p);
            }
            let ghost hidden0 = count_cells(self@.cells, CellState::Hidden);
            let ghost len0 = stack@.len();
            let mut i: usize = 0;
            while i < nbrs.len()
                invariant
                    self@ == (BoardModel { cells: self@.cells, ..base }),
                    self@.shape_ok(),
                    base.shape_ok(),
                    o == base.cells,
                    size == base.size,
                    mines == base.mines,
                    in_bounds(size, pos),
                    in_bounds(size, p),
                    nbrs@ == neighbor_seq(size, p),
                    i <= nbrs@.len(),
                    newly_zero(size, mines, o, self@.cells, pos),
                    newly_zero(size, mines, o, self@.cells, p),
                    count_cells(self@.cells, CellState::Flagged) == count_cells(o, CellState::Flagged),
                    count_cells(self@.cells, CellState::Hidden) <= hidden0,
                    stack@.len() + count_cells(self@.cells, CellState::Hidden) <= len0 + hidden0,
                    forall|q: Position|
                        in_bounds(size, q) ==> (#[trigger] cell_at(size, self@.cells, q) == cell_at(
                            size,
                            o,
                            q,
                        ) || (cell_at(size, o, q) == CellState::Hidden && cell_at(
                            size,
                            self@.cells,
                            q,
                        ) == CellState::Revealed)),
                    forall|q: Position| #[trigger] newly_revealed(size, o, self@.cells, q) ==> !mine_at(mines, q),
                    forall|q: Position, r: Position|
                        newly_zero(size, mines, o, self@.cells, q) && in_bounds(size, r)
                            && #[trigger] adjacent(q, r) && !stack@.contains(q) && q != p
                            ==> #[trigger] cell_at(size, self@.cells, r) != CellState::Hidden,
                    reached_by_rank(size, mines, o, self@.cells, set![pos], d),
                    forall|k: int|
                        0 <= k < stack@.len() ==> #[trigger] newly_zero(size, mines, o, self@.cells, stack@[k]),
                    forall|j: int| 0 <= j < i ==> #[trigger] cell_at(size, self@.cells, nbrs@[j]) != CellState::Hidden,
                decreases nbrs@.len() - i,
            {
                let n = nbrs[i];
                proof {
                    lemma_neighbor_seq(size, p);
                }
                assert(in_bounds(size, n) && adjacent(p, n));
                proof {
                    lemma_zero_has_no_adjacent_mine(size, mines, p, n);
                }
                if self.cell_state(n) == CellState::Hidden && !self.is_mine(n) {
                    let ghost before = self@.cells;
                    let ghost stk0 = stack@;
                    self.set_cell(n, CellState::Revealed);
                    assert(count_cells(before, CellState::Hidden) == count_cells(self@.cells, CellState::Hidden) + 1);
                    assert(count_cells(before, CellState::Flagged) == count_cells(self@.cells, CellState::Flagged));
                    let zero = self.adjacent_mines(n) == 0;
                    proof {
                        assert(adjacent(n, p));
                        assert(newly_zero(size, mines, o, self@.cells, p));
                        let d0 = d;
                        d = |x: Position| if x == n {
                            (d0(p) + 1) as nat
                        } else {
                            d0(x)
                        };
                        assert(p != n);
                        assert forall|q: Position|
                            #[trigger] newly_revealed(size, o, self@.cells, q) && !set![pos].contains(q) implies exists|r: Position|
                                adjacent(q, r) && #[trigger] newly_zero(size, mines, o, self@.cells, r) && d(r) < d(q) by {
                            if q == n {
                                assert(adjacent(q, p) && newly_zero(size, mines, o, self@.cells, p) && d(p) < d(q));
                            } else {
                                assert(newly_revealed(size, o, before, q));
                                let r = choose|r: Position|
                                    adjacent(q, r) && #[trigger] newly_zero(size, mines, o, before, r) && d0(r) < d0(q);
                                assert(newly_zero(size, mines, o, self@.cells, r));
                                assert(r != n);
                            }
                        }
                    }
                    if zero {
                        stack.push(n);
                    }
                    proof {
                        assert(stack@ == if zero { stk0.push(n) } else { stk0 });
                        assert forall|q: Position| #[trigger] newly_revealed(size, o, self@.cells, q) implies !mine_at(mines, q) by {
                            if q != n {
                                assert(newly_revealed(size, o, before, q));
                            }
                        }
                        assert forall|k: int|
                            0 <= k < stack@.len() implies #[trigger] newly_zero(size, mines, o, self@.cells, stack@[k]) by {
                            if k < stack@.len() - 1 || !zero {
                                assert(newly_zero(size, mines, o, before, stack@[k]));
                            }
                        }
                        assert forall|q: Position, r: Position|
                            newly_zero(size, mines, o, self@.cells, q) && in_bounds(size, r)
                                && #[trigger] adjacent(q, r) && !stack@.contains(q) && q != p
                                implies #[trigger] cell_at(size, self@.cells, r) != CellState::Hidden by {
                            if q != n {
                                assert(newly_zero(size, mines, o, before, q));
                                assert(!stk0.contains(q)) by {
                                    if stk0.contains(q) {
                                        let k = choose|k: int| 0 <= k < stk0.len() && stk0[k] == q;
                                        assert(stack@[k] == q);
                                    }
                                }
                                assert(cell_at(size, before, r) != CellState::Hidden);
                            } else {
                                if zero {
                                    assert(stack@[stack@.len() - 1] == n);
                                }
                            }
                        }
                    }
                }
                i += 1;
            }
            proof {
                assert forall|q: Position, r: Position|
                    newly_zero(size, mines, o, self@.cells, q) && in_bounds(size, r) && #[trigger] adjacent(
                        q,
                        r,
                    ) && !stack@.contains(q) implies #[trigger] cell_at(size, self@.cells, r)
                        != CellState::Hidden by {
                    if q == p {
                        assert(neighbor_seq(size, p).contains(r));
                        let j = choose|j: int| 0 <= j < nbrs@.len() && nbrs@[j] == r;
                        assert(cell_at(size, self@.cells, nbrs@[j]) != CellState::Hidden);
                    }
                }
            }
        }
        proof {
            assert forall|q: Position|
                newly_revealed(size, o, self@.cells, q) && mine_at(mines, q) implies #[trigger] set![pos].contains(q) by {}
            assert(reached_by_rank(size, mines, o, self@.cells, set![pos], d));
        }
    }

    /// The `i`-th placed Mine.
    fn mine_at_index(&self, i: usize) -> (r: Position)
        requires
            self@.mines matches Some(m) && i < m.len(),
        ensures
            self@.mines matches Some(m) && r == m[i as int],
    {
        match &self.mines {
            Some(m) => m[i],
            None => Position::new(0, 0),
        }
    }

    fn mine_total(&self) -> (r: usize)
        ensures
            match self@.mines {
                Some(m) => r == m.len(),
                None => r == 0,
            },
    {
        match &self.mines {
            Some(m) => m.len(),
            None => 0,
        }
    }

    /// Reveals every unflagged Mine (the Lost board); wrongly Flagged Cells
    /// stay Flagged.
    fn reveal_mines(&mut self)
        requires
            old(self)@.shape_ok(),
            old(self)@.mines is Some,
        ensures
            final(self)@ == (BoardModel { cells: final(self)@.cells, ..old(self)@ }),
            final(self)@.shape_ok(),
            lost_cells(old(self)@.size, old(self)@.mines, old(self)@.cells, final(self)@.cells),
            count_cells(final(self)@.cells, CellState::Flagged) == count_cells(
                old(self)@.cells,
                CellState::Flagged,
            ),
    {
        let ghost base = self@;
        let ghost m = self@.mines->0;
        let total = self.mine_total();
        let mut i: usize = 0;
        while i < total
            invariant
                self@ == (BoardModel { cells: self@.cells, ..base }),
                self@.shape_ok(),
                base.mines == Some(m),
                total == m.len(),
                i <= total,
                count_cells(self@.cells, CellState::Flagged) == count_cells(base.cells, CellState::Flagged),
                forall|q: Position|
                    in_bounds(base.size, q) ==> #[trigger] cell_at(base.size, self@.cells, q) == if m.take(
                        i as int,
                    ).contains(q) && cell_at(base.size, base.cells, q) != CellState::Flagged {
                        CellState::Revealed
                    } else {
                        cell_at(base.size, base.cells, q)
                    },
            decreases total - i,
        {
            let q = self.mine_at_index(i);
            let ghost before = self@.cells;
            if self.cell_state(q) != CellState::Flagged {
                self.set_cell(q, CellState::Revealed);
            }
            proof {
                assert forall|r: Position| in_bounds(base.size, r) implies #[trigger] cell_at(
                    base.size,
                    self@.cells,
                    r,
                ) == if m.take(i + 1).contains(r) && cell_at(base.size, base.cells, r)
                    != CellState::Flagged {
                    CellState::Revealed
                } else {
                    cell_at(base.size, base.cells, r)
                } by {
                    assert(m.take(i + 1) == m.take(i as int).push(q));
                    if m.take(i as int).contains(r) {
                        let k = choose|k: int| 0 <= k < i && m.take(i as int)[k] == r;
                        assert(m.take(i + 1)[k] == r);
                    }
                    if m.take(i + 1).contains(r) && r != q {
                        let t1 = m.take(i + 1);
                        let k = choose|k: int| 0 <= k < t1.len() && t1[k] == r;
                        assert(m.take(i as int)[k] == r);
                    }
                    if r == q {
                        assert(m.take(i + 1)[i as int] == r);
                    }
                }
            }
            i += 1;
        }
        proof {
            assert(m.take(total as int) =~= m);
        }
    }

    /// Flags every Hidden Mine (the Won board) and sets the Flag counter to
    /// the Mine count.
    fn auto_flag_mines(&mut self)
        requires
            old(self)@.shape_ok(),
            old(self)@.mines is Some,
        ensures
            final(self)@ == (BoardModel {
                cells: final(self)@.cells,
                flags: old(self)@.mine_count,
                ..old(self)@
            }),
            final(self)@.shape_ok(),
            won_cells(old(self)@.size, old(self)@.mines, old(self)@.cells, final(self)@.cells),
    {
        let ghost base = self@;
        let ghost m = self@.mines->0;
        let total = self.mine_total();
        let mut i: usize = 0;
        while i < total
            invariant
                self@ == (BoardModel { cells: self@.cells, ..base }),
                self@.shape_ok(),
                base.mines == Some(m),
                total == m.len(),
                i <= total,
                forall|q: Position|
                    in_bounds(base.size, q) ==> #[trigger] cell_at(base.size, self@.cells, q) == if m.take(
                        i as int,
                    ).contains(q) && cell_at(base.size, base.cells, q) == CellState::Hidden {
                        CellState::Flagged
                    } else {
                        cell_at(base.size, base.cells, q)
                    },
            decreases total - i,
        {
            let q = self.mine_at_index(i);
            if self.cell_state(q) == CellState::Hidden {
                self.set_cell(q, CellState::Flagged);
            }
            proof {
                assert forall|r: Position| in_bounds(base.size, r) implies #[trigger] cell_at(
                    base.size,
                    self@.cells,
                    r,
                ) == if m.take(i + 1).contains(r) && cell_at(base.size, base.cells, r)
                    == CellState::Hidden {
                    CellState::Flagged
                } else {
                    cell_at(base.size, base.cells, r)
                } by {
                    assert(m.take(i + 1) == m.take(i as int).push(q));
                    if m.take(i as int).contains(r) {
                        let k = choose|k: int| 0 <= k < i && m.take(i as int)[k] == r;
                        assert(m.take(i + 1)[k] == r);
                    }
                    if m.take(i + 1).contains(r) && r != q {
                        let t1 = m.take(i + 1);
                        let k = choose|k: int| 0 <= k < t1.len() && t1[k] == r;
                        assert(m.take(i as int)[k] == r);
                    }
                    if r == q {
                        assert(m.take(i + 1)[i as int] == r);
                    }
                }
            }
            i += 1;
        }
        proof {
            assert(m.take(total as int) =~= m);
        }
        self.flags = self.mine_count;
    }

    /// Whether every non-Mine Cell is Revealed.
    fn all_clear(&self) -> (r: bool)
        requires
            self@.shape_ok(),
        ensures
            r == all_clear(self@.size, self@.mines, self@.cells),
    {
        let mut row: usize = 0;
        while row < self.size.rows
            invariant
                self@.shape_ok(),
                row <= self@.size.rows,
                forall|q: Position|
                    in_bounds(self@.size, q) && q.row < row && !mine_at(self@.mines, q) ==> #[trigger] cell_at(
                        self@.size,
                        self@.cells,
                        q,
                    ) == CellState::Revealed,
            decreases self@.size.rows - row,
        {
            let mut col: usize = 0;
            while col < self.size.cols
                invariant
                    self@.shape_ok(),
                    row < self@.size.rows,
                    col <= self@.size.cols,
                    forall|q: Position|
                        in_bounds(self@.size, q) && (q.row < row || (q.row == row && q.col < col))
                            && !mine_at(self@.mines, q) ==> #[trigger] cell_at(self@.size, self@.cells, q)
                            == CellState::Revealed,
                decreases self@.size.cols - col,
            {
                let q = Position::new(row, col);
                if !self.is_mine(q) && self.cell_state(q) != CellState::Revealed {
                    return false;
                }
                col += 1;
            }
            row += 1;
        }
        true
    }

    /// Reveals the Hidden Cell `pos` of a game in progress (or about to
    /// start) and resolves the board: a Mine loses the game with `pos` as the
    /// Trigger; Revealing the last non-Mine Cell wins it.
    pub fn open(&mut self, pos: Position)
        requires
            old(self)@.wf(),
            old(self)@.state == GameState::Ready || old(self)@.state == GameState::Playing,
            old(self)@.mines is Some,
            in_bounds(old(self)@.size, pos),
            old(self)@.cell(pos) == CellState::Hidden,
        ensures
            final(self)@.wf(),
            final(self)@.size == old(self)@.size,
            final(self)@.mine_count == old(self)@.mine_count,
            final(self)@.mines == old(self)@.mines,
            opened(old(self)@, final(self)@, pos),
    {
        let ghost o = self@;
        self.cascade_from(pos);
        let ghost c = self@.cells;
        if self.is_mine(pos) {
            self.state = GameState::Lost;
            self.trigger = Some(pos);
            self.reveal_mines();
        } else if self.all_clear() {
            self.state = GameState::Won;
            self.auto_flag_mines();
        } else {
            self.state = GameState::Playing;
        }
        proof {
            let hit = if o.is_mine(pos) {
                Some(pos)
            } else {
                None::<Position>
            };
            assert(resolved(o, c, self@, hit));
            assert(opened_via(o, self@, pos, c));
            lemma_resolved_wf(o, c, self@, set![pos], hit);
        }
    }

    /// Chord: on a Revealed numeric Cell whose Flag count matches its
    /// number, Reveals every Hidden neighbor as a click would (each
    /// cascading). Revealing a Mine loses the game on the first such Mine;
    /// otherwise the board resolves as after a Reveal. A no-op otherwise.
    #[verifier::rlimit(40)]
    pub fn chord(&mut self, pos: Position)
        requires
            old(self)@.wf(),
        ensures
            final(self)@.wf(),
            final(self)@.size == old(self)@.size,
            final(self)@.mine_count == old(self)@.mine_count,
            final(self)@.mines == old(self)@.mines,
            chorded(old(self)@, final(self)@, pos),
    {
        if self.state == GameState::Won || self.state == GameState::Lost {
            return;
        }
        if !(pos.row < self.size.rows && pos.col < self.size.cols) {
            return;
        }
        if self.cell_state(pos) != CellState::Revealed {
            return;
        }
        let number = self.adjacent_mines(pos);
        if number == 0 {
            return;
        }
        let flagged = self.flagged_neighbors(pos);
        if flagged != number as usize {
            return;
        }
        let ghost o = self@;
        let ghost size = o.size;
        let ghost mines = o.mines;
        let nbrs = neighbors(self.size, pos);
        proof {
            lemma_neighbor_seq(size, pos);
            lemma_cascade_none(size, mines, o.cells);
            assert(Set::new(|q: Position| nbrs@.take(0).contains(q) && o.cell(q) == CellState::Hidden)
                =~= Set::<Position>::empty());
        }
        let mut hit: Option<Position> = None;
        let mut i: usize = 0;
        while i < nbrs.len()
            invariant
                self@ == (BoardModel { cells: self@.cells, ..o }),
                self@.shape_ok(),
                o.shape_ok(),
                size == o.size,
                mines == o.mines,
                in_bounds(size, pos),
                nbrs@ == neighbor_seq(size, pos),
                i <= nbrs@.len(),
                count_cells(self@.cells, CellState::Flagged) == count_cells(o.cells, CellState::Flagged),
                hit == first_hidden_mine(o, nbrs@.take(i as int)),
                cascade(
                    size,
                    mines,
                    o.cells,
                    self@.cells,
                    Set::new(|q: Position| nbrs@.take(i as int).contains(q) && o.cell(q) == CellState::Hidden),
                ),
            decreases nbrs@.len() - i,
        {
            proof {
                lemma_neighbor_seq(size, pos);
            }
            let n = nbrs[i];
            let ghost s_old = Set::new(|q: Position| nbrs@.take(i as int).contains(q) && o.cell(q) == CellState::Hidden);
            let ghost s_new = Set::new(|q: Position| nbrs@.take(i + 1).contains(q) && o.cell(q) == CellState::Hidden);
            let ghost a = self@.cells;
            assert(nbrs@.take(i + 1) == nbrs@.take(i as int).push(n));
            assert(nbrs@.take(i + 1).drop_last() == nbrs@.take(i as int));
            assert(!nbrs@.take(i as int).contains(n)) by {
                if nbrs@.take(i as int).contains(n) {
                    let k = choose|k: int| 0 <= k < i && nbrs@.take(i as int)[k] == n;
                    assert(nbrs@[k] == nbrs@[i as int]);
                }
            }
            assert forall|q: Position| #[trigger] s_new.contains(q) <==> (s_old.contains(q) || (q == n && o.cell(n) == CellState::Hidden)) by {
                if nbrs@.take(i + 1).contains(q) && q != n {
                    let t1 = nbrs@.take(i + 1);
                    let k = choose|k: int| 0 <= k < t1.len() && t1[k] == q;
                    assert(nbrs@.take(i as int)[k] == q);
                }
                if nbrs@.take(i as int).contains(q) {
                    let k = choose|k: int| 0 <= k < i && nbrs@.take(i as int)[k] == q;
                    assert(nbrs@.take(i + 1)[k] == q);
                }
                if q == n {
                    assert(nbrs@.take(i + 1)[i as int] == q);
                }
            }
            assert(in_bounds(size, n));
            // A Mine is never Revealed by another Cell's cascade, so a Mine
            // neighbor is Hidden at its turn exactly when it was Hidden when
            // the Chord began.
            assert(cell_at(size, a, n) == cell_at(size, o.cells, n) || (cell_at(size, o.cells, n) == CellState::Hidden
                && cell_at(size, a, n) == CellState::Revealed));
            assert(o.is_mine(n) ==> (cell_at(size, a, n) == CellState::Hidden <==> o.cell(n) == CellState::Hidden)) by {
                if o.is_mine(n) && o.cell(n) == CellState::Hidden && cell_at(size, a, n) != CellState::Hidden {
                    assert(newly_revealed(size, o.cells, a, n));
                    assert(s_old.contains(n));
                }
            }
            if self.cell_state(n) == CellState::Hidden {
                self.cascade_from(n);
                proof {
                    assert forall|q: Position| #[trigger] s_new.contains(q) implies newly_revealed(size, o.cells, self@.cells, q) by {
                        if q == n {
                            assert(set![n].contains(n));
                        } else {
                            assert(s_old.contains(q));
                            assert(cell_at(size, self@.cells, q) == cell_at(size, a, q) || (cell_at(size, a, q) == CellState::Hidden
                                && cell_at(size, self@.cells, q) == CellState::Revealed));
                        }
                    }
                    lemma_cascade_compose(size, mines, o.cells, a, self@.cells, s_old, set![n], s_new);
                }
                if self.is_mine(n) && hit.is_none() {
                    hit = Some(n);
                }
            } else {
                proof {
                    assert forall|q: Position| #[trigger] s_new.contains(q) implies newly_revealed(size, o.cells, self@.cells, q) by {
                        if q == n {
                            assert(cell_at(size, a, n) == cell_at(size, o.cells, n) || (cell_at(size, o.cells, n) == CellState::Hidden
                                && cell_at(size, a, n) == CellState::Revealed));
                        }
                    }
                    lemma_cascade_none(size, mines, a);
                    lemma_cascade_compose(size, mines, o.cells, a, self@.cells, s_old, Set::empty(), s_new);
                }
            }
            i += 1;
        }
        let ghost c = self@.cells;
        proof {
            assert(nbrs@.take(nbrs@.len() as int) =~= nbrs@);
            let s_end = Set::new(|q: Position| nbrs@.take(nbrs@.len() as int).contains(q) && o.cell(q) == CellState::Hidden);
            assert(s_end =~= hidden_neighbors(o, pos));
            lemma_first_hidden_mine(o, nbrs@);
        }
        match hit {
            Some(t) => {
                self.state = GameState::Lost;
                self.trigger = Some(t);
                self.reveal_mines();
            },
            None => {
                if self.all_clear() {
                    self.state = GameState::Won;
                    self.auto_flag_mines();
                }
            },
        }
        proof {
            let starts = hidden_neighbors(o, pos);
            assert(resolved(o, c, self@, hit));
            assert(chorded_via(o, self@, pos, c));
            if let Some(t) = hit {
                assert(starts.contains(t));
            } else {
                assert forall|q: Position| #[trigger] starts.contains(q) implies !o.is_mine(q) by {
                    assert(nbrs@.contains(q));
                    let k = choose|k: int| 0 <= k < nbrs@.len() && nbrs@[k] == q;
                    assert(!(o.cell(nbrs@[k]) == CellState::Hidden && o.is_mine(nbrs@[k])));
                }
            }
            lemma_resolved_wf(o, c, self@, starts, hit);
        }
    }

    /// Toggles a Flag on a Hidden Cell, or removes one. A no-op on a
    /// Revealed Cell, off the board, or once the game has ended; any number
    /// of Flags may be placed (over-flagging).
    pub fn toggle_flag(&mut self, pos: Position)
        requires
            old(self)@.wf(),
        ensures
            final(self)@ == flag_toggled(old(self)@, pos),
            final(self)@.wf(),
    {
        if self.state == GameState::Won || self.state == GameState::Lost {
            return;
        }
        if !(pos.row < self.size.rows && pos.col < self.size.cols) {
            return;
        }
        proof {
            lemma_count_cells_bound(self@.cells, CellState::Flagged);
            lemma_cell_index(self@.size, pos, pos);
        }
        let ghost before = self@;
        match self.cell_state(pos) {
            CellState::Hidden => {
                self.set_cell(pos, CellState::Flagged);
                self.flags = self.flags + 1;
            },
            CellState::Flagged => {
                self.set_cell(pos, CellState::Hidden);
                self.flags = self.flags - 1;
            },
            CellState::Revealed => {},
        }
        proof {
            assert(count_cells(before.cells, CellState::Flagged) == before.flags);
            if before.state == GameState::Playing {
                let q = choose|q: Position|
                    !(in_bounds(before.size, q) && !mine_at(before.mines, q) ==> #[trigger] cell_at(
                        before.size,
                        before.cells,
                        q,
                    ) == CellState::Revealed);
                assert(self@.cell(q) != CellState::Revealed);
            }
        }
    }
}


// ---------------------------------------------------------------------
// Laws of the board

proof fn lemma_count_mines_none(mines: Option<Seq<Position>>, s: Seq<Position>)
    requires
        forall|i: int| 0 <= i < s.len() ==> !mine_at(mines, #[trigger] s[i]),
    ensures
        count_mines(mines, s) == 0,
    decreases s.len(),
{
    if s.len() > 0 {
        let d = s.drop_last();
        assert forall|i: int| 0 <= i < d.len() implies !mine_at(mines, #[trigger] d[i]) by {
            assert(d[i] == s[i]);
        }
        lemma_count_mines_none(mines, d);
        assert(!mine_at(mines, s[s.len() - 1]));
    }
}

/// A Cell with no Mine on it or around it is a zero Cell.
pub proof fn lemma_clear_region_is_zero(size: BoardSize, m: Seq<Position>, pos: Position)
    requires
        region_clear(m, pos),
    ensures
        !mine_at(Some(m), pos),
        adjacent_mine_count(size, Some(m), pos) == 0,
{
    lemma_neighbor_seq(size, pos);
    let s = neighbor_seq(size, pos);
    assert forall|i: int| 0 <= i < s.len() implies !mine_at(Some(m), #[trigger] s[i]) by {
        if m.contains(s[i]) {
            let j = choose|j: int| 0 <= j < m.len() && m[j] == s[i];
            assert(!adjacent(pos, m[j]));
        }
    }
    lemma_count_mines_none(Some(m), s);
    if m.contains(pos) {
        let j = choose|j: int| 0 <= j < m.len() && m[j] == pos;
        assert(m[j] != pos);
    }
}

/// A Cell that is Flagged counts toward the Flag counter of a board in play.
proof fn lemma_flagged_cell_counts(m: BoardModel, pos: Position)
    requires
        m.wf(),
        m.state != GameState::Won,
        in_bounds(m.size, pos),
        m.cell(pos) == CellState::Flagged,
    ensures
        m.flags >= 1,
{
    lemma_cell_index(m.size, pos, pos);
    lemma_count_cells_update(m.cells, cell_index(m.size, pos), CellState::Hidden, CellState::Flagged);
}

/// Placing a Flag and toggling the same Cell again leaves the board as it
/// was, and so does removing a Flag and putting it back.
pub proof fn law_flag_toggle_is_an_involution(m: BoardModel, pos: Position)
    requires
        m.wf(),
    ensures
        flag_toggled(flag_toggled(m, pos), pos) == m,
{
    if !m.ended() && in_bounds(m.size, pos) {
        lemma_cell_index(m.size, pos, pos);
        let i = cell_index(m.size, pos);
        let t = flag_toggled(m, pos);
        if m.cell(pos) == CellState::Hidden {
            assert(t.cell(pos) == CellState::Flagged);
            assert(t.cells.update(i, CellState::Hidden) =~= m.cells);
        } else if m.cell(pos) == CellState::Flagged {
            lemma_flagged_cell_counts(m, pos);
            assert(t.cell(pos) == CellState::Hidden);
            assert(t.cells.update(i, CellState::Flagged) =~= m.cells);
        }
    }
}

/// Placing a Flag lowers the Flags Remaining counter by one and removing
/// one raises it by one, below zero too (over-flagging is allowed); a
/// Revealed Cell takes no Flag.
pub proof fn law_flag_counter(m: BoardModel, pos: Position)
    requires
        m.wf(),
        !m.ended(),
        in_bounds(m.size, pos),
    ensures
        m.cell(pos) == CellState::Hidden ==> flag_toggled(m, pos).cell(pos) == CellState::Flagged
            && flag_toggled(m, pos).flags_remaining() == m.flags_remaining() - 1,
        m.cell(pos) == CellState::Flagged ==> flag_toggled(m, pos).cell(pos) == CellState::Hidden
            && flag_toggled(m, pos).flags_remaining() == m.flags_remaining() + 1,
        m.cell(pos) == CellState::Revealed ==> flag_toggled(m, pos) == m,
{
    lemma_cell_index(m.size, pos, pos);
    if m.cell(pos) == CellState::Flagged {
        lemma_flagged_cell_counts(m, pos);
    }
}

/// An ended board takes no Flag and no Chord.
pub proof fn law_ended_board_is_frozen(m: BoardModel, n: BoardModel, pos: Position)
    requires
        m.ended(),
    ensures
        flag_toggled(m, pos) == m,
        chorded(m, n, pos) ==> n == m,
{
}

/// Revealing a Mine loses the game with that Mine as the Trigger;
/// revealing any other Cell opens it and never loses.
pub proof fn law_reveal_outcome(o: BoardModel, n: BoardModel, pos: Position)
    requires
        opened(o, n, pos),
        in_bounds(o.size, pos),
    ensures
        n.size == o.size,
        n.mines == o.mines,
        n.cell(pos) == CellState::Revealed,
        o.is_mine(pos) ==> n.state == GameState::Lost && n.trigger == Some(pos),
        !o.is_mine(pos) ==> n.state != GameState::Lost,
{
    let c = choose|c: Seq<CellState>| #[trigger] opened_via(o, n, pos, c);
    assert(set![pos].contains(pos));
    assert(newly_revealed(o.size, o.cells, c, pos));
}

/// A Won board shows every Mine Flagged and every other Cell Revealed,
/// with nothing left on the Flags Remaining counter.
pub proof fn law_won_board(m: BoardModel)
    requires
        m.wf(),
        m.state == GameState::Won,
    ensures
        m.flags_remaining() == 0,
        m.trigger is None,
        forall|q: Position|
            in_bounds(m.size, q) ==> if m.is_mine(q) {
                #[trigger] m.cell(q) == CellState::Flagged
            } else {
                m.cell(q) == CellState::Revealed
            },
{
}

/// A Lost board has its Trigger on a Revealed Mine, and no Mine is left
/// Hidden: every Mine is Revealed unless it was Flagged.
pub proof fn law_lost_board(m: BoardModel)
    requires
        m.wf(),
        m.state == GameState::Lost,
    ensures
        m.trigger matches Some(t) && in_bounds(m.size, t) && m.is_mine(t) && m.cell(t)
            == CellState::Revealed,
        forall|q: Position|
            in_bounds(m.size, q) && m.is_mine(q) ==> #[trigger] m.cell(q) != CellState::Hidden,
{
}

} // verus!
