//! Board geometry: bounds, adjacency, the row-major cell index and the
//! ordered list of a Cell's neighbors, with the facts the rules rely on.

use vstd::prelude::*;

use crate::domain::{BoardSize, CellState, Position};

verus! {

/// The sizes the engine handles: at least one Cell, at most 64 in each
/// direction (the presets go up to 16 x 30).
pub open spec fn valid_size(size: BoardSize) -> bool {
    1 <= size.rows <= 64 && 1 <= size.cols <= 64
}

/// Whether a Cell lies on the board.
pub open spec fn in_bounds(size: BoardSize, q: Position) -> bool {
    q.row < size.rows && q.col < size.cols
}

/// Whether two distinct Cells touch, orthogonally or diagonally.
pub open spec fn adjacent(p: Position, q: Position) -> bool {
    &&& p != q
    &&& p.row <= q.row + 1
    &&& q.row <= p.row + 1
    &&& p.col <= q.col + 1
    &&& q.col <= p.col + 1
}

/// The row-major index of a Cell.
pub open spec fn cell_index(size: BoardSize, q: Position) -> int {
    q.row * size.cols + q.col
}

/// The number of Cells of a board.
pub open spec fn cell_total(size: BoardSize) -> int {
    size.rows * size.cols
}

/// The state of a Cell within a row-major list of cell states.
pub open spec fn cell_at(size: BoardSize, cells: Seq<CellState>, q: Position) -> CellState {
    cells[cell_index(size, q)]
}

/// The Cell a row-major index denotes.
pub open spec fn position_of(size: BoardSize, i: int) -> Position {
    Position { row: (i / size.cols as int) as usize, col: (i % size.cols as int) as usize }
}

/// The neighbor candidate `k` (0..9) of `p`, in row-major order of the 3x3
/// block centered on `p`, as integer coordinates.
pub open spec fn candidate_row(p: Position, k: int) -> int {
    p.row + k / 3 - 1
}

pub open spec fn candidate_col(p: Position, k: int) -> int {
    p.col + k % 3 - 1
}

/// Whether candidate `k` is a neighbor on the board (the center is not).
pub open spec fn candidate_ok(size: BoardSize, p: Position, k: int) -> bool {
    &&& k != 4
    &&& 0 <= candidate_row(p, k) < size.rows
    &&& 0 <= candidate_col(p, k) < size.cols
}

pub open spec fn candidate(p: Position, k: int) -> Position {
    Position { row: candidate_row(p, k) as usize, col: candidate_col(p, k) as usize }
}

/// The neighbors of `p` among candidates `k..9`, in row-major order.
pub open spec fn neighbors_from(size: BoardSize, p: Position, k: nat) -> Seq<Position>
    decreases 9 - k,
{
    if k >= 9 {
        Seq::empty()
    } else {
        let rest = neighbors_from(size, p, k + 1);
        if candidate_ok(size, p, k as int) {
            seq![candidate(p, k as int)] + rest
        } else {
            rest
        }
    }
}

/// The surrounding Cells of `p` on the board, in row-major order; `p`
/// itself is not among them.
pub open spec fn neighbor_seq(size: BoardSize, p: Position) -> Seq<Position> {
    neighbors_from(size, p, 0)
}

/// The offset of `q` within the 3x3 block centered on `p`.
pub open spec fn block_offset(p: Position, q: Position) -> int {
    (q.row - p.row + 1) * 3 + (q.col - p.col + 1)
}

proof fn lemma_candidate(size: BoardSize, p: Position, k: int, q: Position)
    requires
        0 <= k < 9,
    ensures
        (candidate_ok(size, p, k) && candidate(p, k) == q) <==> (in_bounds(size, q)
            && adjacent(p, q) && block_offset(p, q) == k),
{
}

proof fn lemma_neighbors_from(size: BoardSize, p: Position, k: nat)
    requires
        k <= 9,
    ensures
        forall|q: Position| #[trigger]
            neighbors_from(size, p, k).contains(q) <==> (in_bounds(size, q) && adjacent(p, q)
                && k <= block_offset(p, q)),
        forall|i: int|
            0 <= i < neighbors_from(size, p, k).len() ==> k <= block_offset(
                p,
                #[trigger] neighbors_from(size, p, k)[i],
            ),
        neighbors_from(size, p, k).no_duplicates(),
        neighbors_from(size, p, k).len() + k + (if k <= 4 {
            1int
        } else {
            0
        }) <= 9,
    decreases 9 - k,
{
    if k < 9 {
        lemma_neighbors_from(size, p, k + 1);
        let rest = neighbors_from(size, p, k + 1);
        let s = neighbors_from(size, p, k);
        assert forall|q: Position| #[trigger] s.contains(q) <==> (in_bounds(size, q) && adjacent(
            p,
            q,
        ) && k <= block_offset(p, q)) by {
            lemma_candidate(size, p, k as int, q);
            if candidate_ok(size, p, k as int) {
                assert(s == seq![candidate(p, k as int)] + rest);
                if s.contains(q) {
                    if q != candidate(p, k as int) {
                        let j = choose|j: int| 0 <= j < s.len() && s[j] == q;
                        assert(rest[j - 1] == q);
                    }
                }
                if rest.contains(q) {
                    let j = choose|j: int| 0 <= j < rest.len() && rest[j] == q;
                    assert(s[j + 1] == q);
                }
                if q == candidate(p, k as int) {
                    assert(s[0] == q);
                }
            }
        }
        if candidate_ok(size, p, k as int) {
            let c = candidate(p, k as int);
            lemma_candidate(size, p, k as int, c);
            assert(!rest.contains(c));
            assert forall|i: int, j: int| 0 <= i < s.len() && 0 <= j < s.len() && i != j implies s[i]
                != s[j] by {
                if i > 0 && j > 0 {
                    assert(s[i] == rest[i - 1]);
                    assert(s[j] == rest[j - 1]);
                } else if i == 0 {
                    assert(s[j] == rest[j - 1]);
                    assert(rest.contains(s[j]));
                } else {
                    assert(s[i] == rest[i - 1]);
                    assert(rest.contains(s[i]));
                }
            }
            assert forall|i: int| 0 <= i < s.len() implies k <= block_offset(p, #[trigger] s[i]) by {
                if i > 0 {
                    assert(s[i] == rest[i - 1]);
                }
            }
        }
    }
}

/// The neighbor list holds exactly the adjacent Cells on the board, each
/// once, and at most eight of them.
pub proof fn lemma_neighbor_seq(size: BoardSize, p: Position)
    ensures
        forall|q: Position| #[trigger]
            neighbor_seq(size, p).contains(q) <==> (in_bounds(size, q) && adjacent(p, q)),
        neighbor_seq(size, p).no_duplicates(),
        neighbor_seq(size, p).len() <= 8,
        forall|i: int|
            0 <= i < neighbor_seq(size, p).len() ==> in_bounds(size, #[trigger] neighbor_seq(size, p)[i])
                && adjacent(p, neighbor_seq(size, p)[i]),
{
    lemma_neighbors_from(size, p, 0);
    assert forall|q: Position| #[trigger]
        neighbor_seq(size, p).contains(q) implies (in_bounds(size, q) && adjacent(p, q)) by {}
    assert forall|q: Position| in_bounds(size, q) && adjacent(p, q) implies #[trigger]
        neighbor_seq(size, p).contains(q) by {
        assert(0 <= block_offset(p, q));
    }
    assert forall|i: int| 0 <= i < neighbor_seq(size, p).len() implies in_bounds(
        size,
        #[trigger] neighbor_seq(size, p)[i],
    ) && adjacent(p, neighbor_seq(size, p)[i]) by {
        assert(neighbor_seq(size, p).contains(neighbor_seq(size, p)[i]));
    }
}

/// Distinct Cells on the board have distinct indices, all within the board.
pub proof fn lemma_cell_index(size: BoardSize, p: Position, q: Position)
    requires
        valid_size(size),
        in_bounds(size, p),
        in_bounds(size, q),
    ensures
        0 <= cell_index(size, p) < cell_total(size),
        0 <= cell_index(size, q) < cell_total(size),
        p != q ==> cell_index(size, p) != cell_index(size, q),
        cell_total(size) <= 4096,
{
    lemma_index_bounds(size.rows as int, size.cols as int, p.row as int, p.col as int);
    lemma_index_bounds(size.rows as int, size.cols as int, q.row as int, q.col as int);
    if p != q {
        lemma_index_injective(size.cols as int, p.row as int, p.col as int, q.row as int, q.col as int);
    }
    assert(size.rows * size.cols <= 64 * 64) by (nonlinear_arith)
        requires
            1 <= size.rows <= 64,
            1 <= size.cols <= 64,
    ;
}

proof fn lemma_index_bounds(rows: int, cols: int, r: int, c: int)
    by (nonlinear_arith)
    requires
        0 <= r < rows,
        0 <= c < cols,
    ensures
        0 <= r * cols + c < rows * cols,
{
}

proof fn lemma_index_injective(cols: int, r1: int, c1: int, r2: int, c2: int)
    by (nonlinear_arith)
    requires
        0 <= c1 < cols,
        0 <= c2 < cols,
        0 <= r1,
        0 <= r2,
        r1 != r2 || c1 != c2,
    ensures
        r1 * cols + c1 != r2 * cols + c2,
{
    if r1 < r2 {
        assert(r1 * cols + cols <= r2 * cols);
    } else if r2 < r1 {
        assert(r2 * cols + cols <= r1 * cols);
    }
}

/// A row-major index within the board denotes a Cell on the board whose
/// index is that index.
pub proof fn lemma_position_of(size: BoardSize, i: int)
    requires
        valid_size(size),
        0 <= i < cell_total(size),
    ensures
        in_bounds(size, position_of(size, i)),
        cell_index(size, position_of(size, i)) == i,
{
    let cols = size.cols as int;
    let rows = size.rows as int;
    lemma_div_mod(i, cols, rows);
}

proof fn lemma_div_mod(i: int, cols: int, rows: int)
    by (nonlinear_arith)
    requires
        0 < cols,
        0 <= i < rows * cols,
    ensures
        0 <= i / cols < rows,
        0 <= i % cols < cols,
        (i / cols) * cols + i % cols == i,
{
}

/// The Cells surrounding `p` on the board, in row-major order.
pub fn neighbors(size: BoardSize, p: Position) -> (r: Vec<Position>)
    requires
        valid_size(size),
        in_bounds(size, p),
    ensures
        r@ == neighbor_seq(size, p),
{
    let mut v: Vec<Position> = Vec::new();
    let mut k: usize = 0;
    while k < 9
        invariant
            k <= 9,
            valid_size(size),
            in_bounds(size, p),
            v@ + neighbors_from(size, p, k as nat) == neighbor_seq(size, p),
        decreases 9 - k,
    {
        let dr = k / 3;
        let dc = k % 3;
        let ok = k != 4 && p.row + dr >= 1 && p.row + dr - 1 < size.rows && p.col + dc >= 1 && p.col
            + dc - 1 < size.cols;
        assert(ok == candidate_ok(size, p, k as int));
        let ghost rest = neighbors_from(size, p, (k + 1) as nat);
        if ok {
            let q = Position::new(p.row + dr - 1, p.col + dc - 1);
            assert(q == candidate(p, k as int));
            assert(v@.push(q) + rest =~= v@ + (seq![q] + rest));
            v.push(q);
        }
        k += 1;
    }
    assert(v@ + neighbors_from(size, p, 9) =~= v@);
    v
}

} // verus!
