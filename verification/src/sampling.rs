//! Mine layouts drawn from a Seed. The index sampling is rand's: a Seed
//! seeds a `StdRng`, and `rand::seq::index::sample` draws distinct Cell
//! indices from it, so the same Seed, size and Mine count reproduce the same
//! layout within one build.

use vstd::prelude::*;

use crate::domain::{BoardSize, Position, Seed};
use crate::geometry::{
    adjacent, cell_index, cell_total, in_bounds, lemma_cell_index, lemma_neighbor_seq,
    lemma_position_of, neighbor_seq, position_of, valid_size,
};

verus! {

/// The indices rand's `index::sample` draws from a `StdRng` seeded with
/// `seed`, for `amount` distinct indices out of `0..length`.
pub uninterp spec fn sampled_indices(seed: u64, length: usize, amount: usize) -> Seq<usize>;

/// `rand::seq::index::sample` on a `StdRng` from `StdRng::seed_from_u64`:
/// exactly `amount` distinct indices below `length` (rand's documentation),
/// the same ones for the same arguments. It panics when `amount > length`,
/// which the precondition rules out.
#[verifier::external_body]
fn sample_indices(seed: u64, length: usize, amount: usize) -> (r: Vec<usize>)
    requires
        amount <= length,
    ensures
        r@ == sampled_indices(seed, length, amount),
        r@.len() == amount,
        forall|i: int| 0 <= i < r@.len() ==> #[trigger] r@[i] < length,
        r@.no_duplicates(),
{
    let mut rng = <rand::rngs::StdRng as rand::SeedableRng>::seed_from_u64(seed);
    rand::seq::index::sample(&mut rng, length, amount).into_vec()
}

/// `rand::random::<u32>()`: a fresh value from the thread-local generator.
/// Nothing is known of it.
#[verifier::external_body]
pub(crate) fn random_seed() -> Seed {
    rand::random()
}

/// The layout a Seed gives: `count` distinct Cells, drawn as row-major
/// indices.
pub open spec fn mine_layout(size: BoardSize, seed: Seed, count: usize) -> Seq<Position> {
    sampled_indices(seed as u64, cell_total(size) as usize, count).map_values(
        |i: usize| position_of(size, i as int),
    )
}

/// The layout a Seed gives with `forced` guaranteed in: `count - 1` Cells
/// drawn from the rest of the board (indices at or past `forced`'s shifted
/// over it), then `forced` itself.
pub open spec fn forced_layout(size: BoardSize, seed: Seed, count: usize, forced: Position) -> Seq<
    Position,
> {
    sampled_indices(seed as u64, (cell_total(size) - 1) as usize, (count - 1) as usize).map_values(
        |i: usize| shifted_position(size, forced, i),
    ).push(forced)
}

/// The Cell of a drawn index once the index of `forced` is skipped over.
pub open spec fn shifted_position(size: BoardSize, forced: Position, i: usize) -> Position {
    position_of(
        size,
        if i >= cell_index(size, forced) {
            i + 1
        } else {
            i as int
        },
    )
}

/// Whether every Cell of a layout lies on the board, each at most once.
pub open spec fn layout_ok(size: BoardSize, m: Seq<Position>) -> bool {
    &&& forall|i: int| 0 <= i < m.len() ==> in_bounds(size, #[trigger] m[i])
    &&& m.no_duplicates()
}

/// Whether no Mine of a layout lies on `pos` or around it.
pub open spec fn region_clear(m: Seq<Position>, pos: Position) -> bool {
    forall|i: int| 0 <= i < m.len() ==> #[trigger] m[i] != pos && !adjacent(pos, m[i])
}

/// Samples `count` distinct Mine positions on a board of `size` from
/// `seed`.
pub fn sample_mines(size: BoardSize, count: usize, seed: Seed) -> (r: Vec<Position>)
    requires
        valid_size(size),
        count <= cell_total(size),
    ensures
        r@ == mine_layout(size, seed, count),
        r@.len() == count,
        layout_ok(size, r@),
{
    proof {
        lemma_cell_index(size, Position { row: 0, col: 0 }, Position { row: 0, col: 0 });
    }
    let total = size.rows * size.cols;
    let idx = sample_indices(seed as u64, total, count);
    let mut v: Vec<Position> = Vec::new();
    let mut k: usize = 0;
    while k < idx.len()
        invariant
            valid_size(size),
            total == cell_total(size),
            idx@ == sampled_indices(seed as u64, total, count),
            idx@.no_duplicates(),
            forall|i: int| 0 <= i < idx@.len() ==> #[trigger] idx@[i] < total,
            k <= idx@.len(),
            v@ == idx@.take(k as int).map_values(|i: usize| position_of(size, i as int)),
        decreases idx@.len() - k,
    {
        let i = idx[k];
        let q = Position::new(i / size.cols, i % size.cols);
        assert(q == position_of(size, i as int));
        assert(idx@.take(k + 1).map_values(|i: usize| position_of(size, i as int)) =~= v@.push(q));
        v.push(q);
        k += 1;
    }
    assert(idx@.take(idx@.len() as int) =~= idx@);
    proof {
        lemma_layout_of_indices(size, idx@, v@);
    }
    v
}

/// Distinct in-range indices give distinct Cells on the board.
proof fn lemma_layout_of_indices(size: BoardSize, idx: Seq<usize>, v: Seq<Position>)
    requires
        valid_size(size),
        idx.no_duplicates(),
        forall|i: int| 0 <= i < idx.len() ==> #[trigger] idx[i] < cell_total(size),
        v == idx.map_values(|i: usize| position_of(size, i as int)),
    ensures
        layout_ok(size, v),
{
    assert forall|i: int| 0 <= i < v.len() implies in_bounds(size, #[trigger] v[i]) by {
        lemma_position_of(size, idx[i] as int);
    }
    assert forall|i: int, j: int| 0 <= i < v.len() && 0 <= j < v.len() && i != j implies v[i]
        != v[j] by {
        lemma_position_of(size, idx[i] as int);
        lemma_position_of(size, idx[j] as int);
    }
}

/// Samples `count` distinct Mine positions with `forced` among them: the
/// other `count - 1` are drawn from the rest of the board.
pub fn sample_mines_forced(size: BoardSize, count: usize, seed: Seed, forced: Position) -> (r: Vec<
    Position,
>)
    requires
        valid_size(size),
        1 <= count <= cell_total(size),
        in_bounds(size, forced),
    ensures
        r@ == forced_layout(size, seed, count, forced),
        r@.len() == count,
        r@.contains(forced),
        layout_ok(size, r@),
{
    proof {
        lemma_cell_index(size, forced, forced);
    }
    let total = size.rows * size.cols;
    let f = forced.row * size.cols + forced.col;
    let idx = sample_indices(seed as u64, total - 1, count - 1);
    let ghost shift = |i: usize| shifted_position(size, forced, i);
    let mut v: Vec<Position> = Vec::new();
    let mut k: usize = 0;
    while k < idx.len()
        invariant
            valid_size(size),
            total == cell_total(size),
            f == cell_index(size, forced),
            f < total,
            idx@ == sampled_indices(seed as u64, (total - 1) as usize, (count - 1) as usize),
            idx@.no_duplicates(),
            forall|i: int| 0 <= i < idx@.len() ==> #[trigger] idx@[i] < total - 1,
            k <= idx@.len(),
            shift == (|i: usize| shifted_position(size, forced, i)),
            v@ == idx@.take(k as int).map_values(shift),
        decreases idx@.len() - k,
    {
        let i = idx[k];
        let adjusted = if i >= f {
            i + 1
        } else {
            i
        };
        let q = Position::new(adjusted / size.cols, adjusted % size.cols);
        assert(q == shift(i));
        assert(idx@.take(k + 1).map_values(shift) =~= v@.push(q));
        v.push(q);
        k += 1;
    }
    assert(idx@.take(idx@.len() as int) =~= idx@);
    let ghost drawn = v@;
    proof {
        assert forall|i: int| 0 <= i < drawn.len() implies in_bounds(size, #[trigger] drawn[i])
            && drawn[i] != forced by {
            let a = if idx@[i] >= f {
                idx@[i] + 1
            } else {
                idx@[i] as int
            };
            lemma_position_of(size, a);
        }
        assert forall|i: int, j: int| 0 <= i < drawn.len() && 0 <= j < drawn.len() && i != j implies drawn[i]
            != drawn[j] by {
            let a = if idx@[i] >= f {
                idx@[i] + 1
            } else {
                idx@[i] as int
            };
            let b = if idx@[j] >= f {
                idx@[j] + 1
            } else {
                idx@[j] as int
            };
            lemma_position_of(size, a);
            lemma_position_of(size, b);
        }
    }
    v.push(forced);
    proof {
        assert(v@[v@.len() - 1] == forced);
        assert forall|i: int, j: int| 0 <= i < v@.len() && 0 <= j < v@.len() && i != j implies v@[i]
            != v@[j] by {
            if i < drawn.len() && j < drawn.len() {
                assert(v@[i] == drawn[i] && v@[j] == drawn[j]);
            } else if i < drawn.len() {
                assert(v@[i] == drawn[i]);
            } else if j < drawn.len() {
                assert(v@[j] == drawn[j]);
            }
        }
        assert forall|i: int| 0 <= i < v@.len() implies in_bounds(size, #[trigger] v@[i]) by {
            if i < drawn.len() {
                assert(v@[i] == drawn[i]);
            }
        }
    }
    v
}

/// Whether `q` is `pos` or one of its neighbors: the 3x3 region a safe First
/// Click keeps free of Mines.
pub open spec fn near(pos: Position, q: Position) -> bool {
    q == pos || adjacent(pos, q)
}

/// The Cells of the board away from `pos`'s 3x3 region, in row-major order.
pub open spec fn free_cells(size: BoardSize, pos: Position) -> Seq<Position> {
    Seq::new(cell_total(size) as nat, |k: int| position_of(size, k)).filter(
        |q: Position| !near(pos, q),
    )
}

/// The layout a Seed gives when drawn from the Cells away from `pos`.
pub open spec fn spread_layout(size: BoardSize, count: usize, pos: Position, seed: Seed) -> Seq<
    Position,
> {
    let free = free_cells(size, pos);
    sampled_indices(seed as u64, free.len() as usize, count).map_values(|i: usize| free[i as int])
}

/// How many candidate Seeds a safe First Click draws before it falls back
/// to drawing the layout from the Cells away from the click.
pub const SAFE_DRAWS: u32 = 1000;

/// Whether `q` is `pos` or one of its neighbors.
pub fn is_near(pos: Position, q: Position) -> (r: bool)
    ensures
        r == near(pos, q),
{
    let row_close = if pos.row <= q.row {
        q.row - pos.row <= 1
    } else {
        pos.row - q.row <= 1
    };
    let col_close = if pos.col <= q.col {
        q.col - pos.col <= 1
    } else {
        pos.col - q.col <= 1
    };
    row_close && col_close
}

/// Whether no Mine of `m` lies on `pos` or around it.
pub fn clear_around(m: &Vec<Position>, pos: Position) -> (r: bool)
    ensures
        r == region_clear(m@, pos),
{
    let mut i: usize = 0;
    while i < m.len()
        invariant
            i <= m@.len(),
            forall|j: int| 0 <= j < i ==> #[trigger] m@[j] != pos && !adjacent(pos, m@[j]),
        decreases m.len() - i,
    {
        if is_near(pos, m[i]) {
            return false;
        }
        i += 1;
    }
    true
}

/// The Cells of the board away from `pos`'s 3x3 region, in row-major order.
fn collect_free_cells(size: BoardSize, pos: Position) -> (r: Vec<Position>)
    requires
        valid_size(size),
        in_bounds(size, pos),
    ensures
        r@ == free_cells(size, pos),
        r@.len() + 9 >= cell_total(size),
        layout_ok(size, r@),
{
    proof {
        lemma_cell_index(size, pos, pos);
        lemma_neighbor_seq(size, pos);
    }
    let total = size.rows * size.cols;
    let ghost all = Seq::new(total as nat, |k: int| position_of(size, k));
    let ghost region = neighbor_seq(size, pos).push(pos);
    let mut free: Vec<Position> = Vec::new();
    let ghost mut taken: Seq<Position> = Seq::empty();
    let mut k: usize = 0;
    while k < total
        invariant
            valid_size(size),
            in_bounds(size, pos),
            total == cell_total(size),
            all == Seq::new(total as nat, |k: int| position_of(size, k)),
            region == neighbor_seq(size, pos).push(pos),
            k <= total,
            free@ == all.take(k as int).filter(|q: Position| !near(pos, q)),
            free@.len() + taken.len() == k,
            free@.no_duplicates(),
            taken.no_duplicates(),
            forall|i: int| 0 <= i < free@.len() ==> in_bounds(size, #[trigger] free@[i]) && cell_index(size, free@[i]) < k,
            forall|i: int| 0 <= i < taken.len() ==> region.contains(#[trigger] taken[i]) && cell_index(size, taken[i]) < k,
        decreases total - k,
    {
        let q = Position::new(k / size.cols, k % size.cols);
        proof {
            lemma_position_of(size, k as int);
            assert(q == position_of(size, k as int));
            assert(all.take(k + 1).drop_last() =~= all.take(k as int));
            assert(all.take(k + 1).last() == q);
            let pred = |q: Position| !near(pos, q);
            let t1 = all.take(k + 1);
            assert(t1.len() == k + 1);
            reveal_with_fuel(Seq::filter, 2);
            assert(t1.filter(pred) == if pred(t1.last()) {
                t1.drop_last().filter(pred).push(t1.last())
            } else {
                t1.drop_last().filter(pred)
            });
        }
        if is_near(pos, q) {
            proof {
                lemma_neighbor_seq(size, pos);
                assert forall|i: int| 0 <= i < taken.len() implies taken[i] != q by {}
                if q != pos {
                    assert(neighbor_seq(size, pos).contains(q));
                    let j = choose|j: int| 0 <= j < neighbor_seq(size, pos).len() && neighbor_seq(size, pos)[j] == q;
                    assert(region[j] == q);
                } else {
                    assert(region[region.len() - 1] == q);
                }
                taken = taken.push(q);
                assert forall|i: int| 0 <= i < taken.len() implies region.contains(#[trigger] taken[i]) && cell_index(size, taken[i]) < k + 1 by {
                    if i < taken.len() - 1 {
                        assert(taken[i] == taken.drop_last()[i]);
                    }
                }
            }
        } else {
            proof {
                assert forall|i: int| 0 <= i < free@.len() implies free@[i] != q by {}
            }
            free.push(q);
        }
        k += 1;
    }
    proof {
        assert(all.take(total as int) =~= all);
        assert(region.no_duplicates()) by {
            assert(!neighbor_seq(size, pos).contains(pos));
            assert forall|i: int, j: int| 0 <= i < region.len() && 0 <= j < region.len() && i != j implies region[i] != region[j] by {
                if i < region.len() - 1 && j < region.len() - 1 {
                    assert(region[i] == neighbor_seq(size, pos)[i] && region[j] == neighbor_seq(size, pos)[j]);
                } else if i < region.len() - 1 {
                    assert(region[i] == neighbor_seq(size, pos)[i]);
                } else if j < region.len() - 1 {
                    assert(region[j] == neighbor_seq(size, pos)[j]);
                }
            }
        }
        taken.unique_seq_to_set();
        region.unique_seq_to_set();
        vstd::seq_lib::seq_to_set_is_finite(region);
        assert(taken.to_set().subset_of(region.to_set())) by {
            assert forall|q: Position| taken.to_set().contains(q) implies region.to_set().contains(q) by {
                let i = choose|i: int| 0 <= i < taken.len() && taken[i] == q;
                assert(region.contains(taken[i]));
            }
        }
        vstd::set_lib::lemma_len_subset(taken.to_set(), region.to_set());
        assert(free@.len() + 9 >= total);
    }
    free
}

/// Samples a layout from the Cells away from `pos`'s 3x3 region.
fn sample_spread(size: BoardSize, count: usize, pos: Position, seed: Seed) -> (r: Vec<Position>)
    requires
        valid_size(size),
        in_bounds(size, pos),
        count + 9 <= cell_total(size),
    ensures
        r@ == spread_layout(size, count, pos, seed),
        r@.len() == count,
        layout_ok(size, r@),
        region_clear(r@, pos),
{
    let free = collect_free_cells(size, pos);
    let idx = sample_indices(seed as u64, free.len(), count);
    let mut v: Vec<Position> = Vec::new();
    let mut k: usize = 0;
    while k < idx.len()
        invariant
            free@ == free_cells(size, pos),
            layout_ok(size, free@),
            idx@ == sampled_indices(seed as u64, free@.len() as usize, count),
            idx@.no_duplicates(),
            forall|i: int| 0 <= i < idx@.len() ==> #[trigger] idx@[i] < free@.len(),
            k <= idx@.len(),
            v@ == idx@.take(k as int).map_values(|i: usize| free@[i as int]),
        decreases idx@.len() - k,
    {
        let q = free[idx[k]];
        assert(idx@.take(k + 1).map_values(|i: usize| free@[i as int]) =~= v@.push(q));
        v.push(q);
        k += 1;
    }
    proof {
        assert(idx@.take(idx@.len() as int) =~= idx@);
        assert forall|i: int| 0 <= i < v@.len() implies in_bounds(size, #[trigger] v@[i]) && !near(pos, v@[i]) by {
            let f = |q: Position| !near(pos, q);
            let all = Seq::new(cell_total(size) as nat, |k: int| position_of(size, k));
            all.lemma_filter_pred(f, idx@[i] as int);
        }
        assert forall|i: int, j: int| 0 <= i < v@.len() && 0 <= j < v@.len() && i != j implies v@[i] != v@[j] by {
            assert(idx@[i] != idx@[j]);
        }
    }
    v
}

/// Draws a layout that spares `pos` and its neighbors: the candidate Seeds
/// `first`, then fresh random ones, until one's layout is clear around
/// `pos`, which is returned with that Seed. Should `SAFE_DRAWS` candidates
/// and the one drawn after them all fail, that last candidate's layout is
/// drawn from the Cells away from `pos` instead. A returned Seed whose own
/// layout is clear around `pos` always comes with that layout, so it
/// replays.
pub fn safe_layout(size: BoardSize, count: usize, pos: Position, first: Seed) -> (r: (Seed, Vec<Position>))
    requires
        valid_size(size),
        in_bounds(size, pos),
        count + 9 <= cell_total(size),
    ensures
        r.1@.len() == count,
        layout_ok(size, r.1@),
        region_clear(r.1@, pos),
        r.1@ == mine_layout(size, r.0, count) || r.1@ == spread_layout(size, count, pos, r.0),
        region_clear(mine_layout(size, r.0, count), pos) ==> r.1@ == mine_layout(size, r.0, count),
{
    let mut candidate = first;
    let mut attempt: u32 = 0;
    while attempt < SAFE_DRAWS
        invariant
            valid_size(size),
            in_bounds(size, pos),
            count + 9 <= cell_total(size),
        decreases SAFE_DRAWS - attempt,
    {
        let mines = sample_mines(size, count, candidate);
        if clear_around(&mines, pos) {
            return (candidate, mines);
        }
        candidate = random_seed();
        attempt += 1;
    }
    let mines = sample_mines(size, count, candidate);
    if clear_around(&mines, pos) {
        return (candidate, mines);
    }
    let spread = sample_spread(size, count, pos, candidate);
    (candidate, spread)
}

} // verus!
