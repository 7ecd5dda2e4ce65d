//! The compact board text an AI advisor reads: a metadata line, a blank
//! line, a column header, then one line per row with a glyph per Cell.
//! Rows and columns are 0-indexed, matching `Position`.

use vstd::prelude::*;

use crate::board::BoardModel;
use crate::classic::Game;
use crate::domain::{difficulty_name, game_state_name, CellContent, CellState, CellView, Position};
use crate::geometry::{in_bounds, lemma_cell_index, valid_size};
use crate::text::push_char;

verus! {

/// The character of a decimal digit.
pub open spec fn digit_char(d: nat) -> char {
    if d == 0 {
        '0'
    } else if d == 1 {
        '1'
    } else if d == 2 {
        '2'
    } else if d == 3 {
        '3'
    } else if d == 4 {
        '4'
    } else if d == 5 {
        '5'
    } else if d == 6 {
        '6'
    } else if d == 7 {
        '7'
    } else if d == 8 {
        '8'
    } else {
        '9'
    }
}

/// The decimal digits of a natural number, most significant first.
pub open spec fn decimal(n: nat) -> Seq<char>
    decreases n,
{
    if n < 10 {
        seq![digit_char(n)]
    } else {
        decimal(n / 10).push(digit_char(n % 10))
    }
}

/// The decimal form of an integer, with a leading `-` when negative.
pub open spec fn signed_decimal(n: int) -> Seq<char> {
    if n < 0 {
        "-"@ + decimal((-n) as nat)
    } else {
        decimal(n as nat)
    }
}

/// `n` spaces (none for a negative `n`).
pub open spec fn spaces(n: int) -> Seq<char> {
    Seq::new(if n < 0 { 0 } else { n as nat }, |i: int| ' ')
}

/// `n` in decimal, right-aligned with spaces to width `w`.
pub open spec fn right_aligned(n: nat, w: nat) -> Seq<char> {
    spaces(w - decimal(n).len()) + decimal(n)
}

/// The width the decimal form of `n` takes (`0` counts as one digit).
pub open spec fn width_of(n: nat) -> nat {
    decimal(n).len()
}

/// The glyph of a Cell: `.` Hidden, `F` Flagged, the neighbor count `0`-`8`
/// when Revealed (a zero shows `0`, never blank), `*` a Revealed Mine, and
/// `?` for a Revealed Cell without content.
pub open spec fn glyph_of(v: CellView) -> char {
    match v.state {
        CellState::Hidden => '.',
        CellState::Flagged => 'F',
        CellState::Revealed => match v.content {
            Some(CellContent::Number(n)) => digit_char(if n > 8 { 8 } else { n as nat }),
            Some(CellContent::Mine) => '*',
            None => '?',
        },
    }
}

/// The header cells over the first `k` columns: each index right-aligned to
/// `w` and followed by a space.
pub open spec fn header_cells(k: nat, w: nat) -> Seq<char>
    decreases k,
{
    if k == 0 {
        Seq::empty()
    } else {
        header_cells((k - 1) as nat, w) + right_aligned((k - 1) as nat, w) + seq![' ']
    }
}

/// The glyphs of the first `k` Cells of a row, separated by single spaces.
pub open spec fn row_glyphs(b: BoardModel, row: nat, k: nat) -> Seq<char>
    decreases k,
{
    if k == 0 {
        Seq::empty()
    } else if k == 1 {
        seq![glyph_of(b.view_of(Position { row: row as usize, col: 0 }))]
    } else {
        row_glyphs(b, row, (k - 1) as nat) + seq![' ', glyph_of(b.view_of(Position { row: row as usize, col: (k - 1) as usize }))]
    }
}

/// The line of a row: its index right-aligned to `row_w`, a space, and its
/// glyphs.
pub open spec fn row_line(b: BoardModel, row: nat, row_w: nat) -> Seq<char> {
    right_aligned(row, row_w) + seq![' '] + row_glyphs(b, row, b.size.cols as nat) + seq!['\n']
}

/// The lines of the first `k` rows.
pub open spec fn row_lines(b: BoardModel, k: nat, row_w: nat) -> Seq<char>
    decreases k,
{
    if k == 0 {
        Seq::empty()
    } else {
        row_lines(b, (k - 1) as nat, row_w) + row_line(b, (k - 1) as nat, row_w)
    }
}

/// The metadata line and the blank line after it.
pub open spec fn metadata_lines(b: BoardModel, difficulty: Seq<char>) -> Seq<char> {
    "board "@ + decimal(b.size.rows as nat) + "x"@ + decimal(b.size.cols as nat) + "  game_state="@
        + game_state_name(b.state) + "  difficulty="@ + difficulty + "  flags_remaining="@
        + signed_decimal(b.flags_remaining()) + "\n\n"@
}

/// The whole board text: the metadata, the column header (indent of the row
/// labels plus one, then the right-aligned column indices), then the rows.
pub open spec fn board_text(b: BoardModel, difficulty: Seq<char>) -> Seq<char> {
    let row_w = width_of(if b.size.rows >= 2 { (b.size.rows - 1) as nat } else { 1 });
    let col_w = width_of(if b.size.cols >= 2 { (b.size.cols - 1) as nat } else { 1 });
    metadata_lines(b, difficulty) + spaces((row_w + 1) as int) + header_cells(b.size.cols as nat, col_w)
        + "\n"@ + row_lines(b, b.size.rows as nat, row_w)
}

/// The character of a decimal digit.
pub(crate) fn digit(d: u64) -> (c: char)
    requires
        d < 10,
    ensures
        c == digit_char(d as nat),
{
    if d == 0 {
        '0'
    } else if d == 1 {
        '1'
    } else if d == 2 {
        '2'
    } else if d == 3 {
        '3'
    } else if d == 4 {
        '4'
    } else if d == 5 {
        '5'
    } else if d == 6 {
        '6'
    } else if d == 7 {
        '7'
    } else if d == 8 {
        '8'
    } else {
        '9'
    }
}

/// Appends the decimal digits of `n`.
pub(crate) fn push_decimal(out: &mut String, n: u64)
    ensures
        final(out)@ == old(out)@ + decimal(n as nat),
    decreases n,
{
    if n >= 10 {
        push_decimal(out, n / 10);
    }
    push_char(out, digit(n % 10));
    proof {
        if n >= 10 {
            assert(old(out)@ + decimal(n as nat) =~= old(out)@ + decimal((n / 10) as nat) + seq![
                digit_char((n % 10) as nat),
            ]);
        } else {
            assert(old(out)@ + decimal(n as nat) =~= old(out)@.push(digit_char(n as nat)));
        }
    }
}

/// Appends `n` spaces.
fn push_spaces(out: &mut String, n: usize)
    ensures
        final(out)@ == old(out)@ + spaces(n as int),
{
    let ghost start = out@;
    let mut i: usize = 0;
    while i < n
        invariant
            i <= n,
            out@ == start + spaces(i as int),
        decreases n - i,
    {
        push_char(out, ' ');
        assert(start + spaces(i + 1) =~= (start + spaces(i as int)).push(' '));
        i += 1;
    }
}

/// The decimal digits of a number always number at least one.
proof fn lemma_decimal_len(n: nat)
    ensures
        decimal(n).len() >= 1,
        n < 10 ==> decimal(n).len() == 1,
        n >= 10 ==> decimal(n).len() == decimal(n / 10).len() + 1,
    decreases n,
{
    if n >= 10 {
        lemma_decimal_len(n / 10);
    }
}

/// Ten to the power `k`.
pub open spec fn pow10(k: nat) -> nat
    decreases k,
{
    if k == 0 {
        1
    } else {
        10 * pow10((k - 1) as nat)
    }
}

/// A number below ten to the `k` has at most `k` digits.
proof fn lemma_decimal_len_bound(n: nat, k: nat)
    requires
        1 <= k,
        n < pow10(k),
    ensures
        decimal(n).len() <= k,
    decreases k,
{
    lemma_decimal_len(n);
    if n >= 10 {
        if k == 1 {
            assert(pow10(1) == 10) by {
                reveal_with_fuel(pow10, 2);
            }
        } else {
            lemma_decimal_len_bound(n / 10, (k - 1) as nat);
        }
    }
}

/// A `u64` has at most twenty decimal digits.
pub(crate) proof fn lemma_decimal_len_u64(n: u64)
    ensures
        1 <= decimal(n as nat).len() <= 20,
{
    assert(pow10(20) == 100000000000000000000nat) by {
        reveal_with_fuel(pow10, 21);
    }
    lemma_decimal_len_bound(n as nat, 20);
    lemma_decimal_len(n as nat);
}

/// Appends `n` right-aligned to width `w`.
fn push_right_aligned(out: &mut String, n: usize, w: usize)
    ensures
        final(out)@ == old(out)@ + right_aligned(n as nat, w as nat),
{
    let width = digit_width(n);
    proof {
        lemma_decimal_len(n as nat);
    }
    let ghost start = out@;
    if width < w {
        push_spaces(out, w - width);
    } else {
        push_spaces(out, 0);
    }
    push_decimal(out, n as u64);
    assert(out@ =~= start + right_aligned(n as nat, w as nat));
}

/// The glyph of a Cell: `.` Hidden, `F` Flagged, the neighbor count `0`-`8`
/// when Revealed, `*` a Revealed Mine.
pub fn glyph(view: CellView) -> (c: char)
    ensures
        c == glyph_of(view),
{
    match view.state {
        CellState::Hidden => '.',
        CellState::Flagged => 'F',
        CellState::Revealed => match view.content {
            Some(CellContent::Number(n)) => digit(if n > 8 { 8 } else { n as u64 }),
            Some(CellContent::Mine) => '*',
            None => '?',
        },
    }
}

/// The number of decimal digits needed to render `n` (`0` counts as one).
pub fn digit_width(n: usize) -> (r: usize)
    ensures
        r == width_of(if n == 0 { 1 } else { n as nat }),
        1 <= r <= 20,
{
    let mut m: usize = if n == 0 { 1 } else { n };
    let mut w: usize = 1;
    proof {
        lemma_decimal_len(m as nat);
        assert(pow10(20) == 100000000000000000000nat) by {
            reveal_with_fuel(pow10, 21);
        }
        lemma_decimal_len_bound(m as nat, 20);
    }
    while m >= 10
        invariant
            1 <= w,
            m >= 1,
            decimal(m as nat).len() + w - 1 <= 20,
            width_of(if n == 0 { 1 } else { n as nat }) == decimal(m as nat).len() + w - 1,
        decreases m,
    {
        proof {
            lemma_decimal_len(m as nat);
            lemma_decimal_len((m / 10) as nat);
        }
        m = m / 10;
        w = w + 1;
    }
    proof {
        lemma_decimal_len(m as nat);
    }
    w
}

/// Renders a game as the compact board text an advisor reads: a metadata
/// line (`board`, `game_state`, `difficulty`, `flags_remaining`), a blank
/// line, a column header, then one line per row (row label plus the Cell
/// glyphs).
pub fn board_snapshot_text(game: &Game) -> (r: String)
    requires
        game@.wf(),
    ensures
        r@ == board_text(game@.board, difficulty_name(game@.config.difficulty)),
{
    let board = game.board();
    let ghost b = board@;
    let size = game.size();
    let rows = size.rows;
    let cols = size.cols;
    let row_w = digit_width(if rows >= 1 { rows - 1 } else { 0 });
    let col_w = digit_width(if cols >= 1 { cols - 1 } else { 0 });

    let mut out = String::new();
    out.append("board ");
    push_decimal(&mut out, rows as u64);
    out.append("x");
    push_decimal(&mut out, cols as u64);
    out.append("  game_state=");
    out.append(game.game_state().as_str());
    out.append("  difficulty=");
    out.append(game.difficulty().as_str());
    out.append("  flags_remaining=");
    let flags = game.flags_remaining();
    if flags < 0 {
        out.append("-");
        push_decimal(&mut out, (-(flags as i64)) as u64);
    } else {
        push_decimal(&mut out, flags as u64);
    }
    out.append("\n\n");
    let ghost meta = metadata_lines(b, difficulty_name(game@.config.difficulty));
    assert(out@ =~= meta);

    push_spaces(&mut out, row_w + 1);
    let ghost head = out@;
    let mut col: usize = 0;
    while col < cols
        invariant
            col <= cols,
            cols == b.size.cols,
            out@ == head + header_cells(col as nat, col_w as nat),
        decreases cols - col,
    {
        let ghost before = out@;
        push_right_aligned(&mut out, col, col_w);
        push_char(&mut out, ' ');
        assert(out@ =~= head + header_cells((col + 1) as nat, col_w as nat));
        col += 1;
    }
    out.append("\n");
    let ghost top = out@;
    assert(top =~= meta + spaces((row_w + 1) as int) + header_cells(cols as nat, col_w as nat) + "\n"@);

    let mut row: usize = 0;
    while row < rows
        invariant
            row <= rows,
            rows == b.size.rows,
            cols == b.size.cols,
            board@ == b,
            b.shape_ok(),
            out@ == top + row_lines(b, row as nat, row_w as nat),
        decreases rows - row,
    {
        let ghost line_start = out@;
        push_right_aligned(&mut out, row, row_w);
        push_char(&mut out, ' ');
        let ghost glyph_start = out@;
        let mut col: usize = 0;
        while col < cols
            invariant
                row < rows,
                col <= cols,
                rows == b.size.rows,
                cols == b.size.cols,
                board@ == b,
                b.shape_ok(),
                out@ == glyph_start + row_glyphs(b, row as nat, col as nat),
            decreases cols - col,
        {
            let view = board.cell_view(Position::new(row, col));
            if col > 0 {
                push_char(&mut out, ' ');
            }
            push_char(&mut out, glyph(view));
            assert(out@ =~= glyph_start + row_glyphs(b, row as nat, (col + 1) as nat));
            col += 1;
        }
        push_char(&mut out, '\n');
        assert(out@ =~= top + row_lines(b, (row + 1) as nat, row_w as nat));
        row += 1;
    }
    out
}

/// The board text opens with its size, rows first: `board <rows>x<cols>`,
/// the number of row lines and the number of Cells in each.
pub proof fn law_board_text_opens_with_rows_by_cols(b: BoardModel, difficulty: Seq<char>)
    ensures
        ("board "@ + decimal(b.size.rows as nat) + "x"@ + decimal(b.size.cols as nat) + "  "@).is_prefix_of(
            board_text(b, difficulty),
        ),
{
    let p = "board "@ + decimal(b.size.rows as nat) + "x"@ + decimal(b.size.cols as nat) + "  "@;
    let t = board_text(b, difficulty);
    reveal_strlit("  game_state=");
    reveal_strlit("  ");
    assert("  game_state="@ =~= "  "@ + "game_state="@) by {
        reveal_strlit("game_state=");
    }
    let rest = "game_state="@ + game_state_name(b.state) + "  difficulty="@ + difficulty + "  flags_remaining="@
        + signed_decimal(b.flags_remaining()) + "\n\n"@ + t.subrange(metadata_lines(b, difficulty).len() as int, t.len() as int);
    assert(t =~= p + rest);
    assert(t.subrange(0, p.len() as int) =~= p);
}

} // verus!
