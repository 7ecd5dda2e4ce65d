//! The Minesweeper side of the AI advisor: the player-visible board it is
//! shown, how that board is rendered for each input mode, the system prompt
//! of each mode, and how a failed round is reported to the player.
//!
//! The board the model is shown never carries the Mine layout:
//! `BoardView::from_game` reads only what the player sees.

use vstd::prelude::*;

use base64::Engine;

use crate::agent::{AgentError, Message as AgentMessage, SendError as AgentSendError, ThinkingLevel};
use crate::board::{lemma_adjacent_mines_bound, BoardModel};
use crate::board_text::{decimal, digit_char, push_decimal};
use crate::domain::{difficulty_mines, CellContent, CellState, CellView, Difficulty, GameState, Position};
use crate::game::{Game, GameModel};
use crate::geometry::{cell_total, in_bounds, lemma_cell_index, lemma_position_of, position_of};
use crate::protocol::{ContentBlock, Message as ProviderMessage, ProviderError, ProviderErrorKind, StreamChunk};

verus! {

/// How the board is put in front of the model.
#[derive(Debug, Clone, Copy, PartialEq, Eq, Structural)]
pub enum InputMode {
    /// One character per Cell.
    Plain,
    /// One emoji per Cell.
    Emoji,
    /// A screenshot of the board.
    Image,
}

/// The system prompt shared by every input mode: the role, the coordinate
/// system, the Cell states and the answer expected.
pub const SYSTEM_CORE: &'static str = "你是一名扫雷顾问，帮助玩家分析当前局面并给出下一步建议。\n\n棋盘的行号 row 与列号 col 都从 0 开始，左上角是第 0 行第 0 列；坐标写作 (row,col)。\n\n每个格子处于三种状态之一：未开、插旗、已开。已开的格子显示它周围八格中的地雷数。\n\n请先给出结论：下一步要翻开或插旗的格子坐标；再简要说明推理依据。只依据棋盘上可见的信息推理。";

/// The section of the plain mode: the character legend.
pub const PLAIN_SECTION: &'static str = "棋盘以字符矩阵的形式展现给你：每行一行文字，每个字符是一个格子。\n- `.`：未开\n- `F`：插旗\n- `0`-`8`：已开，数字是周围的地雷数\n- `*`：已开的地雷（只在失败后出现）";

/// The section of the emoji mode: the emoji legend.
pub const EMOJI_SECTION: &'static str = "棋盘以 emoji 矩阵的形式展现给你：每行一行文字，每个 emoji 是一个格子。\n- ⬛：未开\n- 🚩：插旗\n- ⬜：已开，周围没有地雷\n- 1️⃣-8️⃣：已开，数字是周围的地雷数\n- 💣：已开的地雷（只在失败后出现）";

/// The section of the image mode: how the screenshot shows the Cells.
pub const IMAGE_SECTION: &'static str = "扫雷布局将以棋盘截图的形式展现给你。截图中未开的格子是凸起的方块，插旗的格子上有一面红旗，已开的格子是平的并显示周围的地雷数。";

/// The model of the text modes.
pub const DEFAULT_MODEL: &'static str = "deepseek-v4-flash";

/// The vision model of the image mode.
pub const VISION_MODEL: &'static str = "deepseek-v4-flash-vision-exp";

/// The system-prompt section of a mode.
pub open spec fn section_of(mode: InputMode) -> Seq<char> {
    match mode {
        InputMode::Plain => PLAIN_SECTION@,
        InputMode::Emoji => EMOJI_SECTION@,
        InputMode::Image => IMAGE_SECTION@,
    }
}

/// The system prompt of a mode: the shared core, a blank line, the mode's
/// own section.
pub open spec fn system_prompt_of(mode: InputMode) -> Seq<char> {
    SYSTEM_CORE@ + "\n\n"@ + section_of(mode)
}

/// The glyph families a board is rendered in.
#[derive(Debug, Clone, Copy, PartialEq, Eq, Structural)]
pub enum Glyphs {
    Plain,
    Emoji,
}

/// The player-visible board the model is shown; it never carries the Mine
/// layout.
#[derive(Debug, Clone, PartialEq)]
pub struct BoardView {
    pub difficulty: Difficulty,
    pub state: GameState,
    pub rows: usize,
    pub cols: usize,
    /// The Difficulty's Mine count.
    pub mine_count: usize,
    /// Negative when the player has over-flagged.
    pub flags_remaining: i32,
    /// One entry per Cell, row-major.
    pub cells: Vec<CellView>,
}

/// Whether a view's Cells are what the player sees of a board, row-major.
pub open spec fn shows_board(cells: Seq<CellView>, b: BoardModel) -> bool {
    &&& cells.len() == cell_total(b.size)
    &&& forall|i: int| 0 <= i < cells.len() ==> #[trigger] cells[i] == b.view_of(position_of(b.size, i))
}

/// The plain character of a Cell: `.` Hidden, `F` Flagged, `*` a Revealed
/// Mine, the digit of a Revealed count, `?` a Revealed Cell without content.
pub open spec fn plain_of(v: CellView) -> char {
    match v.state {
        CellState::Hidden => '.',
        CellState::Flagged => 'F',
        CellState::Revealed => match v.content {
            Some(CellContent::Mine) => '*',
            Some(CellContent::Number(n)) => (48 + n) as char,
            None => '?',
        },
    }
}

/// The keycap emoji of a number: its digits, VS16 and the combining keycap.
pub open spec fn keycap_of(n: u8) -> Seq<char> {
    decimal(n as nat) + "\u{fe0f}\u{20e3}"@
}

/// The emoji of a Cell: `⬛` Hidden, `🚩` Flagged, `💣` a Revealed Mine,
/// `⬜` a Revealed zero, the keycap of any other Revealed count, `?` a
/// Revealed Cell without content.
pub open spec fn emoji_of(v: CellView) -> Seq<char> {
    match v.state {
        CellState::Hidden => "⬛"@,
        CellState::Flagged => "🚩"@,
        CellState::Revealed => match v.content {
            Some(CellContent::Mine) => "💣"@,
            Some(CellContent::Number(n)) => if n == 0 {
                "⬜"@
            } else {
                keycap_of(n)
            },
            None => "?"@,
        },
    }
}

/// The text of a Cell in a glyph family.
pub open spec fn cell_text(g: Glyphs, v: CellView) -> Seq<char> {
    match g {
        Glyphs::Plain => seq![plain_of(v)],
        Glyphs::Emoji => emoji_of(v),
    }
}

/// Whether a Cell can be rendered in a glyph family: a plain count stays
/// within the character range the digit arithmetic covers.
pub open spec fn renderable(g: Glyphs, v: CellView) -> bool {
    g == Glyphs::Plain && v.state == CellState::Revealed ==> (v.content matches Some(
        CellContent::Number(n),
    ) ==> n <= 207)
}

/// The first `k` Cells of row `r`, joined by `sep`.
pub open spec fn row_text(cells: Seq<CellView>, cols: nat, r: nat, k: nat, g: Glyphs, sep: Seq<char>) -> Seq<
    char,
>
    decreases k,
{
    if k == 0 {
        Seq::empty()
    } else if k == 1 {
        cell_text(g, cells[(r * cols) as int])
    } else {
        row_text(cells, cols, r, (k - 1) as nat, g, sep) + sep + cell_text(
            g,
            cells[(r * cols + k - 1) as int],
        )
    }
}

/// The first `k` rows, joined by newlines.
pub open spec fn rows_text(cells: Seq<CellView>, cols: nat, k: nat, g: Glyphs, sep: Seq<char>) -> Seq<char>
    decreases k,
{
    if k == 0 {
        Seq::empty()
    } else if k == 1 {
        row_text(cells, cols, 0, cols, g, sep)
    } else {
        rows_text(cells, cols, (k - 1) as nat, g, sep) + "\n"@ + row_text(
            cells,
            cols,
            (k - 1) as nat,
            cols,
            g,
            sep,
        )
    }
}

/// Whether a view can be rendered: its Cell list has one entry per Cell, and
/// every Cell can be rendered in the family.
pub open spec fn view_renderable(view: BoardView, g: Glyphs) -> bool {
    &&& view.cells@.len() == view.rows * view.cols
    &&& forall|i: int| 0 <= i < view.cells@.len() ==> renderable(g, #[trigger] view.cells@[i])
}

/// The rendering of a view in a glyph family, with no separator between
/// Cells.
pub open spec fn rendered(view: BoardView, g: Glyphs) -> Seq<char> {
    rows_text(view.cells@, view.cols as nat, view.rows as nat, g, Seq::empty())
}

/// The player message of a mode over a board's Cells: the plain or emoji
/// board as text, or the screenshot alone.
pub open spec fn user_blocks_show(
    mode: InputMode,
    cells: Seq<CellView>,
    rows: nat,
    cols: nat,
    url: Seq<char>,
    blocks: Seq<ContentBlock>,
) -> bool {
    &&& blocks.len() == 1
    &&& match mode {
        InputMode::Plain => blocks[0] matches ContentBlock::Text(t) && t@ == rows_text(
            cells,
            cols,
            rows,
            Glyphs::Plain,
            Seq::empty(),
        ),
        InputMode::Emoji => blocks[0] matches ContentBlock::Text(t) && t@ == rows_text(
            cells,
            cols,
            rows,
            Glyphs::Emoji,
            Seq::empty(),
        ),
        InputMode::Image => blocks[0] matches ContentBlock::ImageUrl(u) && u@ == url,
    }
}

/// Every Cell of a board as the player sees it, row-major.
pub open spec fn visible_cells(b: BoardModel) -> Seq<CellView> {
    Seq::new(cell_total(b.size) as nat, |i: int| b.view_of(position_of(b.size, i)))
}

impl InputMode {
    /// The system prompt of this mode: the shared core plus the mode's own
    /// section, separated by a blank line.
    pub fn system_prompt(self) -> (r: String)
        ensures
            r@ == system_prompt_of(self),
    {
        let section = match self {
            InputMode::Plain => PLAIN_SECTION,
            InputMode::Emoji => EMOJI_SECTION,
            InputMode::Image => IMAGE_SECTION,
        };
        let mut prompt = String::from_str(SYSTEM_CORE);
        prompt.append("\n\n");
        prompt.append(section);
        prompt
    }

    /// The user turn of this mode: the board rendered in the mode's symbols,
    /// or, in the image mode, the screenshot alone.
    pub fn user_message(self, view: &BoardView, image_data_url: &str) -> (r: Vec<ContentBlock>)
        requires
            self == InputMode::Plain ==> view_renderable(*view, Glyphs::Plain),
            self == InputMode::Emoji ==> view_renderable(*view, Glyphs::Emoji),
        ensures
            user_blocks_show(self, view.cells@, view.rows as nat, view.cols as nat, image_data_url@, r@),
    {
        let block = match self {
            InputMode::Plain => ContentBlock::Text(render_plain(view)),
            InputMode::Emoji => ContentBlock::Text(render_emoji(view)),
            InputMode::Image => ContentBlock::ImageUrl(String::from_str(image_data_url)),
        };
        let mut blocks: Vec<ContentBlock> = Vec::new();
        blocks.push(block);
        blocks
    }

    /// The model that serves this mode: the vision model for the image mode,
    /// the text model otherwise.
    pub fn model(self) -> (r: &'static str)
        ensures
            r@ == (if self == InputMode::Image {
                VISION_MODEL@
            } else {
                DEFAULT_MODEL@
            }),
    {
        match self {
            InputMode::Image => VISION_MODEL,
            _ => DEFAULT_MODEL,
        }
    }
}

impl BoardView {
    /// Builds the visible board of a game from what the player sees: the
    /// difficulty, the game state, the size, the Mine count, the Flags
    /// Remaining counter and every Cell's view. It never reads the Mines.
    pub fn from_game(game: &Game) -> (r: Self)
        requires
            game@.wf(),
        ensures
            r.difficulty == game@.config.difficulty,
            r.state == game@.board.state,
            r.rows == game@.board.size.rows,
            r.cols == game@.board.size.cols,
            r.mine_count == difficulty_mines(game@.config.difficulty),
            r.flags_remaining == game@.board.flags_remaining(),
            shows_board(r.cells@, game@.board),
    {
        let size = game.size();
        proof {
            lemma_cell_index(size, Position { row: 0, col: 0 }, Position { row: 0, col: 0 });
        }
        let total = size.rows * size.cols;
        let mut cells: Vec<CellView> = Vec::new();
        let mut i: usize = 0;
        while i < total
            invariant
                game@.wf(),
                size == game@.board.size,
                total == cell_total(size),
                i <= total,
                cells@.len() == i,
                forall|j: int| 0 <= j < i ==> #[trigger] cells@[j] == game@.board.view_of(position_of(size, j)),
            decreases total - i,
        {
            proof {
                lemma_position_of(size, i as int);
            }
            let pos = Position::new(i / size.cols, i % size.cols);
            assert(pos == position_of(size, i as int));
            cells.push(game.cell_view(pos));
            i += 1;
        }
        BoardView {
            difficulty: game.difficulty(),
            state: game.game_state(),
            rows: size.rows,
            cols: size.cols,
            mine_count: game.difficulty().mine_count(),
            flags_remaining: game.flags_remaining(),
            cells,
        }
    }
}

/// The plain character of a Cell.
pub fn plain_char(cell: CellView) -> (c: char)
    requires
        renderable(Glyphs::Plain, cell),
    ensures
        c == plain_of(cell),
{
    match cell.state {
        CellState::Hidden => '.',
        CellState::Flagged => 'F',
        CellState::Revealed => match cell.content {
            Some(CellContent::Mine) => '*',
            Some(CellContent::Number(n)) => (48u8 + n) as char,
            None => '?',
        },
    }
}

/// A keycap digit emoji: the number's digits, VS16 and U+20E3.
pub fn keycap(n: u8) -> (r: String)
    ensures
        r@ == keycap_of(n),
{
    let mut s = String::new();
    push_decimal(&mut s, n as u64);
    s.append("\u{fe0f}\u{20e3}");
    s
}

/// The emoji of a Cell.
pub fn emoji_cell(cell: CellView) -> (r: String)
    ensures
        r@ == emoji_of(cell),
{
    match cell.state {
        CellState::Hidden => String::from_str("⬛"),
        CellState::Flagged => String::from_str("🚩"),
        CellState::Revealed => match cell.content {
            Some(CellContent::Mine) => String::from_str("💣"),
            Some(CellContent::Number(n)) => if n == 0 {
                String::from_str("⬜")
            } else {
                keycap(n)
            },
            None => String::from_str("?"),
        },
    }
}

/// Appends the text of a Cell in a glyph family.
fn push_cell(out: &mut String, g: Glyphs, cell: CellView)
    requires
        renderable(g, cell),
    ensures
        final(out)@ == old(out)@ + cell_text(g, cell),
{
    match g {
        Glyphs::Plain => {
            let c = plain_char(cell);
            let mut s = String::new();
            crate::text::push_char(&mut s, c);
            assert(s@ =~= seq![c]);
            out.append(s.as_str());
        },
        Glyphs::Emoji => {
            let s = emoji_cell(cell);
            out.append(s.as_str());
        },
    }
}

/// Renders the rows of a view, each Cell in the glyph family, the Cells of a
/// row joined by `sep` and the rows by newlines.
pub fn render_rows(view: &BoardView, g: Glyphs, sep: &str) -> (r: String)
    requires
        view_renderable(*view, g),
    ensures
        r@ == rows_text(view.cells@, view.cols as nat, view.rows as nat, g, sep@),
{
    let rows = view.rows;
    let cols = view.cols;
    let ghost cells = view.cells@;
    let total = view.cells.len();
    let mut out = String::new();
    let mut row: usize = 0;
    while row < rows
        invariant
            row <= rows,
            rows == view.rows,
            cols == view.cols,
            cells == view.cells@,
            total == cells.len(),
            view_renderable(*view, g),
            out@ == rows_text(cells, cols as nat, row as nat, g, sep@),
        decreases rows - row,
    {
        if row > 0 {
            out.append("\n");
        }
        let ghost line_start = out@;
        let mut col: usize = 0;
        while col < cols
            invariant
                row < rows,
                col <= cols,
                rows == view.rows,
                cols == view.cols,
                cells == view.cells@,
                total == cells.len(),
                view_renderable(*view, g),
                out@ == line_start + row_text(cells, cols as nat, row as nat, col as nat, g, sep@),
            decreases cols - col,
        {
            assert(row * cols + col < rows * cols && row * cols <= rows * cols) by (nonlinear_arith)
                requires
                    row < rows,
                    col < cols,
            ;
            assert(rows * cols == view.cells@.len());
            let idx = row * cols + col;
            if col > 0 {
                out.append(sep);
            }
            push_cell(&mut out, g, view.cells[idx]);
            assert(out@ =~= line_start + row_text(cells, cols as nat, row as nat, (col + 1) as nat, g, sep@));
            col += 1;
        }
        assert(out@ =~= rows_text(cells, cols as nat, (row + 1) as nat, g, sep@));
        row += 1;
    }
    out
}

/// The plain user turn: one character per Cell, no separator.
pub fn render_plain(view: &BoardView) -> (r: String)
    requires
        view_renderable(*view, Glyphs::Plain),
    ensures
        r@ == rendered(*view, Glyphs::Plain),
{
    proof {
        reveal_strlit("");
    }
    assert(""@ =~= Seq::<char>::empty());
    render_rows(view, Glyphs::Plain, "")
}

/// The emoji user turn: one emoji per Cell, no separator.
pub fn render_emoji(view: &BoardView) -> (r: String)
    requires
        view_renderable(*view, Glyphs::Emoji),
    ensures
        r@ == rendered(*view, Glyphs::Emoji),
{
    proof {
        reveal_strlit("");
    }
    assert(""@ =~= Seq::<char>::empty());
    render_rows(view, Glyphs::Emoji, "")
}

/// Why a streamed analysis ended early.
#[derive(Debug, Clone, Copy, PartialEq, Eq, Structural)]
pub enum InterruptReason {
    UserInterrupt,
    RateLimit,
    Timeout,
    UpstreamError,
    Unknown,
}

/// The reason a mid-stream provider failure is reported as: a `429` is a
/// rate limit; a `408` or a transport failure (no code) a timeout; any other
/// upstream failure an upstream error; a misconfiguration unknown.
pub open spec fn refracted(pe: ProviderError) -> InterruptReason {
    if pe.code == Some(429u16) {
        InterruptReason::RateLimit
    } else if pe.code == Some(408u16) || pe.code is None {
        InterruptReason::Timeout
    } else {
        match pe.kind {
            ProviderErrorKind::Upstream => InterruptReason::UpstreamError,
            ProviderErrorKind::Config => InterruptReason::Unknown,
        }
    }
}

/// Maps a mid-stream provider failure to the reason reported to the player.
pub fn refract_provider_error(pe: &ProviderError) -> (r: InterruptReason)
    ensures
        r == refracted(*pe),
{
    if pe.code == Some(429u16) {
        return InterruptReason::RateLimit;
    }
    if pe.code == Some(408u16) || pe.code.is_none() {
        return InterruptReason::Timeout;
    }
    match pe.kind {
        ProviderErrorKind::Upstream => InterruptReason::UpstreamError,
        ProviderErrorKind::Config => InterruptReason::Unknown,
    }
}

/// The reason a failed advisor round is reported as: a cancellation is the
/// player's own interrupt, a provider failure is refracted, a missing
/// provider is unknown.
pub open spec fn interrupt_reason_of(e: AgentError) -> InterruptReason {
    match e {
        AgentError::Cancelled => InterruptReason::UserInterrupt,
        AgentError::Provider(pe) => refracted(pe),
        AgentError::NoProvider => InterruptReason::Unknown,
    }
}

/// Maps a failed advisor round to the reason reported to the player.
pub fn interrupt_reason(e: &AgentError) -> (r: InterruptReason)
    ensures
        r == interrupt_reason_of(*e),
{
    match e {
        AgentError::Cancelled => InterruptReason::UserInterrupt,
        AgentError::Provider(pe) => refract_provider_error(pe),
        AgentError::NoProvider => InterruptReason::Unknown,
    }
}

/// A failure before any content streamed.
#[derive(Debug)]
pub struct SuggestPreFlightError(AgentError);

impl SuggestPreFlightError {
    /// Wraps the agent's failure.
    pub fn new(error: AgentError) -> (r: Self)
        ensures
            r.error() == error,
    {
        SuggestPreFlightError(error)
    }

    /// The agent's failure inside.
    pub closed spec fn error(self) -> AgentError {
        self.0
    }

    /// The underlying agent error.
    pub fn into_inner(self) -> (r: AgentError)
        ensures
            r == self.error(),
    {
        self.0
    }
}

/// The frontend's request for an analysis: the input mode, the reasoning
/// depth, and the screenshot of the image mode.
#[derive(Debug, Clone, PartialEq)]
pub struct GuideRequest {
    pub input_mode: InputMode,
    pub thinking_level: ThinkingLevel,
    /// The image mode's PNG data URL.
    pub image_data_url: Option<String>,
}

/// The frontend's request for a Send: the reasoning depth and the
/// screenshot of the image mode.
#[derive(Debug, Clone, PartialEq)]
pub struct SendRequest {
    pub thinking_level: ThinkingLevel,
    /// The image mode's PNG data URL.
    pub image_data_url: Option<String>,
}

/// Why a Send did not start: the image mode's screenshot is missing, or the
/// agent refused or failed.
#[derive(Debug, PartialEq)]
pub enum SendError {
    MissingScreenshot,
    Agent(AgentSendError),
}

/// Admits a Send into the live Session: with no Session live it is refused
/// as the agent refuses it; in the image mode it needs a screenshot.
pub fn admit_send(mode: Option<InputMode>, req: &SendRequest) -> (r: Result<InputMode, SendError>)
    ensures
        match mode {
            None => r matches Err(SendError::Agent(AgentSendError::NoSession)),
            Some(m) => if m == InputMode::Image && req.image_data_url is None {
                r matches Err(SendError::MissingScreenshot)
            } else {
                r matches Ok(x) && x == m
            },
        },
{
    match mode {
        None => Err(SendError::Agent(AgentSendError::NoSession)),
        Some(m) => {
            if m == InputMode::Image && req.image_data_url.is_none() {
                Err(SendError::MissingScreenshot)
            } else {
                Ok(m)
            }
        },
    }
}

/// The text echoed back as the player's own message: the single text block
/// of a user turn, or nothing (the screenshot of the image mode).
pub open spec fn echo_of(blocks: Seq<ContentBlock>) -> Seq<char> {
    if blocks.len() == 1 && blocks[0] is Text {
        blocks[0]->Text_0@
    } else {
        Seq::empty()
    }
}

/// The text of a user turn echoed back to the player.
pub fn echo_text(blocks: &Vec<ContentBlock>) -> (r: String)
    ensures
        r@ == echo_of(blocks@),
{
    if blocks.len() == 1 {
        match &blocks[0] {
            ContentBlock::Text(t) => t.clone(),
            _ => String::new(),
        }
    } else {
        String::new()
    }
}

/// The board of a game rendered into a mode's user message, with the text
/// echoed back as the player's own message. The image mode's message is the
/// screenshot alone (an empty one when the request has none).
pub fn board_message(mode: InputMode, game: &Game, image_data_url: &Option<String>) -> (r: (String, AgentMessage))
    requires
        game@.wf(),
    ensures
        r.1 matches AgentMessage::User { content } && user_blocks_show(
            mode,
            visible_cells(game@.board),
            game@.board.size.rows as nat,
            game@.board.size.cols as nat,
            match image_data_url {
                Some(u) => u@,
                None => Seq::empty(),
            },
            content@,
        ) && r.0@ == echo_of(content@),
{
    let view = BoardView::from_game(game);
    proof {
        lemma_board_view_renderable(game@, view);
    }
    let url = match image_data_url {
        Some(u) => u.clone(),
        None => String::new(),
    };
    let blocks = mode.user_message(&view, url.as_str());
    let text = echo_text(&blocks);
    assert(view.cells@ =~= visible_cells(game@.board));
    (text, AgentMessage::User { content: blocks })
}

/// The view of a well-formed game can be rendered in either glyph family:
/// it has one entry per Cell, and every count is at most eight.
proof fn lemma_board_view_renderable(g: GameModel, view: BoardView)
    requires
        g.wf(),
        view.rows == g.board.size.rows,
        view.cols == g.board.size.cols,
        shows_board(view.cells@, g.board),
    ensures
        view_renderable(view, Glyphs::Plain),
        view_renderable(view, Glyphs::Emoji),
{
    assert forall|i: int| 0 <= i < view.cells@.len() implies renderable(Glyphs::Plain, #[trigger] view.cells@[i]) by {
        let q = position_of(g.board.size, i);
        lemma_adjacent_mines_bound(g.board.size, g.board.mines, q);
    }
}

/// The plain board shown to the model never shows a Mine while the game is
/// not Lost: a Hidden Mine shows as `.` (or `F` when Flagged), and no Cell
/// shows `*`.
pub proof fn law_plain_board_hides_mines(g: GameModel, q: Position)
    requires
        g.wf(),
        g.board.state != GameState::Lost,
        in_bounds(g.board.size, q),
    ensures
        plain_of(g.board.view_of(q)) != '*',
        g.board.is_mine(q) ==> plain_of(g.board.view_of(q)) == '.' || plain_of(g.board.view_of(q))
            == 'F',
{
    lemma_adjacent_mines_bound(g.board.size, g.board.mines, q);
}


/// Whether `pat` occurs in `s` at index `i`.
pub open spec fn occurs_at(s: Seq<char>, pat: Seq<char>, i: int) -> bool {
    0 <= i && i + pat.len() <= s.len() && s.subrange(i, i + pat.len()) == pat
}

/// `str::split_once`: the text before and after the first occurrence of
/// `pat`, or `None` when `pat` does not occur (std's documentation).
#[verifier::external_body]
fn split_once<'a>(s: &'a str, pat: &str) -> (r: Option<(&'a str, &'a str)>)
    ensures
        match r {
            Some((a, b)) => {
                &&& s@ == a@ + pat@ + b@
                &&& forall|i: int| 0 <= i < a@.len() ==> !occurs_at(s@, pat@, i)
            },
            None => forall|i: int| !occurs_at(s@, pat@, i),
        },
{
    s.split_once(pat)
}

/// The bytes that base64's standard engine decodes a text to, or `None`
/// when the text is not valid standard base64.
pub uninterp spec fn base64_standard_decoded(text: Seq<char>) -> Option<Seq<u8>>;

/// `base64::engine::general_purpose::STANDARD.decode`: the decoded bytes, or
/// the decoder's own message when the text is not valid standard base64.
/// The message's wording is the decoder's and is not stated.
#[verifier::external_body]
fn decode_base64(text: &str) -> (r: Result<Vec<u8>, String>)
    ensures
        match base64_standard_decoded(text@) {
            Some(bytes) => r matches Ok(v) && v@ == bytes,
            None => r is Err,
        },
{
    match base64::engine::general_purpose::STANDARD.decode(text) {
        Ok(bytes) => Ok(bytes),
        Err(e) => Err(e.to_string()),
    }
}

/// The marker that opens the payload of a base64 data URL.
pub open spec fn base64_marker() -> Seq<char> {
    "base64,"@
}

/// The bytes of a screenshot given as a `data:...;base64,<payload>` URL:
/// the payload after the first `base64,`, decoded. Rejected when there is no
/// `base64,` (`not a base64 data URL`) or the payload is not valid base64
/// (`base64 decode failed: ` and the decoder's message).
pub fn image_bytes(data_url: &str) -> (r: Result<Vec<u8>, String>)
    ensures
        (forall|i: int| !occurs_at(data_url@, base64_marker(), i)) ==> (r matches Err(e) && e@
            == "not a base64 data URL"@),
        forall|i: int|
            #![trigger occurs_at(data_url@, base64_marker(), i)]
            occurs_at(data_url@, base64_marker(), i) && (forall|j: int|
                0 <= j < i ==> !occurs_at(data_url@, base64_marker(), j)) ==> {
                let payload = data_url@.subrange(i + 7, data_url@.len() as int);
                match base64_standard_decoded(payload) {
                    Some(bytes) => (r matches Ok(v) && v@ == bytes),
                    None => (r matches Err(e) && e@.len() >= 22 && e@.subrange(0, 22)
                        == "base64 decode failed: "@),
                }
            },
{
    proof {
        reveal_strlit("base64,");
        reveal_strlit("base64 decode failed: ");
    }
    match split_once(data_url, "base64,") {
        None => Err(String::from_str("not a base64 data URL")),
        Some((before, payload)) => {
            proof {
                assert(occurs_at(data_url@, base64_marker(), before@.len() as int)) by {
                    assert(data_url@.subrange(before@.len() as int, (before@.len() + 7) as int) =~= "base64,"@);
                }
                assert(payload@ =~= data_url@.subrange((before@.len() + 7) as int, data_url@.len() as int));
            }
            match decode_base64(payload) {
                Ok(bytes) => Ok(bytes),
                Err(e) => {
                    let mut msg = String::from_str("base64 decode failed: ");
                    msg.append(e.as_str());
                    proof {
                        assert(msg@.subrange(0, 22) =~= "base64 decode failed: "@);
                    }
                    Err(msg)
                },
            }
        },
    }
}

// ---------------------------------------------------------------------
// One advisor round

/// The conversation an advisor round runs against: the system prompt, then
/// the messages pushed onto it.
pub struct Session {
    messages: Vec<ProviderMessage>,
}

impl Session {
    /// The messages so far.
    pub closed spec fn view_messages(&self) -> Seq<ProviderMessage> {
        self.messages@
    }

    /// A conversation opened by its system message.
    pub fn new(system: ProviderMessage) -> (r: Self)
        ensures
            r.view_messages() == seq![system],
    {
        let mut messages: Vec<ProviderMessage> = Vec::new();
        messages.push(system);
        let r = Session { messages };
        assert(r.view_messages() =~= seq![system]);
        r
    }

    /// Appends a message.
    pub fn push(&mut self, message: ProviderMessage)
        ensures
            final(self).view_messages() == old(self).view_messages().push(message),
    {
        self.messages.push(message);
    }

    /// The messages so far.
    pub fn messages(&self) -> (r: &[ProviderMessage])
        ensures
            r@ == self.view_messages(),
    {
        self.messages.as_slice()
    }
}

/// Relays a provider's stream to an advisor round: the cells pass through,
/// a provider failure becomes the agent's, and a cancellation is reported
/// once, then ends the stream.
pub struct StreamRelay {
    reported_cancel: bool,
}

impl StreamRelay {
    /// Whether the cancellation was already reported.
    pub closed spec fn reported(&self) -> bool {
        self.reported_cancel
    }

    /// A relay that has reported nothing.
    pub fn new() -> (r: Self)
        ensures
            !r.reported(),
    {
        StreamRelay { reported_cancel: false }
    }

    /// One step: given whether the round was cancelled and the provider's
    /// next item (`None` once its stream ended), the item the round yields
    /// (`None` ends it).
    pub fn step(&mut self, cancelled: bool, item: Option<Result<StreamChunk, ProviderError>>) -> (r: Option<
        Result<StreamChunk, AgentError>,
    >)
        ensures
            cancelled ==> final(self).reported() && if old(self).reported() {
                r is None
            } else {
                r == Some(Err::<StreamChunk, AgentError>(AgentError::Cancelled))
            },
            !cancelled ==> final(self).reported() == old(self).reported() && match item {
                Some(Ok(chunk)) => r == Some(Ok::<StreamChunk, AgentError>(chunk)),
                Some(Err(e)) => r == Some(Err::<StreamChunk, AgentError>(AgentError::Provider(e))),
                None => r is None,
            },
    {
        if cancelled {
            if self.reported_cancel {
                return None;
            }
            self.reported_cancel = true;
            return Some(Err(AgentError::Cancelled));
        }
        match item {
            Some(Ok(chunk)) => Some(Ok(chunk)),
            Some(Err(e)) => Some(Err(AgentError::Provider(e))),
            None => None,
        }
    }
}

} // verus!
