//! The terminal front end's logic: the screen layout, what a click lands
//! on, what a mouse event does to the game, and what each Cell and the top
//! bar show. Drawing on a terminal is the caller's.

use vstd::prelude::*;

use crate::board::{chorded, flag_toggled};
use crate::board_text::{decimal, push_decimal};
use crate::calendar::{push_zero_padded, zero_padded};
use crate::classic::{classic_revealed, fresh_classic, mode_features, ClassicModel, Game, GameConfig, GameMode, SeedPolicy};
use crate::clock::{duration_secs, whole_seconds, TimerPhase};
use crate::domain::{BoardSize, CellContent, CellState, Difficulty, GameState, Position};

verus! {

/// A rectangle of terminal cells.
#[derive(Debug, Clone, Copy, PartialEq, Eq, Structural)]
pub struct Rect {
    pub x: u16,
    pub y: u16,
    pub width: u16,
    pub height: u16,
}

/// A terminal cell position.
#[derive(Debug, Clone, Copy, PartialEq, Eq, Structural)]
pub struct TermPos {
    pub x: u16,
    pub y: u16,
}

impl TermPos {
    /// The position at column `x`, row `y`.
    pub fn new(x: u16, y: u16) -> (r: Self)
        ensures
            r == (TermPos { x, y }),
    {
        TermPos { x, y }
    }
}

/// `a + b`, capped at the top of `u16`.
pub open spec fn sat_add(a: u16, b: u16) -> u16 {
    if a + b > u16::MAX {
        u16::MAX
    } else {
        (a + b) as u16
    }
}

/// Whether a position lies inside a rectangle.
pub open spec fn rect_contains(r: Rect, p: TermPos) -> bool {
    r.x <= p.x && p.x < sat_add(r.x, r.width) && r.y <= p.y && p.y < sat_add(r.y, r.height)
}

impl Rect {
    /// The rectangle at `(x, y)` of the given size.
    pub fn new(x: u16, y: u16, width: u16, height: u16) -> (r: Self)
        ensures
            r == (Rect { x, y, width, height }),
    {
        Rect { x, y, width, height }
    }

    /// The empty rectangle at the origin.
    pub fn zero() -> (r: Self)
        ensures
            r == (Rect { x: 0, y: 0, width: 0, height: 0 }),
    {
        Rect { x: 0, y: 0, width: 0, height: 0 }
    }

    /// The column just past the right edge.
    pub fn right(&self) -> (r: u16)
        ensures
            r == sat_add(self.x, self.width),
    {
        if self.width > u16::MAX - self.x {
            u16::MAX
        } else {
            self.x + self.width
        }
    }

    /// The row just past the bottom edge.
    pub fn bottom(&self) -> (r: u16)
        ensures
            r == sat_add(self.y, self.height),
    {
        if self.height > u16::MAX - self.y {
            u16::MAX
        } else {
            self.y + self.height
        }
    }

    /// Whether a position lies inside the rectangle.
    pub fn contains(&self, p: TermPos) -> (r: bool)
        ensures
            r == rect_contains(*self, p),
    {
        p.x >= self.x && p.x < self.right() && p.y >= self.y && p.y < self.bottom()
    }
}

/// The clickable regions of the top bar and the board area.
#[derive(Debug, Clone, Copy, PartialEq, Eq)]
pub struct UiLayout {
    pub difficulty_buttons: [(Difficulty, Rect); 3],
    pub flag_counter: Rect,
    pub timer: Rect,
    pub new_game_button: Rect,
    pub board: Rect,
}

/// The label of the New Game button.
pub const NEW_GAME: &'static str = " New Game ";

/// The label of a difficulty button.
pub open spec fn label_of(d: Difficulty) -> Seq<char> {
    match d {
        Difficulty::Beginner => " Beginner "@,
        Difficulty::Intermediate => " Intermediate "@,
        Difficulty::Expert => " Expert "@,
    }
}

/// The label of a difficulty button.
pub fn label(difficulty: Difficulty) -> (r: &'static str)
    ensures
        r@ == label_of(difficulty),
{
    match difficulty {
        Difficulty::Beginner => " Beginner ",
        Difficulty::Intermediate => " Intermediate ",
        Difficulty::Expert => " Expert ",
    }
}

/// The rectangle the board takes: two terminal columns per Cell, below the
/// top bar.
pub open spec fn board_rect(size: BoardSize) -> Rect {
    Rect { x: 0, y: 1, width: (size.cols * 2) as u16, height: size.rows as u16 }
}

/// The layout of the screen: the difficulty buttons, the Flag counter (9
/// wide), the timer (6 wide) and the New Game button side by side on the
/// top row, the board below.
pub open spec fn layout_of(size: BoardSize) -> UiLayout {
    UiLayout {
        difficulty_buttons: [
            (Difficulty::Beginner, Rect { x: 0, y: 0, width: 10, height: 1 }),
            (Difficulty::Intermediate, Rect { x: 10, y: 0, width: 14, height: 1 }),
            (Difficulty::Expert, Rect { x: 24, y: 0, width: 8, height: 1 }),
        ],
        flag_counter: Rect { x: 32, y: 0, width: 9, height: 1 },
        timer: Rect { x: 41, y: 0, width: 6, height: 1 },
        new_game_button: Rect { x: 47, y: 0, width: 10, height: 1 },
        board: board_rect(size),
    }
}

impl UiLayout {
    /// Computes the layout of the whole screen for a board size.
    pub fn for_size(size: BoardSize) -> (r: UiLayout)
        requires
            size.cols * 2 <= usize::MAX,
        ensures
            r == layout_of(size),
    {
        proof {
            reveal_strlit(" Beginner ");
            reveal_strlit(" Intermediate ");
            reveal_strlit(" Expert ");
            reveal_strlit(" New Game ");
        }
        let board = Rect::new(0, 1, (size.cols * 2) as u16, size.rows as u16);
        let mut x: u16 = 0;
        let w0 = label(Difficulty::Beginner).unicode_len() as u16;
        let b0 = (Difficulty::Beginner, Rect::new(x, 0, w0, 1));
        x = x + w0;
        let w1 = label(Difficulty::Intermediate).unicode_len() as u16;
        let b1 = (Difficulty::Intermediate, Rect::new(x, 0, w1, 1));
        x = x + w1;
        let w2 = label(Difficulty::Expert).unicode_len() as u16;
        let b2 = (Difficulty::Expert, Rect::new(x, 0, w2, 1));
        x = x + w2;
        let flag_counter = Rect::new(x, 0, 9, 1);
        x = x + flag_counter.width;
        let timer = Rect::new(x, 0, 6, 1);
        x = x + timer.width;
        let new_game_button = Rect::new(x, 0, NEW_GAME.unicode_len() as u16, 1);
        let r = UiLayout { difficulty_buttons: [b0, b1, b2], flag_counter, timer, new_game_button, board };
        assert(r.difficulty_buttons =~= layout_of(size).difficulty_buttons);
        r
    }
}

/// Whether a board fits in a terminal area.
pub open spec fn fits(size: BoardSize, area: Rect) -> bool {
    area.width >= (size.cols * 2) as u16 && area.height > size.rows as u16
}

/// Whether a board of the given size fits in the terminal area.
pub fn fits_in(size: BoardSize, area: Rect) -> (r: bool)
    requires
        size.cols * 2 <= usize::MAX,
    ensures
        r == fits(size, area),
{
    area.width >= (size.cols * 2) as u16 && area.height > size.rows as u16
}

/// What a click landed on: a top-bar control or a board Cell.
#[derive(Debug, Clone, Copy, PartialEq, Eq, Structural)]
pub enum Hit {
    NewGame,
    Difficulty(Difficulty),
    Cell(Position),
}

/// What lies under a position: the New Game button, a difficulty button,
/// the board Cell under it (two terminal columns per Cell), or nothing.
pub open spec fn hit_of(layout: UiLayout, p: TermPos) -> Option<Hit> {
    if rect_contains(layout.new_game_button, p) {
        Some(Hit::NewGame)
    } else if rect_contains(layout.difficulty_buttons[0].1, p) {
        Some(Hit::Difficulty(layout.difficulty_buttons[0].0))
    } else if rect_contains(layout.difficulty_buttons[1].1, p) {
        Some(Hit::Difficulty(layout.difficulty_buttons[1].0))
    } else if rect_contains(layout.difficulty_buttons[2].1, p) {
        Some(Hit::Difficulty(layout.difficulty_buttons[2].0))
    } else if p.x < layout.board.x || p.y < layout.board.y {
        None
    } else {
        let col = (p.x - layout.board.x) / 2;
        let row = p.y - layout.board.y;
        if col >= layout.board.width / 2 || row >= layout.board.height {
            None
        } else {
            Some(Hit::Cell(Position { row: row as usize, col: col as usize }))
        }
    }
}

/// Maps a terminal position to the element under it.
pub fn hit_test(layout: UiLayout, pos: TermPos) -> (r: Option<Hit>)
    ensures
        r == hit_of(layout, pos),
{
    if layout.new_game_button.contains(pos) {
        return Some(Hit::NewGame);
    }
    let mut i: usize = 0;
    while i < 3
        invariant
            i <= 3,
            !rect_contains(layout.new_game_button, pos),
            forall|j: int| 0 <= j < i ==> !rect_contains(#[trigger] layout.difficulty_buttons[j].1, pos),
        decreases 3 - i,
    {
        let (difficulty, rect) = layout.difficulty_buttons[i];
        if rect.contains(pos) {
            return Some(Hit::Difficulty(difficulty));
        }
        i += 1;
    }
    if pos.x < layout.board.x || pos.y < layout.board.y {
        return None;
    }
    let col = ((pos.x - layout.board.x) / 2) as usize;
    let row = (pos.y - layout.board.y) as usize;
    if col >= (layout.board.width / 2) as usize || row >= layout.board.height as usize {
        return None;
    }
    Some(Hit::Cell(Position::new(row, col)))
}

/// A mouse event: which button did what, and where.
#[derive(Debug, Clone, Copy, PartialEq, Eq, Structural)]
pub enum MouseKind {
    LeftDown,
    RightDown,
    RightUp,
    Other,
}

/// A mouse event at a terminal position.
#[derive(Debug, Clone, Copy, PartialEq, Eq, Structural)]
pub struct MouseInput {
    pub kind: MouseKind,
    pub column: u16,
    pub row: u16,
}

/// The application state: the game, the mode every new game is created
/// with, whether the right button is held, and the screen layout.
pub struct App {
    pub game: Game,
    pub mode: GameMode,
    pub right_pressed: bool,
    pub layout: UiLayout,
}

/// A fresh random game of a Difficulty in a mode, whatever its Seed.
pub open spec fn fresh_random(g: ClassicModel, d: Difficulty, mode: GameMode) -> bool {
    g == fresh_classic(
        GameConfig { difficulty: d, seed_policy: SeedPolicy::Random, features: mode_features(mode), seed: g.config.seed },
    )
}

impl App {
    /// A fresh random Beginner game in the mode, with an empty layout until
    /// the first `update_layout`.
    pub fn new(mode: GameMode) -> (r: Self)
        ensures
            fresh_random(r.game@, Difficulty::Beginner, mode),
            r.game@.wf(),
            r.mode == mode,
            !r.right_pressed,
    {
        App {
            game: Game::new(Difficulty::Beginner, mode),
            mode,
            right_pressed: false,
            layout: UiLayout {
                difficulty_buttons: [
                    (Difficulty::Beginner, Rect::zero()),
                    (Difficulty::Beginner, Rect::zero()),
                    (Difficulty::Beginner, Rect::zero()),
                ],
                flag_counter: Rect::zero(),
                timer: Rect::zero(),
                new_game_button: Rect::zero(),
                board: Rect::zero(),
            },
        }
    }

    /// Lays the screen out for the current game's board.
    pub fn update_layout(&mut self)
        requires
            old(self).game@.board.size.cols * 2 <= usize::MAX,
        ensures
            final(self).layout == layout_of(old(self).game@.board.size),
            final(self).game == old(self).game,
            final(self).mode == old(self).mode,
            final(self).right_pressed == old(self).right_pressed,
    {
        self.layout = UiLayout::for_size(self.game.size());
    }

    /// Starts a fresh random game at the current Difficulty.
    fn reset(&mut self)
        ensures
            fresh_random(final(self).game@, old(self).game@.config.difficulty, old(self).mode),
            final(self).game@.wf(),
            final(self).mode == old(self).mode,
            !final(self).right_pressed,
            final(self).layout == old(self).layout,
    {
        self.game = Game::new(self.game.difficulty(), self.mode);
        self.right_pressed = false;
    }
}

/// Maps a mouse event to a game action. Nothing happens while the board
/// does not fit the terminal. A left click on New Game or a difficulty
/// starts a fresh game; on a Cell it Chords while the right button is held
/// in a game in play, and Reveals otherwise. A right press Flags the Cell
/// under it and holds the right button; a right release lets it go.
pub fn handle_mouse(app: &mut App, mouse: MouseInput, area: Rect)
    requires
        old(app).game@.wf(),
        old(app).game@.board.size.cols * 2 <= usize::MAX,
    ensures
        final(app).game@.wf(),
        final(app).mode == old(app).mode,
        final(app).layout == old(app).layout,
        ({
            let o = *old(app);
            let n = *final(app);
            let hit = hit_of(o.layout, TermPos { x: mouse.column, y: mouse.row });
            if !fits(o.game@.board.size, area) {
                n.game@ == o.game@ && n.right_pressed == o.right_pressed
            } else {
                match mouse.kind {
                    MouseKind::LeftDown => match hit {
                        Some(Hit::NewGame) => fresh_random(n.game@, o.game@.config.difficulty, o.mode)
                            && !n.right_pressed,
                        Some(Hit::Difficulty(d)) => fresh_random(n.game@, d, o.mode) && !n.right_pressed,
                        Some(Hit::Cell(p)) => n.right_pressed == o.right_pressed && if o.right_pressed
                            && o.game@.board.state == GameState::Playing {
                            n.game@.config == o.game@.config && chorded(o.game@.board, n.game@.board, p)
                        } else {
                            classic_revealed(o.game@, n.game@, p)
                        },
                        None => n.game@ == o.game@ && n.right_pressed == o.right_pressed,
                    },
                    MouseKind::RightDown => n.right_pressed && match hit {
                        Some(Hit::Cell(p)) => n.game@ == (ClassicModel {
                            board: flag_toggled(o.game@.board, p),
                            ..o.game@
                        }),
                        _ => n.game@ == o.game@,
                    },
                    MouseKind::RightUp => !n.right_pressed && n.game@ == o.game@,
                    MouseKind::Other => n.game@ == o.game@ && n.right_pressed == o.right_pressed,
                }
            }
        }),
{
    if !fits_in(app.game.size(), area) {
        return;
    }
    let pos = TermPos { x: mouse.column, y: mouse.row };
    match mouse.kind {
        MouseKind::LeftDown => match hit_test(app.layout, pos) {
            Some(Hit::NewGame) => app.reset(),
            Some(Hit::Difficulty(d)) => {
                app.game = Game::new(d, app.mode);
                app.right_pressed = false;
            },
            Some(Hit::Cell(p)) => {
                if app.right_pressed && app.game.game_state() == GameState::Playing {
                    app.game.chord(p);
                } else {
                    app.game.reveal_cell(p);
                }
            },
            None => {},
        },
        MouseKind::RightDown => {
            app.right_pressed = true;
            match hit_test(app.layout, pos) {
                Some(Hit::Cell(p)) => app.game.toggle_flag(p),
                _ => {},
            }
        },
        MouseKind::RightUp => {
            app.right_pressed = false;
        },
        MouseKind::Other => {},
    }
}

/// A key press: the key, and whether Control is held.
#[derive(Debug, Clone, Copy, PartialEq, Eq, Structural)]
pub struct KeyPress {
    /// The character of the key, if it has one.
    pub ch: Option<char>,
    pub control: bool,
}

/// Whether a key asks the app to quit: `q`, or Control-`c`.
pub fn should_quit(key: KeyPress) -> (r: bool)
    ensures
        r == (key.ch == Some('q') || (key.ch == Some('c') && key.control)),
{
    match key.ch {
        Some(c) => c == 'q' || (c == 'c' && key.control),
        None => false,
    }
}

/// A terminal color.
#[derive(Debug, Clone, Copy, PartialEq, Eq, Structural)]
pub enum TermColor {
    Black,
    Red,
    Green,
    Yellow,
    Blue,
    Cyan,
    White,
    DarkGray,
    Rgb(u8, u8, u8),
}

/// How a board Cell is painted: its background and whether it is bold.
#[derive(Debug, Clone, Copy, PartialEq, Eq, Structural)]
pub struct CellPaint {
    pub bg: TermColor,
    pub bold: bool,
}

/// The symbol and paint of a Cell: Hidden blank on dark gray, a Flag on dark
/// gray, a Mine on red (bold when it is the Trigger, dark red otherwise),
/// other Revealed Cells blank on white.
pub open spec fn cell_look(state: CellState, content: Option<CellContent>, is_trigger: bool) -> (Seq<char>, CellPaint) {
    match state {
        CellState::Hidden => ("  "@, CellPaint { bg: TermColor::DarkGray, bold: false }),
        CellState::Flagged => ("🚩"@, CellPaint { bg: TermColor::DarkGray, bold: false }),
        CellState::Revealed => match content {
            Some(CellContent::Mine) => if is_trigger {
                ("💣"@, CellPaint { bg: TermColor::Red, bold: true })
            } else {
                ("💣"@, CellPaint { bg: TermColor::Rgb(139, 0, 0), bold: false })
            },
            _ => ("  "@, CellPaint { bg: TermColor::White, bold: false }),
        },
    }
}

/// The symbol and paint of a Cell.
pub fn cell_style(state: CellState, content: Option<CellContent>, is_trigger: bool) -> (r: (&'static str, CellPaint))
    ensures
        (r.0@, r.1) == cell_look(state, content, is_trigger),
{
    match state {
        CellState::Hidden => ("  ", CellPaint { bg: TermColor::DarkGray, bold: false }),
        CellState::Flagged => ("🚩", CellPaint { bg: TermColor::DarkGray, bold: false }),
        CellState::Revealed => match content {
            Some(CellContent::Mine) => if is_trigger {
                ("💣", CellPaint { bg: TermColor::Red, bold: true })
            } else {
                ("💣", CellPaint { bg: TermColor::Rgb(139, 0, 0), bold: false })
            },
            _ => ("  ", CellPaint { bg: TermColor::White, bold: false }),
        },
    }
}

/// The color of a Cell's count.
pub open spec fn count_color(n: u8) -> TermColor {
    if n == 1 {
        TermColor::Blue
    } else if n == 2 {
        TermColor::Green
    } else if n == 3 {
        TermColor::Red
    } else if n == 4 {
        TermColor::Rgb(0, 0, 160)
    } else if n == 5 {
        TermColor::Rgb(160, 0, 0)
    } else if n == 6 {
        TermColor::Cyan
    } else if n == 7 {
        TermColor::Black
    } else if n == 8 {
        TermColor::DarkGray
    } else {
        TermColor::White
    }
}

/// The color of a Cell's count.
pub fn number_color(n: u8) -> (r: TermColor)
    ensures
        r == count_color(n),
{
    match n {
        1 => TermColor::Blue,
        2 => TermColor::Green,
        3 => TermColor::Red,
        4 => TermColor::Rgb(0, 0, 160),
        5 => TermColor::Rgb(160, 0, 0),
        6 => TermColor::Cyan,
        7 => TermColor::Black,
        8 => TermColor::DarkGray,
        _ => TermColor::White,
    }
}

/// The texts of the top bar: the Flag counter, the timer, and the banner
/// of an ended game with its color.
pub struct TopBar {
    pub flags_text: String,
    pub timer_text: String,
    pub banner: Option<(&'static str, TermColor)>,
}

/// `n` right-aligned with spaces to width `w`, with its sign.
pub open spec fn padded_signed(n: int, w: nat) -> Seq<char> {
    let digits = if n < 0 {
        "-"@ + decimal((-n) as nat)
    } else {
        decimal(n as nat)
    };
    Seq::new(if w > digits.len() { (w - digits.len()) as nat } else { 0 }, |i: int| ' ') + digits
}

/// A whole-second count as `MM:SS`: the minutes, two digits or more, a
/// colon, and the seconds within the minute, two digits.
pub open spec fn clock_text_of(secs: u64) -> Seq<char> {
    zero_padded((secs / 60) as int, 2) + ":"@ + zero_padded((secs % 60) as int, 2)
}

/// Formats a whole-second count as `MM:SS`.
pub fn clock_text(secs: u64) -> (r: String)
    ensures
        r@ == clock_text_of(secs),
{
    let mut text = String::new();
    push_zero_padded(&mut text, (secs / 60) as i64, 2);
    text.append(":");
    push_zero_padded(&mut text, (secs % 60) as i64, 2);
    text
}

/// The top bar of a game: `Flags:` and the Flags Remaining counter
/// right-aligned to three, the elapsed time as `MM:SS` (minutes unbounded),
/// and `WON` in green or `LOST` in red once the game has ended.
pub fn top_bar(game: &Game) -> (r: TopBar)
    requires
        game@.wf(),
    ensures
        r.flags_text@ == "Flags:"@ + padded_signed(game@.board.flags_remaining(), 3),
        game@.timer is Idle ==> r.timer_text@ == clock_text_of(0) && r.timer_text@ == "00:00"@,
        game@.timer matches TimerPhase::Frozen(d, _) ==> r.timer_text@ == clock_text_of(duration_secs(d)),
        game@.timer is Running ==> exists|s: u64| r.timer_text@ == #[trigger] clock_text_of(s),
        r.banner == match game@.board.state {
            GameState::Won => Some(("WON", TermColor::Green)),
            GameState::Lost => Some(("LOST", TermColor::Red)),
            _ => None::<(&'static str, TermColor)>,
        },
{
    let flags = game.flags_remaining();
    let mut flags_text = String::from_str("Flags:");
    let ghost start = flags_text@;
    let width: usize = if flags < 0 {
        1 + crate::board_text::digit_width((-(flags as i64)) as usize)
    } else {
        crate::board_text::digit_width(flags as usize)
    };
    proof {
        reveal_strlit("-");
        let n = game@.board.flags_remaining();
        if n == 0 {
            assert(decimal(0) =~= seq!['0']);
            assert(decimal(1) =~= seq!['1']);
        }
        assert(width == (if n < 0 {
            "-"@ + decimal((-n) as nat)
        } else {
            decimal(n as nat)
        }).len());
    }
    let mut k: usize = width;
    while k < 3
        invariant
            width <= k <= 3 || (k == width && width >= 3),
            flags_text@ == start + Seq::new((k - width) as nat, |i: int| ' '),
        decreases 3 - k,
    {
        crate::text::push_char(&mut flags_text, ' ');
        assert(flags_text@ =~= start + Seq::new((k + 1 - width) as nat, |i: int| ' '));
        k += 1;
    }
    assert(k == if width < 3 { 3 } else { width });
    if flags < 0 {
        flags_text.append("-");
        push_decimal(&mut flags_text, (-(flags as i64)) as u64);
    } else {
        push_decimal(&mut flags_text, flags as u64);
    }
    assert(flags_text@ =~= "Flags:"@ + padded_signed(game@.board.flags_remaining(), 3));
    let elapsed = game.elapsed();
    let secs = whole_seconds(&elapsed);
    let timer_text = clock_text(secs);
    proof {
        reveal_strlit("00:00");
        reveal_strlit(":");
        assert(decimal(0) == seq!['0']);
    }
    let banner = match game.game_state() {
        GameState::Won => Some(("WON", TermColor::Green)),
        GameState::Lost => Some(("LOST", TermColor::Red)),
        _ => None,
    };
    TopBar { flags_text, timer_text, banner }
}

} // verus!
