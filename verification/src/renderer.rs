//! Drawing: the calls that the game makes to put a frame on a screen, and a
//! renderer that keeps the screen of a character terminal in memory.
//!
//! A cell of the game's grid is drawn as a block of screen cells, twice as
//! wide as it is high, and the grid is centred on the screen.

use vstd::prelude::*;
use vstd::arithmetic::div_mod::{
    lemma_fundamental_div_mod,
    lemma_fundamental_div_mod_converse,
    lemma_mod_bound,
};

verus! {

/// The glyph of a screen cell that nothing was drawn on.
pub const BACKGROUND: char = ' ';

/// The glyph of the grid cells whose coordinates add up to an even number.
pub const DARK_SQUARE: char = '\u{2591}';

/// The glyph of the grid cells whose coordinates add up to an odd number.
pub const LIGHT_SQUARE: char = '\u{2592}';

/// One call made on a renderer.
pub enum DrawCommand {
    Clear,
    PutChar { x: int, y: int, glyph: char },
    DrawText { text: Seq<char>, x: int, y: int },
    Present,
}

/// What the game needs from a screen.
///
/// The game draws a frame as a series of calls. `drawn` is the record of
/// them, by which the game's own contracts say what was drawn and in which
/// order. `valid` is whatever the renderer needs to hold of itself between
/// calls.
pub trait Renderer {
    /// The renderer's own invariant.
    spec fn valid(&self) -> bool;

    /// Every call made on this renderer so far, oldest first.
    spec fn drawn(&self) -> Seq<DrawCommand>;

    /// Starts a new frame on the background.
    fn clear(&mut self)
        requires
            old(self).valid(),
        ensures
            final(self).valid(),
            final(self).drawn() == old(self).drawn().push(DrawCommand::Clear),
    ;

    /// Shows the frame as it now stands.
    fn present(&mut self)
        requires
            old(self).valid(),
        ensures
            final(self).valid(),
            final(self).drawn() == old(self).drawn().push(DrawCommand::Present),
    ;

    /// Draws `glyph` on the grid cell `(x, y)`.
    fn put_char(&mut self, x: i32, y: i32, glyph: char)
        requires
            old(self).valid(),
        ensures
            final(self).valid(),
            final(self).drawn() == old(self).drawn().push(
                DrawCommand::PutChar { x: x as int, y: y as int, glyph },
            ),
    ;

    /// Writes `text` to the right from the screen cell `(x, y)`.
    fn draw_text(&mut self, text: &str, x: i32, y: i32)
        requires
            old(self).valid(),
        ensures
            final(self).valid(),
            final(self).drawn() == old(self).drawn().push(
                DrawCommand::DrawText { text: text@, x: x as int, y: y as int },
            ),
    ;
}

/// One cell of the screen, as it is handed over to be shown: its column, its
/// row and its glyph.
pub type ScreenCell = (u16, u16, char);

/// Half of `amount`, rounded towards zero.
pub open spec fn half(amount: int) -> int {
    if amount >= 0 {
        amount / 2
    } else {
        -((-amount) / 2)
    }
}

/// The smaller of two numbers.
pub open spec fn smaller(a: int, b: int) -> int {
    if a <= b {
        a
    } else {
        b
    }
}

/// The glyph of the grid cell `(x, y)` on the empty board.
pub open spec fn square_glyph(x: int, y: int) -> char {
    if (x + y) % 2 == 0 {
        DARK_SQUARE
    } else {
        LIGHT_SQUARE
    }
}

/// `cells` with `glyph` on every cell of the rectangle that starts at column
/// `left` and row `top` and is `across` cells wide and `down` cells high.
/// The part of the rectangle that lies off the screen is dropped.
pub open spec fn filled(
    cells: Seq<Seq<char>>,
    left: int,
    top: int,
    across: int,
    down: int,
    glyph: char,
) -> Seq<Seq<char>> {
    Seq::new(
        cells.len(),
        |row: int|
            Seq::new(
                cells[row].len(),
                |col: int|
                    if left <= col < left + across && top <= row < top + down {
                        glyph
                    } else {
                        cells[row][col]
                    },
            ),
    )
}

/// `height` rows of `width` cells with nothing on them.
pub open spec fn blank_cells(width: int, height: int) -> Seq<Seq<char>> {
    Seq::new(height as nat, |row: int| Seq::new(width as nat, |col: int| BACKGROUND))
}

/// The glyphs of `cells`, each with its column and row.
pub open spec fn placed(cells: Seq<Seq<char>>) -> Seq<Seq<ScreenCell>> {
    Seq::new(
        cells.len(),
        |row: int|
            Seq::new(
                cells[row].len(),
                |col: int| (col as u16, row as u16, cells[row][col]),
            ),
    )
}

/// The screen of a terminal renderer.
pub struct ScreenView {
    /// The side of the game's grid, in grid cells.
    pub grid_size: int,
    /// The number of columns of the screen.
    pub width: int,
    /// The number of rows of the screen.
    pub height: int,
    /// The glyphs on the screen, row by row from the top.
    pub cells: Seq<Seq<char>>,
    /// The frame that was last handed over to be shown.
    pub shown: Seq<ScreenCell>,
}

impl ScreenView {
    /// The grid has a side, the screen is as large as a terminal can be, and
    /// `cells` is `height` rows of `width` glyphs.
    pub open spec fn well_formed(self) -> bool {
        &&& self.grid_size > 0
        &&& 0 <= self.width <= u16::MAX
        &&& 0 <= self.height <= u16::MAX
        &&& self.cells.len() == self.height
        &&& forall|row: int|
            0 <= row < self.height ==> (#[trigger] self.cells[row]).len() == self.width
    }

    /// The number of screen rows that a grid cell takes: as many as fit
    /// when the whole grid has to fit into the shorter side of the screen.
    pub open spec fn scale_y(self) -> int {
        smaller(self.width, self.height) / self.grid_size
    }

    /// The number of screen columns that a grid cell takes: twice the rows,
    /// since a character cell is about twice as high as it is wide.
    pub open spec fn scale_x(self) -> int {
        2 * self.scale_y()
    }

    /// The screen column where the grid starts. The columns that the grid
    /// leaves over are shared out evenly between its two sides.
    pub open spec fn left(self) -> int {
        half(self.width - self.grid_size * self.scale_x())
    }

    /// The screen row where the grid starts.
    pub open spec fn top(self) -> int {
        half(self.height - self.grid_size * self.scale_y())
    }

    /// Whether the screen cell at `col`, `row` belongs to the grid.
    pub open spec fn in_grid(self, col: int, row: int) -> bool {
        &&& self.left() <= col < self.left() + self.grid_size * self.scale_x()
        &&& self.top() <= row < self.top() + self.grid_size * self.scale_y()
    }

    /// The grid cell that the screen cell at `col`, `row` is part of.
    pub open spec fn grid_cell(self, col: int, row: int) -> (int, int)
        recommends
            self.in_grid(col, row),
    {
        ((col - self.left()) / self.scale_x(), (row - self.top()) / self.scale_y())
    }

    /// The screen after `glyph` was drawn on the grid cell `(x, y)`: the
    /// block of that cell is filled with it, as far as it is on the screen.
    pub open spec fn with_char(self, x: int, y: int, glyph: char) -> ScreenView {
        ScreenView {
            cells: filled(
                self.cells,
                self.left() + x * self.scale_x(),
                self.top() + y * self.scale_y(),
                self.scale_x(),
                self.scale_y(),
                glyph,
            ),
            ..self
        }
    }

    /// The screen after the empty board was drawn: every screen cell of the
    /// grid shows the glyph of its grid cell, the rest is as it was.
    pub open spec fn with_board(self) -> ScreenView {
        ScreenView {
            cells: Seq::new(
                self.cells.len(),
                |row: int|
                    Seq::new(
                        self.cells[row].len(),
                        |col: int|
                            if self.in_grid(col, row) {
                                square_glyph(
                                    self.grid_cell(col, row).0,
                                    self.grid_cell(col, row).1,
                                )
                            } else {
                                self.cells[row][col]
                            },
                    ),
            ),
            ..self
        }
    }

    /// The screen after `text` was written from the screen cell `(x, y)` to
    /// the right, one glyph per column. What falls off the screen is
    /// dropped.
    pub open spec fn with_text(self, text: Seq<char>, x: int, y: int) -> ScreenView {
        ScreenView {
            cells: Seq::new(
                self.cells.len(),
                |row: int|
                    Seq::new(
                        self.cells[row].len(),
                        |col: int|
                            if row == y && x <= col < x + text.len() {
                                text[col - x]
                            } else {
                                self.cells[row][col]
                            },
                    ),
            ),
            ..self
        }
    }

    /// Every cell of the screen with its place, row by row from the top and
    /// from left to right in each row.
    pub open spec fn frame(self) -> Seq<ScreenCell> {
        placed(self.cells).flatten()
    }

    /// The screen after its frame was handed over to be shown.
    pub open spec fn presented(self) -> ScreenView {
        ScreenView { shown: self.frame(), ..self }
    }

    /// The screen after one call.
    pub open spec fn after(self, command: DrawCommand) -> ScreenView {
        match command {
            DrawCommand::Clear => self.with_board(),
            DrawCommand::PutChar { x, y, glyph } => self.with_char(x, y, glyph),
            DrawCommand::DrawText { text, x, y } => self.with_text(text, x, y),
            DrawCommand::Present => self.presented(),
        }
    }

    /// The screen after a series of calls, made in order.
    pub open spec fn after_all(self, commands: Seq<DrawCommand>) -> ScreenView
        decreases commands.len(),
    {
        if commands.len() == 0 {
            self
        } else {
            self.after_all(commands.drop_last()).after(commands.last())
        }
    }

    /// A screen of `width` columns and `height` rows with nothing on it.
    pub open spec fn blank(grid_size: int, width: int, height: int) -> ScreenView {
        ScreenView {
            grid_size,
            width,
            height,
            cells: blank_cells(width, height),
            shown: Seq::empty(),
        }
    }
}

/// The rows of a screen buffer as sequences of glyphs.
pub open spec fn rows_of(screen: Seq<Vec<char>>) -> Seq<Seq<char>> {
    Seq::new(screen.len(), |row: int| screen[row]@)
}

/// Whether `screen` holds `height` rows of `width` glyphs each.
spec fn shaped(screen: Seq<Vec<char>>, width: int, height: int) -> bool {
    &&& screen.len() == height
    &&& forall|row: int| 0 <= row < height ==> (#[trigger] screen[row])@.len() == width
}

struct Point {
    x: i32,
    y: i32,
}

/// A renderer that keeps the screen of a character terminal in memory.
///
/// Drawing changes the buffer only. `present` lays the buffer out as a list
/// of cells with their places, which `shown` hands to whoever writes to the
/// terminal.
pub struct TerminalRenderer {
    screen: Vec<Vec<char>>,
    width: i32,
    grid_start: Point,
    height: i32,
    scale_x: i32,
    scale_y: i32,
    grid_size: i32,
    shown: Vec<ScreenCell>,
    log: Ghost<Seq<DrawCommand>>,
}

impl View for TerminalRenderer {
    type V = ScreenView;

    closed spec fn view(&self) -> ScreenView {
        ScreenView {
            grid_size: self.grid_size as int,
            width: self.width as int,
            height: self.height as int,
            cells: rows_of(self.screen@),
            shown: self.shown@,
        }
    }
}

/// A buffer of `height` rows of `width` background glyphs.
fn blank_screen(width: u16, height: u16) -> (screen: Vec<Vec<char>>)
    ensures
        shaped(screen@, width as int, height as int),
        rows_of(screen@) == blank_cells(width as int, height as int),
{
    let mut screen: Vec<Vec<char>> = Vec::new();
    let mut y: u16 = 0;
    while y < height
        invariant
            y <= height,
            screen@.len() == y,
            forall|row: int| 0 <= row < y ==> (#[trigger] screen@[row])@.len() == width,
            forall|row: int, col: int|
                0 <= row < y && 0 <= col < width ==> #[trigger] screen@[row]@[col] == BACKGROUND,
        decreases height - y,
    {
        let mut line: Vec<char> = Vec::new();
        let mut x: u16 = 0;
        while x < width
            invariant
                x <= width,
                line@.len() == x,
                forall|col: int| 0 <= col < x ==> #[trigger] line@[col] == BACKGROUND,
            decreases width - x,
        {
            line.push(BACKGROUND);
            x += 1;
        }
        screen.push(line);
        y += 1;
    }
    assert(rows_of(screen@) =~~= blank_cells(width as int, height as int));
    screen
}

/// Puts `glyph` on every cell of a rectangle of the buffer, as far as the
/// rectangle lies on the screen.
fn fill_block(
    screen: &mut Vec<Vec<char>>,
    width: i32,
    height: i32,
    left: i64,
    top: i64,
    across: i32,
    down: i32,
    glyph: char,
)
    requires
        shaped(old(screen)@, width as int, height as int),
        -0x4000_0000_0000_0000 <= left <= 0x4000_0000_0000_0000,
        -0x4000_0000_0000_0000 <= top <= 0x4000_0000_0000_0000,
    ensures
        shaped(final(screen)@, width as int, height as int),
        rows_of(final(screen)@) == filled(
            rows_of(old(screen)@),
            left as int,
            top as int,
            across as int,
            down as int,
            glyph,
        ),
{
    if across <= 0 || down <= 0 {
        assert(rows_of(screen@) =~~= filled(
            rows_of(old(screen)@),
            left as int,
            top as int,
            across as int,
            down as int,
            glyph,
        ));
        return ;
    }
    let mut y: i32 = 0;
    while y < down
        invariant
            0 <= y <= down,
            0 < across,
            shaped(old(screen)@, width as int, height as int),
            shaped(screen@, width as int, height as int),
            -0x4000_0000_0000_0000 <= left <= 0x4000_0000_0000_0000,
            -0x4000_0000_0000_0000 <= top <= 0x4000_0000_0000_0000,
            forall|row: int, col: int|
                0 <= row < height && 0 <= col < width ==> #[trigger] screen@[row]@[col] == if left
                    <= col < left + across && top <= row < top + y {
                    glyph
                } else {
                    old(screen)@[row]@[col]
                },
        decreases down - y,
    {
        let sy: i64 = top + y as i64;
        let mut x: i32 = 0;
        while x < across
            invariant
                0 <= x <= across,
                0 <= y < down,
                sy == top + y,
                shaped(old(screen)@, width as int, height as int),
                shaped(screen@, width as int, height as int),
                -0x4000_0000_0000_0000 <= left <= 0x4000_0000_0000_0000,
                forall|row: int, col: int|
                    0 <= row < height && 0 <= col < width ==> #[trigger] screen@[row]@[col] == if (
                    left <= col < left + across && top <= row < top + y) || (left <= col < left + x
                        && row == top + y) {
                        glyph
                    } else {
                        old(screen)@[row]@[col]
                    },
            decreases across - x,
        {
            let sx: i64 = left + x as i64;
            if 0 <= sy && sy < height as i64 && 0 <= sx && sx < width as i64 {
                let ghost before = screen@;
                screen[sy as usize][sx as usize] = glyph;
                assert(screen@.len() == before.len());
                assert(screen@[sy as int]@ == before[sy as int]@.update(sx as int, glyph));
                assert(forall|row: int|
                    0 <= row < height && row != sy ==> screen@[row] == before[row]);
            }
            x += 1;
        }
        y += 1;
    }
    assert(rows_of(screen@) =~~= filled(
        rows_of(old(screen)@),
        left as int,
        top as int,
        across as int,
        down as int,
        glyph,
    ));
}

/// Whether the grid cell `cell` is drawn before the grid cell `(x, y)` when
/// the board is drawn row by row.
spec fn drawn_before(cell: (int, int), x: int, y: int) -> bool {
    cell.1 < y || (cell.1 == y && cell.0 < x)
}

/// The cells of `view` once the board is drawn up to the grid cell `(x, y)`.
spec fn board_until(view: ScreenView, x: int, y: int) -> Seq<Seq<char>> {
    Seq::new(
        view.cells.len(),
        |row: int|
            Seq::new(
                view.cells[row].len(),
                |col: int|
                    if view.in_grid(col, row) && drawn_before(view.grid_cell(col, row), x, y) {
                        square_glyph(view.grid_cell(col, row).0, view.grid_cell(col, row).1)
                    } else {
                        view.cells[row][col]
                    },
            ),
    )
}

/// Where `offset` lies in a run of `count` blocks of `size` cells each: in
/// block `index` exactly if it is on the run and the division says so.
proof fn lemma_block_index(offset: int, size: int, count: int, index: int)
    requires
        size > 0,
        0 <= index < count,
    ensures
        (index * size <= offset < index * size + size) <==> (0 <= offset < count * size && offset
            / size == index),
        0 <= offset < count * size ==> 0 <= offset / size < count,
{
    lemma_fundamental_div_mod(offset, size);
    lemma_mod_bound(offset, size);
    let q = offset / size;
    let r = offset % size;
    assert(index * size + size <= count * size) by (nonlinear_arith)
        requires
            index < count,
            size > 0,
    ;
    assert(0 <= index * size) by (nonlinear_arith)
        requires
            0 <= index,
            size > 0,
    ;
    if index * size <= offset < index * size + size {
        lemma_fundamental_div_mod_converse(offset, size, index, offset - index * size);
    }
    if 0 <= offset < count * size {
        assert(0 <= q < count) by (nonlinear_arith)
            requires
                offset == size * q + r,
                0 <= r < size,
                0 <= offset < count * size,
                size > 0,
        ;
    }
    if q == index {
        assert(size * q == index * size) by (nonlinear_arith)
            requires
                q == index,
        ;
    }
}

/// The block that drawing on a grid cell fills is the set of screen cells
/// that belong to that grid cell.
proof fn lemma_block_is_cell(view: ScreenView, x: int, y: int, col: int, row: int)
    requires
        view.grid_size > 0,
        view.scale_y() > 0,
        0 <= x < view.grid_size,
        0 <= y < view.grid_size,
    ensures
        (view.left() + x * view.scale_x() <= col < view.left() + x * view.scale_x()
            + view.scale_x() && view.top() + y * view.scale_y() <= row < view.top() + y
            * view.scale_y() + view.scale_y()) <==> (view.in_grid(col, row) && view.grid_cell(
            col,
            row,
        ) == (x, y)),
        view.in_grid(col, row) ==> 0 <= view.grid_cell(col, row).0 < view.grid_size && 0
            <= view.grid_cell(col, row).1 < view.grid_size,
{
    lemma_block_index(col - view.left(), view.scale_x(), view.grid_size, x);
    lemma_block_index(row - view.top(), view.scale_y(), view.grid_size, y);
}

/// Drawing one more grid cell takes the board one cell further.
proof fn lemma_board_step(view: ScreenView, x: int, y: int)
    requires
        view.grid_size > 0,
        0 <= x < view.grid_size,
        0 <= y < view.grid_size,
    ensures
        filled(
            board_until(view, x, y),
            view.left() + x * view.scale_x(),
            view.top() + y * view.scale_y(),
            view.scale_x(),
            view.scale_y(),
            square_glyph(x, y),
        ) == board_until(view, x + 1, y),
{
    let before = board_until(view, x, y);
    let after = filled(
        before,
        view.left() + x * view.scale_x(),
        view.top() + y * view.scale_y(),
        view.scale_x(),
        view.scale_y(),
        square_glyph(x, y),
    );
    let goal = board_until(view, x + 1, y);
    assert(after.len() == goal.len());
    assert forall|row: int| 0 <= row < after.len() implies #[trigger] after[row] =~= goal[row] by {
        assert forall|col: int| 0 <= col < after[row].len() implies after[row][col]
            == goal[row][col] by {
            if view.scale_y() > 0 {
                lemma_block_is_cell(view, x, y, col, row);
            } else {
                lemma_no_grid(view, col, row);
            }
        }
    }
    assert(after =~= goal);
}

/// A grid that is drawn with no rows per cell has no screen cells.
proof fn lemma_no_grid(view: ScreenView, col: int, row: int)
    requires
        view.grid_size > 0,
        view.scale_y() <= 0,
    ensures
        !view.in_grid(col, row),
{
    assert(view.grid_size * view.scale_y() <= 0) by (nonlinear_arith)
        requires
            view.grid_size > 0,
            view.scale_y() <= 0,
    ;
}

/// Before the first grid cell is drawn, the screen is as it was.
proof fn lemma_board_start(view: ScreenView)
    requires
        view.grid_size > 0,
    ensures
        board_until(view, 0, 0) == view.cells,
{
    assert forall|row: int| 0 <= row < view.cells.len() implies #[trigger] board_until(
        view,
        0,
        0,
    )[row] =~= view.cells[row] by {
        assert forall|col: int| 0 <= col < view.cells[row].len() implies board_until(
            view,
            0,
            0,
        )[row][col] == view.cells[row][col] by {
            if view.scale_y() > 0 {
                lemma_block_is_cell(view, 0, 0, col, row);
            } else {
                lemma_no_grid(view, col, row);
            }
        }
    }
    assert(board_until(view, 0, 0) =~= view.cells);
}

/// When the last grid cell of a row is drawn, the next row starts.
proof fn lemma_board_row_done(view: ScreenView, y: int)
    requires
        view.grid_size > 0,
    ensures
        board_until(view, view.grid_size, y) == board_until(view, 0, y + 1),
{
    let done = board_until(view, view.grid_size, y);
    let next = board_until(view, 0, y + 1);
    assert forall|row: int| 0 <= row < done.len() implies #[trigger] done[row] =~= next[row] by {
        assert forall|col: int| 0 <= col < done[row].len() implies done[row][col]
            == next[row][col] by {
            if view.scale_y() > 0 {
                lemma_block_is_cell(view, 0, 0, col, row);
            } else {
                lemma_no_grid(view, col, row);
            }
        }
    }
    assert(done =~= next);
}

/// When the last row is drawn, the board is drawn.
proof fn lemma_board_done(view: ScreenView)
    requires
        view.grid_size > 0,
    ensures
        board_until(view, 0, view.grid_size) == view.with_board().cells,
{
    let done = board_until(view, 0, view.grid_size);
    let goal = view.with_board().cells;
    assert forall|row: int| 0 <= row < done.len() implies #[trigger] done[row] =~= goal[row] by {
        assert forall|col: int| 0 <= col < done[row].len() implies done[row][col]
            == goal[row][col] by {
            if view.scale_y() > 0 {
                lemma_block_is_cell(view, 0, 0, col, row);
            } else {
                lemma_no_grid(view, col, row);
            }
        }
    }
    assert(done =~= goal);
}

/// A glyph is the character of its own code point.
proof fn lemma_glyph_is_its_code(glyph: char)
    ensures
        glyph as u32 as char == glyph,
{
}

/// What the first `count` rows of a screen come to when they are laid out
/// as a frame: `width` cells for each row, the cell of column `col` and row
/// `row` at the place `row * width + col`.
proof fn lemma_rows_laid_out(view: ScreenView, count: int)
    requires
        view.well_formed(),
        0 <= count <= view.height,
    ensures
        ({
            let laid = placed(view.cells).take(count).flatten();
            &&& laid.len() == count * view.width
            &&& forall|col: int, row: int|
                0 <= col < view.width && 0 <= row < count ==> 0 <= row * view.width + col
                    < laid.len() && laid[#[trigger] (row * view.width + col)] == (
                    col as u16,
                    row as u16,
                    view.cells[row][col],
                )
        }),
    decreases count,
{
    let rows = placed(view.cells);
    let laid = rows.take(count).flatten();
    if count == 0 {
        assert(rows.take(0) =~= Seq::<Seq<ScreenCell>>::empty());
        assert(laid =~= Seq::<ScreenCell>::empty());
        assert(0 * view.width == 0) by (nonlinear_arith);
    } else {
        lemma_rows_laid_out(view, count - 1);
        let before = rows.take(count - 1).flatten();
        let line = rows[count - 1];
        assert(line.len() == view.cells[count - 1].len());
        assert(rows.take(count) =~= rows.take(count - 1).push(line));
        rows.take(count - 1).lemma_flatten_push(line);
        assert(laid =~= before + line);
        assert(count * view.width == (count - 1) * view.width + view.width) by (nonlinear_arith);
        assert forall|col: int, row: int| 0 <= col < view.width && 0 <= row < count implies 0 <= row
            * view.width + col < laid.len() && laid[#[trigger] (row * view.width + col)] == (
            col as u16,
            row as u16,
            view.cells[row][col],
        ) by {
            assert(0 <= row * view.width && row * view.width + view.width <= count * view.width)
                by (nonlinear_arith)
                requires
                    0 <= row < count,
                    0 <= view.width,
            ;
            if row < count - 1 {
                assert(row * view.width + view.width <= (count - 1) * view.width)
                    by (nonlinear_arith)
                    requires
                        0 <= row < count - 1,
                        0 <= view.width,
                ;
                assert(before[row * view.width + col] == (
                    col as u16,
                    row as u16,
                    view.cells[row][col],
                ));
            } else {
                assert(line[col] == (col as u16, row as u16, view.cells[row][col]));
                assert(laid[before.len() + col] == line[col]);
            }
        }
    }
}

/// The frame of a screen holds every cell of the screen once, with its
/// column and its row: the cell of column `col` and row `row` stands at the
/// place `row * width + col`.
pub proof fn lemma_frame(view: ScreenView)
    requires
        view.well_formed(),
    ensures
        view.frame().len() == view.height * view.width,
        forall|col: int, row: int|
            0 <= col < view.width && 0 <= row < view.height ==> 0 <= row * view.width + col
                < view.frame().len() && view.frame()[#[trigger] (row * view.width + col)] == (
                col as u16,
                row as u16,
                view.cells[row][col],
            ),
{
    lemma_rows_laid_out(view, view.height);
    assert(placed(view.cells).take(view.height) =~= placed(view.cells));
}

/// One more call is one more step from the screen that the calls before it
/// gave.
proof fn lemma_after_push(view: ScreenView, commands: Seq<DrawCommand>, command: DrawCommand)
    ensures
        view.after_all(commands.push(command)) == view.after_all(commands).after(command),
{
    assert(commands.push(command).drop_last() =~= commands);
}

impl TerminalRenderer {
    /// The buffer has the size of the screen, and the numbers that place the
    /// grid on the screen are the ones that the screen's size gives.
    closed spec fn laid_out(&self) -> bool {
        &&& self@.well_formed()
        &&& shaped(self.screen@, self.width as int, self.height as int)
        &&& self.scale_y == self@.scale_y()
        &&& self.scale_x == self@.scale_x()
        &&& self.grid_start.x == self@.left()
        &&& self.grid_start.y == self@.top()
        &&& 0 <= self.scale_y <= u16::MAX
        &&& -0x2_0000 <= self.grid_start.x <= 0x2_0000
        &&& -0x2_0000 <= self.grid_start.y <= 0x2_0000
    }

    /// Fills the block of the grid cell `(x, y)` with `glyph`.
    fn paint(&mut self, x: i32, y: i32, glyph: char)
        requires
            old(self).laid_out(),
        ensures
            final(self).laid_out(),
            final(self)@ == old(self)@.with_char(x as int, y as int, glyph),
            final(self).log@ == old(self).log@,
    {
        assert(-0x2_0000_0000_0000 <= x * self.scale_x <= 0x2_0000_0000_0000
            && -0x2_0000_0000_0000 <= y * self.scale_y <= 0x2_0000_0000_0000)
            by (nonlinear_arith)
            requires
                0 <= self.scale_y <= 0xffff,
                self.scale_x == 2 * self.scale_y,
                -0x8000_0000 <= x <= 0x7fff_ffff,
                -0x8000_0000 <= y <= 0x7fff_ffff,
        ;
        let left: i64 = self.grid_start.x as i64 + x as i64 * self.scale_x as i64;
        let top: i64 = self.grid_start.y as i64 + y as i64 * self.scale_y as i64;
        fill_block(
            &mut self.screen,
            self.width,
            self.height,
            left,
            top,
            self.scale_x,
            self.scale_y,
            glyph,
        );
        assert(self@.cells.len() == self@.height);
        assert forall|row: int| 0 <= row < self@.height implies (#[trigger] self@.cells[row]).len()
            == self@.width by {
            assert(self.screen@[row]@.len() == self.width);
        }
    }

    /// A renderer for a grid of side `grid_size` on a screen of `term_w`
    /// columns and `term_h` rows, with nothing drawn yet.
    pub fn new(grid_size: i32, term_w: u16, term_h: u16) -> (renderer: Self)
        requires
            grid_size > 0,
        ensures
            renderer.valid(),
            renderer.drawn() == Seq::<DrawCommand>::empty(),
            renderer@ == ScreenView::blank(grid_size as int, term_w as int, term_h as int),
    {
        let width = term_w as i32;
        let height = term_h as i32;
        let shorter = if width <= height {
            width
        } else {
            height
        };
        let scale_y = shorter / grid_size;
        proof {
            lemma_fundamental_div_mod(shorter as int, grid_size as int);
            lemma_mod_bound(shorter as int, grid_size as int);
            assert(0 <= scale_y) by (nonlinear_arith)
                requires
                    scale_y == (shorter as int) / (grid_size as int),
                    shorter >= 0,
                    grid_size > 0,
            ;
            assert(scale_y <= shorter && grid_size * scale_y <= shorter) by (nonlinear_arith)
                requires
                    shorter == grid_size * scale_y + (shorter as int) % (grid_size as int),
                    0 <= (shorter as int) % (grid_size as int),
                    grid_size > 0,
                    scale_y >= 0,
            ;
        }
        let scale_x = 2 * scale_y;
        assert(grid_size * scale_x == 2 * (grid_size * scale_y)) by (nonlinear_arith)
            requires
                scale_x == 2 * scale_y,
        ;
        let grid_w = grid_size * scale_x;
        let grid_h = grid_size * scale_y;
        let grid_start = Point { x: (width - grid_w) / 2, y: (height - grid_h) / 2 };
        let screen = blank_screen(term_w, term_h);
        let renderer = Self {
            screen,
            width,
            height,
            grid_start,
            scale_x,
            scale_y,
            grid_size,
            shown: Vec::new(),
            log: Ghost(Seq::empty()),
        };
        assert(renderer@ =~= ScreenView::blank(grid_size as int, term_w as int, term_h as int));
        renderer
    }

    /// Draws the empty board: every grid cell gets the glyph of its colour.
    /// The screen around the grid stays as it is. This is what `clear` does,
    /// and it is recorded as a call of `clear`.
    pub fn draw_grid(&mut self)
        requires
            old(self).valid(),
        ensures
            final(self).valid(),
            final(self)@ == old(self)@.with_board(),
            final(self).drawn() == old(self).drawn().push(DrawCommand::Clear),
    {
        proof {
            lemma_board_start(self@);
        }
        let mut gy: i32 = 0;
        while gy < self.grid_size
            invariant
                0 <= gy <= self.grid_size,
                self.laid_out(),
                self.log@ == old(self).log@,
                self@ == (ScreenView { cells: board_until(old(self)@, 0, gy as int), ..old(self)@ }),
            decreases self.grid_size - gy,
        {
            let mut gx: i32 = 0;
            while gx < self.grid_size
                invariant
                    0 <= gx <= self.grid_size,
                    0 <= gy < self.grid_size,
                    self.laid_out(),
                    self.log@ == old(self).log@,
                    self@ == (ScreenView {
                        cells: board_until(old(self)@, gx as int, gy as int),
                        ..old(self)@
                    }),
                decreases self.grid_size - gx,
            {
                let glyph = if (gx as i64 + gy as i64) % 2 == 0 {
                    DARK_SQUARE
                } else {
                    LIGHT_SQUARE
                };
                proof {
                    lemma_board_step(old(self)@, gx as int, gy as int);
                }
                self.paint(gx, gy, glyph);
                gx += 1;
            }
            proof {
                lemma_board_row_done(old(self)@, gy as int);
            }
            gy += 1;
        }
        proof {
            lemma_board_done(old(self)@);
            lemma_after_push(
                ScreenView::blank(self.grid_size as int, self.width as int, self.height as int),
                self.log@,
                DrawCommand::Clear,
            );
        }
        self.log = Ghost(self.log@.push(DrawCommand::Clear));
    }

    /// The screen of a valid renderer is well formed, and it shows what the
    /// calls made on the renderer have drawn, one after the other, on a
    /// blank screen of its size.
    pub proof fn lemma_screen_is_drawn(&self)
        requires
            self.valid(),
        ensures
            self@.well_formed(),
            self@ == ScreenView::blank(self@.grid_size, self@.width, self@.height).after_all(
                self.drawn(),
            ),
    {
    }

    /// The buffer, row by row from the top.
    pub fn rows(&self) -> (rows: &Vec<Vec<char>>)
        ensures
            rows_of(rows@) == self@.cells,
    {
        &self.screen
    }

    /// The frame that `present` last laid out: every cell of the screen with
    /// its place, in the order in which it is to be written.
    pub fn shown(&self) -> (cells: &Vec<ScreenCell>)
        ensures
            cells@ == self@.shown,
    {
        &self.shown
    }

    /// Lays the buffer out as the frame to show.
    fn lay_out_frame(&mut self)
        requires
            old(self).valid(),
        ensures
            final(self).valid(),
            final(self)@ == old(self)@.presented(),
            final(self).drawn() == old(self).drawn().push(DrawCommand::Present),
    {
        let mut laid: Vec<ScreenCell> = Vec::new();
        let ghost rows = placed(self@.cells);
        let mut y: usize = 0;
        assert(rows.take(0).flatten() =~= Seq::<ScreenCell>::empty());
        while y < self.screen.len()
            invariant
                self.laid_out(),
                self@ == old(self)@,
                self.log@ == old(self).log@,
                rows == placed(self@.cells),
                rows.len() == self.height,
                0 <= y <= self.height,
                laid@ == rows.take(y as int).flatten(),
            decreases self.height - y,
        {
            let mut x: usize = 0;
            assert(self.screen@[y as int]@.len() == self.width);
            assert(rows[y as int].len() == self@.cells[y as int].len());
            while x < self.screen[y].len()
                invariant
                    self.laid_out(),
                    self@ == old(self)@,
                    self.log@ == old(self).log@,
                    rows == placed(self@.cells),
                    rows.len() == self.height,
                    rows[y as int].len() == self.width,
                    0 <= y < self.height,
                    0 <= x <= self.width,
                    self.screen@[y as int]@.len() == self.width,
                    laid@ == rows.take(y as int).flatten() + rows[y as int].take(x as int),
                decreases self.width - x,
            {
                proof {
                    assert(self@.cells[y as int][x as int] == self.screen@[y as int]@[x as int]);
                    assert(rows[y as int].take(x + 1) =~= rows[y as int].take(x as int).push(
                        rows[y as int][x as int],
                    ));
                }
                laid.push((x as u16, y as u16, self.screen[y][x]));
                x += 1;
            }
            proof {
                assert(rows[y as int].take(x as int) =~= rows[y as int]);
                assert(rows.take(y + 1) =~= rows.take(y as int).push(rows[y as int]));
                rows.take(y as int).lemma_flatten_push(rows[y as int]);
            }
            y += 1;
        }
        proof {
            assert(rows.take(y as int) =~= rows);
            lemma_after_push(
                ScreenView::blank(self.grid_size as int, self.width as int, self.height as int),
                self.log@,
                DrawCommand::Present,
            );
        }
        self.shown = laid;
        self.log = Ghost(self.log@.push(DrawCommand::Present));
    }

    /// Fills the block of a grid cell and records the call.
    fn plot(&mut self, x: i32, y: i32, glyph: char)
        requires
            old(self).valid(),
        ensures
            final(self).valid(),
            final(self)@ == old(self)@.with_char(x as int, y as int, glyph),
            final(self).drawn() == old(self).drawn().push(
                DrawCommand::PutChar { x: x as int, y: y as int, glyph },
            ),
    {
        self.paint(x, y, glyph);
        proof {
            lemma_after_push(
                ScreenView::blank(self.grid_size as int, self.width as int, self.height as int),
                self.log@,
                DrawCommand::PutChar { x: x as int, y: y as int, glyph },
            );
        }
        self.log = Ghost(self.log@.push(DrawCommand::PutChar { x: x as int, y: y as int, glyph }));
    }

    /// Writes a text into a screen row and records the call.
    fn write_text(&mut self, text: &str, x: i32, y: i32)
        requires
            old(self).valid(),
        ensures
            final(self).valid(),
            final(self)@ == old(self)@.with_text(text@, x as int, y as int),
            final(self).drawn() == old(self).drawn().push(
                DrawCommand::DrawText { text: text@, x: x as int, y: y as int },
            ),
    {
        if 0 <= y && y < self.height {
            let mut col: i64 = x as i64;
            assert(self@.cells =~~= self@.with_text(text@.take(0), x as int, y as int).cells);
            for glyph in chars: text.chars()
                invariant
                    self.laid_out(),
                    0 <= y < self.height,
                    chars.seq() == text@,
                    x >= self.width ==> col == x,
                    x < self.width ==> col == smaller(x + chars.index(), self.width as int),
                    self.log@ == old(self).log@,
                    self@ == old(self)@.with_text(
                        text@.take(chars.index() as int),
                        x as int,
                        y as int,
                    ),
            {
                let ghost before = self@;
                let ghost done = chars.index() as int;
                if col < self.width as i64 {
                    if 0 <= col {
                        let ghost lines = self.screen@;
                        self.screen[y as usize][col as usize] = glyph;
                        assert(self.screen@.len() == lines.len());
                        assert(self.screen@[y as int]@ == lines[y as int]@.update(col as int, glyph));
                        assert(forall|row: int|
                            0 <= row < self.height && row != y ==> self.screen@[row] == lines[row]);
                    }
                    col += 1;
                }
                proof {
                    let goal = old(self)@.with_text(text@.take(done + 1), x as int, y as int).cells;
                    assert(glyph == text@[done]);
                    assert(self@.cells.len() == goal.len());
                    assert forall|row: int| 0 <= row < goal.len() implies #[trigger] self@.cells[row]
                        =~= goal[row] by {
                        assert(self.screen@[row]@.len() == self.width);
                        assert(before.cells[row].len() == self.width);
                        assert forall|c: int| 0 <= c < self.width implies self@.cells[row][c]
                            == goal[row][c] by {
                            assert(before.cells[row][c] == if row == y && x <= c < x + done {
                                text@.take(done)[c - x]
                            } else {
                                old(self)@.cells[row][c]
                            });
                        }
                    }
                    assert(self@.cells =~= goal);
                }
            }
            assert(text@.take(text@.len() as int) =~= text@);
        } else {
            assert(self@.cells =~~= self@.with_text(text@, x as int, y as int).cells);
        }
        proof {
            lemma_after_push(
                ScreenView::blank(self.grid_size as int, self.width as int, self.height as int),
                self.log@,
                DrawCommand::DrawText { text: text@, x: x as int, y: y as int },
            );
        }
        self.log = Ghost(
            self.log@.push(DrawCommand::DrawText { text: text@, x: x as int, y: y as int }),
        );
    }
}

impl Renderer for TerminalRenderer {
    /// The renderer is laid out for its screen, and its screen shows what
    /// the calls made so far have drawn on a blank one.
    closed spec fn valid(&self) -> bool {
        &&& self.laid_out()
        &&& self@ == ScreenView::blank(
            self.grid_size as int,
            self.width as int,
            self.height as int,
        ).after_all(self.log@)
    }

    closed spec fn drawn(&self) -> Seq<DrawCommand> {
        self.log@
    }

    /// Redraws the empty board.
    fn clear(&mut self)
        ensures
            final(self)@ == old(self)@.with_board(),
    {
        self.draw_grid();
    }

    /// Lays the buffer out as the frame to show: one cell after the other
    /// with its column and row, so that whoever writes it out can place each
    /// glyph by itself.
    fn present(&mut self)
        ensures
            final(self)@ == old(self)@.presented(),
    {
        self.lay_out_frame();
    }

    /// Fills the block of the grid cell `(x, y)` with `glyph`. The block, or
    /// the part of it, that lies off the screen is dropped.
    fn put_char(&mut self, x: i32, y: i32, glyph: char)
        ensures
            final(self)@ == old(self)@.with_char(x as int, y as int, glyph),
    {
        proof {
            lemma_glyph_is_its_code(glyph);
        }
        self.plot(x, y, glyph);
    }

    /// Writes `text` into the screen row `y`, from the column `x` to the
    /// right. The text ends at the right edge of the screen, and a row off
    /// the screen takes none of it.
    fn draw_text(&mut self, text: &str, x: i32, y: i32)
        ensures
            final(self)@ == old(self)@.with_text(text@, x as int, y as int),
    {
        self.write_text(text, x, y);
    }
}

} // verus!
