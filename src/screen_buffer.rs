//! A fixed-size grid of byte cells with a cursor that never leaves the grid.
use vstd::prelude::*;

verus! {

/// The byte written into a cell that an erase or a scroll clears.
pub const BLANK: u8 = 0x20;

/// Mathematical model of a screen: `cells` is row-major, `width * height` long.
pub struct ScreenModel {
    pub width: nat,
    pub height: nat,
    pub cells: Seq<u8>,
    pub cx: nat,
    pub cy: nat,
}

/// Clamps `v` into `[0, hi]`.
pub open spec fn clamp(v: int, hi: int) -> int {
    if v < 0 {
        0
    } else if v > hi {
        hi
    } else {
        v
    }
}

/// `s` with every position in `[lo, hi)` replaced by a blank.
pub open spec fn blank_range(s: Seq<u8>, lo: int, hi: int) -> Seq<u8> {
    Seq::new(s.len(), |i: int| if lo <= i < hi { BLANK } else { s[i] })
}

impl ScreenModel {
    pub open spec fn wf(self) -> bool {
        &&& 1 <= self.width <= i32::MAX
        &&& 1 <= self.height <= i32::MAX
        &&& self.cells.len() == self.width * self.height
        &&& self.cx < self.width
        &&& self.cy < self.height
    }

    /// Index of cell `(x, y)` in `cells`.
    pub open spec fn index(self, x: int, y: int) -> int {
        y * self.width + x
    }

    pub open spec fn cell(self, x: int, y: int) -> u8 {
        self.cells[self.index(x, y)]
    }

    /// Rows `1..height` move up by one; the old top row is lost and the bottom
    /// row keeps its old content.
    pub open spec fn scroll_up(self) -> ScreenModel {
        ScreenModel {
            cells: Seq::new(
                self.cells.len(),
                |i: int|
                    if i + self.width < self.cells.len() {
                        self.cells[i + self.width]
                    } else {
                        self.cells[i]
                    },
            ),
            ..self
        }
    }

    /// Cursor to column zero of the next row, scrolling at the bottom row and
    /// blanking the row that comes in.
    pub open spec fn newline(self) -> ScreenModel {
        if self.cy + 1 < self.height {
            ScreenModel { cx: 0, cy: self.cy + 1, ..self }
        } else {
            let s = self.scroll_up();
            ScreenModel {
                cells: blank_range(
                    s.cells,
                    ((self.height - 1) * self.width) as int,
                    self.cells.len() as int,
                ),
                cx: 0,
                ..s
            }
        }
    }

    /// One column to the right, or a newline from the last column.
    pub open spec fn cursor_inc(self) -> ScreenModel {
        if self.cx + 1 < self.width {
            ScreenModel { cx: self.cx + 1, ..self }
        } else {
            self.newline()
        }
    }

    pub open spec fn write_char(self, ch: u8, advance: bool) -> ScreenModel {
        if ch == 0x0A {
            self.newline()
        } else if ch == 0x08 {
            if self.cx > 0 {
                ScreenModel { cx: (self.cx - 1) as nat, ..self }
            } else {
                self
            }
        } else if ch == 0x07 {
            self
        } else if ch == 0x0D {
            ScreenModel { cx: 0, ..self }
        } else {
            let put = ScreenModel {
                cells: self.cells.update(self.index(self.cx as int, self.cy as int), ch),
                ..self
            };
            if advance {
                put.cursor_inc()
            } else {
                put
            }
        }
    }

    /// To `(dx, dy)`, or by `(dx, dy)`, clamped into the grid.
    pub open spec fn move_cursor(self, dx: int, dy: int, absolute: bool) -> ScreenModel {
        let tx = if absolute { dx } else { self.cx + dx };
        let ty = if absolute { dy } else { self.cy + dy };
        ScreenModel {
            cx: clamp(tx, self.width - 1) as nat,
            cy: clamp(ty, self.height - 1) as nat,
            ..self
        }
    }

    /// Mode 0 blanks from the cursor to the end of its row, 1 from the start of
    /// the row through the cursor, 2 the whole row; any other mode does nothing.
    pub open spec fn erase_line(self, mode: int) -> ScreenModel {
        let row = (self.cy * self.width) as int;
        let at = self.index(self.cx as int, self.cy as int);
        if mode == 0 {
            ScreenModel { cells: blank_range(self.cells, at, row + self.width), ..self }
        } else if mode == 1 {
            ScreenModel { cells: blank_range(self.cells, row, at + 1), ..self }
        } else if mode == 2 {
            ScreenModel { cells: blank_range(self.cells, row, row + self.width), ..self }
        } else {
            self
        }
    }

    /// Mode 0 blanks from the cursor to the end of the screen, 1 from the start
    /// of the screen through the cursor, 2 everything; any other mode does nothing.
    pub open spec fn erase_display(self, mode: int) -> ScreenModel {
        let at = self.index(self.cx as int, self.cy as int);
        let len = self.cells.len() as int;
        if mode == 0 {
            ScreenModel { cells: blank_range(self.cells, at, len), ..self }
        } else if mode == 1 {
            ScreenModel { cells: blank_range(self.cells, 0, at + 1), ..self }
        } else if mode == 2 {
            ScreenModel { cells: blank_range(self.cells, 0, len), ..self }
        } else {
            self
        }
    }

    /// For mode 6, the cursor position report `ESC [ row ; col R`, 1-based.
    pub open spec fn report_cursor(self, mode: int) -> Option<Seq<u8>> {
        if mode == 6 {
            Some(cursor_report(self.cy + 1, self.cx + 1))
        } else {
            None
        }
    }

    /// A fresh screen: every cell zero, cursor at the origin.
    pub open spec fn fresh(width: nat, height: nat) -> ScreenModel {
        ScreenModel {
            width,
            height,
            cells: Seq::new(width * height, |i: int| 0u8),
            cx: 0,
            cy: 0,
        }
    }
}

/// Decimal digits of `n`, most significant first, without leading zeros.
pub open spec fn decimal(n: nat) -> Seq<u8>
    decreases n,
{
    if n < 10 {
        seq![(0x30 + n) as u8]
    } else {
        decimal(n / 10).push((0x30 + n % 10) as u8)
    }
}

/// `ESC [ row ; col R`.
pub open spec fn cursor_report(row: nat, col: nat) -> Seq<u8> {
    seq![0x1Bu8, 0x5Bu8] + decimal(row) + seq![0x3Bu8] + decimal(col) + seq![0x52u8]
}

/// Cell `(x, y)` of a `w`-wide grid lies inside a `w * h` array.
pub proof fn lemma_index_in_grid(x: int, y: int, w: int, h: int)
    requires
        0 <= x < w,
        0 <= y < h,
    ensures
        0 <= y * w + x < w * h,
{
    assert(0 <= y * w) by (nonlinear_arith)
        requires
            0 <= y,
            0 <= w,
    ;
    assert(y * w + w <= w * h) by (nonlinear_arith)
        requires
            0 <= y < h,
            0 <= w,
    ;
}

/// Appends the decimal digits of `n` to `out`.
pub fn push_decimal(out: &mut Vec<u8>, n: u64)
    ensures
        final(out)@ == old(out)@ + decimal(n as nat),
    decreases n,
{
    if n >= 10 {
        push_decimal(out, n / 10);
    }
    out.push(0x30u8 + (n % 10) as u8);
    proof {
        if n >= 10 {
            assert(final(out)@ =~= old(out)@ + decimal(n as nat));
        } else {
            assert(final(out)@ =~= old(out)@ + decimal(n as nat));
        }
    }
}

/// `v` clamped into `[0, hi]`.
fn clamp_to(v: i64, hi: usize) -> (r: usize)
    requires
        hi <= i32::MAX,
    ensures
        r as int == clamp(v as int, hi as int),
{
    if v < 0 {
        0
    } else if v > hi as i64 {
        hi
    } else {
        v as usize
    }
}

/// A newline on the bottom row scrolls: every row but the last takes the
/// content of the row below it, the last row becomes blank, and the cursor
/// goes to column zero of the last row.
pub proof fn lemma_newline_scrolls(m: ScreenModel)
    requires
        m.wf(),
        m.cy == m.height - 1,
    ensures
        forall|x: int, y: int|
            0 <= x < m.width && 0 <= y < m.height - 1 ==> #[trigger] m.newline().cell(x, y) == m.cell(x, y + 1),
        forall|x: int| 0 <= x < m.width ==> #[trigger] m.newline().cell(x, m.height - 1) == BLANK,
        m.newline().cx == 0,
        m.newline().cy == m.height - 1,
{
    let w = m.width as int;
    let h = m.height as int;
    let n = m.newline();
    assert forall|x: int, y: int| 0 <= x < w && 0 <= y < h - 1 implies #[trigger] n.cell(x, y) == m.cell(x, y + 1) by {
        lemma_index_in_grid(x, y + 1, w, h);
        assert((y + 1) * w == y * w + w) by (nonlinear_arith);
        assert(y * w + x < (h - 1) * w) by (nonlinear_arith)
            requires
                0 <= x < w,
                y < h - 1,
        ;
    }
    assert forall|x: int| 0 <= x < w implies #[trigger] n.cell(x, h - 1) == BLANK by {
        lemma_index_in_grid(x, h - 1, w, h);
    }
}

/// Relative motion clamps into the grid; absolute motion to a cell of the
/// grid lands exactly there.
pub proof fn lemma_move_cursor_lands(m: ScreenModel, dx: int, dy: int)
    requires
        m.wf(),
    ensures
        m.move_cursor(dx, dy, false).cx == clamp(m.cx + dx, m.width - 1),
        m.move_cursor(dx, dy, false).cy == clamp(m.cy + dy, m.height - 1),
        m.move_cursor(dx, dy, false).wf(),
        m.move_cursor(dx, dy, true).wf(),
        0 <= dx < m.width && 0 <= dy < m.height ==> m.move_cursor(dx, dy, true).cx == dx
            && m.move_cursor(dx, dy, true).cy == dy,
{
}

/// A grid of bytes with a cursor.
pub struct ScreenBuffer {
    width: usize,
    height: usize,
    cells: Vec<u8>,
    cx: usize,
    cy: usize,
}

impl View for ScreenBuffer {
    type V = ScreenModel;

    closed spec fn view(&self) -> ScreenModel {
        ScreenModel {
            width: self.width as nat,
            height: self.height as nat,
            cells: self.cells@,
            cx: self.cx as nat,
            cy: self.cy as nat,
        }
    }
}

impl ScreenBuffer {
    pub open spec fn wf(&self) -> bool {
        self@.wf()
    }

    /// A `size.0` by `size.1` screen of zero cells with the cursor at `(0, 0)`.
    pub fn new(size: (i32, i32)) -> (r: ScreenBuffer)
        requires
            size.0 >= 1,
            size.1 >= 1,
            size.0 as int * size.1 as int <= usize::MAX,
        ensures
            r.wf(),
            r@ == ScreenModel::fresh(size.0 as nat, size.1 as nat),
    {
        let width = size.0 as usize;
        let height = size.1 as usize;
        let cells = vec![0u8; width * height];
        let r = ScreenBuffer { width, height, cells, cx: 0, cy: 0 };
        assert(r@.cells =~= ScreenModel::fresh(size.0 as nat, size.1 as nat).cells);
        r
    }

    /// Blanks the cells `[lo, hi)` of the flat array.
    fn blank(&mut self, lo: usize, hi: usize)
        requires
            lo <= hi <= old(self).cells@.len(),
        ensures
            final(self)@ == (ScreenModel { cells: blank_range(old(self)@.cells, lo as int, hi as int), ..old(self)@ }),
    {
        let mut i = lo;
        while i < hi
            invariant
                lo <= i <= hi <= self.cells@.len(),
                self.width == old(self).width,
                self.height == old(self).height,
                self.cx == old(self).cx,
                self.cy == old(self).cy,
                self.cells@ =~= blank_range(old(self)@.cells, lo as int, i as int),
            decreases hi - i,
        {
            self.cells.set(i, BLANK);
            i = i + 1;
            assert(self.cells@ =~= blank_range(old(self)@.cells, lo as int, i as int));
        }
    }

    /// Moves rows `1..height` up by one; the bottom row keeps its content.
    pub fn scroll_up(&mut self)
        requires
            old(self).wf(),
        ensures
            final(self).wf(),
            final(self)@ == old(self)@.scroll_up(),
    {
        let len = self.cells.len();
        let w = self.width;
        proof {
            assert(w <= w * self.height) by (nonlinear_arith)
                requires self.height >= 1;
        }
        let mut i: usize = 0;
        while i < len - w
            invariant
                self.width == w == old(self).width,
                self.height == old(self).height,
                self.cx == old(self).cx,
                self.cy == old(self).cy,
                len == self.cells@.len() == old(self).cells@.len(),
                w <= len,
                i <= len - w,
                forall|j: int| 0 <= j < i ==> #[trigger] self.cells@[j] == old(self).cells@[j + w],
                forall|j: int| i <= j < len ==> #[trigger] self.cells@[j] == old(self).cells@[j],
            decreases len - i,
        {
            let b = self.cells[i + w];
            self.cells.set(i, b);
            i = i + 1;
        }
        assert(self@.cells =~= old(self)@.scroll_up().cells);
    }

    /// Cursor to column zero of the next row; at the bottom row the screen
    /// scrolls up and the bottom row is blanked.
    pub fn newline(&mut self)
        requires
            old(self).wf(),
        ensures
            final(self).wf(),
            final(self)@ == old(self)@.newline(),
    {
        self.cx = 0;
        if self.cy + 1 < self.height {
            self.cy = self.cy + 1;
        } else {
            self.scroll_up();
            let len = self.cells.len();
            proof {
                lemma_index_in_grid(0, (self.height - 1) as int, self.width as int, self.height as int);
                assert((self.height - 1) * self.width + self.width == self.height * self.width) by (nonlinear_arith);
                assert(0 <= (self.height - 1) * self.width) by (nonlinear_arith)
                    requires self.height >= 1;
            }
            let lo = (self.height - 1) * self.width;
            self.blank(lo, len);
        }
    }

    /// One column right, or a newline from the last column.
    pub fn cursor_inc(&mut self)
        requires
            old(self).wf(),
        ensures
            final(self).wf(),
            final(self)@ == old(self)@.cursor_inc(),
    {
        if self.cx + 1 < self.width {
            self.cx = self.cx + 1;
        } else {
            self.newline();
        }
    }

    /// Moves the cursor to `(dx, dy)` when `absolute`, else by `(dx, dy)`;
    /// either way the result is clamped into the grid.
    pub fn move_cursor(&mut self, dx: i32, dy: i32, absolute: bool)
        requires
            old(self).wf(),
        ensures
            final(self).wf(),
            final(self)@ == old(self)@.move_cursor(dx as int, dy as int, absolute),
    {
        let tx: i64 = if absolute { dx as i64 } else { self.cx as i64 + dx as i64 };
        let ty: i64 = if absolute { dy as i64 } else { self.cy as i64 + dy as i64 };
        self.cx = clamp_to(tx, self.width - 1);
        self.cy = clamp_to(ty, self.height - 1);
    }

    /// Erases part of the cursor's row: 0 from the cursor to the end, 1 from
    /// the start through the cursor, 2 all of it; other modes do nothing.
    pub fn erase_line(&mut self, mode: u32)
        requires
            old(self).wf(),
        ensures
            final(self).wf(),
            final(self)@ == old(self)@.erase_line(mode as int),
    {
        let len = self.cells.len();
        proof {
            lemma_index_in_grid(self.cx as int, self.cy as int, self.width as int, self.height as int);
            lemma_index_in_grid(self.width - 1, self.cy as int, self.width as int, self.height as int);
        }
        let row = self.cy * self.width;
        let at = row + self.cx;
        if mode == 0 {
            self.blank(at, row + self.width);
        } else if mode == 1 {
            self.blank(row, at + 1);
        } else if mode == 2 {
            self.blank(row, row + self.width);
        }
    }

    /// Erases part of the screen: 0 from the cursor to the end, 1 from the
    /// start through the cursor, 2 all of it; other modes do nothing.
    pub fn erase_display(&mut self, mode: u32)
        requires
            old(self).wf(),
        ensures
            final(self).wf(),
            final(self)@ == old(self)@.erase_display(mode as int),
    {
        let len = self.cells.len();
        proof {
            lemma_index_in_grid(self.cx as int, self.cy as int, self.width as int, self.height as int);
        }
        let at = self.cy * self.width + self.cx;
        if mode == 0 {
            self.blank(at, len);
        } else if mode == 1 {
            self.blank(0, at + 1);
        } else if mode == 2 {
            self.blank(0, len);
        }
    }

    /// For mode 6 the cursor position report `ESC [ row ; col R` with 1-based
    /// coordinates; no response for any other mode.
    pub fn report_cursor(&self, mode: u32) -> (r: Option<Vec<u8>>)
        requires
            self.wf(),
        ensures
            r.is_some() == self@.report_cursor(mode as int).is_some(),
            r.is_some() ==> r.unwrap()@ == self@.report_cursor(mode as int).unwrap(),
    {
        if mode == 6 {
            let mut out: Vec<u8> = vec![0x1Bu8, 0x5Bu8];
            push_decimal(&mut out, self.cy as u64 + 1);
            out.push(0x3Bu8);
            push_decimal(&mut out, self.cx as u64 + 1);
            out.push(0x52u8);
            assert(out@ =~= cursor_report((self.cy + 1) as nat, (self.cx + 1) as nat));
            Some(out)
        } else {
            None
        }
    }

    pub fn width(&self) -> (r: usize)
        ensures
            r == self@.width,
    {
        self.width
    }

    pub fn height(&self) -> (r: usize)
        ensures
            r == self@.height,
    {
        self.height
    }

    /// The cursor as `(column, row)`.
    pub fn cursor(&self) -> (r: (usize, usize))
        ensures
            r.0 == self@.cx,
            r.1 == self@.cy,
    {
        (self.cx, self.cy)
    }

    /// The byte in cell `(x, y)`.
    pub fn get_cell(&self, x: usize, y: usize) -> (r: u8)
        requires
            self.wf(),
            x < self@.width,
            y < self@.height,
        ensures
            r == self@.cell(x as int, y as int),
    {
        let len = self.cells.len();
        proof {
            lemma_index_in_grid(x as int, y as int, self.width as int, self.height as int);
        }
        self.cells[y * self.width + x]
    }

    /// The row-major cells and the cursor, for drawing.
    pub fn snapshot(&self) -> (r: (&Vec<u8>, (usize, usize)))
        ensures
            r.0@ == self@.cells,
            r.1.0 == self@.cx,
            r.1.1 == self@.cy,
    {
        (&self.cells, (self.cx, self.cy))
    }

    /// Applies one byte: line feed, backspace, bell and carriage return act on
    /// the cursor; any other byte is stored at the cursor, which then advances
    /// when `advance` is set.
    pub fn write_char(&mut self, ch: u8, advance: bool)
        requires
            old(self).wf(),
        ensures
            final(self).wf(),
            final(self)@ == old(self)@.write_char(ch, advance),
    {
        if ch == 0x0A {
            self.newline();
        } else if ch == 0x08 {
            if self.cx > 0 {
                self.cx = self.cx - 1;
            }
        } else if ch == 0x07 {
        } else if ch == 0x0D {
            self.cx = 0;
        } else {
            let len = self.cells.len();
            proof {
                lemma_index_in_grid(self.cx as int, self.cy as int, self.width as int, self.height as int);
            }
            let at = self.cy * self.width + self.cx;
            self.cells.set(at, ch);
            if advance {
                self.cursor_inc();
            }
        }
    }
}

} // verus!
