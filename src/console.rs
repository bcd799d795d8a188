//! The console: two screens, the escape-sequence parser and the dispatcher of
//! control sequences onto the active screen.
use vstd::prelude::*;
use crate::csi::{
    csi_private, csi_values, csi_params, is_final_byte, lemma_split_fields_len, parse_params, CSI_OPEN,
    ESC,
};
use crate::screen_buffer::{lemma_index_in_grid, ScreenBuffer, ScreenModel};

verus! {

/// `v`, or `d` where the field has no value.
pub open spec fn arg_or(v: Option<u32>, d: int) -> int {
    match v {
        Some(n) => n as int,
        None => d,
    }
}

/// Mathematical model of a console.
pub struct ConsoleModel {
    pub primary: ScreenModel,
    pub alternate: ScreenModel,
    /// 0 while the primary screen is active, 1 for the alternate one.
    pub sid: nat,
    /// The escape sequence read so far.
    pub esc_buf: Seq<u8>,
}

/// The parser is in the ground state.
pub open spec fn is_ground(buf: Seq<u8>) -> bool {
    buf.len() == 0
}

/// The parser has read `ESC` alone.
pub open spec fn is_escape(buf: Seq<u8>) -> bool {
    buf.len() == 1 && buf[0] == ESC
}

/// The parser is inside a control sequence `ESC [ ...`.
pub open spec fn is_csi(buf: Seq<u8>) -> bool {
    buf.len() >= 2 && buf[0] == ESC && buf[1] == CSI_OPEN
}

/// Where the parser stands.
#[derive(Clone, Copy, Debug, PartialEq, Eq, Structural)]
pub enum ParserState {
    /// Bytes are text.
    Ground,
    /// `ESC` has been read.
    Escape,
    /// Inside `ESC [ ...`, waiting for the final byte.
    Csi,
}

/// The response of a call, seen as bytes.
pub open spec fn response_view(r: Option<Vec<u8>>) -> Option<Seq<u8>> {
    match r {
        Some(v) => Some(v@),
        None => None,
    }
}

impl ConsoleModel {
    pub open spec fn wf(self) -> bool {
        &&& self.primary.wf()
        &&& self.alternate.wf()
        &&& self.primary.width == self.alternate.width
        &&& self.primary.height == self.alternate.height
        &&& self.sid <= 1
        &&& (is_ground(self.esc_buf) || is_escape(self.esc_buf) || is_csi(self.esc_buf))
    }

    pub open spec fn active(self) -> ScreenModel {
        if self.sid == 0 {
            self.primary
        } else {
            self.alternate
        }
    }

    /// The same console with `s` in place of the active screen.
    pub open spec fn with_active(self, s: ScreenModel) -> ConsoleModel {
        if self.sid == 0 {
            ConsoleModel { primary: s, ..self }
        } else {
            ConsoleModel { alternate: s, ..self }
        }
    }

    /// A fresh console: two fresh screens, the primary one active, no
    /// escape sequence pending.
    pub open spec fn fresh(width: nat, height: nat) -> ConsoleModel {
        ConsoleModel {
            primary: ScreenModel::fresh(width, height),
            alternate: ScreenModel::fresh(width, height),
            sid: 0,
            esc_buf: Seq::empty(),
        }
    }

    /// Carries out the complete control sequence `seq`, whose last byte is its
    /// final byte; returns the new console and the response, if any.
    ///
    /// `A B C D` move the cursor up, down, right, left by the first field
    /// (default 1); `H` and `f` place it at row, column (1-based, default 1),
    /// or at the origin when there is a single field; `J` and `K` erase the
    /// display or the line in the mode of the first field (default 0); `n`
    /// reports the cursor for mode 6; a private `h` or `l` with a field 1049
    /// shows the alternate or the primary screen. Anything else is ignored.
    pub open spec fn dispatch(self, seq: Seq<u8>) -> (ConsoleModel, Option<Seq<u8>>) {
        let f = seq.last();
        let vals = csi_values(seq);
        let scr = self.active();
        if f == 0x41 {
            (self.with_active(scr.move_cursor(0, -arg_or(vals[0], 1), false)), None)
        } else if f == 0x42 {
            (self.with_active(scr.move_cursor(0, arg_or(vals[0], 1), false)), None)
        } else if f == 0x43 {
            (self.with_active(scr.move_cursor(arg_or(vals[0], 1), 0, false)), None)
        } else if f == 0x44 {
            (self.with_active(scr.move_cursor(-arg_or(vals[0], 1), 0, false)), None)
        } else if f == 0x48 || f == 0x66 {
            if vals.len() == 1 {
                (self.with_active(scr.move_cursor(0, 0, true)), None)
            } else {
                (
                    self.with_active(
                        scr.move_cursor(arg_or(vals[1], 1) - 1, arg_or(vals[0], 1) - 1, true),
                    ),
                    None,
                )
            }
        } else if f == 0x4A {
            (self.with_active(scr.erase_display(arg_or(vals[0], 0))), None)
        } else if f == 0x4B {
            (self.with_active(scr.erase_line(arg_or(vals[0], 0))), None)
        } else if f == 0x6E {
            (self, scr.report_cursor(arg_or(vals[0], 0)))
        } else if f == 0x68 && csi_private(seq) && vals.contains(Some(1049u32)) {
            (ConsoleModel { sid: 1, ..self }, None)
        } else if f == 0x6C && csi_private(seq) && vals.contains(Some(1049u32)) {
            (ConsoleModel { sid: 0, ..self }, None)
        } else {
            (self, None)
        }
    }

    /// Feeds one byte: the new console and the response, if any.
    pub open spec fn step(self, b: u8) -> (ConsoleModel, Option<Seq<u8>>) {
        if is_ground(self.esc_buf) {
            if b == ESC {
                (ConsoleModel { esc_buf: seq![ESC], ..self }, None)
            } else {
                (self.with_active(self.active().write_char(b, true)), None)
            }
        } else if is_escape(self.esc_buf) {
            if b == CSI_OPEN {
                (ConsoleModel { esc_buf: self.esc_buf.push(b), ..self }, None)
            } else {
                (ConsoleModel { esc_buf: Seq::empty(), ..self }, None)
            }
        } else if is_final_byte(b) {
            let (m, r) = self.dispatch(self.esc_buf.push(b));
            (ConsoleModel { esc_buf: Seq::empty(), ..m }, r)
        } else {
            (ConsoleModel { esc_buf: self.esc_buf.push(b), ..self }, None)
        }
    }
}

impl ConsoleModel {
    /// The console after feeding the bytes of `s` in order.
    pub open spec fn feed(self, s: Seq<u8>) -> ConsoleModel
        decreases s.len(),
    {
        if s.len() == 0 {
            self
        } else {
            self.feed(s.drop_last()).step(s.last()).0
        }
    }
}

pub open spec fn is_printable(b: u8) -> bool {
    0x20 <= b <= 0x7E
}

/// Every screen operation keeps a screen well formed.
pub proof fn lemma_screen_ops_wf(m: ScreenModel)
    requires
        m.wf(),
    ensures
        forall|ch: u8, adv: bool| #[trigger] m.write_char(ch, adv).wf(),
        forall|dx: int, dy: int, abs: bool| #[trigger] m.move_cursor(dx, dy, abs).wf(),
        forall|mode: int| #[trigger] m.erase_line(mode).wf(),
        forall|mode: int| #[trigger] m.erase_display(mode).wf(),
        m.newline().wf(),
        m.newline().width == m.width && m.newline().height == m.height,
{
    lemma_index_in_grid(m.cx as int, m.cy as int, m.width as int, m.height as int);
    assert(m.newline().wf());
    assert(m.cursor_inc().wf());
    assert forall|ch: u8, adv: bool| #[trigger] m.write_char(ch, adv).wf() by {
        if ch != 0x0A && ch != 0x08 && ch != 0x07 && ch != 0x0D {
            let put = ScreenModel { cells: m.cells.update(m.index(m.cx as int, m.cy as int), ch), ..m };
            assert(put.wf());
            assert(put.newline().wf());
            assert(put.cursor_inc().wf());
        }
    }
}

/// One byte keeps a console well formed.
pub proof fn lemma_step_wf(m: ConsoleModel, b: u8)
    requires
        m.wf(),
    ensures
        m.step(b).0.wf(),
        m.step(b).0.primary.width == m.primary.width,
        m.step(b).0.primary.height == m.primary.height,
{
    lemma_screen_ops_wf(m.active());
    if is_csi(m.esc_buf) && is_final_byte(b) {
        let seq = m.esc_buf.push(b);
        let p = csi_params(seq);
        let body = if csi_private(seq) { p.drop_first() } else { p };
        lemma_split_fields_len(body);
    }
}

/// Whatever bytes a well-formed console is fed, it stays well formed: the
/// cursor of the shown screen stays inside the grid, and the pending escape
/// sequence is empty or starts with `ESC`.
pub proof fn lemma_feed_keeps_invariant(m: ConsoleModel, s: Seq<u8>)
    requires
        m.wf(),
    ensures
        m.feed(s).wf(),
        m.feed(s).active().cx < m.feed(s).active().width,
        m.feed(s).active().cy < m.feed(s).active().height,
        m.feed(s).esc_buf.len() == 0 || m.feed(s).esc_buf[0] == ESC,
    decreases s.len(),
{
    if s.len() > 0 {
        lemma_feed_keeps_invariant(m, s.drop_last());
        lemma_step_wf(m.feed(s.drop_last()), s.last());
    }
}

/// Printable bytes fed in the ground state leave the parser in the ground state.
pub proof fn lemma_printable_stays_ground(m: ConsoleModel, s: Seq<u8>)
    requires
        m.wf(),
        is_ground(m.esc_buf),
        forall|i: int| 0 <= i < s.len() ==> is_printable(#[trigger] s[i]),
    ensures
        is_ground(m.feed(s).esc_buf),
    decreases s.len(),
{
    if s.len() > 0 {
        let t = s.drop_last();
        assert forall|i: int| 0 <= i < t.len() implies is_printable(#[trigger] t[i]) by {
            assert(t[i] == s[i]);
        }
        lemma_printable_stays_ground(m, t);
        assert(is_printable(s[s.len() - 1]));
    }
}

/// A control sequence that receives its final byte is carried out, and the
/// parser returns to the ground state.
pub proof fn lemma_dispatch_returns_to_ground(m: ConsoleModel, b: u8)
    requires
        m.wf(),
        is_csi(m.esc_buf),
        is_final_byte(b),
    ensures
        is_ground(m.step(b).0.esc_buf),
{
}

/// On a fresh console, `n <= width` printable bytes land in cells
/// `(0, 0) .. (n - 1, 0)` and leave the cursor at `(n % width, n / width)`;
/// left out is the one case where the row itself scrolls away, a full row on
/// a one-row screen.
pub proof fn lemma_plain_text(w: nat, h: nat, s: Seq<u8>)
    requires
        1 <= w <= i32::MAX,
        1 <= h <= i32::MAX,
        w * h <= usize::MAX,
        s.len() <= w,
        s.len() < w || h > 1,
        forall|i: int| 0 <= i < s.len() ==> is_printable(#[trigger] s[i]),
    ensures
        forall|i: int|
            0 <= i < s.len() ==> #[trigger] ConsoleModel::fresh(w, h).feed(s).active().cell(i, 0) == s[i],
        ConsoleModel::fresh(w, h).feed(s).active().cx == s.len() % w,
        ConsoleModel::fresh(w, h).feed(s).active().cy == s.len() / w,
{
    lemma_plain_prefix(w, h, s, s.len() as nat);
    assert(s.take(s.len() as int) =~= s);
    if s.len() < w {
        vstd::arithmetic::div_mod::lemma_small_mod(s.len(), w);
        vstd::arithmetic::div_mod::lemma_basic_div(s.len() as int, w as int);
    } else {
        vstd::arithmetic::div_mod::lemma_mod_self_0(w as int);
        vstd::arithmetic::div_mod::lemma_div_by_self(w as int);
    }
}

proof fn lemma_plain_prefix(w: nat, h: nat, s: Seq<u8>, k: nat)
    requires
        1 <= w <= i32::MAX,
        1 <= h <= i32::MAX,
        w * h <= usize::MAX,
        k <= s.len() <= w,
        s.len() < w || h > 1,
        forall|i: int| 0 <= i < s.len() ==> is_printable(#[trigger] s[i]),
    ensures
        ({
            let m = ConsoleModel::fresh(w, h).feed(s.take(k as int));
            &&& m.wf()
            &&& m.primary.width == w
            &&& m.primary.height == h
            &&& m.sid == 0
            &&& is_ground(m.esc_buf)
            &&& forall|i: int| 0 <= i < k ==> #[trigger] m.active().cell(i, 0) == s[i]
            &&& k < w ==> m.active().cx == k && m.active().cy == 0
            &&& k == w ==> m.active().cx == 0 && m.active().cy == 1
        }),
    decreases k,
{
    let f = ConsoleModel::fresh(w, h);
    assert(f.primary.cells.len() == w * h);
    if k == 0 {
        assert(s.take(0) =~= Seq::<u8>::empty());
        assert(f.wf());
    } else {
        lemma_plain_prefix(w, h, s, (k - 1) as nat);
        let t = s.take(k as int);
        assert(t.drop_last() =~= s.take(k - 1));
        let m0 = f.feed(s.take(k - 1));
        let b = s[k - 1];
        assert(is_printable(b));
        lemma_step_wf(m0, b);
        let scr = m0.active();
        let at = scr.index(k - 1, 0);
        assert(at == k - 1);
        lemma_index_in_grid(k - 1, 0, w as int, h as int);
        let put = ScreenModel { cells: scr.cells.update(at, b), ..scr };
        assert(f.feed(t) == m0.step(b).0);
        assert(m0.step(b).0.active() == put.cursor_inc());
        assert(put.cursor_inc().cells == put.cells);
        assert forall|i: int| 0 <= i < k implies #[trigger] f.feed(t).active().cell(i, 0) == s[i] by {
            assert(scr.index(i, 0) == i);
            if i < k - 1 {
                assert(scr.cell(i, 0) == s[i]);
            }
        }
    }
}

/// `v`, or `d` where the field has no value.
fn value_or(v: Option<u32>, d: u32) -> (r: u32)
    ensures
        r as int == arg_or(v, d as int),
{
    match v {
        Some(n) => n,
        None => d,
    }
}

/// Whether some field has the value `x`.
fn has_value(vals: &Vec<Option<u32>>, x: u32) -> (r: bool)
    ensures
        r == vals@.contains(Some(x)),
{
    let mut i: usize = 0;
    while i < vals.len()
        invariant
            i <= vals@.len(),
            forall|j: int| 0 <= j < i ==> vals@[j] != Some(x),
        decreases vals@.len() - i,
    {
        match vals[i] {
            Some(v) => {
                if v == x {
                    return true;
                }
            },
            None => {},
        }
        i = i + 1;
    }
    false
}

/// Width of a cell in pixels.
pub const FONT_WIDTH: u64 = 15;

/// Height of a cell in pixels.
pub const FONT_HEIGHT: u64 = 20;

/// The glyph drawn at the cursor.
pub const CURSOR_GLYPH: u8 = 0x7C;

/// One glyph to draw: a byte, the pixel position of its cell's top-left
/// corner, and whether it is the cursor mark rather than a cell's content.
#[derive(Clone, Copy, Debug, PartialEq, Eq, Structural)]
pub struct Glyph {
    pub ch: u8,
    pub x: u64,
    pub y: u64,
    pub is_cursor: bool,
}

/// The glyph for cell `(x, y)` holding `ch`.
pub open spec fn cell_glyph(ch: u8, x: int, y: int) -> Glyph {
    Glyph { ch, x: (x * FONT_WIDTH) as u64, y: (y * FONT_HEIGHT) as u64, is_cursor: false }
}

/// The cursor mark at cell `(x, y)`.
pub open spec fn cursor_glyph(x: int, y: int) -> Glyph {
    Glyph { ch: CURSOR_GLYPH, x: (x * FONT_WIDTH) as u64, y: (y * FONT_HEIGHT) as u64, is_cursor: true }
}

/// A terminal: a primary and an alternate screen of one size, the escape
/// sequence being read, and which screen is shown.
pub struct Console {
    size: (i32, i32),
    esc_buf: Vec<u8>,
    primary: ScreenBuffer,
    alternate: ScreenBuffer,
    sid: usize,
}

impl View for Console {
    type V = ConsoleModel;

    closed spec fn view(&self) -> ConsoleModel {
        ConsoleModel {
            primary: self.primary@,
            alternate: self.alternate@,
            sid: self.sid as nat,
            esc_buf: self.esc_buf@,
        }
    }
}

impl Console {
    pub closed spec fn wf(&self) -> bool {
        &&& self@.wf()
        &&& self.size.0 as int == self@.primary.width
        &&& self.size.1 as int == self@.primary.height
    }

    /// A console of `size.0` columns and `size.1` rows, both screens blank,
    /// the primary one shown.
    pub fn new(size: (i32, i32)) -> (r: Console)
        requires
            size.0 >= 1,
            size.1 >= 1,
            size.0 as int * size.1 as int <= usize::MAX,
        ensures
            r.wf(),
            r@ == ConsoleModel::fresh(size.0 as nat, size.1 as nat),
    {
        Console {
            size,
            esc_buf: Vec::new(),
            primary: ScreenBuffer::new(size),
            alternate: ScreenBuffer::new(size),
            sid: 0,
        }
    }

    /// The size in cells, `(columns, rows)`.
    pub fn get_size(&self) -> (r: (i32, i32))
        requires
            self.wf(),
        ensures
            r.0 as int == self@.primary.width,
            r.1 as int == self@.primary.height,
    {
        self.size
    }

    /// Carries out the complete control sequence in `esc_buf` and empties it.
    fn proc_csi(&mut self) -> (r: Option<Vec<u8>>)
        requires
            old(self).wf(),
            is_csi(old(self)@.esc_buf),
            old(self)@.esc_buf.len() >= 3,
            is_final_byte(old(self)@.esc_buf.last()),
        ensures
            final(self).wf(),
            final(self)@ == (ConsoleModel { esc_buf: Seq::empty(), ..old(self)@.dispatch(old(self)@.esc_buf).0 }),
            response_view(r) == old(self)@.dispatch(old(self)@.esc_buf).1,
    {
        let (private, vals) = parse_params(&self.esc_buf);
        let f = self.esc_buf[self.esc_buf.len() - 1];
        let ghost seq = self@.esc_buf;
        let mut report: Option<Vec<u8>> = None;
        if f == 0x41 {
            let n = value_or(vals[0], 1);
            self.move_active(0, -(n as i32), false);
        } else if f == 0x42 {
            let n = value_or(vals[0], 1);
            self.move_active(0, n as i32, false);
        } else if f == 0x43 {
            let n = value_or(vals[0], 1);
            self.move_active(n as i32, 0, false);
        } else if f == 0x44 {
            let n = value_or(vals[0], 1);
            self.move_active(-(n as i32), 0, false);
        } else if f == 0x48 || f == 0x66 {
            if vals.len() == 1 {
                self.move_active(0, 0, true);
            } else {
                let row = value_or(vals[0], 1);
                let col = value_or(vals[1], 1);
                self.move_active(col as i32 - 1, row as i32 - 1, true);
            }
        } else if f == 0x4A {
            self.erase_display_active(value_or(vals[0], 0));
        } else if f == 0x4B {
            self.erase_line_active(value_or(vals[0], 0));
        } else if f == 0x6E {
            let mode = value_or(vals[0], 0);
            report = if self.sid == 0 {
                self.primary.report_cursor(mode)
            } else {
                self.alternate.report_cursor(mode)
            };
        } else if f == 0x68 && private && has_value(&vals, 1049) {
            self.sid = 1;
        } else if f == 0x6C && private && has_value(&vals, 1049) {
            self.sid = 0;
        }
        self.esc_buf.clear();
        report
    }

    /// Feeds one byte read from the shell. Returns the bytes to send back,
    /// when the byte completed a sequence that asks for a response.
    pub fn put_char(&mut self, ch: u8) -> (r: Option<Vec<u8>>)
        requires
            old(self).wf(),
        ensures
            final(self).wf(),
            final(self)@ == old(self)@.step(ch).0,
            response_view(r) == old(self)@.step(ch).1,
            final(self)@.active().cx < final(self)@.active().width,
            final(self)@.active().cy < final(self)@.active().height,
            final(self)@.esc_buf.len() == 0 || final(self)@.esc_buf[0] == ESC,
            is_csi(old(self)@.esc_buf) && is_final_byte(ch) ==> final(self)@.esc_buf.len() == 0,
    {
        if self.esc_buf.len() == 0 {
            if ch == ESC {
                self.esc_buf.push(ESC);
                assert(self@.esc_buf =~= seq![ESC]);
            } else {
                self.write_active(ch);
            }
            None
        } else if self.esc_buf.len() == 1 {
            if ch == CSI_OPEN {
                self.esc_buf.push(ch);
            } else {
                self.esc_buf.clear();
            }
            None
        } else if 0x40 <= ch && ch <= 0x7E {
            self.esc_buf.push(ch);
            self.proc_csi()
        } else {
            self.esc_buf.push(ch);
            None
        }
    }

    /// The screen being shown.
    pub fn active(&self) -> (r: &ScreenBuffer)
        requires
            self.wf(),
        ensures
            r@ == self@.active(),
            r.wf(),
    {
        if self.sid == 0 {
            &self.primary
        } else {
            &self.alternate
        }
    }

    pub fn primary(&self) -> (r: &ScreenBuffer)
        requires
            self.wf(),
        ensures
            r@ == self@.primary,
            r.wf(),
    {
        &self.primary
    }

    pub fn alternate(&self) -> (r: &ScreenBuffer)
        requires
            self.wf(),
        ensures
            r@ == self@.alternate,
            r.wf(),
    {
        &self.alternate
    }

    /// 0 while the primary screen is shown, 1 for the alternate one.
    pub fn screen_id(&self) -> (r: usize)
        ensures
            r == self@.sid,
    {
        self.sid
    }

    /// The escape sequence read so far; empty in the ground state.
    pub fn pending(&self) -> (r: &Vec<u8>)
        ensures
            r@ == self@.esc_buf,
    {
        &self.esc_buf
    }

    /// The parser's state, read off the escape sequence pending.
    pub fn parser_state(&self) -> (r: ParserState)
        requires
            self.wf(),
        ensures
            (r == ParserState::Ground) == is_ground(self@.esc_buf),
            (r == ParserState::Escape) == is_escape(self@.esc_buf),
            (r == ParserState::Csi) == is_csi(self@.esc_buf),
    {
        if self.esc_buf.len() == 0 {
            ParserState::Ground
        } else if self.esc_buf.len() == 1 {
            ParserState::Escape
        } else {
            ParserState::Csi
        }
    }

    /// The cursor of the shown screen, `(column, row)`.
    pub fn cursor(&self) -> (r: (usize, usize))
        requires
            self.wf(),
        ensures
            r.0 == self@.active().cx,
            r.1 == self@.active().cy,
    {
        self.active().cursor()
    }

    /// The byte in cell `(x, y)` of the shown screen.
    pub fn get_cell(&self, x: usize, y: usize) -> (r: u8)
        requires
            self.wf(),
            x < self@.active().width,
            y < self@.active().height,
        ensures
            r == self@.active().cell(x as int, y as int),
    {
        self.active().get_cell(x, y)
    }

    /// The size of the drawing surface in pixels.
    pub fn pixel_size(&self) -> (r: (u64, u64))
        requires
            self.wf(),
        ensures
            r.0 == self@.primary.width * FONT_WIDTH,
            r.1 == self@.primary.height * FONT_HEIGHT,
    {
        (self.size.0 as u64 * FONT_WIDTH, self.size.1 as u64 * FONT_HEIGHT)
    }

    /// What to draw for the shown screen: one glyph per cell in row-major
    /// order, then the cursor mark.
    pub fn render(&self) -> (r: Vec<Glyph>)
        requires
            self.wf(),
        ensures
            r@.len() == self@.active().cells.len() + 1,
            forall|x: int, y: int|
                0 <= x < self@.active().width && 0 <= y < self@.active().height
                    ==> #[trigger] r@[self@.active().index(x, y)] == cell_glyph(self@.active().cell(x, y), x, y),
            r@[self@.active().cells.len() as int] == cursor_glyph(self@.active().cx as int, self@.active().cy as int),
    {
        let scr = self.active();
        let (cells, cursor) = scr.snapshot();
        let w = scr.width();
        let h = scr.height();
        let ghost m = scr@;
        let len = cells.len();
        let mut out: Vec<Glyph> = Vec::new();
        let mut y: usize = 0;
        while y < h
            invariant
                m == self@.active(),
                m.wf(),
                w == m.width,
                h == m.height,
                cells@ == m.cells,
                len == cells@.len(),
                y <= h,
                out@.len() == y * w,
                forall|xx: int, yy: int|
                    0 <= xx < w && 0 <= yy < y ==> #[trigger] out@[m.index(xx, yy)] == cell_glyph(m.cell(xx, yy), xx, yy),
            decreases h - y,
        {
            let mut x: usize = 0;
            proof {
                lemma_index_in_grid(0, y as int, w as int, h as int);
            }
            while x < w
                invariant
                    m == self@.active(),
                    m.wf(),
                    w == m.width,
                    h == m.height,
                    cells@ == m.cells,
                    len == cells@.len(),
                    y < h,
                    x <= w,
                    out@.len() == y * w + x,
                    forall|xx: int, yy: int|
                        0 <= xx < w && 0 <= yy < y ==> #[trigger] out@[m.index(xx, yy)] == cell_glyph(m.cell(xx, yy), xx, yy),
                    forall|xx: int| 0 <= xx < x ==> #[trigger] out@[m.index(xx, y as int)] == cell_glyph(m.cell(xx, y as int), xx, y as int),
                decreases w - x,
            {
                proof {
                    lemma_index_in_grid(x as int, y as int, w as int, h as int);
                }
                let at = y * w + x;
                let g = Glyph { ch: cells[at], x: x as u64 * FONT_WIDTH, y: y as u64 * FONT_HEIGHT, is_cursor: false };
                let ghost before = out@;
                out.push(g);
                proof {
                    assert forall|xx: int, yy: int|
                        0 <= xx < w && 0 <= yy < y implies #[trigger] out@[m.index(xx, yy)] == cell_glyph(m.cell(xx, yy), xx, yy) by {
                        lemma_index_in_grid(xx, yy, w as int, y as int);
                        assert(w * y == y * w) by (nonlinear_arith);
                        assert(out@[m.index(xx, yy)] == before[m.index(xx, yy)]);
                    }
                    assert forall|xx: int| 0 <= xx < x + 1 implies #[trigger] out@[m.index(xx, y as int)] == cell_glyph(m.cell(xx, y as int), xx, y as int) by {
                        if xx < x {
                            assert(out@[m.index(xx, y as int)] == before[m.index(xx, y as int)]);
                        }
                    }
                }
                x = x + 1;
            }
            proof {
                assert(y * w + w == (y + 1) * w) by (nonlinear_arith);
            }
            y = y + 1;
        }
        proof {
            assert(out@.len() == m.cells.len()) by (nonlinear_arith)
                requires
                    out@.len() == h * w,
                    m.cells.len() == w * h,
            ;
        }
        let ghost before = out@;
        out.push(Glyph { ch: CURSOR_GLYPH, x: cursor.0 as u64 * FONT_WIDTH, y: cursor.1 as u64 * FONT_HEIGHT, is_cursor: true });
        proof {
            assert forall|xx: int, yy: int|
                0 <= xx < w && 0 <= yy < h implies #[trigger] out@[m.index(xx, yy)] == cell_glyph(m.cell(xx, yy), xx, yy) by {
                lemma_index_in_grid(xx, yy, w as int, h as int);
                assert(out@[m.index(xx, yy)] == before[m.index(xx, yy)]);
            }
        }
        out
    }

    fn move_active(&mut self, dx: i32, dy: i32, absolute: bool)
        requires
            old(self).wf(),
        ensures
            final(self).wf(),
            final(self)@ == old(self)@.with_active(old(self)@.active().move_cursor(dx as int, dy as int, absolute)),
    {
        if self.sid == 0 {
            self.primary.move_cursor(dx, dy, absolute);
        } else {
            self.alternate.move_cursor(dx, dy, absolute);
        }
    }

    fn erase_display_active(&mut self, mode: u32)
        requires
            old(self).wf(),
        ensures
            final(self).wf(),
            final(self)@ == old(self)@.with_active(old(self)@.active().erase_display(mode as int)),
    {
        if self.sid == 0 {
            self.primary.erase_display(mode);
        } else {
            self.alternate.erase_display(mode);
        }
    }

    fn erase_line_active(&mut self, mode: u32)
        requires
            old(self).wf(),
        ensures
            final(self).wf(),
            final(self)@ == old(self)@.with_active(old(self)@.active().erase_line(mode as int)),
    {
        if self.sid == 0 {
            self.primary.erase_line(mode);
        } else {
            self.alternate.erase_line(mode);
        }
    }

    fn write_active(&mut self, ch: u8)
        requires
            old(self).wf(),
        ensures
            final(self).wf(),
            final(self)@ == old(self)@.with_active(old(self)@.active().write_char(ch, true)),
    {
        if self.sid == 0 {
            self.primary.write_char(ch, true);
        } else {
            self.alternate.write_char(ch, true);
        }
    }
}

} // verus!
