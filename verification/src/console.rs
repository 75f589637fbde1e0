//! The scrolling text console: a cursor, a fixed ring of line buffers, and
//! full-row repaint on overflow. Its whole behaviour — characters kept,
//! cursor moves, and every pixel drawn — is stated by the spec transitions
//! below and proved of the executable operations.

use vstd::prelude::*;

use crate::font::{glyph_in_font, glyph_of, render_glyph, write_ascii_at};
use crate::graphics::{render_rect, FrameBuffer, PixelColor, PixelFormat};
use crate::lines::{line_byte_len, line_chars, line_clone, line_new, line_push, line_to_chars,
    lemma_utf8_len_of_ge_len, utf8_len, utf8_len_of};

verus! {

/// Number of visible text rows.
pub const MAX_LINE: usize = 30;

/// Capacity of one line buffer, in UTF-8 bytes.
pub const MAX_LINE_WIDTH: usize = 80;

/// Left margin of the text area, in pixels.
pub const LEFT_MARGIN: u32 = 8;

/// Top margin of the text area, in pixels.
pub const TOP_MARGIN: u32 = 8;

/// Leftmost pixel column of text cell column `x`.
pub open spec fn glyph_x(x: int) -> int {
    8 + 8 * x
}

/// Topmost pixel row of text cell row `y`.
pub open spec fn glyph_y(y: int) -> int {
    8 + 16 * y
}

/// What never changes while a console runs: the frame buffer's layout, the
/// font blob, and the two colors.
pub ghost struct ConsoleParams {
    pub stride: int,
    pub fmt: PixelFormat,
    pub font: Seq<u8>,
    pub text_color: PixelColor,
    pub fill_color: PixelColor,
}

/// What a console holds at one moment: the cursor cell, the characters of
/// each visible row, and the pixel bytes.
pub ghost struct ConsoleView {
    pub x: int,
    pub y: int,
    pub lines: Seq<Seq<char>>,
    pub fb: Seq<u8>,
}

/// Append one printable character: its glyph is blitted at the cursor cell,
/// the character joins the current row's buffer, and the column advances.
pub open spec fn put_char(p: ConsoleParams, v: ConsoleView, c: char) -> ConsoleView {
    ConsoleView {
        x: v.x + 1,
        y: v.y,
        lines: v.lines.update(v.y, v.lines[v.y].push(c)),
        fb: render_glyph(
            v.fb,
            p.stride,
            p.fmt,
            glyph_x(v.x),
            glyph_y(v.y),
            glyph_of(p.font, c),
            p.text_color,
        ),
    }
}

/// Every row takes the next row's text; the last row becomes empty.
pub open spec fn scroll_lines(ls: Seq<Seq<char>>) -> Seq<Seq<char>> {
    Seq::new(
        ls.len(),
        |i: int|
            if i == ls.len() - 1 {
                Seq::<char>::empty()
            } else {
                ls[i + 1]
            },
    )
}

/// Row `row`'s pixel band cleared to the fill color.
pub open spec fn fill_row_fb(p: ConsoleParams, fb: Seq<u8>, row: int) -> Seq<u8> {
    render_rect(fb, p.stride, p.fmt, 8, glyph_y(row), 640, 16, p.fill_color)
}

/// The first `k` characters of `cs` rendered left to right in row `row`,
/// starting at text column `x`.
pub open spec fn render_text_at(
    p: ConsoleParams,
    fb: Seq<u8>,
    row: int,
    x: int,
    cs: Seq<char>,
    k: int,
) -> Seq<u8>
    decreases k,
{
    if k <= 0 {
        fb
    } else {
        render_glyph(
            render_text_at(p, fb, row, x, cs, k - 1),
            p.stride,
            p.fmt,
            glyph_x(x + k - 1),
            glyph_y(row),
            glyph_of(p.font, cs[k - 1]),
            p.text_color,
        )
    }
}

/// Row `row` cleared to the fill color and repainted with text `cs`.
pub open spec fn repaint_row(p: ConsoleParams, fb: Seq<u8>, row: int, cs: Seq<char>) -> Seq<u8> {
    render_text_at(p, fill_row_fb(p, fb, row), row, 0, cs, cs.len() as int)
}

/// The first `n` rows repainted with their (new) text, top to bottom.
pub open spec fn repaint_rows(
    p: ConsoleParams,
    fb: Seq<u8>,
    lines: Seq<Seq<char>>,
    n: int,
) -> Seq<u8>
    decreases n,
{
    if n <= 0 {
        fb
    } else {
        repaint_row(p, repaint_rows(p, fb, lines, n - 1), n - 1, lines[n - 1])
    }
}

/// A line break: the column resets to zero. While rows remain the cursor
/// moves down and no pixel changes; on the last row every line shifts up,
/// the last row empties, and all rows are repainted.
pub open spec fn newline(p: ConsoleParams, v: ConsoleView) -> ConsoleView {
    if v.y + 1 < MAX_LINE {
        ConsoleView { x: 0, y: v.y + 1, lines: v.lines, fb: v.fb }
    } else {
        let ls = scroll_lines(v.lines);
        ConsoleView {
            x: 0,
            y: MAX_LINE - 1,
            lines: ls,
            fb: repaint_rows(p, v.fb, ls, MAX_LINE as int),
        }
    }
}

/// One character of console input: a line break performs `newline`, any
/// other character is appended at the cursor.
pub open spec fn step_char(p: ConsoleParams, v: ConsoleView, c: char) -> ConsoleView {
    if c == '\n' {
        newline(p, v)
    } else {
        put_char(p, v, c)
    }
}

/// The console accepts `c` in state `v`: a line break always, any other
/// character when the font has its glyph and the current row's buffer has
/// room for its bytes.
pub open spec fn step_ok(p: ConsoleParams, v: ConsoleView, c: char) -> bool {
    c == '\n' || (glyph_in_font(p.font, c) && utf8_len_of(v.lines[v.y]) + utf8_len(c) <= 80)
}

/// The state after writing all of `s`, character by character.
pub open spec fn write_seq(p: ConsoleParams, v: ConsoleView, s: Seq<char>) -> ConsoleView
    decreases s.len(),
{
    if s.len() == 0 {
        v
    } else {
        write_seq(p, step_char(p, v, s[0]), s.subrange(1, s.len() as int))
    }
}

/// The console accepts every character of `s` in turn.
pub open spec fn write_ok(p: ConsoleParams, v: ConsoleView, s: Seq<char>) -> bool
    decreases s.len(),
{
    if s.len() == 0 {
        true
    } else {
        step_ok(p, v, s[0]) && write_ok(p, step_char(p, v, s[0]), s.subrange(1, s.len() as int))
    }
}

/// The console: cursor cell, one bounded text buffer per visible row, and
/// the frame buffer and font it draws with.
pub struct Console {
    cursor_x: usize,
    cursor_y: usize,
    line_buffer: Vec<heapless::String<80>>,
    frame_buffer: FrameBuffer,
    font: Vec<u8>,
    text_color: PixelColor,
    fill_color: PixelColor,
}

impl View for Console {
    type V = ConsoleView;

    closed spec fn view(&self) -> ConsoleView {
        ConsoleView {
            x: self.cursor_x as int,
            y: self.cursor_y as int,
            lines: Seq::new(self.line_buffer@.len(), |i: int| line_chars(self.line_buffer@[i])),
            fb: self.frame_buffer.contents(),
        }
    }
}

impl Console {
    pub closed spec fn params(&self) -> ConsoleParams {
        ConsoleParams {
            stride: self.frame_buffer.stride(),
            fmt: self.frame_buffer.config.pixel_format,
            font: self.font@,
            text_color: self.text_color,
            fill_color: self.fill_color,
        }
    }

    pub closed spec fn config(&self) -> crate::graphics::FrameBufferConfig {
        self.frame_buffer.config
    }

    /// The console's invariant: the ring holds one buffer per row, the
    /// cursor is inside the grid and at the end of its row's text, rows
    /// below the cursor are empty, every buffered character has a glyph,
    /// each buffer's byte count is the encoding of its characters, and the
    /// text area fits the visible resolution.
    pub closed spec fn wf(&self) -> bool {
        &&& self.line_buffer@.len() == MAX_LINE
        &&& self.cursor_y < MAX_LINE
        &&& self.frame_buffer.wf()
        &&& self.frame_buffer.hres() >= 8 + 8 * 80
        &&& self.frame_buffer.vres() >= 8 + 16 * 30
        &&& forall|i: int|
            0 <= i < MAX_LINE ==> line_byte_len(#[trigger] self.line_buffer@[i]) == utf8_len_of(
                line_chars(self.line_buffer@[i]),
            )
        &&& forall|i: int|
            0 <= i < MAX_LINE ==> line_byte_len(#[trigger] self.line_buffer@[i]) <= 80
        &&& self.cursor_x == line_chars(self.line_buffer@[self.cursor_y as int]).len()
        &&& forall|i: int|
            self.cursor_y < i < MAX_LINE ==> line_chars(#[trigger] self.line_buffer@[i]).len()
                == 0
        &&& forall|i: int, j: int|
            0 <= i < MAX_LINE && 0 <= j < line_chars(self.line_buffer@[i]).len()
                ==> glyph_in_font(self.font@, #[trigger] line_chars(self.line_buffer@[i])[j])
    }

    /// A fresh console over a frame buffer and a font: cursor at the
    /// origin, every row empty, no pixel touched.
    pub fn new(
        frame_buffer: FrameBuffer,
        font: Vec<u8>,
        text_color: PixelColor,
        fill_color: PixelColor,
    ) -> (r: Console)
        requires
            frame_buffer.wf(),
            frame_buffer.hres() >= 8 + 8 * 80,
            frame_buffer.vres() >= 8 + 16 * 30,
        ensures
            r.wf(),
            r@.x == 0,
            r@.y == 0,
            r@.lines =~= Seq::new(MAX_LINE as nat, |i: int| Seq::<char>::empty()),
            r@.fb == frame_buffer.contents(),
            r.params() == (ConsoleParams {
                stride: frame_buffer.stride(),
                fmt: frame_buffer.config.pixel_format,
                font: font@,
                text_color: text_color,
                fill_color: fill_color,
            }),
            r.config() == frame_buffer.config,
    {
        let mut line_buffer: Vec<heapless::String<80>> = Vec::new();
        let mut i: usize = 0;
        while i < MAX_LINE
            invariant
                i <= MAX_LINE,
                line_buffer@.len() == i,
                forall|j: int|
                    0 <= j < i ==> line_chars(#[trigger] line_buffer@[j]) == Seq::<char>::empty()
                        && line_byte_len(line_buffer@[j]) == 0,
            decreases MAX_LINE - i,
        {
            line_buffer.push(line_new());
            i = i + 1;
        }
        Console { cursor_x: 0, cursor_y: 0, line_buffer, frame_buffer, font, text_color, fill_color }
    }

    pub fn cursor_x(&self) -> (r: usize)
        ensures
            r == self@.x,
    {
        self.cursor_x
    }

    pub fn cursor_y(&self) -> (r: usize)
        ensures
            r == self@.y,
    {
        self.cursor_y
    }

    /// The characters of visible row `i`.
    pub fn line(&self, i: usize) -> (r: Vec<char>)
        requires
            self.wf(),
            i < MAX_LINE,
        ensures
            r@ == self@.lines[i as int],
    {
        line_to_chars(&self.line_buffer[i])
    }

    /// The pixel memory the console draws into.
    pub fn frame_buffer(&self) -> (r: &FrameBuffer)
        ensures
            r.contents() == self@.fb,
            r.config == self.config(),
    {
        &self.frame_buffer
    }

    /// Clear row `y`'s pixel band to the fill color, then draw `chars` into
    /// it left to right from text column `x`. Only the frame buffer
    /// changes.
    fn write_raw_string(&mut self, chars: &Vec<char>, x: usize, y: usize)
        requires
            old(self).frame_buffer.wf(),
            old(self).frame_buffer.hres() >= 8 + 8 * 80,
            old(self).frame_buffer.vres() >= 8 + 16 * 30,
            y < MAX_LINE,
            x + chars@.len() <= MAX_LINE_WIDTH,
            forall|j: int| 0 <= j < chars@.len() ==> glyph_in_font(old(self).font@, chars@[j]),
        ensures
            final(self).frame_buffer.wf(),
            final(self).cursor_x == old(self).cursor_x,
            final(self).cursor_y == old(self).cursor_y,
            final(self).line_buffer == old(self).line_buffer,
            final(self).font == old(self).font,
            final(self).text_color == old(self).text_color,
            final(self).fill_color == old(self).fill_color,
            final(self).config() == old(self).config(),
            final(self)@.fb =~= render_text_at(
                old(self).params(),
                fill_row_fb(old(self).params(), old(self)@.fb, y as int),
                y as int,
                x as int,
                chars@,
                chars@.len() as int,
            ),
    {
        let ghost p = self.params();
        self.frame_buffer.fill_rectangle(8, 8 + 16 * (y as u32), 8 * 80, 16, self.fill_color);
        proof {
            assert(self.frame_buffer.contents() =~= fill_row_fb(p, old(self)@.fb, y as int));
        }
        let ghost base = self.frame_buffer.contents();
        let mut j: usize = 0;
        while j < chars.len()
            invariant
                j <= chars@.len(),
                x + chars@.len() <= MAX_LINE_WIDTH,
                y < MAX_LINE,
                forall|k: int| 0 <= k < chars@.len() ==> glyph_in_font(self.font@, chars@[k]),
                self.frame_buffer.wf(),
                self.frame_buffer.hres() >= 8 + 8 * 80,
                self.frame_buffer.vres() >= 8 + 16 * 30,
                self.cursor_x == old(self).cursor_x,
                self.cursor_y == old(self).cursor_y,
                self.line_buffer == old(self).line_buffer,
                self.font == old(self).font,
                self.text_color == old(self).text_color,
                self.fill_color == old(self).fill_color,
                self.config() == old(self).config(),
                p == self.params(),
                p == old(self).params(),
                base == fill_row_fb(p, old(self)@.fb, y as int),
                self.frame_buffer.contents() =~= render_text_at(p, base, y as int, x as int,
                    chars@, j as int),
            decreases chars@.len() - j,
        {
            let gx = LEFT_MARGIN + 8 * ((x + j) as u32);
            let gy = TOP_MARGIN + 16 * (y as u32);
            let _r = write_ascii_at(&mut self.frame_buffer, gx, gy, chars[j], &self.font,
                self.text_color);
            j = j + 1;
        }
    }

    /// Reset the column and advance the row; when the cursor sits on the
    /// last row, scroll instead: shift every row's text up one row, empty
    /// the last row, and repaint all rows.
    pub fn new_line(&mut self)
        requires
            old(self).wf(),
        ensures
            final(self).wf(),
            final(self).params() == old(self).params(),
            final(self).config() == old(self).config(),
            final(self)@ == newline(old(self).params(), old(self)@),
    {
        let ghost p = self.params();
        let ghost v0 = self@;
        self.cursor_x = 0;
        if self.cursor_y + 1 < MAX_LINE {
            self.cursor_y = self.cursor_y + 1;
            proof {
                assert(self@ == newline(p, v0));
            }
        } else {
            let ghost ls = scroll_lines(v0.lines);
            let mut i: usize = 0;
            while i < MAX_LINE
                invariant
                    i <= MAX_LINE,
                    self.cursor_x == 0,
                    self.cursor_y == MAX_LINE - 1,
                    self.line_buffer@.len() == MAX_LINE,
                    self.frame_buffer.wf(),
                    self.frame_buffer.hres() >= 8 + 8 * 80,
                    self.frame_buffer.vres() >= 8 + 16 * 30,
                    p == self.params(),
                    self.config() == old(self).config(),
                    self.font == old(self).font,
                    v0 == old(self)@,
                    p == old(self).params(),
                    ls == scroll_lines(v0.lines),
                    v0.lines.len() == MAX_LINE,
                    // rows before i hold the scrolled text, the rest still
                    // hold the old text
                    forall|j: int|
                        0 <= j < i ==> line_chars(#[trigger] self.line_buffer@[j]) == ls[j],
                    forall|j: int|
                        i <= j < MAX_LINE ==> #[trigger] self.line_buffer@[j]
                            == old(self).line_buffer@[j],
                    forall|j: int|
                        0 <= j < MAX_LINE ==> line_byte_len(#[trigger] self.line_buffer@[j])
                            == utf8_len_of(line_chars(self.line_buffer@[j])) && line_byte_len(
                            self.line_buffer@[j],
                        ) <= 80,
                    forall|j: int, k: int|
                        0 <= j < MAX_LINE && 0 <= k < line_chars(self.line_buffer@[j]).len()
                            ==> glyph_in_font(self.font@, #[trigger] line_chars(
                            self.line_buffer@[j],
                        )[k]),
                    self.frame_buffer.contents() =~= repaint_rows(p, v0.fb, ls, i as int),
                decreases MAX_LINE - i,
            {
                let nb = if i + 1 == MAX_LINE {
                    line_new()
                } else {
                    line_clone(&self.line_buffer[i + 1])
                };
                proof {
                    if i + 1 < MAX_LINE {
                        assert(self.line_buffer@[i as int + 1] == old(self).line_buffer@[i as int
                            + 1]);
                        assert(v0.lines[i as int + 1] == line_chars(old(self).line_buffer@[i as int
                            + 1]));
                        assert(ls[i as int] == v0.lines[i as int + 1]);
                    } else {
                        assert(ls[i as int] =~= Seq::<char>::empty());
                    }
                    assert(line_chars(nb) == ls[i as int]);
                }
                self.line_buffer.set(i, nb);
                let chars = line_to_chars(&self.line_buffer[i]);
                proof {
                    lemma_utf8_len_of_ge_len(chars@);
                }
                self.write_raw_string(&chars, 0, i);
                proof {
                    assert(self.frame_buffer.contents() =~= repaint_row(p, repaint_rows(p, v0.fb,
                        ls, i as int), i as int, ls[i as int]));
                    assert(self.frame_buffer.contents() =~= repaint_rows(p, v0.fb, ls,
                        i as int + 1));
                }
                i = i + 1;
            }
            proof {
                assert(self@.lines =~= ls);
                assert(self@ == newline(p, v0));
                assert(line_chars(self.line_buffer@[MAX_LINE - 1]).len() == 0);
            }
        }
    }

    /// Write one character: a line break performs `new_line` and draws
    /// nothing for itself; any other character's glyph is drawn at the
    /// cursor cell, the character is appended to the current row, and the
    /// column advances.
    pub fn write_char(&mut self, c: char)
        requires
            old(self).wf(),
            step_ok(old(self).params(), old(self)@, c),
        ensures
            final(self).wf(),
            final(self).params() == old(self).params(),
            final(self).config() == old(self).config(),
            final(self)@ == step_char(old(self).params(), old(self)@, c),
    {
        let ghost p = self.params();
        let ghost v0 = self@;
        if c == '\n' {
            self.new_line();
        } else {
            proof {
                lemma_utf8_len_of_ge_len(line_chars(self.line_buffer@[self.cursor_y as int]));
            }
            let gx = LEFT_MARGIN + 8 * (self.cursor_x as u32);
            let gy = TOP_MARGIN + 16 * (self.cursor_y as u32);
            let _r = write_ascii_at(&mut self.frame_buffer, gx, gy, c, &self.font,
                self.text_color);
            let mut buf = line_clone(&self.line_buffer[self.cursor_y]);
            let _pr = line_push(&mut buf, c);
            proof {
                crate::lines::lemma_utf8_len_of_push(v0.lines[v0.y], c);
            }
            self.line_buffer.set(self.cursor_y, buf);
            self.cursor_x = self.cursor_x + 1;
            proof {
                assert(self@.lines =~= v0.lines.update(v0.y, v0.lines[v0.y].push(c)));
                assert(self@ == put_char(p, v0, c));
                assert forall|i: int, j: int|
                    0 <= i < MAX_LINE && 0 <= j < line_chars(self.line_buffer@[i]).len() implies
                    glyph_in_font(self.font@, #[trigger] line_chars(self.line_buffer@[i])[j]) by {
                    if i == v0.y {
                        assert(line_chars(self.line_buffer@[i]) == v0.lines[v0.y].push(c));
                        if j < v0.lines[v0.y].len() {
                            assert(line_chars(old(self).line_buffer@[i])[j] == v0.lines[v0.y][j]);
                        }
                    } else {
                        assert(self.line_buffer@[i] == old(self).line_buffer@[i]);
                    }
                }
            }
        }
    }

    /// Write a string: each character in turn, as `write_char` does.
    pub fn write_string(&mut self, s: &str)
        requires
            old(self).wf(),
            write_ok(old(self).params(), old(self)@, s@),
        ensures
            final(self).wf(),
            final(self).params() == old(self).params(),
            final(self).config() == old(self).config(),
            final(self)@ == write_seq(old(self).params(), old(self)@, s@),
    {
        let ghost p = self.params();
        let ghost v0 = self@;
        proof {
            assert(s@.skip(0) =~= s@);
            assert(s@.take(0) =~= Seq::<char>::empty());
        }
        let n = s.unicode_len();
        let mut i: usize = 0;
        while i < n
            invariant
                i <= n,
                n == s@.len(),
                self.wf(),
                p == self.params(),
                p == old(self).params(),
                v0 == old(self)@,
                self.config() == old(self).config(),
                self@ == write_seq(p, v0, s@.take(i as int)),
                write_ok(p, self@, s@.skip(i as int)),
            decreases n - i,
        {
            let c = s.get_char(i);
            proof {
                assert(s@.skip(i as int)[0] == s@[i as int]);
                assert(step_ok(p, self@, c));
            }
            let ghost vcur = self@;
            self.write_char(c);
            proof {
                lemma_write_seq_snoc(p, v0, s@.take(i as int), c);
                assert(s@.take(i as int).push(c) =~= s@.take(i as int + 1));
                assert(s@.skip(i as int).subrange(1, s@.skip(i as int).len() as int) =~= s@.skip(
                    i as int + 1));
            }
            i = i + 1;
        }
        proof {
            assert(s@.take(n as int) =~= s@);
        }
    }
}

/// A line break resets the column to zero and renders no glyph for itself:
/// while the cursor is above the last row, writing it changes neither the
/// pixels nor any line's text.
pub proof fn lemma_line_break(p: ConsoleParams, v: ConsoleView)
    ensures
        step_char(p, v, '\n').x == 0,
        v.y + 1 < MAX_LINE ==> step_char(p, v, '\n') == (ConsoleView {
            x: 0,
            y: v.y + 1,
            lines: v.lines,
            fb: v.fb,
        }),
{
}

/// A text without line breaks lands in the current row: the console
/// accepts it whenever every character has a glyph and the row's remaining
/// byte capacity holds it, and writing it appends it to that row, advances
/// the column by its length, and moves nothing else.
pub proof fn lemma_write_text(p: ConsoleParams, v: ConsoleView, t: Seq<char>)
    requires
        v.lines.len() == MAX_LINE,
        0 <= v.y < MAX_LINE,
        forall|j: int|
            0 <= j < t.len() ==> t[j] != '\n' && glyph_in_font(p.font, #[trigger] t[j]),
        utf8_len_of(v.lines[v.y]) + utf8_len_of(t) <= 80,
        utf8_len_of(t) >= 0,
    ensures
        write_ok(p, v, t),
        write_seq(p, v, t).y == v.y,
        write_seq(p, v, t).x == v.x + t.len(),
        write_seq(p, v, t).lines =~= v.lines.update(v.y, v.lines[v.y] + t),
    decreases t.len(),
{
    if t.len() == 0 {
        assert(v.lines[v.y] + t =~= v.lines[v.y]);
        assert(v.lines.update(v.y, v.lines[v.y]) =~= v.lines);
    } else {
        let c = t[0];
        let rest = t.subrange(1, t.len() as int);
        crate::lines::lemma_utf8_len_of_cons(t);
        assert(utf8_len_of(rest) >= 0) by {
            lemma_utf8_len_of_ge_len(rest);
        }
        assert(utf8_len(c) >= 1);
        assert(step_ok(p, v, c));
        let v1 = step_char(p, v, c);
        assert(v1 == put_char(p, v, c));
        crate::lines::lemma_utf8_len_of_push(v.lines[v.y], c);
        assert(v1.lines[v1.y] == v.lines[v.y].push(c));
        assert(forall|j: int|
            0 <= j < rest.len() ==> rest[j] != '\n' && glyph_in_font(p.font, #[trigger] rest[j]));
        lemma_write_text(p, v1, rest);
        assert(v.lines[v.y].push(c) + rest =~= v.lines[v.y] + t);
        assert(write_seq(p, v, t) == write_seq(p, v1, rest));
        assert(write_seq(p, v1, rest).lines =~= v1.lines.update(v.y, v.lines[v.y] + t));
        assert(v1.lines.update(v.y, v.lines[v.y] + t) =~= v.lines.update(v.y, v.lines[v.y] + t));
    }
}

/// Writing a concatenation is writing the parts one after the other, and
/// it is accepted exactly when each part is accepted from where the
/// previous one left off.
pub proof fn lemma_write_seq_app(p: ConsoleParams, v: ConsoleView, s1: Seq<char>, s2: Seq<char>)
    ensures
        write_seq(p, v, s1 + s2) == write_seq(p, write_seq(p, v, s1), s2),
        write_ok(p, v, s1 + s2) <==> write_ok(p, v, s1) && write_ok(p, write_seq(p, v, s1), s2),
    decreases s1.len(),
{
    if s1.len() == 0 {
        assert(s1 + s2 =~= s2);
    } else {
        assert((s1 + s2)[0] == s1[0]);
        assert((s1 + s2).subrange(1, (s1 + s2).len() as int) =~= s1.subrange(
            1,
            s1.len() as int,
        ) + s2);
        lemma_write_seq_app(p, step_char(p, v, s1[0]), s1.subrange(1, s1.len() as int), s2);
    }
}

/// The text of the first `i` given lines, each followed by one line break.
pub open spec fn lines_text(texts: Seq<Seq<char>>, i: int) -> Seq<char>
    decreases i,
{
    if i <= 0 {
        Seq::empty()
    } else {
        lines_text(texts, i - 1) + texts[i - 1] + seq!['\n']
    }
}

/// A line the console accepts whole: no line break, every character has a
/// glyph, and it fits one row's byte capacity.
pub open spec fn line_text_ok(p: ConsoleParams, t: Seq<char>) -> bool {
    &&& forall|j: int| 0 <= j < t.len() ==> t[j] != '\n' && glyph_in_font(p.font, #[trigger] t[j])
    &&& utf8_len_of(t) <= 80
}

/// The view of a console whose visible rows read `rows`, bottom rows
/// empty.
pub open spec fn grid_of(texts: Seq<Seq<char>>, filled: int) -> Seq<Seq<char>> {
    Seq::new(
        MAX_LINE as nat,
        |r: int|
            if r < filled {
                texts[r]
            } else {
                Seq::<char>::empty()
            },
    )
}

/// Writing `i` whole lines (each with its line break) from a fresh console
/// fills the first rows while they last; the line break off the last row
/// scrolls, so after the row count is exceeded the earliest lines have
/// been evicted. The cursor column is back at zero either way.
pub proof fn lemma_write_lines(p: ConsoleParams, v0: ConsoleView, texts: Seq<Seq<char>>, i: int)
    requires
        0 <= i <= MAX_LINE,
        i <= texts.len(),
        v0.y == 0,
        v0.x == 0,
        v0.lines =~= grid_of(texts, 0),
        forall|k: int| 0 <= k < texts.len() ==> line_text_ok(p, #[trigger] texts[k]),
    ensures
        write_ok(p, v0, lines_text(texts, i)),
        write_seq(p, v0, lines_text(texts, i)).x == 0,
        i < MAX_LINE ==> write_seq(p, v0, lines_text(texts, i)).y == i && write_seq(
            p,
            v0,
            lines_text(texts, i),
        ).lines =~= grid_of(texts, i),
        i == MAX_LINE ==> write_seq(p, v0, lines_text(texts, i)).y == MAX_LINE - 1 && write_seq(
            p,
            v0,
            lines_text(texts, i),
        ).lines =~= grid_of(texts.subrange(1, texts.len() as int), MAX_LINE - 1),
    decreases i,
{
    if i == 0 {
        assert(lines_text(texts, 0) =~= Seq::<char>::empty());
    } else {
        lemma_write_lines(p, v0, texts, i - 1);
        let s_prev = lines_text(texts, i - 1);
        let v_prev = write_seq(p, v0, s_prev);
        let t = texts[i - 1];
        assert(line_text_ok(p, t));
        lemma_utf8_len_of_ge_len(t);
        // the row the line lands in is empty
        assert(v_prev.lines[v_prev.y] =~= Seq::<char>::empty());
        assert(utf8_len_of(v_prev.lines[v_prev.y]) == 0);
        lemma_write_text(p, v_prev, t);
        let v_mid = write_seq(p, v_prev, t);
        assert(step_ok(p, v_mid, '\n'));
        let v_next = step_char(p, v_mid, '\n');
        // one line plus its break extends the fold
        assert(lines_text(texts, i) =~= s_prev + (t + seq!['\n']));
        lemma_write_seq_app(p, v0, s_prev, t + seq!['\n']);
        assert(t + seq!['\n'] =~= t.push('\n'));
        lemma_write_seq_snoc(p, v_prev, t, '\n');
        assert(write_seq(p, v0, lines_text(texts, i)) == v_next);
        assert(write_ok(p, v_prev, t.push('\n'))) by {
            lemma_write_ok_snoc(p, v_prev, t, '\n');
        }
        if i - 1 < MAX_LINE - 1 {
            // the break only moves the cursor down
            assert(v_mid.lines =~= v_prev.lines.update(v_prev.y, t));
            assert(v_next.lines =~= grid_of(texts, i));
        } else {
            // the break off the last row scrolls
            assert(v_mid.lines =~= v_prev.lines.update(v_prev.y, t));
            assert(v_mid.y + 1 == MAX_LINE);
            assert(v_next.lines =~= scroll_lines(v_mid.lines));
            assert(v_next.lines =~= grid_of(texts.subrange(1, texts.len() as int), MAX_LINE - 1));
        }
    }
}

/// Appending an accepted character to an accepted text keeps it accepted.
pub proof fn lemma_write_ok_snoc(p: ConsoleParams, v: ConsoleView, s: Seq<char>, c: char)
    requires
        write_ok(p, v, s),
        step_ok(p, write_seq(p, v, s), c),
    ensures
        write_ok(p, v, s.push(c)),
    decreases s.len(),
{
    if s.len() == 0 {
        assert(s.push(c)[0] == c);
        let e = s.push(c).subrange(1, s.push(c).len() as int);
        assert(e =~= Seq::<char>::empty());
        assert(write_seq(p, v, s) == v);
        assert(write_ok(p, step_char(p, v, c), e));
    } else {
        assert(s.push(c)[0] == s[0]);
        assert(s.push(c).subrange(1, s.push(c).len() as int) =~= s.subrange(
            1,
            s.len() as int,
        ).push(c));
        lemma_write_ok_snoc(p, step_char(p, v, s[0]), s.subrange(1, s.len() as int), c);
    }
}

/// Scrolling evicts only the first line: a fresh console written one more
/// line than it has rows shows the second through last of them, in order,
/// with the newest on the bottom row.
pub proof fn lemma_scroll_evicts_first(p: ConsoleParams, v0: ConsoleView, texts: Seq<Seq<char>>)
    requires
        texts.len() == MAX_LINE + 1,
        v0.y == 0,
        v0.x == 0,
        v0.lines =~= grid_of(texts, 0),
        forall|k: int| 0 <= k < texts.len() ==> line_text_ok(p, #[trigger] texts[k]),
    ensures
        write_ok(p, v0, lines_text(texts, MAX_LINE as int) + texts[MAX_LINE as int]),
        ({
            let last = texts[MAX_LINE as int];
            let end = write_seq(p, v0, lines_text(texts, MAX_LINE as int) + last);
            &&& forall|r: int| 0 <= r < MAX_LINE ==> end.lines[r] == texts[r + 1]
            &&& end.y == MAX_LINE - 1
            &&& end.x == texts[MAX_LINE as int].len()
        }),
{
    lemma_write_lines(p, v0, texts, MAX_LINE as int);
    let s_prev = lines_text(texts, MAX_LINE as int);
    let v_prev = write_seq(p, v0, s_prev);
    let t = texts[MAX_LINE as int];
    lemma_utf8_len_of_ge_len(t);
    assert(v_prev.lines[v_prev.y] =~= Seq::<char>::empty());
    assert(utf8_len_of(v_prev.lines[v_prev.y]) == 0);
    lemma_write_text(p, v_prev, t);
    lemma_write_seq_app(p, v0, s_prev, t);
    let end = write_seq(p, v0, s_prev + t);
    assert(end.lines =~= v_prev.lines.update(v_prev.y, t));
    assert forall|r: int| 0 <= r < MAX_LINE implies end.lines[r] == texts[r + 1] by {
        if r < MAX_LINE - 1 {
            assert(v_prev.lines[r] == texts.subrange(1, texts.len() as int)[r]);
        }
    }
}

/// Writing one more character continues the fold: the state after `s` then
/// `c` is one step from the state after `s`.
pub proof fn lemma_write_seq_snoc(p: ConsoleParams, v: ConsoleView, s: Seq<char>, c: char)
    ensures
        write_seq(p, v, s.push(c)) == step_char(p, write_seq(p, v, s), c),
    decreases s.len(),
{
    if s.len() == 0 {
        assert(s.push(c)[0] == c);
        let e = s.push(c).subrange(1, s.push(c).len() as int);
        assert(e =~= Seq::<char>::empty());
        assert(write_seq(p, step_char(p, v, c), e) == step_char(p, v, c));
        assert(write_seq(p, v, s) == v);
    } else {
        assert(s.push(c)[0] == s[0]);
        assert(s.push(c).subrange(1, s.push(c).len() as int) =~= s.subrange(
            1,
            s.len() as int,
        ).push(c));
        lemma_write_seq_snoc(p, step_char(p, v, s[0]), s.subrange(1, s.len() as int), c);
    }
}

} // verus!
