//! The cursor of the console drawn with the 6x10 font of
//! `embedded_graphics`; the glyphs themselves are drawn by that crate.
use vstd::prelude::*;

verus! {

/// Calls `embedded_graphics::mono_font::ascii::FONT_6X10.character_size`;
/// the crate's source defines it as `Size::new(6, 10)`.
#[verifier::external_body]
fn font_6x10_character_size() -> (r: (u32, u32))
    ensures
        r == (6u32, 10u32),
{
    let size = embedded_graphics::mono_font::ascii::FONT_6X10.character_size;
    (size.width, size.height)
}

/// Where the next character goes from cursor (`x`, `y`) on a display
/// `width` pixels wide: there, or at the start of the next line when it
/// would reach the right edge. The width is read as an `i32`.
pub open spec fn text_cell(x: int, y: int, cw: int, ch: int, width: usize) -> (int, int) {
    if x + cw >= (width as i32) {
        (0, y + ch)
    } else {
        (x, y)
    }
}

/// The cursor after one character from (`x`, `y`).
pub open spec fn text_step(x: int, y: int, cw: int, chh: int, width: usize, c: char) -> (int, int) {
    if c == '\n' {
        (0, y + chh)
    } else {
        let (px, py) = text_cell(x, y, cw, chh, width);
        (px + cw, py)
    }
}

/// The cursor after the characters `s` from (`x0`, `y0`).
pub open spec fn text_cursor_after(x0: int, y0: int, cw: int, chh: int, width: usize, s: Seq<char>) -> (int, int)
    decreases s.len(),
{
    if s.len() == 0 {
        (x0, y0)
    } else {
        let (x, y) = text_cursor_after(x0, y0, cw, chh, width, s.drop_last());
        text_step(x, y, cw, chh, width, s.last())
    }
}

/// Where each character of `s` other than a line feed is drawn, in order.
pub open spec fn text_draws(x0: int, y0: int, cw: int, chh: int, width: usize, s: Seq<char>) -> Seq<(i32, i32, char)>
    decreases s.len(),
{
    if s.len() == 0 {
        Seq::empty()
    } else {
        let before = text_draws(x0, y0, cw, chh, width, s.drop_last());
        if s.last() == '\n' {
            before
        } else {
            let (x, y) = text_cursor_after(x0, y0, cw, chh, width, s.drop_last());
            let (px, py) = text_cell(x, y, cw, chh, width);
            before.push((px as i32, py as i32, s.last()))
        }
    }
}

/// Every step of writing `s` keeps the cursor arithmetic within `i32`.
pub open spec fn text_steps_fit(x0: int, y0: int, cw: int, chh: int, width: usize, s: Seq<char>) -> bool {
    forall|k: int| 0 <= k < s.len() ==> {
        let (x, y) = #[trigger] text_cursor_after(x0, y0, cw, chh, width, s.subrange(0, k));
        x + cw <= i32::MAX && y + chh <= i32::MAX
    }
}

/// A text console on the display, with a cursor and the font's cell size.
#[derive(PartialEq, Eq, Structural, Clone, Copy, Debug)]
pub struct DisplayConsole {
    cursor_x: i32,
    cursor_y: i32,
    char_width: u32,
    char_height: u32,
}

impl DisplayConsole {
    pub closed spec fn spec_cursor(&self) -> (int, int) {
        (self.cursor_x as int, self.cursor_y as int)
    }

    pub closed spec fn spec_cell(&self) -> (int, int) {
        (self.char_width as int, self.char_height as int)
    }

    /// Where the next character would be drawn, before any line break.
    pub fn cursor(&self) -> (r: (i32, i32))
        ensures
            (r.0 as int, r.1 as int) == self.spec_cursor(),
    {
        (self.cursor_x, self.cursor_y)
    }

    /// The width and height of a character cell.
    pub fn cell(&self) -> (r: (u32, u32))
        ensures
            (r.0 as int, r.1 as int) == self.spec_cell(),
    {
        (self.char_width, self.char_height)
    }

    /// Moves the cursor to the start of the next text line.
    pub fn new_line(&mut self)
        requires
            old(self).spec_cursor().1 + old(self).spec_cell().1 <= i32::MAX,
            old(self).spec_cell().1 <= i32::MAX,
        ensures
            final(self).spec_cell() == old(self).spec_cell(),
            final(self).spec_cursor() == (0int, old(self).spec_cursor().1 + old(self).spec_cell().1),
    {
        self.cursor_x = 0;
        self.cursor_y = self.cursor_y + self.char_height as i32;
    }

    /// Moves the cursor over one character on a display `display_width`
    /// pixels wide, first to the next line when the character would reach
    /// the right edge. Returns where the character is to be drawn.
    pub fn write_char(&mut self, display_width: usize) -> (r: (i32, i32))
        requires
            old(self).spec_cell().0 <= i32::MAX,
            old(self).spec_cell().1 <= i32::MAX,
            old(self).spec_cursor().0 + old(self).spec_cell().0 <= i32::MAX,
            old(self).spec_cursor().1 + old(self).spec_cell().1 <= i32::MAX,
        ensures
            ({
                let (cw, chh) = old(self).spec_cell();
                let (x, y) = old(self).spec_cursor();
                let (px, py) = text_cell(x, y, cw, chh, display_width);
                &&& (r.0 as int, r.1 as int) == (px, py)
                &&& final(self).spec_cell() == old(self).spec_cell()
                &&& final(self).spec_cursor() == (px + cw, py)
            }),
    {
        if self.cursor_x + (self.char_width as i32) >= display_width as i32 {
            self.new_line();
        }
        let pos = (self.cursor_x, self.cursor_y);
        self.cursor_x = self.cursor_x + self.char_width as i32;
        pos
    }

    /// Moves the cursor over the characters of `s` in order: a line feed
    /// moves to the next line, any other character as `write_char` does.
    /// Returns where each character other than a line feed is to be drawn.
    pub fn write_str(&mut self, display_width: usize, s: &[char]) -> (draws: Vec<(i32, i32, char)>)
        requires
            old(self).spec_cell().0 <= i32::MAX,
            old(self).spec_cell().1 <= i32::MAX,
            text_steps_fit(old(self).spec_cursor().0, old(self).spec_cursor().1, old(self).spec_cell().0, old(self).spec_cell().1, display_width, s@),
        ensures
            final(self).spec_cell() == old(self).spec_cell(),
            final(self).spec_cursor() == text_cursor_after(old(self).spec_cursor().0, old(self).spec_cursor().1, old(self).spec_cell().0, old(self).spec_cell().1, display_width, s@),
            draws@ == text_draws(old(self).spec_cursor().0, old(self).spec_cursor().1, old(self).spec_cell().0, old(self).spec_cell().1, display_width, s@),
    {
        let ghost (x0, y0) = self.spec_cursor();
        let ghost (cw, chh) = self.spec_cell();
        let mut draws: Vec<(i32, i32, char)> = Vec::new();
        let mut k: usize = 0;
        while k < s.len()
            invariant
                k <= s@.len(),
                self.spec_cell() == (cw, chh),
                cw == old(self).spec_cell().0,
                chh == old(self).spec_cell().1,
                x0 == old(self).spec_cursor().0,
                y0 == old(self).spec_cursor().1,
                cw <= i32::MAX,
                chh <= i32::MAX,
                text_steps_fit(x0, y0, cw, chh, display_width, s@),
                self.spec_cursor() == text_cursor_after(x0, y0, cw, chh, display_width, s@.subrange(0, k as int)),
                draws@ == text_draws(x0, y0, cw, chh, display_width, s@.subrange(0, k as int)),
            decreases s@.len() - k,
        {
            let c = s[k];
            proof {
                assert(s@.subrange(0, k + 1).drop_last() =~= s@.subrange(0, k as int));
                let _ = text_cursor_after(x0, y0, cw, chh, display_width, s@.subrange(0, k as int));
            }
            if c == '\n' {
                self.new_line();
            } else {
                let (x, y) = self.write_char(display_width);
                draws.push((x, y, c));
            }
            k = k + 1;
        }
        proof {
            assert(s@.subrange(0, k as int) =~= s@);
        }
        draws
    }
}

impl Default for DisplayConsole {
    /// A console with its cursor at the top left, in the 6x10 font.
    fn default() -> (c: DisplayConsole)
        ensures
            c.spec_cursor() == (0int, 0int),
            c.spec_cell() == (6int, 10int),
    {
        let (w, h) = font_6x10_character_size();
        DisplayConsole { cursor_x: 0, cursor_y: 0, char_width: w, char_height: h }
    }
}

} // verus!
