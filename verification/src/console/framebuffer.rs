//! A text console that draws 8x8 bitmap glyphs straight into the
//! framebuffer bytes.
use vstd::prelude::*;
use crate::display::{FrameBufferInfo, PixelFormat, pixel_fits, with_pixel, write_pixel};

verus! {

/// Glyph width in pixels.
pub const FONT_WIDTH: usize = 8;

/// Glyph height in pixels.
pub const FONT_HEIGHT: usize = 8;

/// The glyph of code point `index` in `font8x8::legacy::BASIC_LEGACY`, one
/// byte per row, bit `i` of a row for column `i`.
pub uninterp spec fn basic_legacy_glyph(index: int) -> Seq<u8>;

/// Calls `font8x8::legacy::BASIC_LEGACY.get(index)`: the crate declares the
/// table as `[[u8; 8]; 128]`, so there is a glyph exactly for indices below
/// 128, and it is the table's entry.
#[verifier::external_body]
fn legacy_glyph(index: usize) -> (r: Option<[u8; 8]>)
    ensures
        (index < 128) == r is Some,
        r matches Some(g) ==> g@ == basic_legacy_glyph(index as int),
{
    font8x8::legacy::BASIC_LEGACY.get(index).copied()
}

/// The colour of glyph pixel (`row`, `col`): white where the glyph's bit is
/// set, black elsewhere.
pub open spec fn glyph_color(glyph: Seq<u8>, row: int, col: int) -> [u8; 3] {
    if (glyph[row] >> (col as u8)) & 1u8 == 1u8 {
        [0xffu8, 0xffu8, 0xffu8]
    } else {
        [0u8, 0u8, 0u8]
    }
}

/// The bytes after drawing the first `k` pixels of `glyph` at (`w`, `h`),
/// row by row, left to right.
pub open spec fn with_glyph(bytes: Seq<u8>, info: FrameBufferInfo, w: int, h: int, glyph: Seq<u8>, k: int) -> Seq<u8>
    decreases k,
{
    if k <= 0 {
        bytes
    } else {
        with_pixel(
            with_glyph(bytes, info, w, h, glyph, k - 1),
            info,
            w + (k - 1) % 8,
            h + (k - 1) / 8,
            glyph_color(glyph, (k - 1) / 8, (k - 1) % 8),
        )
    }
}

/// Every row of the glyph is empty: it draws only black.
pub open spec fn glyph_blank(glyph: Seq<u8>) -> bool {
    forall|row: int| 0 <= row < 8 ==> #[trigger] glyph[row] == 0
}

/// The 8x8 `glyph` fits at (`w`, `h`) in a buffer of `len` bytes: every
/// pixel is in the buffer. In the grey format the glyph must be blank: a
/// white pixel there overflows the byte that holds the channel sum.
pub open spec fn glyph_fits(info: FrameBufferInfo, len: int, w: int, h: int, glyph: Seq<u8>) -> bool {
    &&& (info.pixel_format == PixelFormat::U8 ==> glyph_blank(glyph))
    &&& w + 7 <= usize::MAX
    &&& h + 7 <= usize::MAX
    &&& forall|row: int, col: int| 0 <= row < 8 && 0 <= col < 8 ==> #[trigger] cell_fits(info, len, w, h, row, col)
}

/// Character `ch` can be drawn at (`w`, `h`): it has no glyph, so nothing
/// is drawn, or its glyph fits there.
pub open spec fn char_glyph_fits(info: FrameBufferInfo, len: int, w: int, h: int, ch: char) -> bool {
    (ch as u32) < 128 ==> glyph_fits(info, len, w, h, basic_legacy_glyph(ch as u32 as int))
}

/// Pixel (`col`, `row`) of a glyph at (`w`, `h`) is in the buffer.
pub open spec fn cell_fits(info: FrameBufferInfo, len: int, w: int, h: int, row: int, col: int) -> bool {
    pixel_fits(info, len, w + col, h + row, [0u8, 0u8, 0u8])
}

/// The bytes after `put_char`: the code point's glyph drawn, or nothing for
/// code points past the table.
pub open spec fn with_char(bytes: Seq<u8>, info: FrameBufferInfo, w: int, h: int, ch: char) -> Seq<u8> {
    if (ch as u32) < 128 {
        with_glyph(bytes, info, w, h, basic_legacy_glyph(ch as u32 as int), 64)
    } else {
        bytes
    }
}

/// Every pixel of the screen is in a buffer of `len` bytes.
pub open spec fn screen_fits(info: FrameBufferInfo, len: int) -> bool {
    forall|x: int, y: int| 0 <= x < info.width && 0 <= y < info.height ==> #[trigger] screen_cell_fits(info, len, x, y)
}

pub open spec fn screen_cell_fits(info: FrameBufferInfo, len: int, x: int, y: int) -> bool {
    pixel_fits(info, len, x, y, [0u8, 0u8, 0u8])
}

/// The bytes after painting black the first `n` pixels of the screen in
/// row order.
pub open spec fn with_cleared(bytes: Seq<u8>, info: FrameBufferInfo, n: int) -> Seq<u8>
    decreases n,
{
    if n <= 0 {
        bytes
    } else {
        with_pixel(
            with_cleared(bytes, info, n - 1),
            info,
            (n - 1) % (info.width as int),
            (n - 1) / (info.width as int),
            [0u8, 0u8, 0u8],
        )
    }
}

/// Where the next glyph goes from cursor (`x`, `y`): there, or at the start
/// of the next line when it would reach the right edge.
pub open spec fn char_cell(info: FrameBufferInfo, x: int, y: int) -> (int, int) {
    if x + FONT_WIDTH >= info.width {
        (0, y + FONT_HEIGHT)
    } else {
        (x, y)
    }
}

/// Character `ch` written at cursor (`x`, `y`) fits when it has a glyph,
/// and the cursor arithmetic stays within `usize`.
pub open spec fn char_fits(info: FrameBufferInfo, len: int, x: int, y: int, ch: char) -> bool {
    let (px, py) = char_cell(info, x, y);
    &&& x + FONT_WIDTH <= usize::MAX
    &&& y + FONT_HEIGHT <= usize::MAX
    &&& char_glyph_fits(info, len, px, py, ch)
}

/// The cursor after one character from (`x`, `y`).
pub open spec fn cursor_step(info: FrameBufferInfo, x: int, y: int, ch: char) -> (int, int) {
    if ch == '\n' {
        (0, y + FONT_HEIGHT)
    } else {
        let (px, py) = char_cell(info, x, y);
        (px + FONT_WIDTH, py)
    }
}

/// The cursor after the characters `s` from (`x0`, `y0`).
pub open spec fn cursor_after(info: FrameBufferInfo, x0: int, y0: int, s: Seq<char>) -> (int, int)
    decreases s.len(),
{
    if s.len() == 0 {
        (x0, y0)
    } else {
        let (x, y) = cursor_after(info, x0, y0, s.drop_last());
        cursor_step(info, x, y, s.last())
    }
}

/// The bytes after writing the characters `s` from cursor (`x0`, `y0`).
pub open spec fn with_text(bytes: Seq<u8>, info: FrameBufferInfo, x0: int, y0: int, s: Seq<char>) -> Seq<u8>
    decreases s.len(),
{
    if s.len() == 0 {
        bytes
    } else {
        let b = with_text(bytes, info, x0, y0, s.drop_last());
        let (x, y) = cursor_after(info, x0, y0, s.drop_last());
        if s.last() == '\n' {
            b
        } else {
            let (px, py) = char_cell(info, x, y);
            with_char(b, info, px, py, s.last())
        }
    }
}

/// Character `k` of `s` can be written where the cursor stands then.
pub open spec fn step_fits(info: FrameBufferInfo, len: int, x0: int, y0: int, s: Seq<char>, k: int) -> bool {
    let (x, y) = cursor_after(info, x0, y0, s.subrange(0, k));
    if s[k] == '\n' {
        y + FONT_HEIGHT <= usize::MAX
    } else {
        char_fits(info, len, x, y, s[k])
    }
}

/// Every character of `s` can be written in turn.
pub open spec fn text_fits(info: FrameBufferInfo, len: int, x0: int, y0: int, s: Seq<char>) -> bool {
    forall|k: int| 0 <= k < s.len() ==> #[trigger] step_fits(info, len, x0, y0, s, k)
}

/// Whether pixel (`w`, `h`) lies in a buffer of `len` bytes when it is
/// painted black.
fn black_pixel_fits(info: &FrameBufferInfo, len: usize, w: usize, h: usize) -> (r: bool)
    ensures
        r == pixel_fits(*info, len as int, w as int, h as int, [0u8, 0u8, 0u8]),
{
    let row = match h.checked_mul(info.stride) {
        None => { return false; },
        Some(v) => v,
    };
    let cell = match row.checked_add(w) {
        None => { return false; },
        Some(v) => v,
    };
    let i = match cell.checked_mul(info.bytes_per_pixel) {
        None => { return false; },
        Some(v) => v,
    };
    match info.pixel_format {
        PixelFormat::Rgb => (i as u128) + 2 < (len as u128),
        PixelFormat::Bgr => (i as u128) + 2 < (len as u128),
        PixelFormat::U8 => i < len,
        PixelFormat::Unknown { red_position, green_position, blue_position } => {
            (i as u128) + (red_position as u128) < (len as u128) && (i as u128) + (
            green_position as u128) < (len as u128) && (i as u128) + (blue_position as u128) < (
            len as u128)
        },
        PixelFormat::Unsupported => true,
    }
}

/// Whether `ch` can be drawn with its top left at (`w`, `h`) in a buffer of
/// `len` bytes.
fn char_glyph_fits_at(info: &FrameBufferInfo, len: usize, w: usize, h: usize, ch: char) -> (r: bool)
    ensures
        r == char_glyph_fits(*info, len as int, w as int, h as int, ch),
{
    let glyph = match legacy_glyph(ch as usize) {
        None => { return true; },
        Some(g) => g,
    };
    assert((ch as u32) < 128);
    assert(glyph@ == basic_legacy_glyph(ch as u32 as int));
    if info.pixel_format == PixelFormat::U8 {
        let mut row: usize = 0;
        while row < FONT_HEIGHT
            invariant
                row <= 8,
                (ch as u32) < 128,
                glyph@ == basic_legacy_glyph(ch as u32 as int),
                info.pixel_format == PixelFormat::U8,
                forall|j: int| 0 <= j < row ==> #[trigger] glyph@[j] == 0,
            decreases 8 - row,
        {
            if glyph[row] != 0 {
                assert(!glyph_blank(glyph@)) by {
                    assert(glyph@[row as int] != 0);
                }
                return false;
            }
            row = row + 1;
        }
    }
    if w > usize::MAX - 7 || h > usize::MAX - 7 {
        return false;
    }
    let mut row: usize = 0;
    while row < FONT_HEIGHT
        invariant
            row <= 8,
            (ch as u32) < 128,
            glyph@ == basic_legacy_glyph(ch as u32 as int),
            info.pixel_format == PixelFormat::U8 ==> glyph_blank(glyph@),
            w + 7 <= usize::MAX,
            h + 7 <= usize::MAX,
            forall|r2: int, c2: int| 0 <= r2 < row && 0 <= c2 < 8 ==> #[trigger] cell_fits(*info, len as int, w as int, h as int, r2, c2),
        decreases 8 - row,
    {
        let mut col: usize = 0;
        while col < FONT_WIDTH
            invariant
                row < 8,
                col <= 8,
                (ch as u32) < 128,
                glyph@ == basic_legacy_glyph(ch as u32 as int),
                info.pixel_format == PixelFormat::U8 ==> glyph_blank(glyph@),
                w + 7 <= usize::MAX,
                h + 7 <= usize::MAX,
                forall|r2: int, c2: int| 0 <= r2 < row && 0 <= c2 < 8 ==> #[trigger] cell_fits(*info, len as int, w as int, h as int, r2, c2),
                forall|c2: int| 0 <= c2 < col ==> #[trigger] cell_fits(*info, len as int, w as int, h as int, row as int, c2),
            decreases 8 - col,
        {
            if !black_pixel_fits(info, len, w + col, h + row) {
                assert(!cell_fits(*info, len as int, w as int, h as int, row as int, col as int));
                return false;
            }
            col = col + 1;
        }
        row = row + 1;
    }
    true
}

/// A console on the framebuffer with a cursor at (`x_pos`, `y_pos`).
#[derive(PartialEq, Eq, Structural, Clone, Copy, Debug)]
pub struct FramebufferDriver {
    info: FrameBufferInfo,
    x_pos: usize,
    y_pos: usize,
}

impl FramebufferDriver {
    pub closed spec fn spec_info(&self) -> FrameBufferInfo {
        self.info
    }

    pub closed spec fn spec_x(&self) -> usize {
        self.x_pos
    }

    pub closed spec fn spec_y(&self) -> usize {
        self.y_pos
    }

    /// A console with the cursor at the top left.
    pub fn new(info: FrameBufferInfo) -> (d: FramebufferDriver)
        ensures
            d.spec_info() == info,
            d.spec_x() == 0,
            d.spec_y() == 0,
    {
        FramebufferDriver { info, x_pos: 0, y_pos: 0 }
    }

    /// Writes `color` (red, green, blue) at pixel (`w`, `h`).
    pub fn put_pixel(&self, bytes: &mut [u8], w: usize, h: usize, color: [u8; 3])
        requires
            pixel_fits(self.spec_info(), old(bytes)@.len() as int, w as int, h as int, color),
        ensures
            final(bytes)@ == with_pixel(old(bytes)@, self.spec_info(), w as int, h as int, color),
    {
        write_pixel(&self.info, bytes, w, h, color)
    }

    /// Draws the glyph of `ch` with its top left at (`w`, `h`); code points
    /// past the font table draw nothing, wherever they are put.
    pub fn put_char(&self, bytes: &mut [u8], w: usize, h: usize, ch: char)
        requires
            char_glyph_fits(self.spec_info(), old(bytes)@.len() as int, w as int, h as int, ch),
        ensures
            final(bytes)@ == with_char(old(bytes)@, self.spec_info(), w as int, h as int, ch),
            final(bytes)@.len() == old(bytes)@.len(),
    {
        let glyph = match legacy_glyph(ch as usize) {
            Some(glyph) => glyph,
            None => {
                return ;
            },
        };
        let ghost len = old(bytes)@.len() as int;
        let mut row_idx: usize = 0;
        while row_idx < FONT_HEIGHT
            invariant
                row_idx <= 8,
                bytes@.len() == len,
                glyph_fits(self.spec_info(), len, w as int, h as int, glyph@),
                bytes@ == with_glyph(old(bytes)@, self.spec_info(), w as int, h as int, glyph@, row_idx * 8),
            decreases 8 - row_idx,
        {
            let row_data = glyph[row_idx];
            let mut col_idx: usize = 0;
            while col_idx < FONT_WIDTH
                invariant
                    row_idx < 8,
                    col_idx <= 8,
                    row_data == glyph@[row_idx as int],
                    bytes@.len() == len,
                    glyph_fits(self.spec_info(), len, w as int, h as int, glyph@),
                    bytes@ == with_glyph(old(bytes)@, self.spec_info(), w as int, h as int, glyph@, row_idx * 8 + col_idx),
                decreases 8 - col_idx,
            {
                let ghost k = row_idx * 8 + col_idx;
                assert(cell_fits(self.spec_info(), len, w as int, h as int, row_idx as int, col_idx as int));
                assert(k / 8 == row_idx && k % 8 == col_idx) by (nonlinear_arith)
                    requires
                        k == row_idx * 8 + col_idx,
                        col_idx < 8,
                ;
                if self.info.pixel_format == PixelFormat::U8 {
                    assert(row_data == 0);
                    assert((0u8 >> (col_idx as u8)) & 1u8 == 0u8) by (bit_vector);
                }
                if (row_data >> col_idx as u8) & 1 == 1 {
                    self.put_pixel(bytes, w + col_idx, h + row_idx, [0xff, 0xff, 0xff]);
                } else {
                    self.put_pixel(bytes, w + col_idx, h + row_idx, [0, 0, 0]);
                }
                col_idx = col_idx + 1;
            }
            row_idx = row_idx + 1;
        }
    }

    /// Moves the cursor to the start of the next text line.
    pub fn new_line(&mut self)
        requires
            old(self).spec_y() + FONT_HEIGHT <= usize::MAX,
        ensures
            final(self).spec_info() == old(self).spec_info(),
            final(self).spec_x() == 0,
            final(self).spec_y() == old(self).spec_y() + FONT_HEIGHT,
    {
        self.x_pos = 0;
        self.y_pos = self.y_pos + FONT_HEIGHT;
    }

    /// Paints every pixel of the screen black, row by row.
    pub fn clear_screen(&self, bytes: &mut [u8])
        requires
            screen_fits(self.spec_info(), old(bytes)@.len() as int),
        ensures
            final(bytes)@ == with_cleared(
                old(bytes)@,
                self.spec_info(),
                self.spec_info().width * self.spec_info().height,
            ),
    {
        let info = self.info;
        let ghost len = old(bytes)@.len() as int;
        let ghost width = info.width as int;
        let mut h: usize = 0;
        while h < info.height
            invariant
                info == self.spec_info(),
                width == info.width,
                h <= info.height,
                bytes@.len() == len,
                screen_fits(info, len),
                bytes@ == with_cleared(old(bytes)@, info, h * width),
            decreases info.height - h,
        {
            let mut w: usize = 0;
            while w < info.width
                invariant
                    info == self.spec_info(),
                    width == info.width,
                    h < info.height,
                    w <= info.width,
                    bytes@.len() == len,
                    screen_fits(info, len),
                    bytes@ == with_cleared(old(bytes)@, info, h * width + w),
                decreases info.width - w,
            {
                assert(screen_cell_fits(info, len, w as int, h as int));
                let ghost n = h * width + w;
                assert(n / width == h && n % width == w) by (nonlinear_arith)
                    requires
                        n == h * width + w,
                        0 <= w < width,
                ;
                self.put_pixel(bytes, w, h, [0, 0, 0]);
                w = w + 1;
            }
            assert(h * width + width == (h + 1) * width) by (nonlinear_arith);
            h = h + 1;
        }
        assert(h * width == width * (info.height as int)) by (nonlinear_arith)
            requires
                h == info.height,
        ;
    }

    /// Writes `ch` at the cursor and moves the cursor on; when the glyph
    /// would reach the right edge the cursor first moves to the next line.
    pub fn write_char(&mut self, bytes: &mut [u8], ch: char)
        requires
            char_fits(old(self).spec_info(), old(bytes)@.len() as int, old(self).spec_x() as int, old(self).spec_y() as int, ch),
        ensures
            ({
                let (px, py) = char_cell(old(self).spec_info(), old(self).spec_x() as int, old(self).spec_y() as int);
                &&& final(self).spec_info() == old(self).spec_info()
                &&& final(self).spec_x() == px + FONT_WIDTH
                &&& final(self).spec_y() == py
                &&& final(bytes)@ == with_char(old(bytes)@, old(self).spec_info(), px, py, ch)
                &&& final(bytes)@.len() == old(bytes)@.len()
            }),
    {
        if self.x_pos + FONT_WIDTH >= self.info.width {
            self.new_line();
        }
        self.put_char(bytes, self.x_pos, self.y_pos, ch);
        self.x_pos = self.x_pos + FONT_WIDTH;
    }

    /// Writes the characters in order: a line feed moves to the next line,
    /// any other character is written as by `write_char`.
    pub fn write_str(&mut self, bytes: &mut [u8], s: &[char])
        requires
            text_fits(old(self).spec_info(), old(bytes)@.len() as int, old(self).spec_x() as int, old(self).spec_y() as int, s@),
        ensures
            final(self).spec_info() == old(self).spec_info(),
            (final(self).spec_x() as int, final(self).spec_y() as int) == cursor_after(old(self).spec_info(), old(self).spec_x() as int, old(self).spec_y() as int, s@),
            final(bytes)@ == with_text(old(bytes)@, old(self).spec_info(), old(self).spec_x() as int, old(self).spec_y() as int, s@),
    {
        let ghost x0 = self.x_pos as int;
        let ghost y0 = self.y_pos as int;
        let ghost info = self.info;
        let ghost len = old(bytes)@.len() as int;
        let mut k: usize = 0;
        while k < s.len()
            invariant
                k <= s@.len(),
                self.spec_info() == info,
                info == old(self).spec_info(),
                x0 == old(self).spec_x(),
                y0 == old(self).spec_y(),
                bytes@.len() == len,
                text_fits(info, len, x0, y0, s@),
                (self.spec_x() as int, self.spec_y() as int) == cursor_after(info, x0, y0, s@.subrange(0, k as int)),
                bytes@ == with_text(old(bytes)@, info, x0, y0, s@.subrange(0, k as int)),
            decreases s@.len() - k,
        {
            let ch = s[k];
            proof {
                assert(s@.subrange(0, k + 1).drop_last() =~= s@.subrange(0, k as int));
                assert(step_fits(info, len, x0, y0, s@, k as int));
            }
            if ch == '\n' {
                self.new_line();
            } else {
                self.write_char(bytes, ch);
            }
            k = k + 1;
        }
        proof {
            assert(s@.subrange(0, k as int) =~= s@);
        }
    }

    /// Writes the characters as `write_str` does when every one of them can
    /// be written in turn, and tells so; otherwise writes nothing and moves
    /// nothing.
    pub fn try_write_str(&mut self, bytes: &mut [u8], s: &[char]) -> (written: bool)
        ensures
            written == text_fits(old(self).spec_info(), old(bytes)@.len() as int, old(self).spec_x() as int, old(self).spec_y() as int, s@),
            written ==> {
                &&& final(self).spec_info() == old(self).spec_info()
                &&& (final(self).spec_x() as int, final(self).spec_y() as int) == cursor_after(old(self).spec_info(), old(self).spec_x() as int, old(self).spec_y() as int, s@)
                &&& final(bytes)@ == with_text(old(bytes)@, old(self).spec_info(), old(self).spec_x() as int, old(self).spec_y() as int, s@)
            },
            !written ==> *final(self) == *old(self) && final(bytes)@ == old(bytes)@,
    {
        let info = self.info;
        let len = bytes.len();
        let ghost x0 = self.x_pos as int;
        let ghost y0 = self.y_pos as int;
        let mut x: usize = self.x_pos;
        let mut y: usize = self.y_pos;
        let mut k: usize = 0;
        while k < s.len()
            invariant
                info == self.spec_info(),
                len == bytes@.len(),
                x0 == self.spec_x(),
                y0 == self.spec_y(),
                k <= s@.len(),
                (x as int, y as int) == cursor_after(info, x0, y0, s@.subrange(0, k as int)),
                forall|j: int| 0 <= j < k ==> #[trigger] step_fits(info, len as int, x0, y0, s@, j),
            decreases s@.len() - k,
        {
            let ch = s[k];
            proof {
                assert(s@.subrange(0, k + 1).drop_last() =~= s@.subrange(0, k as int));
            }
            if ch == '\n' {
                if y > usize::MAX - FONT_HEIGHT {
                    assert(!step_fits(info, len as int, x0, y0, s@, k as int));
                    return false;
                }
                x = 0;
                y = y + FONT_HEIGHT;
            } else {
                if x > usize::MAX - FONT_WIDTH || y > usize::MAX - FONT_HEIGHT {
                    assert(!step_fits(info, len as int, x0, y0, s@, k as int));
                    return false;
                }
                let (px, py) = if x + FONT_WIDTH >= info.width {
                    (0, y + FONT_HEIGHT)
                } else {
                    (x, y)
                };
                if !char_glyph_fits_at(&info, len, px, py, ch) {
                    assert(!step_fits(info, len as int, x0, y0, s@, k as int));
                    return false;
                }
                x = px + FONT_WIDTH;
                y = py;
            }
            assert(step_fits(info, len as int, x0, y0, s@, k as int));
            k = k + 1;
        }
        proof {
            assert(s@.subrange(0, k as int) =~= s@);
        }
        assert(text_fits(info, len as int, x0, y0, s@));
        self.write_str(bytes, s);
        true
    }
}

} // verus!
