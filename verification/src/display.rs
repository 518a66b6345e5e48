//! The linear framebuffer: its geometry and how a pixel's colour lands in
//! its bytes.
use vstd::prelude::*;

verus! {

/// How a pixel's colour is laid out in its bytes.
#[derive(PartialEq, Eq, Structural, Clone, Copy, Debug)]
pub enum PixelFormat {
    /// Red, green, blue bytes.
    Rgb,
    /// Blue, green, red bytes.
    Bgr,
    /// One grey byte.
    U8,
    /// Channels at the given positions.
    Unknown { red_position: u8, green_position: u8, blue_position: u8 },
    /// A format the kernel does not know; nothing is drawn in it.
    Unsupported,
}

/// The framebuffer's geometry.
#[derive(PartialEq, Eq, Structural, Clone, Copy, Debug)]
pub struct FrameBufferInfo {
    pub byte_len: usize,
    pub width: usize,
    pub height: usize,
    pub pixel_format: PixelFormat,
    pub bytes_per_pixel: usize,
    pub stride: usize,
}

/// The offset of the first byte of pixel (`w`, `h`).
pub open spec fn pixel_offset(info: FrameBufferInfo, w: int, h: int) -> int {
    (h * info.stride + w) * info.bytes_per_pixel
}

/// The offset arithmetic of pixel (`w`, `h`) stays within `usize`.
pub open spec fn offset_fits(info: FrameBufferInfo, w: int, h: int) -> bool {
    &&& h * info.stride <= usize::MAX
    &&& h * info.stride + w <= usize::MAX
    &&& pixel_offset(info, w, h) <= usize::MAX
}

/// Writing `color` at pixel (`w`, `h`) of a buffer of `len` bytes stays in
/// the buffer and, for grey pixels, the channel sum fits in a byte.
pub open spec fn pixel_fits(info: FrameBufferInfo, len: int, w: int, h: int, color: [u8; 3]) -> bool {
    let i = pixel_offset(info, w, h);
    &&& offset_fits(info, w, h)
    &&& match info.pixel_format {
        PixelFormat::Rgb => i + 2 < len,
        PixelFormat::Bgr => i + 2 < len,
        PixelFormat::U8 => i < len && color@[0] + color@[1] + color@[2] <= 255,
        PixelFormat::Unknown { red_position, green_position, blue_position } => i + red_position
            < len && i + green_position < len && i + blue_position < len,
        PixelFormat::Unsupported => true,
    }
}

/// The bytes after writing `color` (red, green, blue) at pixel (`w`, `h`):
/// the channels go to the offsets the format gives, a grey pixel gets the
/// channel sum.
pub open spec fn with_pixel(bytes: Seq<u8>, info: FrameBufferInfo, w: int, h: int, color: [u8; 3]) -> Seq<u8> {
    let i = pixel_offset(info, w, h);
    match info.pixel_format {
        PixelFormat::Bgr => bytes.update(i, color@[2]).update(i + 1, color@[1]).update(i + 2, color@[0]),
        PixelFormat::Rgb => bytes.update(i, color@[0]).update(i + 1, color@[1]).update(i + 2, color@[2]),
        PixelFormat::U8 => bytes.update(i, (color@[0] + color@[1] + color@[2]) as u8),
        PixelFormat::Unknown { red_position, green_position, blue_position } => bytes.update(
            i + red_position,
            color@[0],
        ).update(i + green_position, color@[1]).update(i + blue_position, color@[2]),
        PixelFormat::Unsupported => bytes,
    }
}

/// Writes `color` at pixel (`w`, `h`) of `bytes`.
pub fn write_pixel(info: &FrameBufferInfo, bytes: &mut [u8], w: usize, h: usize, color: [u8; 3])
    requires
        pixel_fits(*info, old(bytes)@.len() as int, w as int, h as int, color),
    ensures
        final(bytes)@ == with_pixel(old(bytes)@, *info, w as int, h as int, color),
{
    let index = ((h * info.stride) + w) * info.bytes_per_pixel;
    match info.pixel_format {
        PixelFormat::Bgr => {
            bytes[index] = color[2];
            bytes[index + 1] = color[1];
            bytes[index + 2] = color[0];
        },
        PixelFormat::Rgb => {
            bytes[index] = color[0];
            bytes[index + 1] = color[1];
            bytes[index + 2] = color[2];
        },
        PixelFormat::U8 => {
            bytes[index] = color[0] + color[1] + color[2];
        },
        PixelFormat::Unknown { red_position, green_position, blue_position } => {
            bytes[index + red_position as usize] = color[0];
            bytes[index + green_position as usize] = color[1];
            bytes[index + blue_position as usize] = color[2];
        },
        PixelFormat::Unsupported => {},
    }
}

/// A 24-bit colour.
#[derive(PartialEq, Eq, Structural, Clone, Copy, Debug)]
pub struct Rgb888 {
    pub r: u8,
    pub g: u8,
    pub b: u8,
}

/// A colour to draw at a point of the display.
#[derive(PartialEq, Eq, Structural, Clone, Copy, Debug)]
pub struct Pixel {
    pub x: i32,
    pub y: i32,
    pub color: Rgb888,
}

/// Whether a drawn pixel lands on the display: its coordinates, read as
/// unsigned, are below the width and height.
pub open spec fn on_display(info: FrameBufferInfo, p: Pixel) -> bool {
    (p.x as usize) < info.width && (p.y as usize) < info.height
}

/// Drawing `p` stays within a buffer of `len` bytes; in the formats that
/// draw nothing, anything goes.
pub open spec fn draw_fits(info: FrameBufferInfo, len: int, p: Pixel) -> bool {
    let x = (p.x as usize) as int;
    let y = (p.y as usize) as int;
    let i = pixel_offset(info, x, y);
    on_display(info, p) ==> match info.pixel_format {
        PixelFormat::Rgb => offset_fits(info, x, y) && i + 2 < len,
        PixelFormat::Bgr => offset_fits(info, x, y) && i + 2 < len,
        PixelFormat::Unknown { red_position, green_position, blue_position } => offset_fits(
            info,
            x,
            y,
        ) && i + red_position / 8 < len && i + green_position / 8 < len && i + blue_position / 8
            < len,
        _ => true,
    }
}

/// The bytes after drawing `p`: nothing when it is off the display or the
/// format is grey or unknown to the kernel; else its channels at the offsets
/// the format gives, byte offsets of channel positions being the bit
/// positions divided by 8.
pub open spec fn with_drawn(bytes: Seq<u8>, info: FrameBufferInfo, p: Pixel) -> Seq<u8> {
    let i = pixel_offset(info, (p.x as usize) as int, (p.y as usize) as int);
    if !on_display(info, p) {
        bytes
    } else {
        match info.pixel_format {
            PixelFormat::Bgr => bytes.update(i, p.color.b).update(i + 1, p.color.g).update(
                i + 2,
                p.color.r,
            ),
            PixelFormat::Rgb => bytes.update(i, p.color.r).update(i + 1, p.color.g).update(
                i + 2,
                p.color.b,
            ),
            PixelFormat::Unknown { red_position, green_position, blue_position } => bytes.update(
                i + red_position / 8,
                p.color.r,
            ).update(i + green_position / 8, p.color.g).update(i + blue_position / 8, p.color.b),
            _ => bytes,
        }
    }
}

/// The bytes after drawing `ps` in order.
pub open spec fn with_all_drawn(bytes: Seq<u8>, info: FrameBufferInfo, ps: Seq<Pixel>) -> Seq<u8>
    decreases ps.len(),
{
    if ps.len() == 0 {
        bytes
    } else {
        with_drawn(with_all_drawn(bytes, info, ps.drop_last()), info, ps.last())
    }
}

/// The display the kernel draws its console on.
#[derive(PartialEq, Eq, Structural, Clone, Copy, Debug)]
pub struct FramebufferDisplay {
    info: FrameBufferInfo,
}

impl FramebufferDisplay {
    pub closed spec fn spec_info(&self) -> FrameBufferInfo {
        self.info
    }

    pub fn new(info: FrameBufferInfo) -> (d: FramebufferDisplay)
        ensures
            d.spec_info() == info,
    {
        FramebufferDisplay { info }
    }

    /// Writes `color` (red, green, blue) at pixel (`w`, `h`).
    pub fn put_pixel(&self, bytes: &mut [u8], w: usize, h: usize, color: [u8; 3])
        requires
            pixel_fits(self.spec_info(), old(bytes)@.len() as int, w as int, h as int, color),
        ensures
            final(bytes)@ == with_pixel(old(bytes)@, self.spec_info(), w as int, h as int, color),
    {
        write_pixel(&self.info, bytes, w, h, color)
    }

    pub fn info(&self) -> (r: &FrameBufferInfo)
        ensures
            *r == self.spec_info(),
    {
        &self.info
    }

    /// Whether drawing `p` stays within a buffer of `len` bytes.
    pub fn fits_in(&self, len: usize, p: Pixel) -> (r: bool)
        ensures
            r == draw_fits(self.spec_info(), len as int, p),
    {
        let info = self.info;
        let x = p.x as usize;
        let y = p.y as usize;
        if !(x < info.width && y < info.height) {
            return true;
        }
        match info.pixel_format {
            PixelFormat::Rgb | PixelFormat::Bgr | PixelFormat::Unknown { .. } => {},
            _ => { return true; },
        }
        let row = match y.checked_mul(info.stride) {
            None => { return false; },
            Some(v) => v,
        };
        let cell = match row.checked_add(x) {
            None => { return false; },
            Some(v) => v,
        };
        let i = match cell.checked_mul(info.bytes_per_pixel) {
            None => { return false; },
            Some(v) => v,
        };
        let last = match info.pixel_format {
            PixelFormat::Rgb => 2,
            PixelFormat::Bgr => 2,
            PixelFormat::Unknown { red_position, green_position, blue_position } => {
                let r = red_position / 8;
                let g = green_position / 8;
                let b = blue_position / 8;
                let m = if r < g { g } else { r };
                if m < b { b } else { m }
            },
            _ => { return true; },
        };
        (i as u128) + (last as u128) < (len as u128)
    }

    /// Draws the pixels in order; those off the display are skipped.
    pub fn draw_iter(&self, bytes: &mut [u8], pixels: &[Pixel])
        requires
            forall|k: int| 0 <= k < pixels@.len() ==> draw_fits(self.spec_info(), old(bytes)@.len() as int, #[trigger] pixels@[k]),
        ensures
            final(bytes)@ == with_all_drawn(old(bytes)@, self.spec_info(), pixels@),
    {
        let info = self.info;
        let mut k: usize = 0;
        while k < pixels.len()
            invariant
                info == self.spec_info(),
                k <= pixels@.len(),
                bytes@.len() == old(bytes)@.len(),
                forall|j: int| 0 <= j < pixels@.len() ==> draw_fits(info, old(bytes)@.len() as int, #[trigger] pixels@[j]),
                bytes@ == with_all_drawn(old(bytes)@, info, pixels@.subrange(0, k as int)),
            decreases pixels@.len() - k,
        {
            let p = pixels[k];
            proof {
                assert(pixels@.subrange(0, k + 1).drop_last() =~= pixels@.subrange(0, k as int));
                assert(draw_fits(info, old(bytes)@.len() as int, pixels@[k as int]));
            }
            let x = p.x as usize;
            let y = p.y as usize;
            if x < info.width && y < info.height {
                match info.pixel_format {
                    PixelFormat::Bgr => {
                        let offset = (y * info.stride + x) * info.bytes_per_pixel;
                        bytes[offset] = p.color.b;
                        bytes[offset + 1] = p.color.g;
                        bytes[offset + 2] = p.color.r;
                    },
                    PixelFormat::Rgb => {
                        let offset = (y * info.stride + x) * info.bytes_per_pixel;
                        bytes[offset] = p.color.r;
                        bytes[offset + 1] = p.color.g;
                        bytes[offset + 2] = p.color.b;
                    },
                    PixelFormat::Unknown { red_position, green_position, blue_position } => {
                        let offset = (y * info.stride + x) * info.bytes_per_pixel;
                        let r_offset = red_position as usize / 8;
                        let g_offset = green_position as usize / 8;
                        let b_offset = blue_position as usize / 8;
                        bytes[offset + r_offset] = p.color.r;
                        bytes[offset + g_offset] = p.color.g;
                        bytes[offset + b_offset] = p.color.b;
                    },
                    _ => {},
                }
            }
            k = k + 1;
        }
        proof {
            assert(pixels@.subrange(0, k as int) =~= pixels@);
        }
    }

    /// The display's width and height in pixels.
    pub fn size(&self) -> (r: (u32, u32))
        requires
            self.spec_info().width <= u32::MAX,
            self.spec_info().height <= u32::MAX,
        ensures
            r.0 == self.spec_info().width,
            r.1 == self.spec_info().height,
    {
        (self.info.width as u32, self.info.height as u32)
    }
}

/// Whether writing pixel (`w`, `h`) writes byte `j`.
pub open spec fn pixel_touches(info: FrameBufferInfo, w: int, h: int, j: int) -> bool {
    let i = pixel_offset(info, w, h);
    match info.pixel_format {
        PixelFormat::Rgb => i <= j < i + 3,
        PixelFormat::Bgr => i <= j < i + 3,
        PixelFormat::U8 => j == i,
        PixelFormat::Unknown { red_position, green_position, blue_position } => j == i
            + red_position || j == i + green_position || j == i + blue_position,
        PixelFormat::Unsupported => false,
    }
}

/// Writing a pixel keeps the buffer's length and changes no byte outside
/// that pixel.
pub proof fn lemma_pixel_write_local(bytes: Seq<u8>, info: FrameBufferInfo, w: int, h: int, color: [u8; 3], j: int)
    requires
        0 <= w,
        0 <= h,
        pixel_fits(info, bytes.len() as int, w, h, color),
        0 <= j < bytes.len(),
        !pixel_touches(info, w, h, j),
    ensures
        with_pixel(bytes, info, w, h, color).len() == bytes.len(),
        with_pixel(bytes, info, w, h, color)[j] == bytes[j],
{
    assert(pixel_offset(info, w, h) >= 0) by (nonlinear_arith)
        requires
            0 <= w,
            0 <= h,
            0 <= info.stride,
            0 <= info.bytes_per_pixel,
    ;
}

} // verus!
