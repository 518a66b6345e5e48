use urd_kernel::console::display::DisplayConsole;
use urd_kernel::console::framebuffer::FramebufferDriver;
use urd_kernel::display::{write_pixel, FrameBufferInfo, FramebufferDisplay, Pixel, PixelFormat, Rgb888};
use urd_kernel::interrupts::{pic_masks, IRQIndex, PIC_SLAVE_OFFSET};
use urd_kernel::pit::{divisor_bytes, PIT_DIVISOR};
use urd_kernel::thread::context::ContextFrame;

fn info(format: PixelFormat, width: usize, height: usize, bpp: usize) -> FrameBufferInfo {
    FrameBufferInfo {
        byte_len: width * height * bpp,
        width,
        height,
        pixel_format: format,
        bytes_per_pixel: bpp,
        stride: width,
    }
}

#[test]
fn timer_irq_numbers() {
    assert_eq!(IRQIndex::Timer.with_offset(), 32);
    assert_eq!(IRQIndex::Timer.as_bitmask(), 1);
    assert_eq!(PIC_SLAVE_OFFSET, 40);
    assert_eq!(pic_masks(IRQIndex::Timer.as_bitmask()), (0xFE, 0xFF));
    assert_eq!(pic_masks(0x0104), (0xFB, 0xFE));
    assert_eq!(pic_masks(0), (0xFF, 0xFF));
}

#[test]
fn pit_divisor_split() {
    assert_eq!(divisor_bytes(PIT_DIVISOR), (0xA9, 0x04));
    assert_eq!(divisor_bytes(0xFFFF), (0xFF, 0xFF));
}

#[test]
fn pixel_formats() {
    let mut bytes = vec![0u8; 16];
    let i = info(PixelFormat::Bgr, 2, 2, 4);
    write_pixel(&i, &mut bytes, 1, 1, [1, 2, 3]);
    assert_eq!(&bytes[12..16], &[3, 2, 1, 0]);
    let i = info(PixelFormat::Rgb, 2, 2, 4);
    write_pixel(&i, &mut bytes, 0, 1, [1, 2, 3]);
    assert_eq!(&bytes[8..12], &[1, 2, 3, 0]);
    let i = info(PixelFormat::U8, 2, 2, 1);
    write_pixel(&i, &mut bytes, 1, 0, [10, 20, 30]);
    assert_eq!(bytes[1], 60);
    let i = info(PixelFormat::Unknown { red_position: 2, green_position: 1, blue_position: 0 }, 2, 2, 4);
    write_pixel(&i, &mut bytes, 0, 0, [7, 8, 9]);
    assert_eq!(&bytes[0..3], &[9, 8, 7]);
    let before = bytes.clone();
    write_pixel(&info(PixelFormat::Unsupported, 2, 2, 4), &mut bytes, 0, 0, [5, 5, 5]);
    assert_eq!(bytes, before);
}

#[test]
fn draw_iter_skips_pixels_off_screen() {
    let d = FramebufferDisplay::new(info(PixelFormat::Rgb, 2, 2, 3));
    let mut bytes = vec![0u8; 12];
    let c = Rgb888 { r: 1, g: 2, b: 3 };
    d.draw_iter(&mut bytes, &[Pixel { x: 1, y: 0, color: c }, Pixel { x: -1, y: 0, color: c }, Pixel { x: 2, y: 0, color: c }]);
    assert_eq!(bytes, vec![0, 0, 0, 1, 2, 3, 0, 0, 0, 0, 0, 0]);
    let d = FramebufferDisplay::new(info(PixelFormat::Unknown { red_position: 16, green_position: 8, blue_position: 0 }, 2, 2, 3));
    let mut bytes = vec![0u8; 12];
    d.draw_iter(&mut bytes, &[Pixel { x: 0, y: 1, color: c }]);
    assert_eq!(&bytes[6..9], &[3, 2, 1]);
    assert_eq!(d.size(), (2, 2));
    assert_eq!(d.info().width, 2);
    let mut bytes = vec![0u8; 12];
    FramebufferDisplay::new(info(PixelFormat::U8, 2, 2, 3)).draw_iter(&mut bytes, &[Pixel { x: 0, y: 0, color: c }]);
    assert_eq!(bytes, vec![0u8; 12]);
}

fn glyph_pixels(bytes: &[u8], width: usize, x0: usize, y0: usize) -> Vec<u8> {
    let mut rows = Vec::new();
    for row in 0..8 {
        let mut bits = 0u8;
        for col in 0..8 {
            let off = ((y0 + row) * width + x0 + col) * 3;
            if bytes[off] == 0xff {
                bits |= 1 << col;
            }
        }
        rows.push(bits);
    }
    rows
}

#[test]
fn put_char_draws_the_font_glyph() {
    let width = 16;
    let d = FramebufferDriver::new(info(PixelFormat::Rgb, width, 8, 3));
    let mut bytes = vec![0x55u8; width * 8 * 3];
    d.put_char(&mut bytes, 8, 0, 'A');
    assert_eq!(glyph_pixels(&bytes, width, 8, 0), font8x8::legacy::BASIC_LEGACY['A' as usize].to_vec());
    // The other cell is untouched.
    assert_eq!(bytes[0], 0x55);
    let before = bytes.clone();
    d.put_char(&mut bytes, 0, 0, 'é');
    assert_eq!(bytes, before);
}

#[test]
fn write_char_wraps_at_the_right_edge() {
    let width = 20;
    let mut d = FramebufferDriver::new(info(PixelFormat::Bgr, width, 24, 3));
    let mut bytes = vec![0u8; width * 24 * 3];
    d.write_char(&mut bytes, 'H');
    d.write_char(&mut bytes, 'i');
    // 8 + 8 >= 20 is false, but 16 + 8 >= 20: the third goes to the next line.
    d.write_char(&mut bytes, '!');
    assert_eq!(glyph_pixels(&bytes, width, 0, 8), font8x8::legacy::BASIC_LEGACY['!' as usize].to_vec());
    d.write_str(&mut bytes, &['\n', 'x']);
    assert_eq!(glyph_pixels(&bytes, width, 0, 16), font8x8::legacy::BASIC_LEGACY['x' as usize].to_vec());
    d.clear_screen(&mut bytes);
    assert!(bytes.iter().all(|b| *b == 0));
    let mut d2 = FramebufferDriver::new(info(PixelFormat::Bgr, width, 24, 3));
    d2.new_line();
    d2.put_pixel(&mut bytes, 0, 0, [9, 9, 9]);
    assert_eq!(&bytes[0..3], &[9, 9, 9]);
}

#[test]
fn display_console_cursor() {
    let mut t = DisplayConsole::default();
    assert_eq!(t.write_str(20, &['a', '\n', 'b']), vec![(0, 0, 'a'), (0, 10, 'b')]);
    assert_eq!(t.write_char(20), (6, 10));
    let mut c = DisplayConsole::default();
    assert_eq!(c.write_char(20), (0, 0));
    assert_eq!(c.write_char(20), (6, 0));
    // 12 + 6 >= 20 is false; 18 + 6 >= 20 wraps.
    assert_eq!(c.write_char(20), (12, 0));
    assert_eq!(c.write_char(20), (0, 10));
    c.new_line();
    assert_eq!(c.write_char(20), (0, 20));
    assert_eq!(c.cursor(), (6, 20));
    assert_eq!(c.cell(), (6, 10));
}

#[test]
fn pixel_fits_in_buffer() {
    let red = Rgb888 { r: 255, g: 0, b: 0 };
    let d = FramebufferDisplay::new(info(PixelFormat::Rgb, 2, 2, 3));
    assert!(d.fits_in(12, Pixel { x: 1, y: 1, color: red }));
    assert!(!d.fits_in(11, Pixel { x: 1, y: 1, color: red }));
    // Off the display: nothing is written, so it always fits.
    assert!(d.fits_in(0, Pixel { x: 2, y: 0, color: red }));
    assert!(d.fits_in(0, Pixel { x: -1, y: 0, color: red }));
    let u = FramebufferDisplay::new(info(
        PixelFormat::Unknown { red_position: 0, green_position: 8, blue_position: 24 },
        1,
        1,
        4,
    ));
    assert!(u.fits_in(4, Pixel { x: 0, y: 0, color: red }));
    assert!(!u.fits_in(3, Pixel { x: 0, y: 0, color: red }));
    let g = FramebufferDisplay::new(info(PixelFormat::U8, 1, 1, 1));
    assert!(g.fits_in(0, Pixel { x: 0, y: 0, color: red }));
}

#[test]
fn context_frame_default_is_zero() {
    let f = ContextFrame::default();
    assert_eq!((f.rip, f.rsp, f.rflags, f.rax), (0, 0, 0, 0));
}

#[test]
fn put_char_past_the_table_draws_nothing_anywhere() {
    let d = FramebufferDriver::new(info(PixelFormat::Rgb, 2, 2, 3));
    let mut bytes = vec![7u8; 12];
    d.put_char(&mut bytes, 100, 100, '\u{e9}');
    assert_eq!(bytes, vec![7u8; 12]);
}

#[test]
fn grey_framebuffer_takes_blank_glyphs_only() {
    let d = FramebufferDriver::new(info(PixelFormat::U8, 8, 8, 1));
    let mut bytes = vec![0x55u8; 64];
    // A space has a blank glyph: every pixel of its cell becomes black.
    d.put_char(&mut bytes, 0, 0, ' ');
    assert_eq!(bytes, vec![0u8; 64]);
    let mut w = FramebufferDriver::new(info(PixelFormat::U8, 16, 8, 1));
    let mut grey = vec![0x55u8; 128];
    assert!(!w.try_write_str(&mut grey, &['A']));
    assert_eq!(grey, vec![0x55u8; 128]);
    assert!(w.try_write_str(&mut grey, &[' ']));
    for row in 0..8 {
        assert!(grey[row * 16..row * 16 + 8].iter().all(|b| *b == 0));
        assert!(grey[row * 16 + 8..row * 16 + 16].iter().all(|b| *b == 0x55));
    }
}

#[test]
fn try_write_str_checks_every_character_first() {
    let width = 24;
    let mut d = FramebufferDriver::new(info(PixelFormat::Rgb, width, 8, 3));
    let mut bytes = vec![0u8; width * 8 * 3];
    // 'B' fits in the second cell; the line break sends 'C' below the buffer.
    assert!(!d.try_write_str(&mut bytes, &['A', 'B', '\n', 'C']));
    assert!(bytes.iter().all(|b| *b == 0));
    assert!(d.try_write_str(&mut bytes, &['A', 'B']));
    assert_eq!(glyph_pixels(&bytes, width, 8, 0), font8x8::legacy::BASIC_LEGACY['B' as usize].to_vec());
    // Characters past the font table draw nothing and always fit.
    assert!(d.try_write_str(&mut bytes, &['\u{e9}']));
}

#[test]
fn draw_iter_in_formats_that_draw_nothing() {
    let red = Rgb888 { r: 255, g: 0, b: 0 };
    for format in [PixelFormat::U8, PixelFormat::Unsupported] {
        let huge = FrameBufferInfo {
            byte_len: 4,
            width: 2,
            height: 2,
            pixel_format: format,
            bytes_per_pixel: 1,
            stride: usize::MAX,
        };
        let d = FramebufferDisplay::new(huge);
        let p = Pixel { x: 1, y: 1, color: red };
        assert!(d.fits_in(4, p));
        let mut bytes = vec![3u8; 4];
        d.draw_iter(&mut bytes, &[p]);
        assert_eq!(bytes, vec![3u8; 4]);
    }
}
