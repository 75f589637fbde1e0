//! The pixel writer and the glyph renderer against an in-memory frame
//! buffer.

use bootcore::font::{get_font, write_ascii_at};
use bootcore::graphics::{FrameBuffer, FrameBufferConfig, PixelColor, PixelFormat};

fn config(fmt: PixelFormat) -> FrameBufferConfig {
    FrameBufferConfig {
        frame_buffer_base: 0,
        pixels_per_scan_line: 32,
        horizontal_resolution: 20,
        vertical_resolution: 24,
        pixel_format: fmt,
    }
}

/// Writing (r, g, b) under the red-green-blue order reads back as
/// (r, g, b) at the computed offset.
#[test]
fn pixel_round_trip_rgb() {
    let mut fb = FrameBuffer::new(config(PixelFormat::RGB));
    let color = PixelColor { red: 10, green: 20, blue: 30 };
    fb.write_pixel(3, 5, color);
    assert_eq!(fb.read_pixel_bytes(3, 5), (10, 20, 30));
}

/// The same write under the blue-green-red order reads back as (b, g, r).
#[test]
fn pixel_round_trip_bgr() {
    let mut fb = FrameBuffer::new(config(PixelFormat::BGR));
    let color = PixelColor { red: 10, green: 20, blue: 30 };
    fb.write_pixel(3, 5, color);
    assert_eq!(fb.read_pixel_bytes(3, 5), (30, 20, 10));
}

#[test]
fn pixel_write_leaves_neighbors_alone() {
    let mut fb = FrameBuffer::new(config(PixelFormat::RGB));
    let color = PixelColor { red: 1, green: 2, blue: 3 };
    fb.write_pixel(3, 5, color);
    assert_eq!(fb.read_pixel_bytes(2, 5), (0, 0, 0));
    assert_eq!(fb.read_pixel_bytes(4, 5), (0, 0, 0));
    assert_eq!(fb.read_pixel_bytes(3, 4), (0, 0, 0));
    assert_eq!(fb.read_pixel_bytes(3, 6), (0, 0, 0));
}

#[test]
fn fill_rectangle_covers_exactly_its_pixels() {
    let mut fb = FrameBuffer::new(config(PixelFormat::RGB));
    let color = PixelColor { red: 9, green: 8, blue: 7 };
    fb.fill_rectangle(2, 3, 4, 2, color);
    for x in 0..20u32 {
        for y in 0..24u32 {
            let inside = (2..6).contains(&x) && (3..5).contains(&y);
            let expect = if inside { (9, 8, 7) } else { (0, 0, 0) };
            assert_eq!(fb.read_pixel_bytes(x, y), expect);
        }
    }
}

#[test]
fn fill_background_covers_resolution() {
    let mut fb = FrameBuffer::new(config(PixelFormat::BGR));
    let color = PixelColor { red: 5, green: 6, blue: 7 };
    fb.fill_background(color);
    assert_eq!(fb.read_pixel_bytes(0, 0), (7, 6, 5));
    assert_eq!(fb.read_pixel_bytes(19, 23), (7, 6, 5));
}

#[test]
fn font_lookup_misses_outside_blob() {
    let font = vec![0u8; 64]; // glyphs for four characters only
    assert!(get_font(&font, 3 as u8 as char).is_ok());
    assert!(get_font(&font, 4 as u8 as char).is_err());
}

#[test]
fn font_lookup_reads_sixteen_rows() {
    let mut font = vec![0u8; 64];
    for i in 0..16 {
        font[16 + i] = i as u8;
    }
    let g = get_font(&font, 1 as u8 as char).unwrap();
    for i in 0..16 {
        assert_eq!(g[i], i as u8);
    }
}

/// A glyph whose top row is 0b10000001 sets exactly the leftmost and
/// rightmost pixel of that row.
#[test]
fn glyph_blit_follows_bits() {
    let mut font = vec![0u8; 32];
    font[16] = 0b1000_0001; // row 0 of the glyph for character code 1
    let mut fb = FrameBuffer::new(config(PixelFormat::RGB));
    let white = PixelColor { red: 255, green: 255, blue: 255 };
    write_ascii_at(&mut fb, 2, 3, 1 as u8 as char, &font, white).unwrap();
    assert_eq!(fb.read_pixel_bytes(2, 3), (255, 255, 255));
    assert_eq!(fb.read_pixel_bytes(9, 3), (255, 255, 255));
    for x in 3..9u32 {
        assert_eq!(fb.read_pixel_bytes(x, 3), (0, 0, 0));
    }
    // no other row was touched
    for x in 2..10u32 {
        for y in 4..19u32 {
            assert_eq!(fb.read_pixel_bytes(x, y), (0, 0, 0));
        }
    }
}

#[test]
fn glyph_blit_fails_without_glyph() {
    let font = vec![0u8; 16];
    let mut fb = FrameBuffer::new(config(PixelFormat::RGB));
    let white = PixelColor { red: 255, green: 255, blue: 255 };
    assert!(write_ascii_at(&mut fb, 0, 0, 'A', &font, white).is_err());
    assert_eq!(fb.read_pixel_bytes(0, 0), (0, 0, 0));
}
