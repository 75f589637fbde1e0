//! The console: cursor movement, line buffers, line breaks, and the
//! scroll that evicts the oldest line.

use bootcore::console::{Console, MAX_LINE};
use bootcore::graphics::{FrameBuffer, FrameBufferConfig, PixelColor, PixelFormat};

const WHITE: PixelColor = PixelColor { red: 255, green: 255, blue: 255 };
const GRAY: PixelColor = PixelColor { red: 127, green: 127, blue: 127 };

fn console_config() -> FrameBufferConfig {
    FrameBufferConfig {
        frame_buffer_base: 0,
        pixels_per_scan_line: 656,
        horizontal_resolution: 648,
        vertical_resolution: 488,
        pixel_format: PixelFormat::RGB,
    }
}

/// A font whose glyphs are all blank: rendering marks no pixel, which
/// keeps the text-level behaviour easy to observe.
fn blank_font() -> Vec<u8> {
    vec![0u8; 128 * 16]
}

/// A font where the glyph of 'A' has its top-left bit set.
fn dot_font() -> Vec<u8> {
    let mut font = vec![0u8; 128 * 16];
    font[('A' as usize) * 16] = 0b1000_0000;
    font
}

fn new_console(font: Vec<u8>) -> Console {
    let fb = FrameBuffer::new(console_config());
    Console::new(fb, font, WHITE, GRAY)
}

fn line_string(console: &Console, i: usize) -> String {
    console.line(i).into_iter().collect()
}

#[test]
fn write_advances_column_and_buffers_text() {
    let mut console = new_console(blank_font());
    console.write_string("hello");
    assert_eq!(console.cursor_x(), 5);
    assert_eq!(console.cursor_y(), 0);
    assert_eq!(line_string(&console, 0), "hello");
    assert_eq!(line_string(&console, 1), "");
}

/// A line break resets the column to zero and renders nothing for itself.
#[test]
fn line_break_resets_column_and_draws_nothing() {
    let mut console = new_console(dot_font());
    console.write_string("AA");
    let before = console.frame_buffer().bytes.clone();
    console.write_string("\n");
    assert_eq!(console.cursor_x(), 0);
    assert_eq!(console.cursor_y(), 1);
    // not one pixel changed for the break character
    assert_eq!(console.frame_buffer().bytes, before);
    console.write_string("A");
    assert_eq!(console.cursor_x(), 1);
    assert_eq!(line_string(&console, 0), "AA");
    assert_eq!(line_string(&console, 1), "A");
}

#[test]
fn glyph_lands_at_cursor_cell() {
    let mut console = new_console(dot_font());
    console.write_string("A\nA");
    // first 'A' at cell (0, 0): its dot is at the margin corner
    assert_eq!(console.frame_buffer().read_pixel_bytes(8, 8), (255, 255, 255));
    // second 'A' at cell (0, 1): one cell height below
    assert_eq!(console.frame_buffer().read_pixel_bytes(8, 24), (255, 255, 255));
    // an untouched pixel keeps the cleared value
    assert_eq!(console.frame_buffer().read_pixel_bytes(9, 8), (0, 0, 0));
}

/// Writing one line more than there are rows evicts the first line: the
/// rows then read lines two onward, the newest on the last row.
#[test]
fn scroll_evicts_first_line() {
    let mut console = new_console(blank_font());
    let mut text = String::new();
    for i in 0..(MAX_LINE + 1) {
        if i > 0 {
            text.push('\n');
        }
        text.push_str(&format!("line{}", i));
    }
    console.write_string(&text);
    assert_eq!(console.cursor_y(), MAX_LINE - 1);
    for r in 0..MAX_LINE {
        assert_eq!(line_string(&console, r), format!("line{}", r + 1));
    }
}

/// After a scroll every row's pixel band was repainted with the fill
/// color.
#[test]
fn scroll_repaints_row_bands() {
    let mut console = new_console(blank_font());
    let mut text = String::new();
    for i in 0..(MAX_LINE + 1) {
        if i > 0 {
            text.push('\n');
        }
        text.push_str(&format!("{}", i));
    }
    console.write_string(&text);
    // inside the first row's band: filled gray
    assert_eq!(console.frame_buffer().read_pixel_bytes(8, 8), (127, 127, 127));
    // inside the last row's band
    assert_eq!(console.frame_buffer().read_pixel_bytes(647, 8 + 16 * 29), (127, 127, 127));
    // the margin above the text area was never painted
    assert_eq!(console.frame_buffer().read_pixel_bytes(8, 7), (0, 0, 0));
    // the margin left of the text area was never painted
    assert_eq!(console.frame_buffer().read_pixel_bytes(7, 8), (0, 0, 0));
}

#[test]
fn writing_down_all_rows_without_scroll() {
    let mut console = new_console(blank_font());
    let mut text = String::new();
    for i in 0..MAX_LINE {
        if i > 0 {
            text.push('\n');
        }
        text.push_str(&format!("r{}", i));
    }
    console.write_string(&text);
    // thirty lines fill the grid without scrolling
    assert_eq!(console.cursor_y(), MAX_LINE - 1);
    assert_eq!(line_string(&console, 0), "r0");
    assert_eq!(line_string(&console, MAX_LINE - 1), format!("r{}", MAX_LINE - 1));
}
