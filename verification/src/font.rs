//! The glyph renderer: glyphs are 16-byte bitmaps indexed by character code
//! into an opaque font blob; set bits become pixels of the requested color.

use vstd::prelude::*;

use crate::graphics::{FrameBuffer, PixelColor, byte_channel, byte_pixel_x, byte_pixel_y,
    channel_byte, lemma_byte_decomp, lemma_cell_bytes, pix_off, PixelFormat};

verus! {

/// Height in pixel rows of one glyph.
pub const GLYPH_HEIGHT: usize = 16;

/// Width in pixel columns of one glyph.
pub const GLYPH_WIDTH: usize = 8;

/// The 16 bitmap rows the font blob holds for character `c`.
pub open spec fn glyph_of(font: Seq<u8>, c: char) -> Seq<u8> {
    font.subrange(16 * (c as int), 16 * (c as int) + 16)
}

/// The blob holds a glyph for `c`: its 16 bytes lie inside the blob.
pub open spec fn glyph_in_font(font: Seq<u8>, c: char) -> bool {
    16 * (c as int) + 16 <= font.len()
}

/// Bit `dx` (from the left) of bitmap row byte `row` is set.
pub open spec fn glyph_pixel_on(row: u8, dx: u8) -> bool {
    ((row << dx) & 0x80) > 0
}

/// Look the character's bitmap up in the font blob: 16 bytes starting at 16
/// times the character code. Fails exactly when those bytes lie outside the
/// blob, signalling that the font has no visual for this character.
pub fn get_font(font: &Vec<u8>, c: char) -> (r: Result<[u8; 16], ()>)
    ensures
        r is Ok <==> glyph_in_font(font@, c),
        r matches Ok(g) ==> g@ =~= glyph_of(font@, c),
{
    let code = c as usize;
    if code >= usize::MAX / 16 {
        return Err(());
    }
    let index = code * 16;
    if font.len() < 16 || index > font.len() - 16 {
        return Err(());
    }
    let g: [u8; 16] = [
        font[index],
        font[index + 1],
        font[index + 2],
        font[index + 3],
        font[index + 4],
        font[index + 5],
        font[index + 6],
        font[index + 7],
        font[index + 8],
        font[index + 9],
        font[index + 10],
        font[index + 11],
        font[index + 12],
        font[index + 13],
        font[index + 14],
        font[index + 15],
    ];
    Ok(g)
}

/// Byte `i` of a buffer after glyph `g` is blitted at pixel (x0, y0): a
/// channel byte of a glyph pixel whose bitmap bit is set holds the color's
/// channel, every other byte keeps its old value.
pub open spec fn glyph_blend_byte(
    b: Seq<u8>,
    stride: int,
    fmt: PixelFormat,
    x0: int,
    y0: int,
    g: Seq<u8>,
    color: PixelColor,
    i: int,
) -> u8 {
    let px = byte_pixel_x(stride, i);
    let py = byte_pixel_y(stride, i);
    if byte_channel(i) < 3 && x0 <= px < x0 + 8 && y0 <= py < y0 + 16 && glyph_pixel_on(
        g[py - y0],
        (px - x0) as u8,
    ) {
        channel_byte(fmt, color, byte_channel(i))
    } else {
        b[i]
    }
}

/// The whole buffer after glyph `g` is blitted at pixel (x0, y0).
pub open spec fn render_glyph(
    b: Seq<u8>,
    stride: int,
    fmt: PixelFormat,
    x0: int,
    y0: int,
    g: Seq<u8>,
    color: PixelColor,
) -> Seq<u8> {
    Seq::new(b.len(), |i: int| glyph_blend_byte(b, stride, fmt, x0, y0, g, color, i))
}

/// Byte `i` while a glyph blit is under way: `full_rows` bitmap rows are
/// done, and `part_cols` pixels of the next row.
spec fn glyph_partial_byte(
    b: Seq<u8>,
    stride: int,
    fmt: PixelFormat,
    x0: int,
    y0: int,
    g: Seq<u8>,
    color: PixelColor,
    full_rows: int,
    part_cols: int,
    i: int,
) -> u8 {
    let px = byte_pixel_x(stride, i);
    let py = byte_pixel_y(stride, i);
    if byte_channel(i) < 3 && x0 <= px < x0 + 8 && (y0 <= py < y0 + full_rows || (py == y0
        + full_rows && x0 <= px < x0 + part_cols)) && glyph_pixel_on(g[py - y0], (px - x0) as u8) {
        channel_byte(fmt, color, byte_channel(i))
    } else {
        b[i]
    }
}

/// Handling the next glyph cell extends the partly-blitted glyph by one
/// pixel, whether or not its bit was set.
proof fn lemma_glyph_step(
    b0: Seq<u8>,
    pre: Seq<u8>,
    post: Seq<u8>,
    stride: int,
    fmt: PixelFormat,
    x0: int,
    y0: int,
    g: Seq<u8>,
    color: PixelColor,
    dy: int,
    dx: int,
)
    requires
        0 < stride,
        0 <= x0,
        0 <= y0,
        0 <= dx < 8,
        0 <= dy < 16,
        x0 + 8 <= stride,
        g.len() == 16,
        pre.len() == b0.len(),
        post.len() == b0.len(),
        forall|i: int|
            0 <= i < b0.len() ==> pre[i] == glyph_partial_byte(
                b0,
                stride,
                fmt,
                x0,
                y0,
                g,
                color,
                dy,
                dx,
                i,
            ),
        // when the bit is set the three channel bytes were written, else
        // nothing was
        glyph_pixel_on(g[dy], dx as u8) ==> forall|c: int|
            0 <= c < 3 ==> post[pix_off(stride, x0 + dx, y0 + dy) + c] == channel_byte(
                fmt,
                color,
                c,
            ),
        glyph_pixel_on(g[dy], dx as u8) ==> forall|i: int|
            0 <= i < b0.len() && !(pix_off(stride, x0 + dx, y0 + dy) <= i < pix_off(
                stride,
                x0 + dx,
                y0 + dy,
            ) + 3) ==> post[i] == pre[i],
        !glyph_pixel_on(g[dy], dx as u8) ==> post =~= pre,
        0 <= pix_off(stride, x0 + dx, y0 + dy),
        pix_off(stride, x0 + dx, y0 + dy) + 4 <= b0.len(),
    ensures
        forall|i: int|
            0 <= i < b0.len() ==> post[i] == glyph_partial_byte(
                b0,
                stride,
                fmt,
                x0,
                y0,
                g,
                color,
                dy,
                dx + 1,
                i,
            ),
{
    let px0 = x0 + dx;
    let py0 = y0 + dy;
    let off = pix_off(stride, px0, py0);
    assert forall|i: int| 0 <= i < b0.len() implies post[i] == glyph_partial_byte(
        b0,
        stride,
        fmt,
        x0,
        y0,
        g,
        color,
        dy,
        dx + 1,
        i,
    ) by {
        lemma_byte_decomp(stride, i);
        let px = byte_pixel_x(stride, i);
        let py = byte_pixel_y(stride, i);
        let ch = byte_channel(i);
        if px == px0 && py == py0 {
            lemma_cell_bytes(stride, px0, py0, ch);
            assert(i == off + ch);
            if glyph_pixel_on(g[dy], dx as u8) {
                if ch < 3 {
                    assert(post[i] == channel_byte(fmt, color, ch));
                } else {
                    assert(post[i] == pre[i]);
                }
            } else {
                assert(post[i] == pre[i]);
            }
        } else {
            if glyph_pixel_on(g[dy], dx as u8) {
                assert(!(off <= i < off + 3)) by {
                    if off <= i < off + 3 {
                        lemma_cell_bytes(stride, px0, py0, i - off);
                    }
                }
                assert(post[i] == pre[i]);
            } else {
                assert(post[i] == pre[i]);
            }
        }
    }
}

/// Blit the glyph bitmap `g` at pixel (x, y): for each of 16 rows and 8
/// columns whose bitmap bit is set, store `color` at that pixel; every
/// other byte of the buffer keeps its value.
pub fn write_glyph_at(fb: &mut FrameBuffer, x: u32, y: u32, g: &[u8; 16], color: PixelColor)
    requires
        old(fb).wf(),
        x + 8 <= old(fb).hres(),
        y + 16 <= old(fb).vres(),
    ensures
        final(fb).wf(),
        final(fb).config == old(fb).config,
        final(fb).contents() =~= render_glyph(
            old(fb).contents(),
            old(fb).stride(),
            old(fb).config.pixel_format,
            x as int,
            y as int,
            g@,
            color,
        ),
{
    let ghost b0 = fb.contents();
    let ghost stride = fb.stride();
    let ghost fmt = fb.config.pixel_format;
    let mut dy: usize = 0;
    while dy < 16
        invariant
            dy <= 16,
            fb.wf(),
            fb.config == old(fb).config,
            stride == fb.stride(),
            fmt == fb.config.pixel_format,
            b0 == old(fb).contents(),
            fb.contents().len() == b0.len(),
            x + 8 <= fb.hres(),
            y + 16 <= fb.vres(),
            forall|i: int|
                0 <= i < b0.len() ==> fb.contents()[i] == glyph_partial_byte(
                    b0,
                    stride,
                    fmt,
                    x as int,
                    y as int,
                    g@,
                    color,
                    dy as int,
                    0,
                    i,
                ),
        decreases 16 - dy,
    {
        let mut dx: usize = 0;
        while dx < 8
            invariant
                dx <= 8,
                dy < 16,
                fb.wf(),
                fb.config == old(fb).config,
                stride == fb.stride(),
                fmt == fb.config.pixel_format,
                b0 == old(fb).contents(),
                fb.contents().len() == b0.len(),
                x + 8 <= fb.hres(),
                y + 16 <= fb.vres(),
                forall|i: int|
                    0 <= i < b0.len() ==> fb.contents()[i] == glyph_partial_byte(
                        b0,
                        stride,
                        fmt,
                        x as int,
                        y as int,
                        g@,
                        color,
                        dy as int,
                        dx as int,
                        i,
                    ),
            decreases 8 - dx,
        {
            let ghost pre = fb.contents();
            if (g[dy] << (dx as u8)) & 0x80 > 0 {
                fb.write_pixel(x + dx as u32, y + dy as u32, color);
            }
            proof {
                crate::graphics::lemma_pix_off_in_bounds(stride, fb.hres(), fb.vres(),
                    x as int + dx, y as int + dy);
                lemma_glyph_step(b0, pre, fb.contents(), stride, fmt, x as int, y as int, g@,
                    color, dy as int, dx as int);
            }
            dx = dx + 1;
        }
        proof {
            assert forall|i: int| 0 <= i < b0.len() implies fb.contents()[i] == glyph_partial_byte(
                b0,
                stride,
                fmt,
                x as int,
                y as int,
                g@,
                color,
                dy as int + 1,
                0,
                i,
            ) by {
                assert(fb.contents()[i] == glyph_partial_byte(b0, stride, fmt, x as int, y as int,
                    g@, color, dy as int, 8, i));
            }
        }
        dy = dy + 1;
    }
    proof {
        assert forall|i: int| 0 <= i < b0.len() implies fb.contents()[i] == glyph_blend_byte(
            b0,
            stride,
            fmt,
            x as int,
            y as int,
            g@,
            color,
            i,
        ) by {
            assert(fb.contents()[i] == glyph_partial_byte(b0, stride, fmt, x as int, y as int, g@,
                color, 16, 0, i));
        }
    }
}

/// Render character `c` from the font blob at pixel (x, y) in `color`.
/// Fails, leaving the buffer untouched, exactly when the blob has no glyph
/// for `c`.
pub fn write_ascii_at(
    fb: &mut FrameBuffer,
    x: u32,
    y: u32,
    c: char,
    font: &Vec<u8>,
    color: PixelColor,
) -> (r: Result<(), ()>)
    requires
        old(fb).wf(),
        x + 8 <= old(fb).hres(),
        y + 16 <= old(fb).vres(),
    ensures
        final(fb).wf(),
        final(fb).config == old(fb).config,
        r is Ok <==> glyph_in_font(font@, c),
        r is Ok ==> final(fb).contents() =~= render_glyph(
            old(fb).contents(),
            old(fb).stride(),
            old(fb).config.pixel_format,
            x as int,
            y as int,
            glyph_of(font@, c),
            color,
        ),
        r is Err ==> *final(fb) == *old(fb),
{
    match get_font(font, c) {
        Ok(g) => {
            write_glyph_at(fb, x, y, &g, color);
            Ok(())
        },
        Err(()) => Err(()),
    }
}

} // verus!
