//! The frame buffer: a descriptor (stride, resolution, channel order) plus
//! the pixel bytes, and the pixel writer that stores one color at a computed
//! byte offset, honoring either channel order.

use vstd::prelude::*;

verus! {

/// The two supported channel orders: red-green-blue or blue-green-red in the
/// low three bytes of each 4-byte pixel cell.
#[derive(Clone, Copy, Debug, PartialEq, Eq, Structural)]
pub enum PixelFormat {
    RGB,
    BGR,
}

#[derive(Clone, Copy, Debug, PartialEq, Eq, Structural)]
pub struct PixelColor {
    pub red: u8,
    pub green: u8,
    pub blue: u8,
}

/// The frame-buffer descriptor the firmware reports: where pixel memory
/// starts, how wide a scan line really is, the visible resolution, and the
/// channel order.
#[derive(Clone, Copy, Debug, PartialEq, Eq, Structural)]
pub struct FrameBufferConfig {
    pub frame_buffer_base: u64,
    pub pixels_per_scan_line: u32,
    pub horizontal_resolution: u32,
    pub vertical_resolution: u32,
    pub pixel_format: PixelFormat,
}

/// Pixel memory under a descriptor: four bytes per pixel cell, scan lines
/// `pixels_per_scan_line` cells long.
pub struct FrameBuffer {
    pub config: FrameBufferConfig,
    pub bytes: Vec<u8>,
}

/// Byte offset of pixel (x, y) under stride `stride`.
pub open spec fn pix_off(stride: int, x: int, y: int) -> int {
    4 * (y * stride + x)
}

/// The byte stored for channel `ch` (0, 1, 2 within a pixel cell) of a color
/// under a channel order. Channel 3 is the untouched padding byte.
pub open spec fn channel_byte(fmt: PixelFormat, color: PixelColor, ch: int) -> u8 {
    if ch == 1 {
        color.green
    } else if fmt == PixelFormat::RGB {
        if ch == 0 {
            color.red
        } else {
            color.blue
        }
    } else {
        if ch == 0 {
            color.blue
        } else {
            color.red
        }
    }
}

impl FrameBuffer {
    /// The pixel bytes, in scan-line order.
    pub open spec fn contents(&self) -> Seq<u8> {
        self.bytes@
    }

    pub open spec fn stride(&self) -> int {
        self.config.pixels_per_scan_line as int
    }

    pub open spec fn hres(&self) -> int {
        self.config.horizontal_resolution as int
    }

    pub open spec fn vres(&self) -> int {
        self.config.vertical_resolution as int
    }

    /// Every visible pixel addresses four in-bounds bytes: the buffer holds
    /// exactly the declared scan lines and the visible width fits a line.
    pub open spec fn wf(&self) -> bool {
        &&& self.hres() <= self.stride()
        &&& self.contents().len() == 4 * self.stride() * self.vres()
    }

    /// Pixel (x, y) holds `color` under the buffer's channel order.
    pub open spec fn pixel_is(&self, x: int, y: int, color: PixelColor) -> bool {
        &&& self.contents()[pix_off(self.stride(), x, y)] == channel_byte(
            self.config.pixel_format,
            color,
            0,
        )
        &&& self.contents()[pix_off(self.stride(), x, y) + 1] == channel_byte(
            self.config.pixel_format,
            color,
            1,
        )
        &&& self.contents()[pix_off(self.stride(), x, y) + 2] == channel_byte(
            self.config.pixel_format,
            color,
            2,
        )
    }

    /// A buffer of `config`'s declared size, all bytes zero.
    pub fn new(config: FrameBufferConfig) -> (r: FrameBuffer)
        requires
            config.horizontal_resolution <= config.pixels_per_scan_line,
            4 * (config.pixels_per_scan_line as int) * (config.vertical_resolution as int)
                <= usize::MAX,
        ensures
            r.wf(),
            r.config == config,
            r.contents() =~= Seq::new((4 * config.pixels_per_scan_line as nat
                * config.vertical_resolution as nat), |i: int| 0u8),
    {
        let n64: u64 = 4 * (config.pixels_per_scan_line as u64) * (config.vertical_resolution
            as u64);
        let n: usize = n64 as usize;
        let mut bytes: Vec<u8> = Vec::new();
        let mut i: usize = 0;
        while i < n
            invariant
                i <= n,
                bytes@ =~= Seq::new(i as nat, |j: int| 0u8),
            decreases n - i,
        {
            bytes.push(0u8);
            i = i + 1;
        }
        FrameBuffer { config, bytes }
    }

    /// Store one color at pixel (x, y): the three channel bytes are written
    /// in the descriptor's order at offset `4 * (stride * y + x)`, the
    /// fourth byte of the cell and every other byte stay as they were.
    pub fn write_pixel(&mut self, x: u32, y: u32, color: PixelColor)
        requires
            old(self).wf(),
            x < old(self).hres(),
            y < old(self).vres(),
        ensures
            final(self).wf(),
            final(self).config == old(self).config,
            final(self).contents().len() == old(self).contents().len(),
            final(self).pixel_is(x as int, y as int, color),
            forall|i: int|
                0 <= i < old(self).contents().len() && !(pix_off(old(self).stride(), x as int,
                    y as int) <= i < pix_off(old(self).stride(), x as int, y as int) + 3)
                    ==> final(self).contents()[i] == old(self).contents()[i],
    {
        proof {
            lemma_pix_off_in_bounds(self.stride(), self.hres(), self.vres(), x as int, y as int);
            assert(self.bytes.len() <= usize::MAX);
        }
        let stride = self.config.pixels_per_scan_line as usize;
        let off: usize = 4 * ((y as usize) * stride + (x as usize));
        let (c0, c1, c2) = match self.config.pixel_format {
            PixelFormat::RGB => (color.red, color.green, color.blue),
            PixelFormat::BGR => (color.blue, color.green, color.red),
        };
        self.bytes.set(off, c0);
        self.bytes.set(off + 1, c1);
        self.bytes.set(off + 2, c2);
    }

    /// The three bytes stored at pixel (x, y)'s offset, in memory order.
    pub fn read_pixel_bytes(&self, x: u32, y: u32) -> (r: (u8, u8, u8))
        requires
            self.wf(),
            x < self.hres(),
            y < self.vres(),
        ensures
            r.0 == self.contents()[pix_off(self.stride(), x as int, y as int)],
            r.1 == self.contents()[pix_off(self.stride(), x as int, y as int) + 1],
            r.2 == self.contents()[pix_off(self.stride(), x as int, y as int) + 2],
    {
        proof {
            lemma_pix_off_in_bounds(self.stride(), self.hres(), self.vres(), x as int, y as int);
            assert(self.bytes.len() <= usize::MAX);
        }
        let stride = self.config.pixels_per_scan_line as usize;
        let off: usize = 4 * ((y as usize) * stride + (x as usize));
        (self.bytes[off], self.bytes[off + 1], self.bytes[off + 2])
    }

    /// Fill the `width` by `height` rectangle at (x, y) with `color`,
    /// leaving every byte outside the rectangle's channel bytes unchanged.
    pub fn fill_rectangle(&mut self, x: u32, y: u32, width: u32, height: u32, color: PixelColor)
        requires
            old(self).wf(),
            x + width <= old(self).hres(),
            y + height <= old(self).vres(),
        ensures
            final(self).wf(),
            final(self).config == old(self).config,
            final(self).contents() =~= render_rect(
                old(self).contents(),
                old(self).stride(),
                old(self).config.pixel_format,
                x as int,
                y as int,
                width as int,
                height as int,
                color,
            ),
    {
        let ghost b0 = self.contents();
        let ghost stride = self.stride();
        let ghost fmt = self.config.pixel_format;
        let mut dy: u32 = 0;
        while dy < height
            invariant
                dy <= height,
                self.wf(),
                self.config == old(self).config,
                stride == self.stride(),
                fmt == self.config.pixel_format,
                b0 == old(self).contents(),
                self.contents().len() == b0.len(),
                x + width <= self.hres(),
                y + height <= self.vres(),
                forall|i: int|
                    0 <= i < b0.len() ==> self.contents()[i] == rect_partial_byte(
                        b0,
                        stride,
                        fmt,
                        x as int,
                        y as int,
                        width as int,
                        dy as int,
                        0,
                        color,
                        i,
                    ),
            decreases height - dy,
        {
            let mut dx: u32 = 0;
            while dx < width
                invariant
                    dx <= width,
                    dy < height,
                    self.wf(),
                    self.config == old(self).config,
                    stride == self.stride(),
                    fmt == self.config.pixel_format,
                    b0 == old(self).contents(),
                    self.contents().len() == b0.len(),
                    x + width <= self.hres(),
                    y + height <= self.vres(),
                    forall|i: int|
                        0 <= i < b0.len() ==> self.contents()[i] == rect_partial_byte(
                            b0,
                            stride,
                            fmt,
                            x as int,
                            y as int,
                            width as int,
                            dy as int,
                            dx as int,
                            color,
                            i,
                        ),
                decreases width - dx,
            {
                let ghost pre = self.contents();
                self.write_pixel(x + dx, y + dy, color);
                proof {
                    lemma_pix_off_in_bounds(stride, self.hres(), self.vres(), x as int + dx,
                        y as int + dy);
                    lemma_fill_step(
                        b0,
                        pre,
                        self.contents(),
                        stride,
                        fmt,
                        x as int,
                        y as int,
                        width as int,
                        dy as int,
                        dx as int,
                        color,
                    );
                }
                dx = dx + 1;
            }
            proof {
                assert forall|i: int| 0 <= i < b0.len() implies self.contents()[i]
                    == rect_partial_byte(
                    b0,
                    stride,
                    fmt,
                    x as int,
                    y as int,
                    width as int,
                    dy as int + 1,
                    0,
                    color,
                    i,
                ) by {
                    assert(self.contents()[i] == rect_partial_byte(b0, stride, fmt, x as int,
                        y as int, width as int, dy as int, width as int, color, i));
                }
            }
            dy = dy + 1;
        }
        proof {
            assert forall|i: int| 0 <= i < b0.len() implies self.contents()[i] == rect_byte(
                b0,
                stride,
                fmt,
                x as int,
                y as int,
                width as int,
                height as int,
                color,
                i,
            ) by {
                assert(self.contents()[i] == rect_partial_byte(b0, stride, fmt, x as int, y as int,
                    width as int, height as int, 0, color, i));
            }
        }
    }

    /// Fill the whole visible resolution with `color`.
    pub fn fill_background(&mut self, color: PixelColor)
        requires
            old(self).wf(),
        ensures
            final(self).wf(),
            final(self).config == old(self).config,
            final(self).contents() =~= render_rect(
                old(self).contents(),
                old(self).stride(),
                old(self).config.pixel_format,
                0,
                0,
                old(self).hres(),
                old(self).vres(),
                color,
            ),
    {
        let w = self.config.horizontal_resolution;
        let h = self.config.vertical_resolution;
        self.fill_rectangle(0, 0, w, h, color);
    }
}

/// Round trip of the pixel writer: once a pixel holds a color, the three
/// bytes at its computed offset are the channels in the order the
/// descriptor dictates — red, green, blue under the red-green-blue order,
/// and blue, green, red under the other.
pub proof fn lemma_pixel_round_trip(fb: FrameBuffer, x: int, y: int, color: PixelColor)
    requires
        fb.pixel_is(x, y, color),
    ensures
        fb.config.pixel_format == PixelFormat::RGB ==> {
            &&& fb.contents()[pix_off(fb.stride(), x, y)] == color.red
            &&& fb.contents()[pix_off(fb.stride(), x, y) + 1] == color.green
            &&& fb.contents()[pix_off(fb.stride(), x, y) + 2] == color.blue
        },
        fb.config.pixel_format == PixelFormat::BGR ==> {
            &&& fb.contents()[pix_off(fb.stride(), x, y)] == color.blue
            &&& fb.contents()[pix_off(fb.stride(), x, y) + 1] == color.green
            &&& fb.contents()[pix_off(fb.stride(), x, y) + 2] == color.red
        },
{
}

/// Byte `i` of a buffer while a rectangle fill is under way: `full_rows`
/// whole rows are done, and `part_cols` pixels of the next row.
pub open spec fn rect_partial_byte(
    b: Seq<u8>,
    stride: int,
    fmt: PixelFormat,
    x0: int,
    y0: int,
    w: int,
    full_rows: int,
    part_cols: int,
    color: PixelColor,
    i: int,
) -> u8 {
    let px = byte_pixel_x(stride, i);
    let py = byte_pixel_y(stride, i);
    if byte_channel(i) < 3 && (in_rect(x0, y0, w, full_rows, px, py) || (py == y0 + full_rows && x0
        <= px < x0 + part_cols)) {
        channel_byte(fmt, color, byte_channel(i))
    } else {
        b[i]
    }
}

/// Writing the next pixel of a row extends the partly-filled rectangle by
/// one pixel.
proof fn lemma_fill_step(
    b0: Seq<u8>,
    pre: Seq<u8>,
    post: Seq<u8>,
    stride: int,
    fmt: PixelFormat,
    x0: int,
    y0: int,
    w: int,
    dy: int,
    dx: int,
    color: PixelColor,
)
    requires
        0 < stride,
        0 <= x0,
        0 <= y0,
        0 <= dx < w,
        0 <= dy,
        x0 + w <= stride,
        pre.len() == b0.len(),
        post.len() == b0.len(),
        forall|i: int|
            0 <= i < b0.len() ==> pre[i] == rect_partial_byte(
                b0,
                stride,
                fmt,
                x0,
                y0,
                w,
                dy,
                dx,
                color,
                i,
            ),
        // the write: the three channel bytes of (x0+dx, y0+dy) hold the
        // color, everything else is as before
        forall|c: int|
            0 <= c < 3 ==> post[pix_off(stride, x0 + dx, y0 + dy) + c] == channel_byte(
                fmt,
                color,
                c,
            ),
        forall|i: int|
            0 <= i < b0.len() && !(pix_off(stride, x0 + dx, y0 + dy) <= i < pix_off(
                stride,
                x0 + dx,
                y0 + dy,
            ) + 3) ==> post[i] == pre[i],
        0 <= pix_off(stride, x0 + dx, y0 + dy),
        pix_off(stride, x0 + dx, y0 + dy) + 4 <= b0.len(),
    ensures
        forall|i: int|
            0 <= i < b0.len() ==> post[i] == rect_partial_byte(
                b0,
                stride,
                fmt,
                x0,
                y0,
                w,
                dy,
                dx + 1,
                color,
                i,
            ),
{
    let px0 = x0 + dx;
    let py0 = y0 + dy;
    let off = pix_off(stride, px0, py0);
    assert forall|i: int| 0 <= i < b0.len() implies post[i] == rect_partial_byte(
        b0,
        stride,
        fmt,
        x0,
        y0,
        w,
        dy,
        dx + 1,
        color,
        i,
    ) by {
        lemma_byte_decomp(stride, i);
        let px = byte_pixel_x(stride, i);
        let py = byte_pixel_y(stride, i);
        let ch = byte_channel(i);
        if px == px0 && py == py0 {
            lemma_cell_bytes(stride, px0, py0, ch);
            assert(i == off + ch);
            if ch < 3 {
                assert(post[i] == channel_byte(fmt, color, ch));
            } else {
                assert(post[i] == pre[i]);
            }
        } else {
            assert(!(off <= i < off + 3)) by {
                if off <= i < off + 3 {
                    lemma_cell_bytes(stride, px0, py0, i - off);
                }
            }
            assert(post[i] == pre[i]);
        }
    }
}

/// Pixel column of the byte at offset `i`.
pub open spec fn byte_pixel_x(stride: int, i: int) -> int {
    (i / 4) % stride
}

/// Pixel row of the byte at offset `i`.
pub open spec fn byte_pixel_y(stride: int, i: int) -> int {
    (i / 4) / stride
}

/// Channel index (0..4) of the byte at offset `i` within its pixel cell.
pub open spec fn byte_channel(i: int) -> int {
    i % 4
}

/// (px, py) lies in the rectangle of width `w` and height `h` at (x0, y0).
pub open spec fn in_rect(x0: int, y0: int, w: int, h: int, px: int, py: int) -> bool {
    x0 <= px < x0 + w && y0 <= py < y0 + h
}

/// Byte `i` of a buffer after the rectangle is filled with `color`: a
/// channel byte of a pixel inside the rectangle holds the color's channel,
/// every other byte keeps its old value.
pub open spec fn rect_byte(
    b: Seq<u8>,
    stride: int,
    fmt: PixelFormat,
    x0: int,
    y0: int,
    w: int,
    h: int,
    color: PixelColor,
    i: int,
) -> u8 {
    if in_rect(x0, y0, w, h, byte_pixel_x(stride, i), byte_pixel_y(stride, i)) && byte_channel(i)
        < 3 {
        channel_byte(fmt, color, byte_channel(i))
    } else {
        b[i]
    }
}

/// The whole buffer after the rectangle is filled with `color`.
pub open spec fn render_rect(
    b: Seq<u8>,
    stride: int,
    fmt: PixelFormat,
    x0: int,
    y0: int,
    w: int,
    h: int,
    color: PixelColor,
) -> Seq<u8> {
    Seq::new(b.len(), |i: int| rect_byte(b, stride, fmt, x0, y0, w, h, color, i))
}

/// The bytes of pixel (px, py)'s cell decompose back into that pixel and
/// channel: offset arithmetic is injective for in-line pixels.
pub proof fn lemma_cell_bytes(stride: int, px: int, py: int, c: int)
    requires
        0 <= px < stride,
        0 <= py,
        0 <= c < 4,
    ensures
        byte_pixel_x(stride, pix_off(stride, px, py) + c) == px,
        byte_pixel_y(stride, pix_off(stride, px, py) + c) == py,
        byte_channel(pix_off(stride, px, py) + c) == c,
{
    let q = py * stride + px;
    vstd::arithmetic::mul::lemma_mul_nonnegative(py, stride);
    vstd::arithmetic::div_mod::lemma_fundamental_div_mod_converse(4 * q + c, 4, q, c);
    vstd::arithmetic::div_mod::lemma_fundamental_div_mod_converse(q, stride, py, px);
    assert(pix_off(stride, px, py) + c == 4 * q + c);
}

/// Every byte offset is the cell offset of its own pixel plus its channel.
pub proof fn lemma_byte_decomp(stride: int, i: int)
    requires
        stride > 0,
        0 <= i,
    ensures
        i == pix_off(stride, byte_pixel_x(stride, i), byte_pixel_y(stride, i)) + byte_channel(i),
        0 <= byte_channel(i) < 4,
        0 <= byte_pixel_x(stride, i) < stride,
        0 <= byte_pixel_y(stride, i),
{
    vstd::arithmetic::div_mod::lemma_fundamental_div_mod(i, 4);
    vstd::arithmetic::div_mod::lemma_mod_bound(i, 4);
    vstd::arithmetic::div_mod::lemma_fundamental_div_mod(i / 4, stride);
    vstd::arithmetic::div_mod::lemma_mod_bound(i / 4, stride);
    vstd::arithmetic::div_mod::lemma_div_pos_is_pos(i, 4);
    vstd::arithmetic::div_mod::lemma_div_pos_is_pos(i / 4, stride);
    let px = byte_pixel_x(stride, i);
    let py = byte_pixel_y(stride, i);
    assert(i / 4 == stride * py + px);
    assert(stride * py == py * stride) by (nonlinear_arith);
    assert(i == 4 * (i / 4) + byte_channel(i));
    assert(pix_off(stride, px, py) == 4 * (py * stride + px));
}

/// A visible pixel's cell lies inside a well-formed buffer.
pub proof fn lemma_pix_off_in_bounds(stride: int, hres: int, vres: int, x: int, y: int)
    requires
        0 <= x < hres,
        0 <= y < vres,
        hres <= stride,
    ensures
        0 <= pix_off(stride, x, y),
        pix_off(stride, x, y) + 4 <= 4 * stride * vres,
{
    assert(y * stride + x < stride * vres && 0 <= y * stride) by (nonlinear_arith)
        requires
            0 <= x < stride,
            0 <= y < vres,
    ;
    assert(4 * (y * stride + x) + 4 <= 4 * (stride * vres)) by (nonlinear_arith)
        requires
            y * stride + x < stride * vres,
    ;
    assert(4 * (stride * vres) == 4 * stride * vres) by (nonlinear_arith);
}

} // verus!
