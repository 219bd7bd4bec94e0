//! Text console on a pixel framebuffer: 8x8 glyphs at an integer scale, line
//! wrap and scrolling.

use crate::framebuffer::{FrameBufferInfo, PixelFormat, MAX_DIMENSION};
use vstd::prelude::*;

verus! {

/// Width of a glyph in font pixels.
pub const FONT_WIDTH: usize = 8;

/// Height of a glyph in font pixels.
pub const FONT_HEIGHT: usize = 8;

/// Largest glyph scale that the console accepts.
pub const MAX_SCALE: usize = 0xFFFF;

/// Scale that the console starts with.
pub const DEFAULT_SCALE: usize = 2;

/// Text colour that the console starts with, as `0xRRGGBB`.
pub const DEFAULT_TEXT_COLOR: u32 = 0xFFFFFF;

/// Background colour that the console starts with, as `0xRRGGBB`.
pub const DEFAULT_BACKGROUND_COLOR: u32 = 0x0000FF;

/// The eight rows of the glyph that the basic font holds for `c`, top row
/// first, bit 0 of a row being its leftmost pixel; `None` where the font has no
/// glyph.
pub uninterp spec fn basic_glyph(c: char) -> Option<Seq<u8>>;

/// Looks `c` up with `font8x8::BASIC_FONTS.get`. Not verified: the contract
/// records that the table covers exactly the code points below 128 and names
/// the rows that the lookup returns.
#[verifier::external_body]
fn glyph_rows(c: char) -> (r: Option<[u8; 8]>)
    ensures
        r is Some <==> (c as u32) < 128,
        match r {
            Some(rows) => basic_glyph(c) == Some(rows@),
            None => basic_glyph(c) is None,
        },
{
    font8x8::UnicodeFonts::get(&font8x8::BASIC_FONTS, c)
}

/// The pixel value that shows the logical colour `0xRRGGBB` on a framebuffer
/// of the given format: red and blue change places for `RGB`, every other
/// format takes the colour as it is.
pub open spec fn spec_convert_color(format: PixelFormat, color: u32) -> u32 {
    match format {
        PixelFormat::RGB => ((color & 0xFF) << 16) | (((color >> 8) & 0xFF) << 8) | ((color >> 16)
            & 0xFF),
        _ => color,
    }
}

/// Column of the pixel at buffer index `idx`.
pub open spec fn pixel_x(info: FrameBufferInfo, idx: int) -> int {
    idx % info.stride as int
}

/// Row of the pixel at buffer index `idx`.
pub open spec fn pixel_y(info: FrameBufferInfo, idx: int) -> int {
    idx / info.stride as int
}

/// The pixel at `idx` is visible and lies in the rectangle with corner
/// `(x0, y0)`, width `w` and height `h`.
pub open spec fn in_rect(info: FrameBufferInfo, x0: int, y0: int, w: int, h: int, idx: int) -> bool {
    &&& pixel_x(info, idx) < info.width
    &&& x0 <= pixel_x(info, idx) < x0 + w
    &&& y0 <= pixel_y(info, idx) < y0 + h
}

/// The buffer with the visible part of a rectangle painted in `color`.
pub open spec fn with_rect(
    pixels: Seq<u32>,
    info: FrameBufferInfo,
    x0: int,
    y0: int,
    w: int,
    h: int,
    color: u32,
) -> Seq<u32> {
    Seq::new(
        pixels.len(),
        |idx: int|
            if in_rect(info, x0, y0, w, h, idx) {
                color
            } else {
                pixels[idx]
            },
    )
}

/// The buffer moved up by `rows` pixel rows (at most the whole height), the
/// rows that open at the bottom painted in `color`.
pub open spec fn scrolled(pixels: Seq<u32>, info: FrameBufferInfo, rows: int, color: u32) -> Seq<
    u32,
> {
    let shift = if rows < info.height {
        rows * info.stride
    } else {
        info.height * info.stride
    };
    Seq::new(
        pixels.len(),
        |idx: int|
            if idx + shift < pixels.len() {
                pixels[idx + shift]
            } else {
                color
            },
    )
}

/// Whether the glyph pixel in column `col` of row `row` is set.
pub open spec fn glyph_bit(glyph: Seq<u8>, col: int, row: int) -> bool {
    glyph[row] & (1u8 << (col as u8)) != 0
}

/// The index of a glyph cell in drawing order: rows top to bottom, columns
/// left to right.
pub open spec fn cell_index(col: int, row: int) -> int {
    row * 8 + col
}

/// The pixel at `idx` after the first `cells` cells of `glyph` were drawn at
/// `(x, y)`: a pixel inside one of those cells takes the text colour where the
/// glyph's bit is set and the background colour where it is not.
pub open spec fn glyph_pixel(
    pixels: Seq<u32>,
    info: FrameBufferInfo,
    glyph: Seq<u8>,
    x: int,
    y: int,
    scale: int,
    text_color: u32,
    bg_color: u32,
    cells: int,
    idx: int,
) -> u32 {
    let px = pixel_x(info, idx);
    let py = pixel_y(info, idx);
    if px < info.width && x <= px < x + 8 * scale && y <= py < y + 8 * scale && cell_index(
        (px - x) / scale,
        (py - y) / scale,
    ) < cells {
        if glyph_bit(glyph, (px - x) / scale, (py - y) / scale) {
            text_color
        } else {
            bg_color
        }
    } else {
        pixels[idx]
    }
}

/// The buffer with `glyph` drawn at `(x, y)`, each font pixel a square of
/// `scale` by `scale` screen pixels, clipped to the visible area.
pub open spec fn with_glyph(
    pixels: Seq<u32>,
    info: FrameBufferInfo,
    glyph: Seq<u8>,
    x: int,
    y: int,
    scale: int,
    text_color: u32,
    bg_color: u32,
) -> Seq<u32> {
    Seq::new(
        pixels.len(),
        |idx: int| glyph_pixel(pixels, info, glyph, x, y, scale, text_color, bg_color, 64, idx),
    )
}

/// What the console shows and where it will write next.
pub struct Console {
    pub info: FrameBufferInfo,
    pub pixels: Seq<u32>,
    pub x_pos: int,
    pub y_pos: int,
    pub scale: int,
    pub text_color: u32,
    pub bg_color: u32,
}

impl Console {
    /// Height and width of a character cell in screen pixels.
    pub open spec fn cell(self) -> int {
        8 * self.scale
    }

    /// The console after the whole picture moved up by one text row.
    pub open spec fn scroll_up(self) -> Console {
        Console { pixels: scrolled(self.pixels, self.info, self.cell(), self.bg_color), ..self }
    }

    /// The console after the cursor moved to the start of the next text row;
    /// when that row would not fit, the picture scrolls and the cursor stays
    /// on its row.
    pub open spec fn new_line(self) -> Console {
        if self.y_pos + 2 * self.cell() > self.info.height {
            Console { x_pos: 0, ..self.scroll_up() }
        } else {
            Console { x_pos: 0, y_pos: self.y_pos + self.cell(), ..self }
        }
    }

    /// The console after a line feed: the rest of the current text row is
    /// painted in the background colour, then the cursor moves to the next
    /// row.
    pub open spec fn fill_remainder(self) -> Console {
        let painted = if self.x_pos < self.info.width {
            Console {
                pixels: with_rect(
                    self.pixels,
                    self.info,
                    self.x_pos,
                    self.y_pos,
                    self.info.width - self.x_pos,
                    self.cell(),
                    self.bg_color,
                ),
                ..self
            }
        } else {
            self
        };
        painted.new_line()
    }

    /// The console with the glyph of `c` drawn at `(x, y)`; a character
    /// without a glyph leaves the picture as it is.
    pub open spec fn draw_char(self, x: int, y: int, c: char) -> Console {
        match basic_glyph(c) {
            Some(glyph) => Console {
                pixels: with_glyph(
                    self.pixels,
                    self.info,
                    glyph,
                    x,
                    y,
                    self.scale,
                    self.text_color,
                    self.bg_color,
                ),
                ..self
            },
            None => self,
        }
    }

    /// The console after it was sent `byte`: a line feed ends the row; any
    /// other byte is drawn at the cursor, on the next row if it does not fit
    /// on this one, and moves the cursor one cell to the right.
    pub open spec fn write_byte(self, byte: u8) -> Console {
        if byte == 10 {
            self.fill_remainder()
        } else {
            let at = if self.x_pos + self.cell() > self.info.width {
                self.new_line()
            } else {
                self
            };
            Console { x_pos: at.x_pos + at.cell(), ..at.draw_char(at.x_pos, at.y_pos, byte as char) }
        }
    }

    /// The console after it was sent every byte of `bytes`, first to last.
    pub open spec fn write_bytes(self, bytes: Seq<u8>) -> Console
        decreases bytes.len(),
    {
        if bytes.len() == 0 {
            self
        } else {
            self.write_bytes(bytes.drop_last()).write_byte(bytes.last())
        }
    }

    /// The console with every visible pixel painted in `color` and the cursor
    /// in the top left corner.
    pub open spec fn clear(self, color: u32) -> Console {
        Console {
            pixels: with_rect(
                self.pixels,
                self.info,
                0,
                0,
                self.info.width as int,
                self.info.height as int,
                spec_convert_color(self.info.format, color),
            ),
            x_pos: 0,
            y_pos: 0,
            ..self
        }
    }

    /// The console with its colours and scale back at their defaults.
    pub open spec fn reset_style(self) -> Console {
        Console {
            text_color: spec_convert_color(self.info.format, DEFAULT_TEXT_COLOR),
            scale: DEFAULT_SCALE as int,
            bg_color: spec_convert_color(self.info.format, DEFAULT_BACKGROUND_COLOR),
            ..self
        }
    }
}

proof fn lemma_pixel_index(stride: int, x: int, y: int)
    requires
        0 <= x < stride,
        0 <= y,
    ensures
        (y * stride + x) % stride == x,
        (y * stride + x) / stride == y,
{
    vstd::arithmetic::div_mod::lemma_fundamental_div_mod_converse(y * stride + x, stride, y, x);
}

proof fn lemma_pixel_coordinates(stride: int, height: int, idx: int)
    requires
        0 <= idx < height * stride,
        0 < stride,
    ensures
        0 <= idx % stride < stride,
        0 <= idx / stride < height,
        idx == (idx / stride) * stride + idx % stride,
{
    vstd::arithmetic::div_mod::lemma_fundamental_div_mod(idx, stride);
    vstd::arithmetic::div_mod::lemma_div_pos_is_pos(idx, stride);
    if idx / stride >= height {
        vstd::arithmetic::mul::lemma_mul_inequality(height, idx / stride, stride);
        vstd::arithmetic::mul::lemma_mul_is_commutative(stride, idx / stride);
    }
    vstd::arithmetic::mul::lemma_mul_is_commutative(stride, idx / stride);
}

proof fn lemma_row_in_buffer(stride: int, height: int, x: int, y: int)
    requires
        0 <= x < stride,
        0 <= y < height,
    ensures
        0 <= y * stride + x < height * stride,
{
    vstd::arithmetic::mul::lemma_mul_inequality(y + 1, height, stride);
    vstd::arithmetic::mul::lemma_mul_is_distributive_add_other_way(stride, y, 1);
    vstd::arithmetic::mul::lemma_mul_nonnegative(y, stride);
}

/// The console's state: the pixels it has painted and its cursor.
pub struct FrameBufferWriter {
    info: FrameBufferInfo,
    pixels: Vec<u32>,
    x_pos: usize,
    y_pos: usize,
    scale: usize,
    text_color: u32,
    bg_color: u32,
}

impl View for FrameBufferWriter {
    type V = Console;

    closed spec fn view(&self) -> Console {
        Console {
            info: self.info,
            pixels: self.pixels@,
            x_pos: self.x_pos as int,
            y_pos: self.y_pos as int,
            scale: self.scale as int,
            text_color: self.text_color,
            bg_color: self.bg_color,
        }
    }
}

/// A console state that the writer can hold: the buffer has one entry per
/// pixel of a valid geometry, the cursor's row starts on the screen, and
/// cursor column and scale are small enough for the arithmetic on them.
pub open spec fn console_wf(c: Console) -> bool {
    &&& c.info.valid()
    &&& c.pixels.len() == c.info.pixel_count()
    &&& 0 <= c.scale <= MAX_SCALE
    &&& 0 <= c.x_pos <= 8 * MAX_SCALE
    &&& 0 <= c.y_pos <= c.info.height
}

impl FrameBufferWriter {
    /// The writer's state is one that a console can be in.
    pub open spec fn wf(&self) -> bool {
        console_wf(self@)
    }

    fn fill_rect(&mut self, x0: usize, y0: usize, w: usize, h: usize, color: u32)
        requires
            old(self).wf(),
            x0 + w <= usize::MAX,
            y0 + h <= usize::MAX,
        ensures
            final(self)@ == (Console {
                pixels: with_rect(
                    old(self)@.pixels,
                    old(self)@.info,
                    x0 as int,
                    y0 as int,
                    w as int,
                    h as int,
                    color,
                ),
                ..old(self)@
            }),
    {
        let width: usize = self.info.width;
        let height: usize = self.info.height;
        let stride: usize = self.info.stride;
        let x_end: usize = if x0 + w < width {
            x0 + w
        } else {
            width
        };
        let y_end: usize = if y0 + h < height {
            y0 + h
        } else {
            height
        };
        let ghost info = self.info;
        let ghost before = self.pixels@;
        if x0 >= x_end || y0 >= y_end {
            assert(before =~= with_rect(before, info, x0 as int, y0 as int, w as int, h as int, color))
                by {
                assert forall|idx: int| 0 <= idx < before.len() implies !in_rect(
                    info,
                    x0 as int,
                    y0 as int,
                    w as int,
                    h as int,
                    idx,
                ) by {
                    if stride > 0 {
                        lemma_pixel_coordinates(stride as int, height as int, idx);
                    }
                }
            }
            return ;
        }
        let mut y: usize = y0;
        while y < y_end
            invariant
                self.wf(),
                self@ == (Console { pixels: self.pixels@, ..old(self)@ }),
                self.info == info,
                before == old(self)@.pixels,
                width == info.width,
                height == info.height,
                stride == info.stride,
                x0 < x_end <= width,
                x_end <= x0 + w,
                x_end == width || x_end == x0 + w,
                y_end <= height,
                y_end <= y0 + h,
                y_end == height || y_end == y0 + h,
                y0 <= y <= y_end,
                self.pixels@ =~= with_rect(before, info, x0 as int, y0 as int, w as int, y - y0, color),
            decreases y_end - y,
        {
            let ghost row_start = self.pixels@;
            let mut x: usize = x0;
            while x < x_end
                invariant
                    self.wf(),
                    self@ == (Console { pixels: self.pixels@, ..old(self)@ }),
                    self.info == info,
                    width == info.width,
                    height == info.height,
                    stride == info.stride,
                    x_end <= width,
                    y < y_end <= height,
                    x0 <= x <= x_end,
                    row_start.len() == self.pixels@.len(),
                    self.pixels@ =~= with_rect(row_start, info, x0 as int, y as int, x - x0, 1, color),
                decreases x_end - x,
            {
                proof {
                    lemma_row_in_buffer(stride as int, height as int, x as int, y as int);
                    lemma_pixel_index(stride as int, x as int, y as int);
                    assert(self.pixels.len() == height * stride);
                }
                let ghost prev = self.pixels@;
                let at: usize = y * stride + x;
                self.pixels.set(at, color);
                assert(self.pixels@ =~= with_rect(
                    row_start,
                    info,
                    x0 as int,
                    y as int,
                    x + 1 - x0,
                    1,
                    color,
                )) by {
                    assert forall|idx: int| 0 <= idx < prev.len() implies self.pixels@[idx]
                        == with_rect(row_start, info, x0 as int, y as int, x + 1 - x0, 1, color)[idx] by {
                        lemma_pixel_coordinates(stride as int, height as int, idx);
                    }
                }
                x = x + 1;
            }
            assert(self.pixels@ =~= with_rect(
                before,
                info,
                x0 as int,
                y0 as int,
                w as int,
                y + 1 - y0,
                color,
            )) by {
                assert forall|idx: int| 0 <= idx < before.len() implies self.pixels@[idx]
                    == with_rect(before, info, x0 as int, y0 as int, w as int, y + 1 - y0, color)[idx] by {
                    lemma_pixel_coordinates(stride as int, height as int, idx);
                }
            }
            y = y + 1;
        }
        assert(self.pixels@ =~= with_rect(before, info, x0 as int, y0 as int, w as int, h as int, color))
            by {
            assert forall|idx: int| 0 <= idx < before.len() implies self.pixels@[idx] == with_rect(
                before,
                info,
                x0 as int,
                y0 as int,
                w as int,
                h as int,
                color,
            )[idx] by {
                lemma_pixel_coordinates(stride as int, height as int, idx);
            }
        }
    }
}


proof fn lemma_cell_of(d: int, scale: int, k: int)
    requires
        0 <= d,
        0 < scale,
        0 <= k,
    ensures
        (k * scale <= d < k * scale + scale) <==> d / scale == k,
{
    vstd::arithmetic::div_mod::lemma_fundamental_div_mod(d, scale);
    vstd::arithmetic::mul::lemma_mul_is_commutative(scale, d / scale);
    if k * scale <= d < k * scale + scale {
        vstd::arithmetic::div_mod::lemma_fundamental_div_mod_converse(d, scale, k, d - k * scale);
    }
}

proof fn lemma_cell_below_eight(d: int, scale: int)
    requires
        0 <= d < 8 * scale,
        0 < scale,
    ensures
        0 <= d / scale < 8,
{
    vstd::arithmetic::div_mod::lemma_div_pos_is_pos(d, scale);
    lemma_cell_of(d, scale, d / scale);
    if d / scale >= 8 {
        vstd::arithmetic::mul::lemma_mul_inequality(8, d / scale, scale);
    }
}

impl FrameBufferWriter {
    /// The console as it starts on a framebuffer of geometry `info`: every
    /// pixel zero, the cursor in the top left corner, default scale and
    /// colours (the colours as given, not converted to the pixel format).
    pub open spec fn initial(info: FrameBufferInfo) -> Console {
        Console {
            info,
            pixels: Seq::new(info.pixel_count() as nat, |i: int| 0u32),
            x_pos: 0,
            y_pos: 0,
            scale: DEFAULT_SCALE as int,
            text_color: DEFAULT_TEXT_COLOR,
            bg_color: DEFAULT_BACKGROUND_COLOR,
        }
    }

    /// A console on a framebuffer of geometry `info`.
    pub fn new(info: FrameBufferInfo) -> (writer: FrameBufferWriter)
        requires
            info.valid(),
        ensures
            writer.wf(),
            writer@ == Self::initial(info),
    {
        assert(info.height * info.stride <= 0xFFFF * 0xFFFF) by (nonlinear_arith)
            requires
                0 <= info.height <= 0xFFFF,
                0 <= info.stride <= 0xFFFF,
        ;
        let count: usize = info.height * info.stride;
        let mut pixels: Vec<u32> = Vec::new();
        let mut i: usize = 0;
        while i < count
            invariant
                i <= count,
                pixels@.len() == i,
                forall|k: int| 0 <= k < i ==> pixels@[k] == 0u32,
            decreases count - i,
        {
            pixels.push(0u32);
            i = i + 1;
        }
        let writer = FrameBufferWriter {
            info,
            pixels,
            x_pos: 0,
            y_pos: 0,
            scale: DEFAULT_SCALE,
            text_color: DEFAULT_TEXT_COLOR,
            bg_color: DEFAULT_BACKGROUND_COLOR,
        };
        assert(writer@.pixels =~= Self::initial(info).pixels);
        writer
    }

    /// The framebuffer's geometry.
    pub fn info(&self) -> (info: FrameBufferInfo)
        ensures
            info == self@.info,
    {
        self.info
    }

    /// The painted pixels, row by row, `stride` entries per row.
    pub fn pixels(&self) -> (pixels: &Vec<u32>)
        ensures
            pixels@ == self@.pixels,
    {
        &self.pixels
    }

    /// Column and row, in pixels, at which the next character is drawn.
    pub fn cursor(&self) -> (at: (usize, usize))
        ensures
            at.0 == self@.x_pos,
            at.1 == self@.y_pos,
    {
        (self.x_pos, self.y_pos)
    }

    /// The pixel in column `x` of row `y`; `None` outside the visible area.
    pub fn pixel(&self, x: usize, y: usize) -> (r: Option<u32>)
        requires
            self.wf(),
        ensures
            r == if x < self@.info.width && y < self@.info.height {
                Some(self@.pixels[y * self@.info.stride + x])
            } else {
                None::<u32>
            },
    {
        if x < self.info.width && y < self.info.height {
            proof {
                lemma_row_in_buffer(self.info.stride as int, self.info.height as int, x as int, y as int);
                assert(self.pixels.len() == self.info.height * self.info.stride);
            }
            Some(self.pixels[y * self.info.stride + x])
        } else {
            None
        }
    }

    /// Sets the glyph scale for the characters drawn from now on.
    pub fn set_scale(&mut self, scale: usize)
        requires
            old(self).wf(),
            scale <= MAX_SCALE,
        ensures
            final(self).wf(),
            final(self)@ == (Console { scale: scale as int, ..old(self)@ }),
    {
        self.scale = scale;
    }

    /// Sets the text colour, given as `0xRRGGBB`.
    pub fn set_text_color(&mut self, color: u32)
        requires
            old(self).wf(),
        ensures
            final(self).wf(),
            final(self)@ == (Console {
                text_color: spec_convert_color(old(self)@.info.format, color),
                ..old(self)@
            }),
    {
        self.text_color = self.convert_color(color);
    }

    /// Sets the background colour, given as `0xRRGGBB`.
    pub fn set_background_color(&mut self, color: u32)
        requires
            old(self).wf(),
        ensures
            final(self).wf(),
            final(self)@ == (Console {
                bg_color: spec_convert_color(old(self)@.info.format, color),
                ..old(self)@
            }),
    {
        self.bg_color = self.convert_color(color);
    }

    /// Converts the logical colour `0xRRGGBB` to the framebuffer's pixel
    /// format.
    pub fn convert_color(&self, color: u32) -> (pixel: u32)
        ensures
            pixel == spec_convert_color(self@.info.format, color),
    {
        let r: u32 = (color >> 16) & 0xFF;
        let g: u32 = (color >> 8) & 0xFF;
        let b: u32 = color & 0xFF;
        match self.info.format {
            PixelFormat::RGB => {
                assert((color & 0xFF) << 16 == ((color & 0xFF) << 16u32)) by (bit_vector);
                (b << 16) | (g << 8) | r
            },
            PixelFormat::BGR => color,
            _ => color,
        }
    }

    /// Paints every visible pixel in `color`, given as `0xRRGGBB`, and moves
    /// the cursor to the top left corner.
    pub fn clear(&mut self, color: u32)
        requires
            old(self).wf(),
        ensures
            final(self).wf(),
            final(self)@ == old(self)@.clear(color),
    {
        let pixel: u32 = self.convert_color(color);
        let width: usize = self.info.width;
        let height: usize = self.info.height;
        self.fill_rect(0, 0, width, height, pixel);
        self.x_pos = 0;
        self.y_pos = 0;
    }

    fn scroll_up(&mut self)
        requires
            old(self).wf(),
        ensures
            final(self).wf(),
            final(self)@ == old(self)@.scroll_up(),
    {
        let scaled_height: usize = FONT_HEIGHT * self.scale;
        let height: usize = self.info.height;
        let stride: usize = self.info.stride;
        let rows: usize = if scaled_height < height {
            scaled_height
        } else {
            height
        };
        assert(rows * stride <= height * stride) by (nonlinear_arith)
            requires
                0 <= rows <= height,
                0 <= stride,
        ;
        let len: usize = self.pixels.len();
        let shift: usize = rows * stride;
        let bg: u32 = self.bg_color;
        let ghost before = self.pixels@;
        let keep: usize = len - shift;
        let mut i: usize = 0;
        while i < keep
            invariant
                self@ == (Console { pixels: self.pixels@, ..old(self)@ }),
                before == old(self)@.pixels,
                self.pixels@.len() == len,
                before.len() == len,
                keep == len - shift,
                shift <= len,
                i <= keep,
                forall|k: int|
                    0 <= k < len ==> self.pixels@[k] == if k < i {
                        before[k + shift]
                    } else {
                        before[k]
                    },
            decreases keep - i,
        {
            let value: u32 = self.pixels[i + shift];
            self.pixels.set(i, value);
            i = i + 1;
        }
        let mut j: usize = keep;
        while j < len
            invariant
                self@ == (Console { pixels: self.pixels@, ..old(self)@ }),
                before == old(self)@.pixels,
                self.pixels@.len() == len,
                before.len() == len,
                keep == len - shift,
                shift <= len,
                keep <= j <= len,
                forall|k: int|
                    0 <= k < len ==> self.pixels@[k] == if k < keep {
                        before[k + shift]
                    } else if k < j {
                        bg
                    } else {
                        before[k]
                    },
            decreases len - j,
        {
            self.pixels.set(j, bg);
            j = j + 1;
        }
        assert(self.pixels@ =~= scrolled(before, self.info, 8 * self.scale, bg));
    }

    fn new_line(&mut self)
        requires
            old(self).wf(),
        ensures
            final(self).wf(),
            final(self)@ == old(self)@.new_line(),
    {
        let scaled_height: usize = FONT_HEIGHT * self.scale;
        self.x_pos = 0;
        self.y_pos = self.y_pos + scaled_height;
        if self.y_pos + scaled_height > self.info.height {
            self.y_pos = self.y_pos - scaled_height;
            self.scroll_up();
        }
    }

    fn fill_remainder(&mut self)
        requires
            old(self).wf(),
        ensures
            final(self).wf(),
            final(self)@ == old(self)@.fill_remainder(),
    {
        let scaled_height: usize = FONT_HEIGHT * self.scale;
        if self.x_pos < self.info.width {
            let x: usize = self.x_pos;
            let y: usize = self.y_pos;
            let w: usize = self.info.width - self.x_pos;
            let bg: u32 = self.bg_color;
            self.fill_rect(x, y, w, scaled_height, bg);
        }
        self.new_line();
    }

    fn draw_char(&mut self, x: usize, y: usize, c: char)
        requires
            old(self).wf(),
            x <= 8 * MAX_SCALE,
            y <= MAX_DIMENSION,
        ensures
            final(self).wf(),
            final(self)@ == old(self)@.draw_char(x as int, y as int, c),
    {
        let rows = match glyph_rows(c) {
            Some(rows) => rows,
            None => {
                return ;
            },
        };
        let scale: usize = self.scale;
        let text: u32 = self.text_color;
        let bg: u32 = self.bg_color;
        let ghost before = self.pixels@;
        let ghost info = self.info;
        let ghost glyph = rows@;
        if scale == 0 {
            assert(before =~= with_glyph(before, info, glyph, x as int, y as int, 0, text, bg));
            return ;
        }
        let mut row: usize = 0;
        while row < 8
            invariant
                self.wf(),
                self@ == (Console { pixels: self.pixels@, ..old(self)@ }),
                before == old(self)@.pixels,
                info == self.info,
                glyph == rows@,
                scale == self.scale,
                0 < scale <= MAX_SCALE,
                text == self.text_color,
                bg == self.bg_color,
                x <= 8 * MAX_SCALE,
                y <= MAX_DIMENSION,
                row <= 8,
                self.pixels@.len() == before.len(),
                forall|idx: int|
                    0 <= idx < before.len() ==> self.pixels@[idx] == glyph_pixel(
                        before,
                        info,
                        glyph,
                        x as int,
                        y as int,
                        scale as int,
                        text,
                        bg,
                        row * 8,
                        idx,
                    ),
            decreases 8 - row,
        {
            let row_byte: u8 = rows[row];
            let mut col: usize = 0;
            while col < 8
                invariant
                    self.wf(),
                    self@ == (Console { pixels: self.pixels@, ..old(self)@ }),
                    before == old(self)@.pixels,
                    info == self.info,
                    glyph == rows@,
                    row_byte == glyph[row as int],
                    scale == self.scale,
                    0 < scale <= MAX_SCALE,
                    text == self.text_color,
                    bg == self.bg_color,
                    x <= 8 * MAX_SCALE,
                    y <= MAX_DIMENSION,
                    row < 8,
                    col <= 8,
                    self.pixels@.len() == before.len(),
                    forall|idx: int|
                        0 <= idx < before.len() ==> self.pixels@[idx] == glyph_pixel(
                            before,
                            info,
                            glyph,
                            x as int,
                            y as int,
                            scale as int,
                            text,
                            bg,
                            row * 8 + col,
                            idx,
                        ),
                decreases 8 - col,
            {
                let bit_is_set: bool = (row_byte & (1u8 << (col as u8))) != 0;
                let color: u32 = if bit_is_set {
                    text
                } else {
                    bg
                };
                assert(col * scale <= 7 * scale && row * scale <= 7 * scale) by (nonlinear_arith)
                    requires
                        0 <= col <= 7,
                        0 <= row <= 7,
                        0 <= scale,
                ;
                let ghost prev = self.pixels@;
                let cx: usize = x + col * scale;
                let cy: usize = y + row * scale;
                self.fill_rect(cx, cy, scale, scale, color);
                assert forall|idx: int| 0 <= idx < before.len() implies self.pixels@[idx]
                    == glyph_pixel(
                    before,
                    info,
                    glyph,
                    x as int,
                    y as int,
                    scale as int,
                    text,
                    bg,
                    row * 8 + col + 1,
                    idx,
                ) by {
                    let px = pixel_x(info, idx);
                    let py = pixel_y(info, idx);
                    assert(self.pixels@[idx] == if in_rect(
                        info,
                        cx as int,
                        cy as int,
                        scale as int,
                        scale as int,
                        idx,
                    ) {
                        color
                    } else {
                        prev[idx]
                    });
                    if px < info.width && x <= px < x + 8 * scale && y <= py < y + 8 * scale {
                        lemma_cell_below_eight(px - x, scale as int);
                        lemma_cell_below_eight(py - y, scale as int);
                        lemma_cell_of(px - x, scale as int, col as int);
                        lemma_cell_of(py - y, scale as int, row as int);
                    }
                }
                col = col + 1;
            }
            row = row + 1;
        }
        assert(self.pixels@ =~= with_glyph(before, info, glyph, x as int, y as int, scale as int, text, bg));
    }

    /// Sends one byte to the console: a line feed ends the text row, any
    /// other byte is drawn at the cursor.
    pub fn write_byte(&mut self, byte: u8)
        requires
            old(self).wf(),
        ensures
            final(self).wf(),
            final(self)@ == old(self)@.write_byte(byte),
    {
        let scaled_width: usize = FONT_WIDTH * self.scale;
        if byte == 10 {
            self.fill_remainder();
        } else {
            if self.x_pos + scaled_width > self.info.width {
                self.new_line();
            }
            let x: usize = self.x_pos;
            let y: usize = self.y_pos;
            self.draw_char(x, y, byte as char);
            self.x_pos = self.x_pos + scaled_width;
        }
    }

    /// Sends the low eight bits of every character of `s` to the console,
    /// first to last.
    pub fn write_str(&mut self, s: &str)
        requires
            old(self).wf(),
        ensures
            final(self).wf(),
            final(self)@ == old(self)@.write_bytes(s@.map_values(|c: char| c as u8)),
    {
        let ghost bytes = s@.map_values(|c: char| c as u8);
        let n: usize = s.unicode_len();
        let mut i: usize = 0;
        while i < n
            invariant
                self.wf(),
                i <= n,
                n == s@.len(),
                bytes == s@.map_values(|c: char| c as u8),
                self@ == old(self)@.write_bytes(bytes.take(i as int)),
            decreases n - i,
        {
            let c: char = s.get_char(i);
            assert(bytes.take(i + 1).drop_last() =~= bytes.take(i as int));
            self.write_byte(c as u8);
            i = i + 1;
        }
        assert(bytes.take(i as int) =~= bytes);
    }

    /// Sends every byte of `bytes` to the console, first to last.
    pub fn write_bytes(&mut self, bytes: &[u8])
        requires
            old(self).wf(),
        ensures
            final(self).wf(),
            final(self)@ == old(self)@.write_bytes(bytes@),
    {
        let mut i: usize = 0;
        while i < bytes.len()
            invariant
                self.wf(),
                i <= bytes@.len(),
                self@ == old(self)@.write_bytes(bytes@.take(i as int)),
            decreases bytes@.len() - i,
        {
            assert(bytes@.take(i + 1).drop_last() =~= bytes@.take(i as int));
            self.write_byte(bytes[i]);
            i = i + 1;
        }
        assert(bytes@.take(i as int) =~= bytes@);
    }
}


/// What a console slot shows: nothing while no framebuffer was handed over.
pub open spec fn shown(console: Option<FrameBufferWriter>) -> Option<Console> {
    match console {
        Some(writer) => Some(writer@),
        None => None,
    }
}

/// The writer in a console slot, if there is one, is well formed.
pub open spec fn slot_wf(console: Option<FrameBufferWriter>) -> bool {
    match console {
        Some(writer) => writer.wf(),
        None => true,
    }
}

/// Starts the console on a framebuffer of geometry `info`.
pub fn init(console: &mut Option<FrameBufferWriter>, info: FrameBufferInfo)
    requires
        info.valid(),
    ensures
        slot_wf(*final(console)),
        shown(*final(console)) == Some(FrameBufferWriter::initial(info)),
{
    *console = Some(FrameBufferWriter::new(info));
}

/// Sets the text colour of the console, if it was started.
pub fn set_text_color(console: &mut Option<FrameBufferWriter>, color: u32)
    requires
        slot_wf(*old(console)),
    ensures
        slot_wf(*final(console)),
        shown(*final(console)) == match shown(*old(console)) {
            Some(c) => Some(
                Console { text_color: spec_convert_color(c.info.format, color), ..c },
            ),
            None => None,
        },
{
    match console {
        Some(writer) => {
            writer.set_text_color(color);
        },
        None => {},
    }
}

/// Sets the background colour of the console, if it was started.
pub fn set_background_color(console: &mut Option<FrameBufferWriter>, color: u32)
    requires
        slot_wf(*old(console)),
    ensures
        slot_wf(*final(console)),
        shown(*final(console)) == match shown(*old(console)) {
            Some(c) => Some(Console { bg_color: spec_convert_color(c.info.format, color), ..c }),
            None => None,
        },
{
    match console {
        Some(writer) => {
            writer.set_background_color(color);
        },
        None => {},
    }
}

/// Sets the glyph scale of the console, if it was started.
pub fn set_scale(console: &mut Option<FrameBufferWriter>, scale: usize)
    requires
        slot_wf(*old(console)),
        scale <= MAX_SCALE,
    ensures
        slot_wf(*final(console)),
        shown(*final(console)) == match shown(*old(console)) {
            Some(c) => Some(Console { scale: scale as int, ..c }),
            None => None,
        },
{
    match console {
        Some(writer) => {
            writer.set_scale(scale);
        },
        None => {},
    }
}

/// Paints the whole screen in `color`, if the console was started.
pub fn clear_screen(console: &mut Option<FrameBufferWriter>, color: u32)
    requires
        slot_wf(*old(console)),
    ensures
        slot_wf(*final(console)),
        shown(*final(console)) == match shown(*old(console)) {
            Some(c) => Some(c.clear(color)),
            None => None,
        },
{
    match console {
        Some(writer) => {
            writer.clear(color);
        },
        None => {},
    }
}

/// Puts colours and scale back to their defaults, if the console was started.
pub fn reset_style(console: &mut Option<FrameBufferWriter>)
    requires
        slot_wf(*old(console)),
    ensures
        slot_wf(*final(console)),
        shown(*final(console)) == match shown(*old(console)) {
            Some(c) => Some(c.reset_style()),
            None => None,
        },
{
    match console {
        Some(writer) => {
            writer.set_text_color(DEFAULT_TEXT_COLOR);
            writer.set_scale(DEFAULT_SCALE);
            writer.set_background_color(DEFAULT_BACKGROUND_COLOR);
        },
        None => {},
    }
}

/// Sends the low eight bits of `c` to the console, if it was started.
pub fn print_char(console: &mut Option<FrameBufferWriter>, c: char)
    requires
        slot_wf(*old(console)),
    ensures
        slot_wf(*final(console)),
        shown(*final(console)) == match shown(*old(console)) {
            Some(con) => Some(con.write_byte(c as u8)),
            None => None,
        },
{
    match console {
        Some(writer) => {
            writer.write_byte(c as u8);
        },
        None => {},
    }
}

} // verus!
