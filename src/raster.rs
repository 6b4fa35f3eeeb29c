//! Drawing glyphs into an RGB framebuffer.
use vstd::prelude::*;
use crate::world::{Charset, Color, GLYPH_COLS, GLYPH_ROWS};

verus! {

/// An RGB framebuffer: pixel (x, y) is the three bytes from `y * stride + 3 * x`.
pub struct ImgRenderer {
    pub pixels: Vec<u8>,
    pub stride: usize,
}

/// Where byte `ch` (0 red, 1 green, 2 blue) of pixel (x, y) lies.
pub open spec fn byte_index(x: int, y: int, ch: int, stride: int) -> int {
    y * stride + x * 3 + ch
}

/// A 6-bit colour channel scaled to 0..=255: only the low six bits count.
pub open spec fn scale(c: u8) -> u8 {
    ((c % 64) * 4) as u8
}

/// Byte `ch` of a palette colour as written to the framebuffer.
pub open spec fn channel(c: Color, ch: int) -> u8 {
    if ch == 0 {
        scale(c.r)
    } else if ch == 1 {
        scale(c.g)
    } else {
        scale(c.b)
    }
}

/// Bit `col` of a font row, counted from the most significant bit.
pub open spec fn bit_set(row: u8, col: u8) -> bool {
    row & (128u8 >> col) != 0
}

/// The colour of pixel (col, row) of a glyph drawn in `fg` on `bg`.
pub open spec fn glyph_pixel(font: Seq<u8>, glyph: u8, fg: Color, bg: Color, col: int, row: int) -> Color {
    if bit_set(font[glyph as int * GLYPH_ROWS + row], col as u8) {
        fg
    } else {
        bg
    }
}

/// Pixel (x, y) lies in the glyph cell at cell column `cx`, cell row `cy`.
pub open spec fn in_cell(x: int, y: int, cx: int, cy: int) -> bool {
    cx * GLYPH_COLS <= x < cx * GLYPH_COLS + GLYPH_COLS && cy * GLYPH_ROWS <= y < cy * GLYPH_ROWS + GLYPH_ROWS
}

/// Two distinct pixel bytes of a framebuffer lie at distinct indices.
pub proof fn lemma_index_distinct(x1: int, y1: int, c1: int, x2: int, y2: int, c2: int, stride: int)
    requires
        0 <= x1,
        0 <= x2,
        0 <= y1,
        0 <= y2,
        0 <= c1 < 3,
        0 <= c2 < 3,
        x1 * 3 + c1 < stride,
        x2 * 3 + c2 < stride,
        x1 != x2 || y1 != y2 || c1 != c2,
    ensures
        byte_index(x1, y1, c1, stride) != byte_index(x2, y2, c2, stride),
{
    if byte_index(x1, y1, c1, stride) == byte_index(x2, y2, c2, stride) {
        let k = byte_index(x1, y1, c1, stride);
        vstd::arithmetic::mul::lemma_mul_is_commutative(y1, stride);
        vstd::arithmetic::mul::lemma_mul_is_commutative(y2, stride);
        vstd::arithmetic::div_mod::lemma_fundamental_div_mod_converse(k, stride, y1, x1 * 3 + c1);
        vstd::arithmetic::div_mod::lemma_fundamental_div_mod_converse(k, stride, y2, x2 * 3 + c2);
        vstd::arithmetic::div_mod::lemma_fundamental_div_mod_converse(x1 * 3 + c1, 3, x1, c1);
        vstd::arithmetic::div_mod::lemma_fundamental_div_mod_converse(x2 * 3 + c2, 3, x2, c2);
    }
}

/// A pixel byte of a row below `height` lies inside a buffer of `height` rows.
pub proof fn lemma_index_bound(x: int, y: int, ch: int, stride: int, height: int)
    requires
        0 <= x,
        0 <= y < height,
        0 <= ch < 3,
        x * 3 + ch < stride,
    ensures
        0 <= byte_index(x, y, ch, stride) < height * stride,
{
    vstd::arithmetic::mul::lemma_mul_inequality(y + 1, height, stride);
    vstd::arithmetic::mul::lemma_mul_nonnegative(y, stride);
    vstd::arithmetic::mul::lemma_mul_is_distributive_add_other_way(stride, y, 1);
}

/// A glyph drawn with the same foreground and background fills its whole
/// cell with that colour, scaled, whatever the font holds; a channel within
/// 0..=63 comes out as four times its value.
pub proof fn lemma_uniform_cell(font: Seq<u8>, glyph: u8, c: Color, col: int, row: int)
    ensures
        glyph_pixel(font, glyph, c, c, col, row) == c,
        c.r < 64 ==> channel(glyph_pixel(font, glyph, c, c, col, row), 0) == c.r * 4,
        c.g < 64 ==> channel(glyph_pixel(font, glyph, c, c, col, row), 1) == c.g * 4,
        c.b < 64 ==> channel(glyph_pixel(font, glyph, c, c, col, row), 2) == c.b * 4,
{
}

impl ImgRenderer {
    /// The framebuffer holds whole rows of `width` pixels.
    pub open spec fn wf(&self, width: nat, height: nat) -> bool {
        self.stride == width * 3 && self.pixels@.len() == height * self.stride
    }

    /// Writes one pixel.
    pub fn put_pixel(&mut self, x: usize, y: usize, r: u8, g: u8, b: u8)
        requires
            x * 3 + 3 <= old(self).stride,
            byte_index(x as int, y as int, 2, old(self).stride as int) < old(self).pixels@.len(),
        ensures
            final(self).stride == old(self).stride,
            final(self).pixels@ == old(self).pixels@.update(
                byte_index(x as int, y as int, 0, old(self).stride as int),
                r,
            ).update(byte_index(x as int, y as int, 1, old(self).stride as int), g).update(
                byte_index(x as int, y as int, 2, old(self).stride as int),
                b,
            ),
    {
        let len = self.pixels.len();
        proof {
            vstd::arithmetic::mul::lemma_mul_nonnegative(y as int, self.stride as int);
            assert(byte_index(x as int, y as int, 2, self.stride as int) < len);
        }
        let start = y * self.stride + x * 3;
        self.pixels.set(start, r);
        self.pixels.set(start + 1, g);
        self.pixels.set(start + 2, b);
    }

    /// Pixel (x, y) of the framebuffer holds byte `ch` at a valid index.
    pub open spec fn has_pixel(&self, x: int, y: int, ch: int) -> bool {
        0 <= x && 0 <= y && 0 <= ch < 3 && x * 3 + 3 <= self.stride
            && byte_index(x, y, 2, self.stride as int) < self.pixels@.len()
    }

    /// Draws glyph `glyph` of `charset` in `fg` on `bg` into the cell at cell
    /// column `cell_x` and cell row `cell_y`; every other pixel stays as it was.
    pub fn blit(&mut self, charset: &Charset, glyph: u8, fg: Color, bg: Color, cell_x: usize, cell_y: usize)
        requires
            charset.wf(),
            (cell_x + 1) * GLYPH_COLS * 3 <= old(self).stride,
            (cell_y + 1) * GLYPH_ROWS * old(self).stride <= old(self).pixels@.len(),
        ensures
            final(self).stride == old(self).stride,
            final(self).pixels@.len() == old(self).pixels@.len(),
            forall|x: int, y: int, ch: int|
                #![trigger byte_index(x, y, ch, old(self).stride as int)]
                old(self).has_pixel(x, y, ch) ==> final(self).pixels@[byte_index(x, y, ch, old(self).stride as int)] == (if in_cell(x, y, cell_x as int, cell_y as int) {
                    channel(
                        glyph_pixel(
                            charset.data@,
                            glyph,
                            fg,
                            bg,
                            x - cell_x * GLYPH_COLS,
                            y - cell_y * GLYPH_ROWS,
                        ),
                        ch,
                    )
                } else {
                    old(self).pixels@[byte_index(x, y, ch, old(self).stride as int)]
                }),
    {
        let ghost old_px = self.pixels@;
        let stride = self.stride;
        let len = self.pixels.len();
        proof {
            vstd::arithmetic::mul::lemma_mul_inequality(1, stride as int, (cell_y + 1) * GLYPH_ROWS);
            vstd::arithmetic::mul::lemma_mul_is_commutative((cell_y + 1) * GLYPH_ROWS, stride as int);
        }
        let base_x = cell_x * GLYPH_COLS;
        let base_y = cell_y * GLYPH_ROWS;
        proof {
            vstd::arithmetic::mul::lemma_mul_inequality(base_y as int + GLYPH_ROWS, (cell_y + 1) * GLYPH_ROWS, stride as int);
        }
        let mut row: usize = 0;
        while row < GLYPH_ROWS
            invariant
                self.stride == stride,
                self.pixels@.len() == old_px.len(),
                base_x == cell_x * GLYPH_COLS,
                base_y == cell_y * GLYPH_ROWS,
                (base_x + GLYPH_COLS) * 3 <= stride,
                (base_y + GLYPH_ROWS) * stride <= old_px.len(),
                base_y + GLYPH_ROWS <= len,
                charset.wf(),
                row <= GLYPH_ROWS,
                forall|x: int, y: int, ch: int|
                    #![trigger byte_index(x, y, ch, stride as int)]
                    0 <= x && 0 <= y && 0 <= ch < 3 && x * 3 + 3 <= stride && byte_index(x, y, 2, stride as int) < old_px.len()
                        ==> self.pixels@[byte_index(x, y, ch, stride as int)] == (if in_cell(x, y, cell_x as int, cell_y as int) && y - base_y < row {
                            channel(glyph_pixel(charset.data@, glyph, fg, bg, x - base_x, y - base_y), ch)
                        } else {
                            old_px[byte_index(x, y, ch, stride as int)]
                        }),
            decreases GLYPH_ROWS - row,
        {
            let bits = charset.data[glyph as usize * GLYPH_ROWS + row];
            let mut col: usize = 0;
            while col < GLYPH_COLS
                invariant
                    self.stride == stride,
                    self.pixels@.len() == old_px.len(),
                    base_x == cell_x * GLYPH_COLS,
                    base_y == cell_y * GLYPH_ROWS,
                    (base_x + GLYPH_COLS) * 3 <= stride,
                    (base_y + GLYPH_ROWS) * stride <= old_px.len(),
                base_y + GLYPH_ROWS <= len,
                    charset.wf(),
                    row < GLYPH_ROWS,
                    col <= GLYPH_COLS,
                    bits == charset.data@[glyph as int * GLYPH_ROWS + row],
                    forall|x: int, y: int, ch: int|
                        #![trigger byte_index(x, y, ch, stride as int)]
                        0 <= x && 0 <= y && 0 <= ch < 3 && x * 3 + 3 <= stride && byte_index(x, y, 2, stride as int) < old_px.len()
                            ==> self.pixels@[byte_index(x, y, ch, stride as int)] == (if in_cell(x, y, cell_x as int, cell_y as int) && (y - base_y < row || (y - base_y == row && x - base_x < col)) {
                                channel(glyph_pixel(charset.data@, glyph, fg, bg, x - base_x, y - base_y), ch)
                            } else {
                                old_px[byte_index(x, y, ch, stride as int)]
                            }),
                decreases GLYPH_COLS - col,
            {
                let color = if bits & (128u8 >> (col as u8)) != 0 {
                    fg
                } else {
                    bg
                };
                let x0 = base_x + col;
                let y0 = base_y + row;
                proof {
                    lemma_index_bound(x0 as int, y0 as int, 2, stride as int, base_y + GLYPH_ROWS);
                    vstd::arithmetic::mul::lemma_mul_inequality(base_y as int + GLYPH_ROWS, base_y as int + GLYPH_ROWS, stride as int);
                }
                self.put_pixel(x0, y0, (color.r % 64) * 4, (color.g % 64) * 4, (color.b % 64) * 4);
                proof {
                    assert forall|x: int, y: int, ch: int|
                        0 <= x && 0 <= y && 0 <= ch < 3 && x * 3 + 3 <= stride && byte_index(x, y, 2, stride as int) < old_px.len()
                        && (x != x0 || y != y0) implies #[trigger] byte_index(x, y, ch, stride as int) != byte_index(x0 as int, y0 as int, 0, stride as int)
                            && byte_index(x, y, ch, stride as int) != byte_index(x0 as int, y0 as int, 1, stride as int)
                            && byte_index(x, y, ch, stride as int) != byte_index(x0 as int, y0 as int, 2, stride as int) by {
                        lemma_index_distinct(x, y, ch, x0 as int, y0 as int, 0, stride as int);
                        lemma_index_distinct(x, y, ch, x0 as int, y0 as int, 1, stride as int);
                        lemma_index_distinct(x, y, ch, x0 as int, y0 as int, 2, stride as int);
                    }
                }
                col += 1;
            }
            row += 1;
        }
    }
}

} // verus!
