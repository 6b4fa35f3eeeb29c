//! Boards, their robots and sensors, and drawing a whole board.
use vstd::prelude::*;
use crate::color::{cell_colors, resolve_colors};
use crate::glyph::{glyph_of, refs_ok, resolve_glyph, check_refs, BLANK_GLYPH};
use crate::interp::Command;
use crate::raster::{byte_index, channel, glyph_pixel, in_cell, ImgRenderer};
use crate::world::{Color, WorldState, GLYPH_COLS, GLYPH_ROWS};

verus! {

/// The colour code given to the entries of a board that has no overlay.
pub const NO_OVERLAY_COLOR: u8 = 7;

/// A cell position on a board: column `x`, row `y`.
#[derive(Clone, Copy, PartialEq, Eq, Structural, Debug)]
pub struct Coordinate {
    pub x: usize,
    pub y: usize,
}

/// A scripted entity of a board: its program, the glyph it shows and where it stands.
pub struct Robot {
    pub program: Vec<Command>,
    pub ch: u8,
    pub position: Coordinate,
}

/// A sensor of a board: only the glyph it shows matters here.
pub struct Sensor {
    pub ch: u8,
}

/// One rectangular playfield. Cell (x, y) is entry `y * width + x` of each
/// layer; `level` and `under` hold (entity id, colour code, parameter), the
/// overlay holds (glyph, colour code).
pub struct Board {
    pub width: usize,
    pub height: usize,
    pub level: Vec<(u8, u8, u8)>,
    pub under: Vec<(u8, u8, u8)>,
    pub overlay: Option<Vec<(u8, u8)>>,
    pub player_pos: Coordinate,
}

/// The glyphs that a list of robots shows, in order.
pub open spec fn robot_glyphs(robots: Seq<Robot>) -> Seq<u8> {
    robots.map_values(|r: Robot| r.ch)
}

/// The glyphs that a list of sensors shows, in order.
pub open spec fn sensor_glyphs(sensors: Seq<Sensor>) -> Seq<u8> {
    sensors.map_values(|s: Sensor| s.ch)
}

/// Width of a board's image in pixels.
pub open spec fn px_width(b: &Board) -> int {
    b.width * GLYPH_COLS
}

/// Height of a board's image in pixels.
pub open spec fn px_height(b: &Board) -> int {
    b.height * GLYPH_ROWS
}

/// Bytes per pixel row of a board's image.
pub open spec fn px_stride(b: &Board) -> int {
    px_width(b) * 3
}

impl Board {
    /// The number of cells.
    pub open spec fn cells(&self) -> int {
        self.width * self.height
    }

    /// Every layer has one entry per cell, and the image of the board fits
    /// in memory.
    pub open spec fn wf(&self) -> bool {
        &&& self.level@.len() == self.cells()
        &&& self.under@.len() == self.cells()
        &&& (self.overlay matches Some(o) ==> o@.len() == self.cells())
        &&& px_stride(self) <= usize::MAX
        &&& px_height(self) <= usize::MAX
        &&& px_stride(self) * px_height(self) <= usize::MAX
    }

    /// The overlay entry of cell `i`: a blank entry where the board has no overlay.
    pub open spec fn overlay_at(&self, i: int) -> (u8, u8) {
        match self.overlay {
            Some(o) => o@[i],
            None => (BLANK_GLYPH, NO_OVERLAY_COLOR),
        }
    }

    /// Every robot and sensor cell names a robot or sensor of the lists.
    pub open spec fn refs_valid(&self, robots: Seq<Robot>, sensors: Seq<Sensor>) -> bool {
        forall|i: int|
            0 <= i < self.cells() ==> refs_ok(
                #[trigger] self.level@[i].0,
                self.level@[i].2,
                robot_glyphs(robots),
                sensor_glyphs(sensors),
            )
    }

    /// The glyph drawn in cell `i`: the overlay's where it is not blank,
    /// else the glyph of the cell's entity.
    pub open spec fn cell_glyph(&self, i: int, robots: Seq<Robot>, sensors: Seq<Sensor>) -> u8 {
        let o = self.overlay_at(i);
        if o.0 != BLANK_GLYPH {
            o.0
        } else {
            glyph_of(self.level@[i].0, self.level@[i].2, robot_glyphs(robots), sensor_glyphs(sensors))
        }
    }

    /// The (foreground, background) palette indices of cell `i`.
    pub open spec fn cell_fg_bg(&self, i: int, palette_size: nat) -> (nat, nat) {
        let o = self.overlay_at(i);
        cell_colors(self.level@[i].1, self.under@[i].1, o.0, o.1, palette_size)
    }
}

/// The glyphs that the robots show, in order.
fn glyphs_of_robots(robots: &[Robot]) -> (r: Vec<u8>)
    ensures
        r@ == robot_glyphs(robots@),
{
    let mut r: Vec<u8> = Vec::new();
    let mut k: usize = 0;
    while k < robots.len()
        invariant
            k <= robots.len(),
            r@ == robot_glyphs(robots@).subrange(0, k as int),
        decreases robots.len() - k,
    {
        r.push(robots[k].ch);
        k += 1;
        assert(r@ =~= robot_glyphs(robots@).subrange(0, k as int));
    }
    assert(r@ =~= robot_glyphs(robots@));
    r
}

/// The glyphs that the sensors show, in order.
fn glyphs_of_sensors(sensors: &[Sensor]) -> (r: Vec<u8>)
    ensures
        r@ == sensor_glyphs(sensors@),
{
    let mut r: Vec<u8> = Vec::new();
    let mut k: usize = 0;
    while k < sensors.len()
        invariant
            k <= sensors.len(),
            r@ == sensor_glyphs(sensors@).subrange(0, k as int),
        decreases sensors.len() - k,
    {
        r.push(sensors[k].ch);
        k += 1;
        assert(r@ =~= sensor_glyphs(sensors@).subrange(0, k as int));
    }
    assert(r@ =~= sensor_glyphs(sensors@));
    r
}

impl Board {
    /// Tells whether every robot and sensor cell of the board names a robot
    /// or sensor of the lists, as `render` needs.
    pub fn check_refs(&self, robots: &[Robot], sensors: &[Sensor]) -> (r: bool)
        requires
            self.level@.len() == self.cells(),
        ensures
            r == self.refs_valid(robots@, sensors@),
    {
        let rg = glyphs_of_robots(robots);
        let sg = glyphs_of_sensors(sensors);
        let mut i: usize = 0;
        while i < self.level.len()
            invariant
                i <= self.level@.len(),
                self.level@.len() == self.cells(),
                rg@ == robot_glyphs(robots@),
                sg@ == sensor_glyphs(sensors@),
                forall|j: int|
                    0 <= j < i ==> refs_ok(
                        #[trigger] self.level@[j].0,
                        self.level@[j].2,
                        robot_glyphs(robots@),
                        sensor_glyphs(sensors@),
                    ),
            decreases self.level@.len() - i,
        {
            let (id, _, param) = self.level[i];
            if !check_refs(id, param, rg.as_slice(), sg.as_slice()) {
                return false;
            }
            i += 1;
        }
        true
    }
}

/// The index of the cell that pixel (x, y) of a board `width` cells wide lies in.
pub open spec fn cell_of(x: int, y: int, width: int) -> int {
    (y / GLYPH_ROWS as int) * width + x / GLYPH_COLS as int
}

/// The colour of pixel (x, y) of a board's image.
pub open spec fn pixel_color(w: &WorldState, b: &Board, robots: Seq<Robot>, sensors: Seq<Sensor>, x: int, y: int) -> Color {
    let i = cell_of(x, y, b.width as int);
    let p = w.palette.colors@;
    let (fg, bg) = b.cell_fg_bg(i, p.len());
    glyph_pixel(
        w.charset.data@,
        b.cell_glyph(i, robots, sensors),
        p[fg as int],
        p[bg as int],
        x % GLYPH_COLS as int,
        y % GLYPH_ROWS as int,
    )
}

/// Pixel (x, y) of a board `width` cells wide lies in cell `i` exactly when
/// `i` is the cell index of (x / 8, y / 14); inside, its place in the glyph
/// is (x % 8, y % 14).
pub proof fn lemma_pixel_cell(x: int, y: int, i: int, width: int)
    requires
        0 <= x < width * GLYPH_COLS,
        0 <= y,
        0 <= i,
        width > 0,
    ensures
        in_cell(x, y, i % width, i / width) <==> cell_of(x, y, width) == i,
        in_cell(x, y, i % width, i / width) ==> x - (i % width) * GLYPH_COLS == x % GLYPH_COLS as int
            && y - (i / width) * GLYPH_ROWS == y % GLYPH_ROWS as int,
{
    let cx = x / GLYPH_COLS as int;
    let cy = y / GLYPH_ROWS as int;
    vstd::arithmetic::div_mod::lemma_fundamental_div_mod(x, GLYPH_COLS as int);
    vstd::arithmetic::div_mod::lemma_fundamental_div_mod(y, GLYPH_ROWS as int);
    vstd::arithmetic::div_mod::lemma_fundamental_div_mod(i, width);
    vstd::arithmetic::div_mod::lemma_mod_bound(x, GLYPH_COLS as int);
    vstd::arithmetic::div_mod::lemma_mod_bound(y, GLYPH_ROWS as int);
    vstd::arithmetic::div_mod::lemma_mod_bound(i, width);
    vstd::arithmetic::mul::lemma_mul_is_commutative(width, i / width);
    assert(cx < width);
    assert(0 <= cy) by {
        vstd::arithmetic::div_mod::lemma_div_pos_is_pos(y, GLYPH_ROWS as int);
    }
    if cy * width + cx == i {
        vstd::arithmetic::div_mod::lemma_fundamental_div_mod_converse(i, width, cy, cx);
    }
}

/// Draws a board: one glyph per cell, in its resolved colours, into a fresh
/// RGB buffer of `8 * width` by `14 * height` pixels.
pub fn render(world: &WorldState, board: &Board, robots: &[Robot], sensors: &[Sensor]) -> (r: Vec<u8>)
    requires
        world.charset.wf(),
        world.palette.wf(),
        board.wf(),
        board.refs_valid(robots@, sensors@),
    ensures
        r@.len() == px_stride(board) * px_height(board),
        forall|x: int, y: int, ch: int|
            #![trigger byte_index(x, y, ch, px_stride(board))]
            0 <= x < px_width(board) && 0 <= y < px_height(board) && 0 <= ch < 3
                ==> r@[byte_index(x, y, ch, px_stride(board))] == channel(pixel_color(world, board, robots@, sensors@, x, y), ch),
{
    let rg = glyphs_of_robots(robots);
    let sg = glyphs_of_sensors(sensors);

    let width = board.width;
    let height = board.height;
    let stride = width * GLYPH_COLS * 3;
    proof {
        vstd::arithmetic::mul::lemma_mul_nonnegative(stride as int, height * GLYPH_ROWS);
        vstd::arithmetic::mul::lemma_mul_is_commutative(stride as int, height * GLYPH_ROWS);
        if width > 0 {
            vstd::arithmetic::mul::lemma_mul_inequality(1, stride as int, height * GLYPH_ROWS);
        }
    }
    let total = stride * (height * GLYPH_ROWS);
    let mut out = ImgRenderer { pixels: vec![0u8; total], stride };
    if width == 0 || height == 0 {
        assert(px_width(board) == 0 || px_height(board) == 0);
        return out.pixels;
    }
    proof {
        vstd::arithmetic::mul::lemma_mul_inequality(width as int, width * GLYPH_COLS * 3, height as int);
        vstd::arithmetic::mul::lemma_mul_inequality(height as int, height * GLYPH_ROWS, width * GLYPH_COLS * 3);
        vstd::arithmetic::mul::lemma_mul_is_commutative(height as int, width * GLYPH_COLS * 3);
    }
    let n = width * height;
    let palette = &world.palette.colors;
    let ghost p = palette@;
    proof {
        assert forall|x: int, y: int, ch: int|
            0 <= x < px_width(board) && 0 <= y < px_height(board) && 0 <= ch < 3 implies #[trigger] out.pixels@[byte_index(x, y, ch, stride as int)] == 0u8
                && cell_of(x, y, width as int) >= 0 by {
            crate::raster::lemma_index_bound(x, y, ch, stride as int, px_height(board));
            vstd::arithmetic::div_mod::lemma_div_pos_is_pos(y, GLYPH_ROWS as int);
            vstd::arithmetic::mul::lemma_mul_nonnegative(y / GLYPH_ROWS as int, width as int);
        }
    }
    let mut i: usize = 0;
    while i < n
        invariant
            world.charset.wf(),
            world.palette.wf(),
            board.wf(),
            board.refs_valid(robots@, sensors@),
            rg@ == robot_glyphs(robots@),
            sg@ == sensor_glyphs(sensors@),
            width == board.width,
            height == board.height,
            width > 0,
            height > 0,
            n == width * height,
            stride == px_stride(board),
            total == stride * px_height(board),
            out.stride == stride,
            out.pixels@.len() == total,
            palette@ == world.palette.colors@,
            i <= n,
            forall|x: int, y: int, ch: int|
                #![trigger byte_index(x, y, ch, stride as int)]
                0 <= x < px_width(board) && 0 <= y < px_height(board) && 0 <= ch < 3
                    ==> out.pixels@[byte_index(x, y, ch, stride as int)] == (if cell_of(x, y, width as int) < i {
                        channel(pixel_color(world, board, robots@, sensors@, x, y), ch)
                    } else {
                        0u8
                    }),
        decreases n - i,
    {
        let cx = i % width;
        let cy = i / width;
        let (id, stored, param) = board.level[i];
        let under = board.under[i].1;
        let (overlay_char, overlay_color) = match &board.overlay {
            Some(o) => o[i],
            None => (BLANK_GLYPH, NO_OVERLAY_COLOR),
        };
        assert(refs_ok(board.level@[i as int].0, board.level@[i as int].2, rg@, sg@));
        let glyph = if overlay_char != BLANK_GLYPH {
            overlay_char
        } else {
            resolve_glyph(id, param, rg.as_slice(), sg.as_slice())
        };
        let (fg, bg) = resolve_colors(stored, under, overlay_char, overlay_color, palette.len());
        proof {
            crate::color::lemma_bg_in_range(stored, under, overlay_char, overlay_color, palette@.len());
            vstd::arithmetic::div_mod::lemma_fundamental_div_mod(i as int, width as int);
            vstd::arithmetic::div_mod::lemma_mod_bound(i as int, width as int);
            vstd::arithmetic::mul::lemma_mul_inequality(cx + 1, width as int, GLYPH_COLS * 3);
            assert(cy < height) by (nonlinear_arith)
                requires
                    i < width * height,
                    i == width * cy + cx,
                    0 <= cx,
                    width > 0,
            ;
            vstd::arithmetic::mul::lemma_mul_inequality(cy + 1, height as int, GLYPH_ROWS as int);
            vstd::arithmetic::mul::lemma_mul_inequality((cy + 1) * GLYPH_ROWS, height * GLYPH_ROWS, stride as int);
            vstd::arithmetic::mul::lemma_mul_is_commutative(stride as int, height * GLYPH_ROWS);
        }
        out.blit(&world.charset, glyph, palette[fg], palette[bg], cx, cy);
        proof {
            assert forall|x: int, y: int, ch: int|
                0 <= x < px_width(board) && 0 <= y < px_height(board) && 0 <= ch < 3 implies #[trigger] out.pixels@[byte_index(x, y, ch, stride as int)]
                    == (if cell_of(x, y, width as int) < i + 1 {
                        channel(pixel_color(world, board, robots@, sensors@, x, y), ch)
                    } else {
                        0u8
                    }) by {
                lemma_pixel_cell(x, y, i as int, width as int);
                crate::raster::lemma_index_bound(x, y, 2, stride as int, px_height(board));
            }
        }
        i += 1;
    }
    proof {
        assert forall|x: int, y: int|
            0 <= x < px_width(board) && 0 <= y < px_height(board) implies #[trigger] cell_of(x, y, width as int) < n by {
            vstd::arithmetic::div_mod::lemma_fundamental_div_mod(x, GLYPH_COLS as int);
            vstd::arithmetic::div_mod::lemma_fundamental_div_mod(y, GLYPH_ROWS as int);
            vstd::arithmetic::div_mod::lemma_mod_bound(x, GLYPH_COLS as int);
            vstd::arithmetic::div_mod::lemma_mod_bound(y, GLYPH_ROWS as int);
            vstd::arithmetic::div_mod::lemma_div_pos_is_pos(y, GLYPH_ROWS as int);
            let cy = y / GLYPH_ROWS as int;
            let cx = x / GLYPH_COLS as int;
            assert(cy * width + cx < width * height) by (nonlinear_arith)
                requires
                    0 <= cy < height,
                    0 <= cx < width,
            ;
        }
    }
    out.pixels
}

} // verus!
