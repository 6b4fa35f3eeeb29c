//! The font and the palette that a world draws with.
use vstd::prelude::*;

verus! {

/// Height of a glyph in pixel rows; each row is one byte of the font.
pub const GLYPH_ROWS: usize = 14;

/// Width of a glyph in pixels: one bit of a row byte each.
pub const GLYPH_COLS: usize = 8;

/// The number of glyphs that every font holds at least.
pub const MIN_GLYPHS: usize = 256;

/// The number of colours that every palette holds at least.
pub const MIN_COLORS: usize = 16;

/// A palette entry: red, green and blue, each meant to lie in 0..=63.
#[derive(Clone, Copy, PartialEq, Eq, Structural, Debug)]
pub struct Color {
    pub r: u8,
    pub g: u8,
    pub b: u8,
}

/// The bitmap font: glyph `i` is the 14 bytes from `14 * i`, one per row.
pub struct Charset {
    pub data: Vec<u8>,
}

/// The colours that colour codes index.
pub struct Palette {
    pub colors: Vec<Color>,
}

/// The render state that robots may change before a board is drawn.
pub struct WorldState {
    pub charset: Charset,
    pub palette: Palette,
}

/// The palette after loading `data` over `old`: each complete triple of bytes
/// replaces the entry at its position, a trailing partial triple and the
/// entries past the data stay as they were.
pub open spec fn palette_loaded(old: Seq<Color>, data: Seq<u8>) -> Seq<Color> {
    Seq::new(
        old.len(),
        |i: int|
            if i < data.len() / 3 {
                Color { r: data[3 * i], g: data[3 * i + 1], b: data[3 * i + 2] }
            } else {
                old[i]
            },
    )
}

/// Loading fewer bytes than the palette holds sets each entry that a
/// complete triple covers and leaves every later entry as it was.
pub proof fn lemma_short_palette_load(old: Seq<Color>, data: Seq<u8>)
    requires
        data.len() < old.len() * 3,
    ensures
        palette_loaded(old, data).len() == old.len(),
        forall|i: int|
            0 <= i < data.len() / 3 ==> #[trigger] palette_loaded(old, data)[i] == (Color {
                r: data[3 * i],
                g: data[3 * i + 1],
                b: data[3 * i + 2],
            }),
        forall|i: int| data.len() / 3 <= i < old.len() ==> #[trigger] palette_loaded(old, data)[i] == old[i],
{
    assert(data.len() / 3 <= old.len()) by {
        vstd::arithmetic::div_mod::lemma_div_is_ordered(data.len() as int, (old.len() * 3) as int, 3);
        vstd::arithmetic::div_mod::lemma_div_multiples_vanish(old.len() as int, 3);
        vstd::arithmetic::mul::lemma_mul_is_commutative(old.len() as int, 3);
    }
}

impl Charset {
    /// The font holds whole glyphs, and at least one for every byte.
    pub open spec fn wf(&self) -> bool {
        self.data.len() >= MIN_GLYPHS * GLYPH_ROWS && self.data.len() % GLYPH_ROWS == 0
    }

    /// Replaces the whole font by `data` when `data` has exactly the font's
    /// length, and otherwise leaves the font as it is. Returns whether it loaded.
    pub fn load(&mut self, data: &[u8]) -> (r: bool)
        ensures
            r == (data@.len() == old(self).data@.len()),
            final(self).data@ == (if r { data@ } else { old(self).data@ }),
    {
        if data.len() != self.data.len() {
            return false;
        }
        let mut i: usize = 0;
        while i < data.len()
            invariant
                self.data@.len() == data@.len(),
                i <= data.len(),
                forall|k: int| 0 <= k < i ==> self.data@[k] == data@[k],
            decreases data.len() - i,
        {
            self.data.set(i, data[i]);
            i += 1;
        }
        assert(self.data@ =~= data@);
        true
    }
}

impl Palette {
    /// The palette has room for every foreground and background index that
    /// a colour code can give.
    pub open spec fn wf(&self) -> bool {
        self.colors.len() >= MIN_COLORS
    }

    /// Overwrites the leading entries with the complete RGB triples of `data`.
    pub fn load(&mut self, data: &[u8])
        ensures
            final(self).colors@ == palette_loaded(old(self).colors@, data@),
    {
        let len: usize = data.len();
        let n: usize = len / 3;
        let mut i: usize = 0;
        while i < self.colors.len() && i < n
            invariant
                self.colors@.len() == old(self).colors@.len(),
                len == data@.len(),
                n == len / 3,
                i <= self.colors.len(),
                forall|k: int|
                    0 <= k < self.colors@.len() ==> self.colors@[k] == (if k < i {
                        palette_loaded(old(self).colors@, data@)[k]
                    } else {
                        old(self).colors@[k]
                    }),
            decreases self.colors.len() - i,
        {
            proof {
                vstd::arithmetic::div_mod::lemma_fundamental_div_mod(data@.len() as int, 3);
            }
            let j: usize = i * 3;
            let c = Color { r: data[j], g: data[j + 1], b: data[j + 2] };
            self.colors.set(i, c);
            i += 1;
        }
        assert(self.colors@ =~= palette_loaded(old(self).colors@, data@));
    }

    /// Sets entry `index` to the low bytes of `r`, `g` and `b`; an index
    /// outside the palette changes nothing.
    pub fn set_color(&mut self, index: i32, r: i32, g: i32, b: i32)
        ensures
            final(self).colors@ == (if 0 <= index < old(self).colors@.len() {
                old(self).colors@.update(
                    index as int,
                    Color { r: r as u8, g: g as u8, b: b as u8 },
                )
            } else {
                old(self).colors@
            }),
    {
        if 0 <= index && (index as usize) < self.colors.len() {
            #[verifier::truncate]
            let c = Color { r: r as u8, g: g as u8, b: b as u8 };
            self.colors.set(index as usize, c);
        }
    }
}

} // verus!
