//! Foreground and background of a cell, from its colour code, the colour
//! code beneath it and the overlay above it.
use vstd::prelude::*;
use crate::glyph::BLANK_GLYPH;

verus! {

/// The colour code of a cell once the layer beneath has filled in a missing
/// background and the overlay has been laid on top.
pub open spec fn combined_color(stored: u8, under: u8, overlay_char: u8, overlay_color: u8, p: nat) -> nat
    recommends
        p > 0,
{
    let s: nat = if stored as nat / p == 0 {
        (under as nat / p) * p + stored as nat % p
    } else {
        stored as nat
    };
    if overlay_char != BLANK_GLYPH {
        if overlay_color as nat / p == 0 && overlay_color != 0 {
            (s / p) * p + overlay_color as nat
        } else {
            overlay_color as nat
        }
    } else {
        s
    }
}

/// The (foreground, background) indices that a cell is drawn with.
pub open spec fn cell_colors(stored: u8, under: u8, overlay_char: u8, overlay_color: u8, p: nat) -> (nat, nat)
    recommends
        p > 0,
{
    let c = combined_color(stored, under, overlay_char, overlay_color, p);
    (c % p, c / p)
}

/// Resolves the (foreground, background) palette indices of a cell whose
/// colour code is `stored`, above a cell of colour code `under`, below an
/// overlay entry of glyph `overlay_char` and colour code `overlay_color`.
pub fn resolve_colors(stored: u8, under: u8, overlay_char: u8, overlay_color: u8, palette_size: usize) -> (r: (usize, usize))
    requires
        palette_size > 0,
    ensures
        (r.0 as nat, r.1 as nat) == cell_colors(stored, under, overlay_char, overlay_color, palette_size as nat),
{
    let p = palette_size;
    let stored = stored as usize;
    let under = under as usize;
    let overlay_color = overlay_color as usize;
    proof {
        vstd::arithmetic::div_mod::lemma_fundamental_div_mod(under as int, p as int);
        vstd::arithmetic::div_mod::lemma_mod_bound(stored as int, p as int);
        vstd::arithmetic::div_mod::lemma_mod_decreases(stored as nat, p as nat);
        vstd::arithmetic::mul::lemma_mul_is_commutative(under as int / p as int, p as int);
    }
    let mut c: usize = if stored / p == 0 {
        under - under % p + stored % p
    } else {
        stored
    };
    if overlay_char != BLANK_GLYPH {
        if overlay_color / p == 0 && overlay_color != 0 {
            proof {
                vstd::arithmetic::div_mod::lemma_fundamental_div_mod(c as int, p as int);
                vstd::arithmetic::div_mod::lemma_mod_bound(c as int, p as int);
                vstd::arithmetic::mul::lemma_mul_is_commutative(c as int / p as int, p as int);
            }
            c = c - c % p + overlay_color;
        } else {
            c = overlay_color;
        }
    }
    (c % p, c / p)
}

/// Without a visible overlay, a colour code that has a background of its own
/// is drawn as it is: its foreground and background are read off it directly.
pub proof fn lemma_opaque_unchanged(stored: u8, under: u8, overlay_color: u8, p: nat)
    requires
        p > 0,
        stored as nat / p != 0,
    ensures
        cell_colors(stored, under, BLANK_GLYPH, overlay_color, p) == (stored as nat % p, stored as nat / p),
{
}

/// With at least 16 colours every background index that a colour code can
/// give names an entry of the palette.
pub proof fn lemma_bg_in_range(stored: u8, under: u8, overlay_char: u8, overlay_color: u8, p: nat)
    requires
        p >= 16,
    ensures
        cell_colors(stored, under, overlay_char, overlay_color, p).0 < p,
        cell_colors(stored, under, overlay_char, overlay_color, p).1 < p,
{
    let c = combined_color(stored, under, overlay_char, overlay_color, p);
    let s: nat = if stored as nat / p == 0 {
        (under as nat / p) * p + stored as nat % p
    } else {
        stored as nat
    };
    vstd::arithmetic::div_mod::lemma_mod_bound(c as int, p as int);
    vstd::arithmetic::div_mod::lemma_div_is_ordered_by_denominator(255, 16, p as int);
    vstd::arithmetic::div_mod::lemma_div_is_ordered(stored as int, 255, p as int);
    vstd::arithmetic::div_mod::lemma_div_is_ordered(under as int, 255, p as int);
    vstd::arithmetic::div_mod::lemma_div_is_ordered(overlay_color as int, 255, p as int);
    vstd::arithmetic::div_mod::lemma_mod_bound(stored as int, p as int);
    vstd::arithmetic::div_mod::lemma_mod_bound(overlay_color as int, p as int);
    vstd::arithmetic::div_mod::lemma_fundamental_div_mod(overlay_color as int, p as int);
    if stored as nat / p == 0 {
        vstd::arithmetic::div_mod::lemma_fundamental_div_mod_converse(
            s as int,
            p as int,
            under as int / p as int,
            stored as int % p as int,
        );
    }
    assert(s / p <= 15);
    if overlay_char != BLANK_GLYPH && overlay_color as nat / p == 0 && overlay_color != 0 {
        vstd::arithmetic::div_mod::lemma_fundamental_div_mod_converse(
            c as int,
            p as int,
            s as int / p as int,
            overlay_color as int,
        );
    }
    assert(c / p <= 15);
}

} // verus!
