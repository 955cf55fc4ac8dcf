//! The iteration-count-to-color palette, and packing of RGB triplets into
//! 24-bit pixel values.

use vstd::prelude::*;

verus! {

/// Number of colors along one leg of the palette.  The palette has three
/// legs, so it repeats with period `3 * NUM_COLORS_PER_LEG == 90`.
pub const NUM_COLORS_PER_LEG: usize = 30;

/// The palette color for a point that escaped after `n` iterations: a
/// three-leg gradient, periodic with period 90.  Each leg fades one color
/// channel out while fading the next one in.
pub open spec fn escape_color(n: int) -> (u8, u8, u8) {
    let v = n % 90;
    let remainder = v % 30;
    let value1 = ((30 - remainder) * 255 / 30) as u8;
    let value2 = (remainder * 255 / 30) as u8;
    if v / 30 == 0 {
        (value1, value2, 0u8)
    } else if v / 30 == 1 {
        (0u8, value1, value2)
    } else {
        (value2, 0u8, value1)
    }
}

/// What `color` returns: the fixed set color (a dark blue) for a point that
/// never escaped, and the periodic palette color for one that did.
pub open spec fn color_spec(i: Option<usize>) -> (u8, u8, u8) {
    match i {
        None => (0u8, 0u8, 102u8),
        Some(n) => escape_color(n as int),
    }
}

/// Maps the result of the escape computation to an RGB triplet:
/// `None` (the point belongs to the set) gets the fixed set color, and
/// `Some(n)` (the point escaped after `n` iterations) gets a palette color
/// that cycles through three color-pair gradients with period 90.
pub fn color(i: Option<usize>) -> (rgb: (u8, u8, u8))
    ensures
        rgb == color_spec(i),
{
    let n = match i {
        None => {
            return (0, 0, 102);
        },
        Some(n) => n,
    };

    let num_colors = NUM_COLORS_PER_LEG * 3;
    let i = n % num_colors;
    let remainder = i % NUM_COLORS_PER_LEG;

    let value1 = (NUM_COLORS_PER_LEG - remainder) * 255 / NUM_COLORS_PER_LEG;
    let value2 = remainder * 255 / NUM_COLORS_PER_LEG;

    let value1 = value1 as u8;
    let value2 = value2 as u8;

    let leg = i / NUM_COLORS_PER_LEG;
    if leg == 0 {
        (value1, value2, 0)
    } else if leg == 1 {
        (0, value1, value2)
    } else {
        (value2, 0, value1)
    }
}

/// Color periodicity: the palette color of an escape count repeats after 90
/// further iterations.
pub proof fn lemma_color_periodic(n: int)
    requires
        0 <= n,
    ensures
        escape_color(n + 90) == escape_color(n),
{
    assert((n + 90) % 90 == n % 90) by {
        vstd::arithmetic::div_mod::lemma_mod_add_multiples_vanish(n, 90);
    }
}

/// A packed 24-bit pixel value: the red byte in bits 16..24, the green byte
/// in bits 8..16, and the blue byte in bits 0..8.
pub open spec fn packed_rgb(r: u8, g: u8, b: u8) -> int {
    (r as u32) * 0x1_0000 + (g as u32) * 0x100 + (b as u32)
}

proof fn lemma_pack_rgb(r: u8, g: u8, b: u8)
    by (bit_vector)
    ensures
        ((r as u32) << 16) | ((g as u32) << 8) | (b as u32) == (r as u32) * 0x1_0000 + (g as u32)
            * 0x100 + (b as u32),
{
}

/// Packs an RGB triplet into a single 24-bit pixel value.
pub fn rgb_to_u32(r: u8, g: u8, b: u8) -> (packed: u32)
    ensures
        packed == packed_rgb(r, g, b),
{
    proof {
        lemma_pack_rgb(r, g, b);
    }
    ((r as u32) << 16) | ((g as u32) << 8) | (b as u32)
}

proof fn lemma_unpack_rgb(packed: u32)
    by (bit_vector)
    ensures
        (packed >> 16) & 0xff == (packed / 0x1_0000) % 0x100,
        (packed >> 8) & 0xff == (packed / 0x100) % 0x100,
        packed & 0xff == packed % 0x100,
        (packed >> 16) & 0xff < 0x100,
        (packed >> 8) & 0xff < 0x100,
        packed & 0xff < 0x100,
{
}

/// Recovers the RGB triplet held in the low 24 bits of a packed pixel value.
pub fn u32_to_rgb(packed: u32) -> (rgb: (u8, u8, u8))
    ensures
        rgb.0 == (packed / 0x1_0000) % 0x100,
        rgb.1 == (packed / 0x100) % 0x100,
        rgb.2 == packed % 0x100,
{
    proof {
        lemma_unpack_rgb(packed);
    }
    (((packed >> 16) & 0xff) as u8, ((packed >> 8) & 0xff) as u8, (packed & 0xff) as u8)
}

/// Packing an RGB triplet and unpacking the result gives the triplet back.
pub proof fn lemma_rgb_round_trip(r: u8, g: u8, b: u8)
    by (nonlinear_arith)
    ensures
        (packed_rgb(r, g, b) / 0x1_0000) % 0x100 == r,
        (packed_rgb(r, g, b) / 0x100) % 0x100 == g,
        packed_rgb(r, g, b) % 0x100 == b,
{
}

} // verus!
