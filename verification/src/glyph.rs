//! The density ramp and the map from a pixel to one of its glyphs.

use crate::raster::Pixel;
use vstd::prelude::*;
use vstd::string::StrSliceExecFns;

verus! {

/// The ramp: glyphs from the emptiest to the densest.
pub const DENSITY: &'static str = " _.,-=+:;cba!?0123456789$W#@\u{d1}";

/// Number of glyphs in the ramp.
pub const RAMP_LEN: usize = 29;

/// The brightness of an opaque white pixel. Brightness is kept as a whole
/// number of parts out of this many, so that `BRIGHTNESS_FULL` stands for 1.
pub const BRIGHTNESS_FULL: u32 = 195075;

/// The ramp as a sequence of glyphs.
pub open spec fn density_ramp() -> Seq<char> {
    DENSITY@
}

/// Brightness of a pixel in parts of `BRIGHTNESS_FULL`: the mean of the three
/// colour channels over 255, weighted by the opacity over 255.
pub open spec fn brightness_level(p: Pixel) -> nat {
    ((p.r + p.g + p.b) * p.a) as nat
}

/// Position in the ramp for a brightness: the whole number nearest to
/// `level / BRIGHTNESS_FULL * RAMP_LEN - 1`, and 0 where that is negative.
/// Written over twice the numbers, so that the half is whole: 58 is twice the
/// length of the ramp, 390150 twice the full brightness.
pub open spec fn density_index_of(level: nat) -> nat {
    if 58 * level < 195075 {
        0
    } else {
        ((58 * level - 195075) / 390150) as nat
    }
}

/// The glyph that stands for a pixel.
pub open spec fn glyph_of(p: Pixel) -> char {
    density_ramp()[density_index_of(brightness_level(p)) as int]
}

/// The ramp has `RAMP_LEN` glyphs, starts with its only space, and holds
/// neither a line break nor the character that opens an escape.
pub proof fn lemma_density_ramp()
    ensures
        density_ramp().len() == RAMP_LEN,
        density_ramp()[0] == ' ',
        density_ramp()[RAMP_LEN - 1] == '\u{d1}',
        forall|i: int| 0 <= i < RAMP_LEN ==> #[trigger] density_ramp()[i] != '\n',
        forall|i: int| 1 <= i < RAMP_LEN ==> #[trigger] density_ramp()[i] != ' ',
        forall|i: int| 0 <= i < RAMP_LEN ==> #[trigger] density_ramp()[i] != '\x1b',
{
    reveal_strlit(" _.,-=+:;cba!?0123456789$W#@\u{d1}");
}

/// The brightness of a pixel lies between none and full.
pub proof fn lemma_brightness_in_range(p: Pixel)
    ensures
        brightness_level(p) <= BRIGHTNESS_FULL,
{
    assert((p.r + p.g + p.b) * p.a <= 765 * 255) by (nonlinear_arith)
        requires
            0 <= p.r + p.g + p.b <= 765,
            0 <= p.a <= 255,
    ;
}

/// The position for a brightness is the whole number nearest to
/// `level / BRIGHTNESS_FULL * RAMP_LEN - 1` wherever that is not negative: it
/// lies no more than a half from it.
pub proof fn lemma_density_index_nearest(level: nat)
    requires
        2 * RAMP_LEN * level >= BRIGHTNESS_FULL,
    ensures
        2 * BRIGHTNESS_FULL * density_index_of(level) <= 2 * RAMP_LEN * level - BRIGHTNESS_FULL,
        2 * RAMP_LEN * level - BRIGHTNESS_FULL < 2 * BRIGHTNESS_FULL * (density_index_of(level)
            + 1),
{
    let index = density_index_of(level);
    assert(2 * RAMP_LEN * level == 58 * level) by (nonlinear_arith)
        requires
            RAMP_LEN == 29,
    ;
    assert(2 * BRIGHTNESS_FULL * index == 390150 * index && 2 * BRIGHTNESS_FULL * (index + 1)
        == 390150 * index + 390150) by (nonlinear_arith)
        requires
            BRIGHTNESS_FULL == 195075,
    ;
}

/// No brightness up to full leads past the end of the ramp.
pub proof fn lemma_density_index_in_ramp(level: nat)
    requires
        level <= BRIGHTNESS_FULL,
    ensures
        density_index_of(level) <= RAMP_LEN - 1,
{
}

/// A brighter pixel never gets an earlier glyph: the position does not fall
/// as the brightness rises.
pub proof fn lemma_density_index_monotone(darker: nat, brighter: nat)
    requires
        darker <= brighter,
    ensures
        density_index_of(darker) <= density_index_of(brighter),
{
}

/// A fully transparent pixel has brightness 0, whatever its colour, and gets
/// the first glyph of the ramp, the space.
pub proof fn lemma_transparent_is_darkest(p: Pixel)
    requires
        p.a == 0,
    ensures
        brightness_level(p) == 0,
        density_index_of(brightness_level(p)) == 0,
        glyph_of(p) == density_ramp()[0],
        glyph_of(p) == ' ',
{
    lemma_density_ramp();
    assert((p.r + p.g + p.b) * 0 == 0);
}

/// An opaque white pixel has full brightness and gets the last glyph of the
/// ramp.
pub proof fn lemma_white_is_brightest(p: Pixel)
    requires
        p.r == 255,
        p.g == 255,
        p.b == 255,
        p.a == 255,
    ensures
        brightness_level(p) == BRIGHTNESS_FULL,
        density_index_of(brightness_level(p)) == RAMP_LEN - 1,
        glyph_of(p) == density_ramp()[RAMP_LEN - 1],
{
}

/// Brightness of a pixel, in parts of `BRIGHTNESS_FULL`.
pub fn brightness(pixel: &Pixel) -> (level: u32)
    ensures
        level == brightness_level(*pixel),
        level <= BRIGHTNESS_FULL,
        pixel.a == 0 ==> level == 0,
{
    let total_color: u32 = pixel.r as u32 + pixel.g as u32 + pixel.b as u32;
    let alpha: u32 = pixel.a as u32;
    assert(total_color * alpha <= 765 * 255 && (alpha == 0 ==> total_color * alpha == 0))
        by (nonlinear_arith)
        requires
            total_color <= 765,
            alpha <= 255,
    ;
    total_color * alpha
}

/// Position in the ramp for a brightness.
pub fn density_index(level: u32) -> (index: usize)
    requires
        level <= BRIGHTNESS_FULL,
    ensures
        index == density_index_of(level as nat),
        index < RAMP_LEN,
{
    let doubled: u64 = 58 * (level as u64);
    if doubled < 195075 {
        0
    } else {
        let index: u64 = (doubled - 195075) / 390150;
        index as usize
    }
}

/// The glyph at a position of the ramp.
pub fn ramp_glyph(index: usize) -> (glyph: char)
    requires
        index < RAMP_LEN,
    ensures
        glyph == density_ramp()[index as int],
{
    proof {
        lemma_density_ramp();
    }
    DENSITY.get_char(index)
}

/// The glyph that stands for a pixel.
pub fn glyph_for(pixel: &Pixel) -> (glyph: char)
    ensures
        glyph == glyph_of(*pixel),
{
    ramp_glyph(density_index(brightness(pixel)))
}

} // verus!
