//! True-colour escapes around a glyph.

use crate::raster::Pixel;
use crate::text::push_char;
use vstd::prelude::*;

verus! {

/// The character that stands for a decimal digit.
pub open spec fn digit_glyph(d: nat) -> char {
    seq!['0', '1', '2', '3', '4', '5', '6', '7', '8', '9'][d as int]
}

/// A number written in decimal, without leading zeros.
pub open spec fn decimal(n: nat) -> Seq<char>
    decreases n,
{
    if n < 10 {
        seq![digit_glyph(n)]
    } else {
        decimal(n / 10).push(digit_glyph(n % 10))
    }
}

/// The escape that sets the foreground to a 24-bit colour:
/// `ESC [ 3 8 ; 2 ; R ; G ; B m`.
pub open spec fn color_prefix(r: u8, g: u8, b: u8) -> Seq<char> {
    seq!['\x1b', '[', '3', '8', ';', '2', ';'] + decimal(r as nat) + seq![';'] + decimal(g as nat)
        + seq![';'] + decimal(b as nat) + seq!['m']
}

/// The escape that resets every style: `ESC [ 0 m`.
pub open spec fn color_reset() -> Seq<char> {
    seq!['\x1b', '[', '0', 'm']
}

/// A glyph between the escape for a colour and the reset.
pub open spec fn painted_glyph(glyph: char, r: u8, g: u8, b: u8) -> Seq<char> {
    color_prefix(r, g, b) + seq![glyph] + color_reset()
}

/// A glyph in the colour of its pixel. A space has no ink to colour and stays
/// bare; the opacity plays no part.
pub open spec fn colorized(glyph: char, p: Pixel) -> Seq<char> {
    if glyph == ' ' {
        seq![' ']
    } else {
        painted_glyph(glyph, p.r, p.g, p.b)
    }
}

/// Wraps a glyph in the escapes for a 24-bit foreground colour.
///
/// Trusted: calls `ansi_term::Colour::RGB(r, g, b).paint(..)` on the glyph
/// and formats the result. The contract claims what the crate writes for a
/// style with nothing but a foreground colour: `ESC[38;2;R;G;Bm` with the
/// three channels in decimal, then the text, then `ESC[0m`.
#[verifier::external_body]
pub(crate) fn paint_rgb(glyph: char, r: u8, g: u8, b: u8) -> (out: String)
    ensures
        out@ == painted_glyph(glyph, r, g, b),
{
    ansi_term::Colour::RGB(r, g, b).paint(glyph.to_string()).to_string()
}

/// Puts the colour of a pixel on a glyph.
pub fn colorize(pixel: char, color: &Pixel) -> (out: String)
    ensures
        out@ == colorized(pixel, *color),
{
    if pixel == ' ' {
        let mut bare = String::new();
        push_char(&mut bare, pixel);
        assert(bare@ =~= seq![' ']);
        return bare;
    }
    paint_rgb(pixel, color.r, color.g, color.b)
}

} // verus!
