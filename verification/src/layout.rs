//! The shape of a painted text: its lines, the glyphs in each line, and what
//! a reader sees of it once the colour escapes are taken out.

use crate::color::{color_prefix, color_reset, decimal, digit_glyph};
use crate::glyph::{
    brightness_level, glyph_of, lemma_brightness_in_range, lemma_density_index_in_ramp,
    lemma_density_ramp,
};
use crate::raster::{Pixel, RasterView};
use crate::render::{cell_text, painted, row_text, rows_text};
use vstd::prelude::*;

verus! {

/// Number of line breaks in a text.
pub open spec fn line_breaks(text: Seq<char>) -> nat
    decreases text.len(),
{
    if text.len() == 0 {
        0
    } else {
        line_breaks(text.drop_last()) + if text.last() == '\n' {
            1nat
        } else {
            0nat
        }
    }
}

/// The line breaks of two texts joined are those of the one and of the other.
pub proof fn lemma_line_breaks_joined(a: Seq<char>, b: Seq<char>)
    ensures
        line_breaks(a + b) == line_breaks(a) + line_breaks(b),
    decreases b.len(),
{
    if b.len() == 0 {
        assert(a + b =~= a);
    } else {
        assert((a + b).drop_last() =~= a + b.drop_last());
        lemma_line_breaks_joined(a, b.drop_last());
    }
}

/// A text none of whose characters is a line break has none.
proof fn lemma_no_line_breaks(text: Seq<char>)
    requires
        forall|i: int| 0 <= i < text.len() ==> text[i] != '\n',
    ensures
        line_breaks(text) == 0,
    decreases text.len(),
{
    if text.len() > 0 {
        lemma_no_line_breaks(text.drop_last());
    }
}

/// A number in decimal holds no line break.
proof fn lemma_decimal_one_line(n: nat)
    ensures
        line_breaks(decimal(n)) == 0,
    decreases n,
{
    if n < 10 {
        lemma_no_line_breaks(decimal(n));
    } else {
        lemma_decimal_one_line(n / 10);
        assert(decimal(n).drop_last() =~= decimal(n / 10));
    }
}

/// The text of a pixel holds no line break, with colour or without.
pub proof fn lemma_cell_one_line(p: Pixel, color: bool)
    ensures
        line_breaks(cell_text(p, color)) == 0,
{
    lemma_density_ramp();
    lemma_brightness_in_range(p);
    lemma_density_index_in_ramp(brightness_level(p));
    let glyph = glyph_of(p);
    assert(glyph != '\n');
    if color && glyph != ' ' {
        let head = seq!['\x1b', '[', '3', '8', ';', '2', ';'];
        let sep = seq![';'];
        lemma_no_line_breaks(head);
        lemma_no_line_breaks(sep);
        lemma_no_line_breaks(seq!['m']);
        lemma_no_line_breaks(seq![glyph]);
        lemma_no_line_breaks(color_reset());
        lemma_decimal_one_line(p.r as nat);
        lemma_decimal_one_line(p.g as nat);
        lemma_decimal_one_line(p.b as nat);
        lemma_line_breaks_joined(head, decimal(p.r as nat));
        lemma_line_breaks_joined(head + decimal(p.r as nat), sep);
        lemma_line_breaks_joined(head + decimal(p.r as nat) + sep, decimal(p.g as nat));
        lemma_line_breaks_joined(head + decimal(p.r as nat) + sep + decimal(p.g as nat), sep);
        lemma_line_breaks_joined(
            head + decimal(p.r as nat) + sep + decimal(p.g as nat) + sep,
            decimal(p.b as nat),
        );
        lemma_line_breaks_joined(
            head + decimal(p.r as nat) + sep + decimal(p.g as nat) + sep + decimal(p.b as nat),
            seq!['m'],
        );
        lemma_line_breaks_joined(color_prefix(p.r, p.g, p.b), seq![glyph]);
        lemma_line_breaks_joined(color_prefix(p.r, p.g, p.b) + seq![glyph], color_reset());
    } else {
        lemma_no_line_breaks(cell_text(p, color));
    }
}

/// The text of a row, before its closing line break, holds none.
pub proof fn lemma_row_one_line(img: RasterView, y: int, columns: int, color: bool)
    ensures
        line_breaks(row_text(img, y, columns, color)) == 0,
    decreases columns,
{
    if columns > 0 {
        lemma_row_one_line(img, y, columns - 1, color);
        lemma_cell_one_line(img.pixel_at(columns - 1, y), color);
        lemma_line_breaks_joined(
            row_text(img, y, columns - 1, color),
            cell_text(img.pixel_at(columns - 1, y), color),
        );
    }
}

/// The text of the first `rows` rows holds `rows` line breaks.
pub proof fn lemma_rows_line_breaks(img: RasterView, rows: int, color: bool)
    requires
        rows >= 0,
    ensures
        line_breaks(rows_text(img, rows, color)) == rows,
    decreases rows,
{
    if rows > 0 {
        lemma_rows_line_breaks(img, rows - 1, color);
        lemma_row_one_line(img, rows - 1, img.width as int, color);
        lemma_line_breaks_joined(
            rows_text(img, rows - 1, color),
            row_text(img, rows - 1, img.width as int, color),
        );
        lemma_line_breaks_joined(
            rows_text(img, rows - 1, color) + row_text(img, rows - 1, img.width as int, color),
            seq!['\n'],
        );
        assert(line_breaks(seq!['\n']) == 1) by {
            assert(seq!['\n'].drop_last() =~= Seq::<char>::empty());
            reveal_with_fuel(line_breaks, 2);
        }
    }
}

/// The text of a picture with at least one pixel has as many lines as the
/// picture has rows: it holds one line break for each row, the last of them
/// at its end.
pub proof fn lemma_painted_line_count(img: RasterView, color: bool)
    requires
        img.width >= 1,
        img.height >= 1,
    ensures
        line_breaks(painted(img, color)) == img.height,
        painted(img, color).last() == '\n',
{
    lemma_rows_line_breaks(img, img.height as int, color);
}

/// Without colour the first `columns` pixels of a row give `columns`
/// characters, the glyph of each pixel in its place.
pub proof fn lemma_plain_row(img: RasterView, y: int, columns: int)
    requires
        columns >= 0,
    ensures
        row_text(img, y, columns, false).len() == columns,
        forall|x: int|
            0 <= x < columns ==> #[trigger] row_text(img, y, columns, false)[x] == glyph_of(
                img.pixel_at(x, y),
            ),
    decreases columns,
{
    if columns > 0 {
        lemma_plain_row(img, y, columns - 1);
    }
}

/// Without colour the first `rows` rows give `width + 1` characters each.
pub proof fn lemma_plain_rows_len(img: RasterView, rows: int)
    requires
        rows >= 0,
    ensures
        rows_text(img, rows, false).len() == rows * (img.width + 1),
    decreases rows,
{
    if rows > 0 {
        lemma_plain_rows_len(img, rows - 1);
        lemma_plain_row(img, rows - 1, img.width as int);
        assert((rows - 1) * (img.width + 1) + (img.width + 1) == rows * (img.width + 1))
            by (nonlinear_arith);
    } else {
        assert(0 * (img.width + 1) == 0);
    }
}

/// Without colour the first `rows` rows give lines of `width + 1` characters:
/// line `y` holds the glyph of the row's pixel `x` in place `x`, and the line
/// break behind the last glyph.
pub proof fn lemma_plain_rows(img: RasterView, rows: int, x: int, y: int)
    requires
        0 <= y < rows,
        0 <= x < img.width,
    ensures
        y * (img.width + 1) + img.width < rows_text(img, rows, false).len(),
        rows_text(img, rows, false)[y * (img.width + 1) + x] == glyph_of(img.pixel_at(x, y)),
        rows_text(img, rows, false)[y * (img.width + 1) + img.width] == '\n',
    decreases rows,
{
    let w = img.width as int;
    let before = rows_text(img, rows - 1, false);
    let row = row_text(img, rows - 1, w, false);
    lemma_plain_rows_len(img, rows - 1);
    lemma_plain_rows_len(img, rows);
    lemma_plain_row(img, rows - 1, w);
    assert(rows_text(img, rows, false) == before + row + seq!['\n']);
    assert((rows - 1) * (w + 1) + (w + 1) == rows * (w + 1)) by (nonlinear_arith);
    assert(y * (w + 1) >= 0) by (nonlinear_arith)
        requires
            0 <= y,
            0 <= w,
    ;
    if y < rows - 1 {
        lemma_plain_rows(img, rows - 1, x, y);
    } else {
        assert(row[x] == glyph_of(img.pixel_at(x, y)));
    }
}

/// Without colour the text of a picture is a grid: one line for each row, and
/// in each line one glyph for each pixel of the row, then the line break.
pub proof fn lemma_plain_layout(img: RasterView, x: int, y: int)
    requires
        0 <= y < img.height,
        0 <= x < img.width,
    ensures
        painted(img, false).len() == img.height * (img.width + 1),
        painted(img, false)[y * (img.width + 1) + x] == glyph_of(img.pixel_at(x, y)),
        painted(img, false)[y * (img.width + 1) + img.width] == '\n',
{
    lemma_plain_rows_len(img, img.height as int);
    lemma_plain_rows(img, img.height as int, x, y);
}

/// The characters of a text that are no part of an escape. An escape runs
/// from the character `ESC` to the next `m`; `inside` says whether the text
/// starts in the middle of one.
pub open spec fn visible_from(text: Seq<char>, inside: bool) -> Seq<char>
    decreases text.len(),
{
    if text.len() == 0 {
        Seq::empty()
    } else if inside {
        visible_from(text.drop_first(), text[0] != 'm')
    } else if text[0] == '\x1b' {
        visible_from(text.drop_first(), true)
    } else {
        seq![text[0]] + visible_from(text.drop_first(), false)
    }
}

/// Whether a text ends in the middle of an escape.
pub open spec fn inside_after(text: Seq<char>, inside: bool) -> bool
    decreases text.len(),
{
    if text.len() == 0 {
        inside
    } else if inside {
        inside_after(text.drop_first(), text[0] != 'm')
    } else {
        inside_after(text.drop_first(), text[0] == '\x1b')
    }
}

/// A text without its escapes.
pub open spec fn visible(text: Seq<char>) -> Seq<char> {
    visible_from(text, false)
}

/// What is visible of two texts joined is what is visible of the first, then
/// what is visible of the second, read from where the first one ends.
pub proof fn lemma_visible_joined(a: Seq<char>, b: Seq<char>, inside: bool)
    ensures
        visible_from(a + b, inside) == visible_from(a, inside) + visible_from(
            b,
            inside_after(a, inside),
        ),
        inside_after(a + b, inside) == inside_after(b, inside_after(a, inside)),
    decreases a.len(),
{
    if a.len() == 0 {
        assert(a + b =~= b);
        assert(visible_from(a, inside) + visible_from(b, inside) =~= visible_from(b, inside));
    } else {
        let next = if inside {
            a[0] != 'm'
        } else {
            a[0] == '\x1b'
        };
        assert((a + b).drop_first() =~= a.drop_first() + b);
        assert((a + b)[0] == a[0]);
        lemma_visible_joined(a.drop_first(), b, next);
        assert(visible_from(a + b, inside) =~= visible_from(a, inside) + visible_from(
            b,
            inside_after(a, inside),
        ));
    }
}

/// One character outside an escape is visible, unless it opens one.
proof fn lemma_visible_one(c: char)
    ensures
        visible_from(seq![c], false) == if c == '\x1b' {
            Seq::<char>::empty()
        } else {
            seq![c]
        },
        inside_after(seq![c], false) == (c == '\x1b'),
        visible_from(seq![c], true) == Seq::<char>::empty(),
        inside_after(seq![c], true) == (c != 'm'),
{
    assert(seq![c].drop_first() =~= Seq::<char>::empty());
    assert(seq![c][0] == c);
    reveal_with_fuel(visible_from, 2);
    reveal_with_fuel(inside_after, 2);
    assert(seq![c] + Seq::<char>::empty() =~= seq![c]);
}

/// Inside an escape nothing is visible up to the next `m`.
proof fn lemma_inside_stays(text: Seq<char>)
    requires
        forall|i: int| 0 <= i < text.len() ==> text[i] != 'm',
    ensures
        visible_from(text, true) == Seq::<char>::empty(),
        inside_after(text, true),
    decreases text.len(),
{
    if text.len() > 0 {
        lemma_inside_stays(text.drop_first());
    }
}

/// An escape is invisible as a whole and leaves the reader outside.
proof fn lemma_escape_invisible(middle: Seq<char>)
    requires
        forall|i: int| 0 <= i < middle.len() ==> middle[i] != 'm',
    ensures
        visible(seq!['\x1b'] + middle + seq!['m']) == Seq::<char>::empty(),
        !inside_after(seq!['\x1b'] + middle + seq!['m'], false),
{
    lemma_visible_one('\x1b');
    lemma_visible_one('m');
    lemma_inside_stays(middle);
    lemma_visible_joined(seq!['\x1b'], middle, false);
    lemma_visible_joined(seq!['\x1b'] + middle, seq!['m'], false);
    assert(visible(seq!['\x1b'] + middle + seq!['m']) =~= Seq::<char>::empty());
}

/// A number in decimal is written with digits alone.
proof fn lemma_decimal_digits(n: nat)
    ensures
        forall|i: int| 0 <= i < decimal(n).len() ==> '0' <= #[trigger] decimal(n)[i] <= '9',
    decreases n,
{
    let digits = seq!['0', '1', '2', '3', '4', '5', '6', '7', '8', '9'];
    assert forall|d: int| 0 <= d < 10 implies '0' <= #[trigger] digits[d] <= '9' by {
        assert(digits[0] == '0' && digits[1] == '1' && digits[2] == '2' && digits[3] == '3'
            && digits[4] == '4');
        assert(digits[5] == '5' && digits[6] == '6' && digits[7] == '7' && digits[8] == '8'
            && digits[9] == '9');
    }
    if n >= 10 {
        let rest = decimal(n / 10);
        lemma_decimal_digits(n / 10);
        assert('0' <= digits[(n % 10) as int] <= '9');
        assert(decimal(n) == rest.push(digit_glyph(n % 10)));
        assert forall|i: int| 0 <= i < decimal(n).len() implies '0' <= #[trigger] decimal(n)[i]
            <= '9' by {
            if i < rest.len() {
                assert(decimal(n)[i] == rest[i]);
            } else {
                assert(decimal(n)[i] == digit_glyph(n % 10));
            }
        }
    } else {
        assert('0' <= digits[n as int] <= '9');
        assert(decimal(n) == seq![digit_glyph(n)]);
        assert(decimal(n)[0] == digit_glyph(n));
    }
}

/// Of the text of a pixel in colour, the glyph alone is visible: without its
/// escapes it is the text of the pixel without colour.
pub proof fn lemma_cell_visible(p: Pixel)
    ensures
        visible(cell_text(p, true)) == cell_text(p, false),
        !inside_after(cell_text(p, true), false),
{
    lemma_density_ramp();
    lemma_brightness_in_range(p);
    lemma_density_index_in_ramp(brightness_level(p));
    let glyph = glyph_of(p);
    lemma_visible_one(glyph);
    if glyph != ' ' {
        lemma_decimal_digits(p.r as nat);
        lemma_decimal_digits(p.g as nat);
        lemma_decimal_digits(p.b as nat);
        let middle = seq!['[', '3', '8', ';', '2', ';'] + decimal(p.r as nat) + seq![';']
            + decimal(p.g as nat) + seq![';'] + decimal(p.b as nat);
        let prefix = color_prefix(p.r, p.g, p.b);
        assert(prefix =~= seq!['\x1b'] + middle + seq!['m']);
        assert(color_reset() =~= seq!['\x1b'] + seq!['[', '0'] + seq!['m']);
        lemma_escape_invisible(middle);
        lemma_escape_invisible(seq!['[', '0']);
        lemma_visible_joined(prefix, seq![glyph], false);
        lemma_visible_joined(prefix + seq![glyph], color_reset(), false);
        assert(visible(cell_text(p, true)) =~= seq![glyph]);
    }
}

/// Without its escapes, the text of a row in colour is the text of the row
/// without colour.
pub proof fn lemma_row_visible(img: RasterView, y: int, columns: int)
    ensures
        visible(row_text(img, y, columns, true)) == row_text(img, y, columns, false),
        !inside_after(row_text(img, y, columns, true), false),
    decreases columns,
{
    if columns > 0 {
        lemma_row_visible(img, y, columns - 1);
        lemma_cell_visible(img.pixel_at(columns - 1, y));
        lemma_visible_joined(
            row_text(img, y, columns - 1, true),
            cell_text(img.pixel_at(columns - 1, y), true),
            false,
        );
    }
}

/// Without its escapes, the text of the first `rows` rows in colour is their
/// text without colour.
pub proof fn lemma_rows_visible(img: RasterView, rows: int)
    ensures
        visible(rows_text(img, rows, true)) == rows_text(img, rows, false),
        !inside_after(rows_text(img, rows, true), false),
    decreases rows,
{
    if rows > 0 {
        let before = rows_text(img, rows - 1, true);
        let row = row_text(img, rows - 1, img.width as int, true);
        lemma_rows_visible(img, rows - 1);
        lemma_row_visible(img, rows - 1, img.width as int);
        lemma_visible_one('\n');
        lemma_visible_joined(before, row, false);
        lemma_visible_joined(before + row, seq!['\n'], false);
    }
}

/// Colour changes nothing that is visible: the text of a picture in colour,
/// without its escapes, is the text of the picture without colour. So it has
/// the same lines, and in each line the same glyphs.
pub proof fn lemma_painted_visible(img: RasterView)
    ensures
        visible(painted(img, true)) == painted(img, false),
{
    lemma_rows_visible(img, img.height as int);
    lemma_visible_one('\n');
}

} // verus!
