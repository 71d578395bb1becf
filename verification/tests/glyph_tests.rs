use ascii_render::glyph::DENSITY;
use ascii_render::{brightness, colorize, density_index, glyph_for, ramp_glyph, Pixel};
use ascii_render::{BRIGHTNESS_FULL, RAMP_LEN};

fn px(r: u8, g: u8, b: u8, a: u8) -> Pixel {
    Pixel { r, g, b, a }
}

#[test]
fn ramp_has_twenty_nine_glyphs() {
    assert_eq!(RAMP_LEN, 29);
    assert_eq!(DENSITY.chars().count(), RAMP_LEN);
    assert_eq!(ramp_glyph(0), ' ');
    assert_eq!(ramp_glyph(1), '_');
    assert_eq!(ramp_glyph(14), '0');
    assert_eq!(ramp_glyph(23), '9');
    assert_eq!(ramp_glyph(27), '@');
    assert_eq!(ramp_glyph(28), 'Ñ');
}

#[test]
fn brightness_exact_values() {
    assert_eq!(BRIGHTNESS_FULL, 3 * 255 * 255);
    assert_eq!(brightness(&px(255, 255, 255, 255)), BRIGHTNESS_FULL);
    assert_eq!(brightness(&px(0, 0, 0, 255)), 0);
    assert_eq!(brightness(&px(10, 20, 30, 128)), 60 * 128);
    assert_eq!(brightness(&px(255, 0, 0, 255)), 255 * 255);
}

#[test]
fn transparent_pixels_are_dark_whatever_their_colour() {
    for r in [0u8, 1, 17, 128, 255] {
        for g in [0u8, 99, 255] {
            for b in [0u8, 200, 255] {
                let p = px(r, g, b, 0);
                assert_eq!(brightness(&p), 0);
                assert_eq!(density_index(brightness(&p)), 0);
                assert_eq!(glyph_for(&p), ' ');
            }
        }
    }
}

#[test]
fn opaque_white_is_the_last_glyph() {
    let p = px(255, 255, 255, 255);
    assert_eq!(density_index(brightness(&p)), RAMP_LEN - 1);
    assert_eq!(glyph_for(&p), 'Ñ');
}

#[test]
fn density_index_exact_values() {
    assert_eq!(density_index(0), 0);
    // 1.5 / 29 of full brightness is the first level that rounds to 1
    assert_eq!(density_index(10090), 0);
    assert_eq!(density_index(10091), 1);
    // half of full brightness lies just under 13.5, one part more just over it
    assert_eq!(density_index(BRIGHTNESS_FULL / 2), 13);
    assert_eq!(density_index(BRIGHTNESS_FULL / 2 + 1), 14);
    assert_eq!(density_index(BRIGHTNESS_FULL - 1), 28);
    assert_eq!(density_index(BRIGHTNESS_FULL), 28);
    // opaque mid grey: 128 / 255 * 29 - 1 = 13.56
    assert_eq!(density_index(brightness(&px(128, 128, 128, 255))), 14);
    assert_eq!(glyph_for(&px(128, 128, 128, 255)), '0');
    // opaque pure red: a third of full, 29 / 3 - 1 = 8.67
    assert_eq!(density_index(brightness(&px(255, 0, 0, 255))), 9);
    assert_eq!(glyph_for(&px(255, 0, 0, 255)), 'c');
}

#[test]
fn density_index_never_falls_and_stays_in_the_ramp() {
    let mut last = 0usize;
    let mut level = 0u32;
    while level <= BRIGHTNESS_FULL {
        let index = density_index(level);
        assert!(index >= last);
        assert!(index < RAMP_LEN);
        last = index;
        level += 1;
    }
    assert_eq!(last, RAMP_LEN - 1);
}

#[test]
fn density_index_matches_float_formula() {
    for sum in 0u32..=765 {
        let r = sum.min(255);
        let g = (sum - r).min(255);
        let b = sum - r - g;
        for a in 0u32..=255 {
            let p = px(r as u8, g as u8, b as u8, a as u8);
            let opacity = a as f32 / 255.0;
            let level = sum as f32 / 3.0 / 255.0 * opacity;
            let expected = (level * 29.0 - 1.0).round() as usize;
            assert_eq!(density_index(brightness(&p)), expected, "sum {} alpha {}", sum, a);
        }
    }
}

#[test]
fn colorize_wraps_glyph_in_true_colour_escape() {
    let out = colorize('#', &px(255, 0, 17, 255));
    assert_eq!(out, "\x1b[38;2;255;0;17m#\x1b[0m");
    assert_ne!(out, "#");
    let out = colorize('Ñ', &px(1, 20, 100, 3));
    assert_eq!(out, "\x1b[38;2;1;20;100mÑ\x1b[0m");
}

#[test]
fn colorize_leaves_space_bare() {
    assert_eq!(colorize(' ', &px(255, 0, 17, 255)), " ");
    assert_eq!(colorize(' ', &px(0, 0, 0, 0)), " ");
}
