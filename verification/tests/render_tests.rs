use ascii_render::{calculate_bytes, render, Pixel, Raster, Render, RenderError};

fn one_pixel(r: u8, g: u8, b: u8, a: u8) -> Raster {
    Raster::from_raw(1, 1, vec![r, g, b, a]).unwrap()
}

fn gradient(width: u32, height: u32) -> Raster {
    let mut data = Vec::new();
    for y in 0..height {
        for x in 0..width {
            let v = ((x * 37 + y * 91) % 256) as u8;
            data.push(v);
            data.push(255 - v);
            data.push(v / 2);
            data.push(255);
        }
    }
    Raster::from_raw(width, height, data).unwrap()
}

fn strip_escapes(line: &str) -> String {
    let mut out = String::new();
    let mut inside = false;
    for c in line.chars() {
        if inside {
            if c == 'm' {
                inside = false;
            }
        } else if c == '\x1b' {
            inside = true;
        } else {
            out.push(c);
        }
    }
    out
}

#[test]
fn black_pixel_renders_as_spaces() {
    let out = render(one_pixel(0, 0, 0, 255), 10, false, true, true).unwrap();
    assert_eq!(out, "  \n");
    let out = render(one_pixel(0, 0, 0, 255), 10, false, false, true).unwrap();
    assert_eq!(out, " \n");
}

#[test]
fn white_pixel_renders_in_colour() {
    let out = render(one_pixel(255, 255, 255, 255), 10, true, false, true).unwrap();
    assert_eq!(out, "\x1b[38;2;255;255;255mÑ\x1b[0m\n");
    let out = render(one_pixel(255, 255, 255, 255), 10, true, true, true).unwrap();
    assert_eq!(out, "\x1b[38;2;255;255;255mÑ\x1b[0m\x1b[38;2;255;255;255mÑ\x1b[0m\n");
}

#[test]
fn white_pixel_without_colour() {
    let out = render(one_pixel(255, 255, 255, 255), 10, false, true, false).unwrap();
    assert_eq!(out, "ÑÑ\n");
}

#[test]
fn transparent_pixel_renders_as_space_even_in_colour() {
    let out = render(one_pixel(255, 255, 255, 0), 10, true, false, false).unwrap();
    assert_eq!(out, " \n");
}

#[test]
fn ascii_pixel_with_and_without_colour() {
    let p = Pixel { r: 255, g: 0, b: 0, a: 255 };
    let plain = Render::new(one_pixel(0, 0, 0, 0), 10, false, true, true);
    assert_eq!(plain.ascii_pixel(&p), "c");
    let coloured = Render::new(one_pixel(0, 0, 0, 0), 10, true, true, true);
    assert_eq!(coloured.ascii_pixel(&p), "\x1b[38;2;255;0;0mc\x1b[0m");
    assert_eq!(coloured.ascii_pixel(&Pixel { r: 9, g: 9, b: 9, a: 255 }), " ");
}

#[test]
fn paint_walks_rows_from_the_top() {
    // 2 by 2: black, white / red, transparent
    let data = vec![0, 0, 0, 255, 255, 255, 255, 255, 255, 0, 0, 255, 1, 2, 3, 0];
    let render = Render::new(Raster::from_raw(2, 2, data).unwrap(), 10, false, false, false);
    assert_eq!(render.paint(), " Ñ\nc \n");
}

#[test]
fn paint_of_an_empty_picture_is_one_line_break() {
    let render = Render::new(Raster::from_raw(0, 3, vec![]).unwrap(), 10, true, false, false);
    assert_eq!(render.paint(), "\n");
}

#[test]
fn rendering_twice_gives_the_same_text() {
    for color in [false, true] {
        for correct in [false, true] {
            for antialias in [false, true] {
                let a = render(gradient(13, 7), 9, color, correct, antialias).unwrap();
                let b = render(gradient(13, 7), 9, color, correct, antialias).unwrap();
                assert_eq!(a.as_bytes(), b.as_bytes());
            }
        }
    }
}

#[test]
fn one_line_for_each_row_and_one_glyph_for_each_pixel() {
    for color in [false, true] {
        for (width, height, max_size) in [(13u32, 7u32, 9u32), (3, 2, 10), (5, 40, 8), (1, 1, 1)] {
            let mut r = Render::new(gradient(width, height), max_size, color, true, true);
            assert_eq!(r.adjust_scale(), Ok(()));
            let w = r.image().width() as usize;
            let h = r.image().height() as usize;
            assert!(w <= max_size as usize && h <= max_size as usize);
            let text = r.paint();
            assert!(text.ends_with('\n'));
            let lines: Vec<&str> = text[..text.len() - 1].split('\n').collect();
            assert_eq!(lines.len(), h);
            for line in lines {
                assert_eq!(strip_escapes(line).chars().count(), w);
            }
        }
    }
}

#[test]
fn render_rejects_degenerate_input() {
    assert_eq!(render(one_pixel(0, 0, 0, 255), 0, false, true, true), Err(RenderError::ZeroMaxSize));
    let empty = Raster::from_raw(0, 0, vec![]).unwrap();
    assert_eq!(render(empty, 10, false, true, true), Err(RenderError::EmptyImage));
}

#[test]
fn calculate_bytes_exact_values() {
    assert_eq!(calculate_bytes(&gradient(3, 2), true), 3 * 2 * 25 + 2);
    assert_eq!(calculate_bytes(&gradient(3, 2), false), 3 * 2 * 2 + 2);
    assert_eq!(calculate_bytes(&Raster::from_raw(0, 9, vec![]).unwrap(), true), 9);
}
