use ascii_render::scale::Filter;
use ascii_render::{bounded_dimensions, corrected_dimensions, Pixel, Raster, Render, RenderError};

fn uniform(width: u32, height: u32, p: Pixel) -> Raster {
    let mut data = Vec::new();
    for _ in 0..(width as usize * height as usize) {
        data.push(p.r);
        data.push(p.g);
        data.push(p.b);
        data.push(p.a);
    }
    Raster::from_raw(width, height, data).unwrap()
}

fn grey(value: u8) -> Pixel {
    Pixel { r: value, g: value, b: value, a: 255 }
}

#[test]
fn from_raw_wants_four_samples_for_each_pixel() {
    assert!(Raster::from_raw(1, 1, vec![1, 2, 3, 4]).is_some());
    assert!(Raster::from_raw(1, 1, vec![1, 2, 3]).is_none());
    assert!(Raster::from_raw(2, 1, vec![1, 2, 3, 4]).is_none());
    assert!(Raster::from_raw(0, 7, vec![]).is_some());
    let r = Raster::from_raw(2, 1, vec![1, 2, 3, 4, 5, 6, 7, 8]).unwrap();
    assert_eq!(r.width(), 2);
    assert_eq!(r.height(), 1);
    assert_eq!(r.get_pixel(1, 0), Pixel { r: 5, g: 6, b: 7, a: 8 });
    assert_eq!(r.pixel(0), Pixel { r: 1, g: 2, b: 3, a: 4 });
    assert_eq!(r.as_raw(), &vec![1, 2, 3, 4, 5, 6, 7, 8]);
}

#[test]
fn filter_follows_antialiasing() {
    assert_eq!(Filter::for_antialiasing(true), Filter::Triangle);
    assert_eq!(Filter::for_antialiasing(false), Filter::Nearest);
}

#[test]
fn correction_doubles_the_width_only() {
    assert_eq!(corrected_dimensions(7, 5, true), Some((14, 5)));
    assert_eq!(corrected_dimensions(7, 5, false), Some((7, 5)));
    assert_eq!(corrected_dimensions(u32::MAX / 2, 1, true), Some((u32::MAX - 1, 1)));
    assert_eq!(corrected_dimensions(u32::MAX / 2 + 1, 1, true), None);
    assert_eq!(corrected_dimensions(u32::MAX, 1, false), Some((u32::MAX, 1)));
}

#[test]
fn bounding_exact_values() {
    assert_eq!(bounded_dimensions(2, 1, 10), (2, 1));
    assert_eq!(bounded_dimensions(10, 10, 10), (10, 10));
    assert_eq!(bounded_dimensions(200, 100, 10), (10, 5));
    assert_eq!(bounded_dimensions(100, 200, 10), (5, 10));
    assert_eq!(bounded_dimensions(11, 11, 10), (10, 10));
    // 10 * 15 / 100 = 1.5 rounds up
    assert_eq!(bounded_dimensions(100, 15, 10), (10, 2));
    // 10 * 14 / 100 = 1.4 rounds down
    assert_eq!(bounded_dimensions(100, 14, 10), (10, 1));
    // a side never vanishes
    assert_eq!(bounded_dimensions(1000, 1, 10), (10, 1));
    assert_eq!(bounded_dimensions(3, 100, 10), (1, 10));
    assert_eq!(bounded_dimensions(u32::MAX, u32::MAX, 1), (1, 1));
    assert_eq!(bounded_dimensions(u32::MAX, u32::MAX - 1, u32::MAX - 1), (u32::MAX - 1, u32::MAX - 2));
    // only one side over the bound
    assert_eq!(bounded_dimensions(16, 1, 10), (10, 1));
    assert_eq!(bounded_dimensions(16, 8, 10), (10, 5));
}

#[test]
fn bounding_never_exceeds_the_bound() {
    for width in 1u32..40 {
        for height in 1u32..40 {
            for max_size in 1u32..12 {
                let (w, h) = bounded_dimensions(width, height, max_size);
                assert!(1 <= w && w <= max_size && w <= width);
                assert!(1 <= h && h <= max_size && h <= height);
            }
        }
    }
}

#[test]
fn adjust_scale_stretches_a_small_picture() {
    let mut render = Render::new(uniform(3, 2, grey(90)), 10, false, true, true);
    assert_eq!(render.adjust_scale(), Ok(()));
    assert_eq!(render.image().width(), 6);
    assert_eq!(render.image().height(), 2);
    for y in 0..2 {
        for x in 0..6 {
            assert_eq!(render.image().get_pixel(x, y), grey(90));
        }
    }
}

#[test]
fn adjust_scale_leaves_a_fitting_picture_alone_without_correction() {
    let data = vec![1, 2, 3, 4, 5, 6, 7, 8, 9, 10, 11, 12, 13, 14, 15, 16];
    let mut render = Render::new(Raster::from_raw(2, 2, data.clone()).unwrap(), 2, false, false, true);
    assert_eq!(render.adjust_scale(), Ok(()));
    assert_eq!(render.image().width(), 2);
    assert_eq!(render.image().height(), 2);
    assert_eq!(render.image().as_raw(), &data);
}

#[test]
fn adjust_scale_bounds_after_the_stretch() {
    // 8 columns fit a bound of 10, the 16 after the stretch do not
    let mut render = Render::new(uniform(8, 4, grey(200)), 10, false, true, false);
    assert_eq!(render.adjust_scale(), Ok(()));
    assert_eq!(render.image().width(), 10);
    assert_eq!(render.image().height(), 3);
    assert_eq!(render.image().as_raw().len(), 4 * 10 * 3);
    assert_eq!(render.image().get_pixel(9, 2), grey(200));
}

#[test]
fn adjust_scale_bounds_a_tall_picture() {
    let mut render = Render::new(uniform(10, 100, grey(7)), 20, false, false, true);
    assert_eq!(render.adjust_scale(), Ok(()));
    assert_eq!(render.image().width(), 2);
    assert_eq!(render.image().height(), 20);
}

#[test]
fn nearest_filter_copies_source_pixels() {
    // two columns, dark on the left and light on the right
    let data = vec![0, 0, 0, 255, 255, 255, 255, 255];
    let mut render = Render::new(Raster::from_raw(2, 1, data).unwrap(), 10, false, true, false);
    assert_eq!(render.adjust_scale(), Ok(()));
    assert_eq!(render.image().width(), 4);
    assert_eq!(render.image().get_pixel(0, 0), grey(0));
    assert_eq!(render.image().get_pixel(1, 0), grey(0));
    assert_eq!(render.image().get_pixel(2, 0), grey(255));
    assert_eq!(render.image().get_pixel(3, 0), grey(255));
}

#[test]
fn adjust_scale_rejects_a_zero_bound() {
    let mut render = Render::new(uniform(3, 2, grey(90)), 0, false, true, true);
    assert_eq!(render.adjust_scale(), Err(RenderError::ZeroMaxSize));
    assert_eq!(render.image().width(), 3);
    assert_eq!(render.image().height(), 2);
}

#[test]
fn adjust_scale_rejects_an_empty_picture() {
    let mut render = Render::new(Raster::from_raw(0, 5, vec![]).unwrap(), 10, false, true, true);
    assert_eq!(render.adjust_scale(), Err(RenderError::EmptyImage));
    let mut render = Render::new(Raster::from_raw(5, 0, vec![]).unwrap(), 10, false, false, true);
    assert_eq!(render.adjust_scale(), Err(RenderError::EmptyImage));
    let mut render = Render::new(Raster::from_raw(0, 0, vec![]).unwrap(), 0, false, false, true);
    assert_eq!(render.adjust_scale(), Err(RenderError::ZeroMaxSize));
}

#[test]
fn error_messages() {
    assert_eq!(RenderError::ZeroMaxSize.message(), "the maximum size must be at least 1");
    assert_eq!(RenderError::EmptyImage.message(), "the image has no pixels");
    assert_eq!(RenderError::TooLarge.message(), "the image is too large to scale");
}
