//! The renderer: configuration, scaling and painting.

use crate::color::{colorize, colorized};
use crate::glyph::{glyph_for, glyph_of};
use crate::raster::{Pixel, Raster, RasterView};
use crate::scale::{
    bounded_dimensions, bounded_size, corrected_dimensions, corrected_size, fits,
    lemma_bounded_size_within, resample, resample_limit, resampled, Filter,
};
use crate::text::{push_char, reserve_bytes};
use vstd::prelude::*;
use vstd::string::StringExecFns;

verus! {

/// Why a picture could not be scaled.
#[derive(Clone, Copy, Debug, PartialEq, Eq, Structural)]
pub enum RenderError {
    /// The bound on the size is zero.
    ZeroMaxSize,
    /// The picture has no columns or no rows.
    EmptyImage,
    /// The picture is too large to resample on this machine.
    TooLarge,
}

impl RenderError {
    /// A sentence for the user.
    pub fn message(&self) -> (text: &'static str)
        ensures
            text@ == match *self {
                RenderError::ZeroMaxSize => "the maximum size must be at least 1"@,
                RenderError::EmptyImage => "the image has no pixels"@,
                RenderError::TooLarge => "the image is too large to scale"@,
            },
    {
        match self {
            RenderError::ZeroMaxSize => "the maximum size must be at least 1",
            RenderError::EmptyImage => "the image has no pixels",
            RenderError::TooLarge => "the image is too large to scale",
        }
    }
}

/// A renderer as the contracts see it: the picture and the configuration.
pub struct RenderView {
    pub image: RasterView,
    pub max_size: nat,
    pub color: bool,
    pub prevent_ascii_distortion: bool,
    pub antialiasing: bool,
}

/// An ascii image renderer.
pub struct Render {
    /// The image for render
    image: Raster,
    /// The max size of the `image`, in character cells
    max_size: u32,
    /// RGB render
    color: bool,
    /// Prevents the distortion that the shape of a character cell causes
    prevent_ascii_distortion: bool,
    /// Image antialiasing
    antialiasing: bool,
}

impl View for Render {
    type V = RenderView;

    closed spec fn view(&self) -> RenderView {
        RenderView {
            image: self.image@,
            max_size: self.max_size as nat,
            color: self.color,
            prevent_ascii_distortion: self.prevent_ascii_distortion,
            antialiasing: self.antialiasing,
        }
    }
}

/// The text of one pixel: its glyph, in its colour where colour is on.
pub open spec fn cell_text(p: Pixel, color: bool) -> Seq<char> {
    if color {
        colorized(glyph_of(p), p)
    } else {
        seq![glyph_of(p)]
    }
}

/// The text of the first `columns` pixels of row `y`.
pub open spec fn row_text(img: RasterView, y: int, columns: int, color: bool) -> Seq<char>
    decreases columns,
{
    if columns <= 0 {
        Seq::empty()
    } else {
        row_text(img, y, columns - 1, color) + cell_text(img.pixel_at(columns - 1, y), color)
    }
}

/// The text of the first `rows` rows, each closed by a line break.
pub open spec fn rows_text(img: RasterView, rows: int, color: bool) -> Seq<char>
    decreases rows,
{
    if rows <= 0 {
        Seq::empty()
    } else {
        rows_text(img, rows - 1, color) + row_text(img, rows - 1, img.width as int, color)
            + seq!['\n']
    }
}

/// The text of a whole picture: its rows from the top, each closed by a line
/// break. A picture without pixels gives the closing line break alone.
pub open spec fn painted(img: RasterView, color: bool) -> Seq<char> {
    if img.width == 0 || img.height == 0 {
        seq!['\n']
    } else {
        rows_text(img, img.height as int, color)
    }
}

/// Bytes to set aside for the text of a picture: a fixed number for each
/// pixel, more with colour for the escapes, and one for each line break.
pub open spec fn estimated_bytes(width: nat, height: nat, color: bool) -> nat {
    width * height * (if color { 25nat } else { 2nat }) + height
}

/// Why a picture of this size cannot be scaled under this configuration, if
/// it cannot.
pub open spec fn scale_error(width: nat, height: nat, max_size: nat, correct: bool) -> Option<
    RenderError,
> {
    let wide = corrected_size(width, height, correct).0;
    if max_size == 0 {
        Some(RenderError::ZeroMaxSize)
    } else if width == 0 || height == 0 {
        Some(RenderError::EmptyImage)
    } else if (correct || !fits(wide, height, max_size)) && (wide > u32::MAX || wide * height
        > resample_limit()) {
        Some(RenderError::TooLarge)
    } else {
        None
    }
}

/// The picture after the horizontal stretch: resampled to twice the width
/// where the correction is on, untouched where it is off.
pub open spec fn stretched(img: RasterView, correct: bool, smooth: bool) -> RasterView {
    if correct {
        resampled(img, 2 * img.width, img.height, smooth)
    } else {
        img
    }
}

/// The scaled picture: stretched, then, unless it fits the bound already,
/// resampled to the bounded size.
pub open spec fn scaled(img: RasterView, max_size: nat, correct: bool, smooth: bool) -> RasterView {
    let wide = stretched(img, correct, smooth);
    let size = bounded_size(wide.width, wide.height, max_size);
    if fits(wide.width, wide.height, max_size) {
        wide
    } else {
        resampled(wide, size.0, size.1, smooth)
    }
}

/// With the correction on, the stretched picture is twice as wide as the
/// source and exactly as high; with it off it is the source.
pub proof fn lemma_stretched_size(img: RasterView, smooth: bool)
    ensures
        stretched(img, true, smooth).width == 2 * img.width,
        stretched(img, true, smooth).height == img.height,
        stretched(img, false, smooth) == img,
{
}

/// The scaled picture of a source with at least one pixel, under a bound of
/// at least one cell, has at least one pixel and exceeds the bound on neither
/// axis.
pub proof fn lemma_scaled_within_bound(img: RasterView, max_size: nat, correct: bool, smooth: bool)
    requires
        img.width >= 1,
        img.height >= 1,
        max_size >= 1,
    ensures
        1 <= scaled(img, max_size, correct, smooth).width <= max_size,
        1 <= scaled(img, max_size, correct, smooth).height <= max_size,
{
    let wide = stretched(img, correct, smooth);
    lemma_bounded_size_within(wide.width, wide.height, max_size);
}

/// The text that rendering a picture under a configuration gives.
pub open spec fn rendered(cfg: RenderView) -> Seq<char> {
    painted(
        scaled(cfg.image, cfg.max_size, cfg.prevent_ascii_distortion, cfg.antialiasing),
        cfg.color,
    )
}

/// Rendering is repeatable: two renderers with the same picture and the same
/// configuration give the same text.
pub proof fn lemma_rendered_same_twice(first: RenderView, second: RenderView)
    requires
        first.image.width == second.image.width,
        first.image.height == second.image.height,
        first.image.samples == second.image.samples,
        first.max_size == second.max_size,
        first.color == second.color,
        first.prevent_ascii_distortion == second.prevent_ascii_distortion,
        first.antialiasing == second.antialiasing,
    ensures
        rendered(first) == rendered(second),
{
    assert(first.image == second.image);
}

/// Estimate the size of the render buffer. Where the estimate is more than a
/// `usize` holds, the result is `usize::MAX`.
pub fn calculate_bytes(image: &Raster, color: bool) -> (bytes: usize)
    ensures
        bytes == if estimated_bytes(image@.width, image@.height, color) <= usize::MAX {
            estimated_bytes(image@.width, image@.height, color)
        } else {
            usize::MAX as nat
        },
{
    let size_x: u128 = image.width() as u128;
    let size_y: u128 = image.height() as u128;
    let pixel_ascii_size: u128 = if color {
        25
    } else {
        2
    };
    assert(size_x * size_y <= 0xffff_ffff * 0xffff_ffff) by (nonlinear_arith)
        requires
            size_x <= 0xffff_ffff,
            size_y <= 0xffff_ffff,
    ;
    let pixels: u128 = size_x * size_y;
    let estimate: u128 = pixels * pixel_ascii_size + size_y;
    if estimate <= usize::MAX as u128 {
        estimate as usize
    } else {
        usize::MAX
    }
}

impl Render {
    /// The picture holds the samples of each of its pixels.
    pub open spec fn wf(&self) -> bool {
        self@.image.wf()
    }

    /// Create an instance of a render
    ///
    /// # Arguments
    ///
    /// * `image` - The image for render
    /// * `max_size` - The max size of the `image`
    /// * `color` - RGB render
    /// * `prevent_ascii_distortion` - Prevents a render distortion caused by the ascii pixels aspect
    /// * `antialiasing` - Image antialiasing
    pub fn new(
        image: Raster,
        max_size: u32,
        color: bool,
        prevent_ascii_distortion: bool,
        antialiasing: bool,
    ) -> (render: Self)
        ensures
            render@ == (RenderView {
                image: image@,
                max_size: max_size as nat,
                color,
                prevent_ascii_distortion,
                antialiasing,
            }),
    {
        Render { image, max_size, color, prevent_ascii_distortion, antialiasing }
    }

    /// The picture as it stands: the source before scaling, the scaled
    /// picture after.
    pub fn image(&self) -> (image: &Raster)
        ensures
            image@ == self@.image,
    {
        &self.image
    }

    /// Calculates an ascii pixel with a `rgb_pixel`
    pub fn ascii_pixel(&self, rgb_pixel: &Pixel) -> (out: String)
        ensures
            out@ == cell_text(*rgb_pixel, self@.color),
    {
        let pixel: char = glyph_for(rgb_pixel);
        if self.color {
            colorize(pixel, rgb_pixel)
        } else {
            let mut bare = String::new();
            push_char(&mut bare, pixel);
            assert(bare@ =~= seq![pixel]);
            bare
        }
    }

    /// Adjust the scale of the image based on the `max_size` and the
    /// `prevent_ascii_distortion`. On an error the renderer is left as it
    /// was.
    pub fn adjust_scale(&mut self) -> (res: Result<(), RenderError>)
        requires
            old(self).wf(),
        ensures
            final(self).wf(),
            final(self)@.max_size == old(self)@.max_size,
            final(self)@.color == old(self)@.color,
            final(self)@.prevent_ascii_distortion == old(self)@.prevent_ascii_distortion,
            final(self)@.antialiasing == old(self)@.antialiasing,
            res == match scale_error(
                old(self)@.image.width,
                old(self)@.image.height,
                old(self)@.max_size,
                old(self)@.prevent_ascii_distortion,
            ) {
                Some(e) => Err::<(), RenderError>(e),
                None => Ok(()),
            },
            res.is_ok() ==> final(self)@.image == scaled(
                old(self)@.image,
                old(self)@.max_size,
                old(self)@.prevent_ascii_distortion,
                old(self)@.antialiasing,
            ),
            res.is_ok() ==> 1 <= final(self)@.image.width <= old(self)@.max_size,
            res.is_ok() ==> 1 <= final(self)@.image.height <= old(self)@.max_size,
            res.is_err() ==> final(self)@.image == old(self)@.image,
    {
        let width: u32 = self.image.width();
        let height: u32 = self.image.height();
        if self.max_size == 0 {
            return Err(RenderError::ZeroMaxSize);
        }
        if width == 0 || height == 0 {
            return Err(RenderError::EmptyImage);
        }
        let filter = Filter::for_antialiasing(self.antialiasing);
        let (wide, high): (u32, u32) = match corrected_dimensions(
            width,
            height,
            self.prevent_ascii_distortion,
        ) {
            Some(size) => size,
            None => {
                return Err(RenderError::TooLarge);
            },
        };
        let smaller: bool = wide <= self.max_size && high <= self.max_size;
        if !self.prevent_ascii_distortion && smaller {
            return Ok(());
        }
        let limit: usize = usize::MAX / 32;
        assert(wide * high <= 0xffff_ffff * 0xffff_ffff) by (nonlinear_arith)
            requires
                wide <= 0xffff_ffff,
                high <= 0xffff_ffff,
        ;
        if wide as u128 * high as u128 > limit as u128 {
            return Err(RenderError::TooLarge);
        }
        assert(width * high <= wide * high) by (nonlinear_arith)
            requires
                width <= wide,
                0 <= high,
        ;
        if self.prevent_ascii_distortion {
            self.image = resample(&self.image, wide, high, filter);
        }
        if smaller {
            return Ok(());
        }
        let (new_width, new_height): (u32, u32) = bounded_dimensions(wide, high, self.max_size);
        assert(wide * new_height <= wide * high && new_width * new_height <= wide * high)
            by (nonlinear_arith)
            requires
                new_width <= wide,
                new_height <= high,
                0 <= new_height,
                0 <= wide,
        ;
        self.image = resample(&self.image, new_width, new_height, filter);
        Ok(())
    }

    /// Paint the render: the text of the picture as it stands, one line for
    /// each row and one glyph for each pixel.
    pub fn paint(&self) -> (out: String)
        requires
            self.wf(),
        ensures
            out@ == painted(self@.image, self@.color),
    {
        let width: u32 = self.image.width();
        let height: u32 = self.image.height();
        let bytes_estimation: usize = calculate_bytes(&self.image, self.color);
        let mut paint_buffer = String::new();
        if bytes_estimation <= usize::MAX / 2 {
            reserve_bytes(&mut paint_buffer, bytes_estimation);
        }
        if width == 0 || height == 0 {
            push_char(&mut paint_buffer, '\n');
            assert(paint_buffer@ =~= seq!['\n']);
            return paint_buffer;
        }
        let ghost img = self@.image;
        let ghost color = self@.color;
        let mut y: u32 = 0;
        while y < height
            invariant
                self.wf(),
                img == self@.image,
                color == self@.color,
                width == img.width,
                height == img.height,
                y <= height,
                paint_buffer@ == rows_text(img, y as int, color),
            decreases height - y,
        {
            let ghost before = paint_buffer@;
            let mut x: u32 = 0;
            while x < width
                invariant
                    self.wf(),
                    img == self@.image,
                    color == self@.color,
                    width == img.width,
                    height == img.height,
                    y < height,
                    x <= width,
                    paint_buffer@ == before + row_text(img, y as int, x as int, color),
                decreases width - x,
            {
                let pixel = self.image.get_pixel(x, y);
                let cell = self.ascii_pixel(&pixel);
                paint_buffer.append(cell.as_str());
                assert(paint_buffer@ =~= before + row_text(img, y as int, x + 1, color));
                x += 1;
            }
            push_char(&mut paint_buffer, '\n');
            assert(paint_buffer@ =~= rows_text(img, y + 1, color));
            y += 1;
        }
        paint_buffer
    }
}

/// Renders a picture: scales it under the configuration, then paints it. The
/// text depends on the picture and the configuration alone, so rendering the
/// same picture twice under the same configuration gives the same text.
pub fn render(
    image: Raster,
    max_size: u32,
    color: bool,
    prevent_ascii_distortion: bool,
    antialiasing: bool,
) -> (res: Result<String, RenderError>)
    requires
        image.wf(),
    ensures
        match scale_error(
            image@.width,
            image@.height,
            max_size as nat,
            prevent_ascii_distortion,
        ) {
            Some(e) => res == Err::<String, RenderError>(e),
            None => res.is_ok() && res.unwrap()@ == rendered(
                RenderView {
                    image: image@,
                    max_size: max_size as nat,
                    color,
                    prevent_ascii_distortion,
                    antialiasing,
                },
            ),
        },
{
    let mut render = Render::new(image, max_size, color, prevent_ascii_distortion, antialiasing);
    match render.adjust_scale() {
        Ok(()) => Ok(render.paint()),
        Err(e) => Err(e),
    }
}

} // verus!
