//! The scaler: the size a picture is brought to, and the resampling itself.

use crate::raster::{Raster, RasterView};
use vstd::prelude::*;

verus! {

/// How pixels are sampled when a picture changes size.
#[derive(Clone, Copy, Debug, PartialEq, Eq, Structural)]
pub enum Filter {
    /// Smooth: each new pixel blends its neighbours linearly.
    Triangle,
    /// Each new pixel copies the nearest old one.
    Nearest,
}

impl Filter {
    /// Whether the filter blends neighbouring pixels.
    pub open spec fn is_smooth(self) -> bool {
        self == Filter::Triangle
    }

    /// The filter for a picture that is, or is not, to be antialiased.
    pub fn for_antialiasing(antialiasing: bool) -> (filter: Filter)
        ensures
            filter.is_smooth() == antialiasing,
    {
        if antialiasing {
            Filter::Triangle
        } else {
            Filter::Nearest
        }
    }
}

/// Size after the horizontal stretch that makes up for character cells being
/// twice as tall as wide: the width doubles, the height stays.
pub open spec fn corrected_size(width: nat, height: nat, correct: bool) -> (nat, nat) {
    (if correct { 2 * width } else { width }, height)
}

/// The whole number nearest to `bound * small / large`, a half going up.
pub open spec fn rounded_share(bound: nat, small: nat, large: nat) -> nat {
    (2 * bound * small + large) / (2 * large)
}

/// Length of the shorter side once the longer one is cut to `bound`: the
/// rounded share, but never less than one cell.
pub open spec fn shorter_side(bound: nat, small: nat, large: nat) -> nat {
    if rounded_share(bound, small, large) == 0 {
        1
    } else {
        rounded_share(bound, small, large)
    }
}

/// Whether a picture of this size lies within the square bound as it is.
pub open spec fn fits(width: nat, height: nat, bound: nat) -> bool {
    width <= bound && height <= bound
}

/// Size after bounding: unchanged where both sides fit; otherwise the longer
/// side becomes `bound` and the shorter one keeps the proportion.
pub open spec fn bounded_size(width: nat, height: nat, bound: nat) -> (nat, nat) {
    if fits(width, height, bound) {
        (width, height)
    } else if width >= height {
        (bound, shorter_side(bound, height, width))
    } else {
        (shorter_side(bound, width, height), bound)
    }
}

/// The rounded share lies no more than a half from `bound * small / large`:
/// at most a half above it, and less than a half below.
pub proof fn lemma_rounded_share_nearest(bound: nat, small: nat, large: nat)
    requires
        large >= 1,
    ensures
        2 * large * rounded_share(bound, small, large) <= 2 * bound * small + large,
        2 * bound * small + large < 2 * large * (rounded_share(bound, small, large) + 1),
{
    let n = 2 * bound * small + large;
    let d = 2 * large;
    vstd::arithmetic::div_mod::lemma_fundamental_div_mod(n as int, d as int);
    assert(d * (n / d) + d == d * (n / d + 1)) by (nonlinear_arith);
}

/// The shorter side is at least one cell and exceeds neither the bound nor
/// the side it is derived from.
pub proof fn lemma_shorter_side_bounds(bound: nat, small: nat, large: nat)
    requires
        1 <= bound < large,
        1 <= small <= large,
    ensures
        1 <= shorter_side(bound, small, large) <= bound,
        shorter_side(bound, small, large) <= small,
{
    let q = rounded_share(bound, small, large);
    let n = 2 * bound * small + large;
    let d = 2 * large;
    assert(n == d * (n / d) + n % d && 0 <= n % d < d) by {
        vstd::arithmetic::div_mod::lemma_fundamental_div_mod(n as int, d as int);
    }
    assert(q <= bound && q <= small) by (nonlinear_arith)
        requires
            n == d * q + n % d,
            0 <= n % d,
            n == 2 * bound * small + large,
            d == 2 * large,
            1 <= bound < large,
            1 <= small <= large,
    ;
}

/// Bounding keeps every picture of at least one pixel within the bound, on
/// both axes, and never empties or enlarges it.
pub proof fn lemma_bounded_size_within(width: nat, height: nat, bound: nat)
    requires
        width >= 1,
        height >= 1,
        bound >= 1,
    ensures
        1 <= bounded_size(width, height, bound).0 <= bound,
        1 <= bounded_size(width, height, bound).1 <= bound,
        bounded_size(width, height, bound).0 <= width,
        bounded_size(width, height, bound).1 <= height,
{
    if fits(width, height, bound) {
    } else if width >= height {
        lemma_shorter_side_bounds(bound, height, width);
    } else {
        lemma_shorter_side_bounds(bound, width, height);
    }
}

/// With the correction on, the stretched picture is twice as wide as the
/// source and as high; with it off, the size stays.
pub proof fn lemma_corrected_size(width: nat, height: nat)
    ensures
        corrected_size(width, height, true) == (2 * width, height),
        corrected_size(width, height, false) == (width, height),
{
}

/// Size of a picture after the horizontal stretch, or `None` where the
/// doubled width is more than a `u32` holds.
pub fn corrected_dimensions(width: u32, height: u32, correct: bool) -> (res: Option<(u32, u32)>)
    ensures
        res.is_some() <==> corrected_size(width as nat, height as nat, correct).0 <= u32::MAX,
        res matches Some(size) ==> (size.0 as nat, size.1 as nat) == corrected_size(
            width as nat,
            height as nat,
            correct,
        ),
{
    if !correct {
        Some((width, height))
    } else if width > u32::MAX / 2 {
        None
    } else {
        Some((2 * width, height))
    }
}

/// Length of the shorter side once the longer one is cut to `bound`.
fn shorter_dimension(bound: u32, small: u32, large: u32) -> (side: u32)
    requires
        1 <= bound < large,
        1 <= small <= large,
    ensures
        side == shorter_side(bound as nat, small as nat, large as nat),
{
    proof {
        lemma_shorter_side_bounds(bound as nat, small as nat, large as nat);
    }
    assert(2 * bound * small <= 2 * 0xffff_ffff * 0xffff_ffff) by (nonlinear_arith)
        requires
            bound <= 0xffff_ffff,
            small <= 0xffff_ffff,
    ;
    let twice: u128 = 2 * (bound as u128) * (small as u128) + (large as u128);
    let share: u128 = twice / (2 * (large as u128));
    if share == 0 {
        1
    } else {
        share as u32
    }
}

/// Size of a picture after bounding to a square of `max_size` cells.
pub fn bounded_dimensions(width: u32, height: u32, max_size: u32) -> (size: (u32, u32))
    requires
        width >= 1,
        height >= 1,
        max_size >= 1,
    ensures
        (size.0 as nat, size.1 as nat) == bounded_size(
            width as nat,
            height as nat,
            max_size as nat,
        ),
        1 <= size.0 <= max_size,
        1 <= size.1 <= max_size,
        size.0 <= width,
        size.1 <= height,
{
    proof {
        lemma_bounded_size_within(width as nat, height as nat, max_size as nat);
    }
    if width <= max_size && height <= max_size {
        (width, height)
    } else if width >= height {
        (max_size, shorter_dimension(max_size, height, width))
    } else {
        (shorter_dimension(max_size, width, height), max_size)
    }
}

/// The samples that resampling gives: those of a picture of `new_width` by
/// `new_height` pixels made from one of `width` by `height` pixels with the
/// given samples, blended where `smooth` holds and copied from the nearest
/// pixel where not.
pub uninterp spec fn resized_samples(
    width: nat,
    height: nat,
    samples: Seq<u8>,
    new_width: nat,
    new_height: nat,
    smooth: bool,
) -> Seq<u8>;

/// A picture resampled to a new size.
pub open spec fn resampled(img: RasterView, new_width: nat, new_height: nat, smooth: bool)
    -> RasterView {
    RasterView {
        width: new_width,
        height: new_height,
        samples: resized_samples(
            img.width,
            img.height,
            img.samples,
            new_width,
            new_height,
            smooth,
        ),
    }
}

/// The most pixels, counted as source columns times new rows or as new
/// columns times new rows, that one resampling may handle: the working buffer
/// takes sixteen bytes for each.
pub open spec fn resample_limit() -> nat {
    (usize::MAX / 32) as nat
}

/// Whether a picture of `width` by `height` pixels can be resampled to
/// `new_width` by `new_height`.
pub open spec fn can_resample(width: nat, height: nat, new_width: nat, new_height: nat) -> bool {
    &&& width >= 1
    &&& height >= 1
    &&& new_width >= 1
    &&& new_height >= 1
    &&& width * new_height <= resample_limit()
    &&& new_width * new_height <= resample_limit()
}

/// Resamples a picture to exactly the given size, with no regard to its
/// proportions.
///
/// Trusted: calls `image::DynamicImage::resize_exact` on the picture as an
/// RGBA8 image. The contract claims that the result has the size asked for,
/// holds four samples for each of its pixels, and that its samples depend on
/// nothing but the source, the new size and the filter. How the samples are
/// computed is not stated.
#[verifier::external_body]
pub(crate) fn resample(src: &Raster, new_width: u32, new_height: u32, filter: Filter) -> (out:
    Raster)
    requires
        src.wf(),
        can_resample(src@.width, src@.height, new_width as nat, new_height as nat),
    ensures
        out.wf(),
        out@.width == new_width,
        out@.height == new_height,
        out@.samples == resized_samples(
            src@.width,
            src@.height,
            src@.samples,
            new_width as nat,
            new_height as nat,
            filter.is_smooth(),
        ),
{
    let filter = match filter {
        Filter::Triangle => image::imageops::FilterType::Triangle,
        Filter::Nearest => image::imageops::FilterType::Nearest,
    };
    let source = image::RgbaImage::from_raw(src.width, src.height, src.data.clone()).unwrap();
    let resized = image::DynamicImage::ImageRgba8(source)
        .resize_exact(new_width, new_height, filter)
        .into_rgba8();
    Raster { width: resized.width(), height: resized.height(), data: resized.into_raw() }
}

} // verus!
