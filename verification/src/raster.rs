//! Pixels and the row-major raster that holds them.

use vstd::prelude::*;

verus! {

/// One pixel: red, green, blue and opacity, eight bits each.
#[derive(Clone, Copy, Debug, PartialEq, Eq, Structural)]
pub struct Pixel {
    pub r: u8,
    pub g: u8,
    pub b: u8,
    pub a: u8,
}

/// What a raster is to the contracts: its size and its samples, four per
/// pixel in the order red, green, blue, opacity, rows from the top, each row
/// from the left.
pub struct RasterView {
    pub width: nat,
    pub height: nat,
    pub samples: Seq<u8>,
}

impl RasterView {
    /// The samples are exactly those of `width * height` pixels.
    pub open spec fn wf(self) -> bool {
        self.samples.len() == 4 * (self.width * self.height)
    }

    /// The pixel with the given row-major number.
    pub open spec fn pixel(self, i: int) -> Pixel {
        Pixel {
            r: self.samples[4 * i],
            g: self.samples[4 * i + 1],
            b: self.samples[4 * i + 2],
            a: self.samples[4 * i + 3],
        }
    }

    /// The pixel in column `x` of row `y`.
    pub open spec fn pixel_at(self, x: int, y: int) -> Pixel {
        self.pixel(y * self.width + x)
    }
}

/// A decoded picture with eight-bit RGBA pixels.
#[derive(Debug)]
pub struct Raster {
    pub(crate) width: u32,
    pub(crate) height: u32,
    pub(crate) data: Vec<u8>,
}

impl View for Raster {
    type V = RasterView;

    closed spec fn view(&self) -> RasterView {
        RasterView { width: self.width as nat, height: self.height as nat, samples: self.data@ }
    }
}

impl Clone for Raster {
    fn clone(&self) -> (copy: Self)
        ensures
            copy@ == self@,
    {
        let data = self.data.clone();
        assert(data@ =~= self.data@);
        Raster { width: self.width, height: self.height, data }
    }
}

impl Raster {
    /// The buffer holds exactly the samples of every pixel.
    pub open spec fn wf(&self) -> bool {
        self@.wf()
    }

    /// Makes a raster of the given size from its samples. The buffer must
    /// hold four samples for each pixel, no more and no fewer.
    pub fn from_raw(width: u32, height: u32, data: Vec<u8>) -> (res: Option<Raster>)
        ensures
            res.is_some() <==> data@.len() == 4 * (width * height),
            res matches Some(r) ==> r.wf() && r@ == (RasterView {
                width: width as nat,
                height: height as nat,
                samples: data@,
            }),
    {
        assert(width * height <= 0xffff_ffff * 0xffff_ffff) by (nonlinear_arith)
            requires
                width <= 0xffff_ffff,
                height <= 0xffff_ffff,
        ;
        let count: u64 = width as u64 * height as u64;
        let need: u128 = 4 * (count as u128);
        if data.len() as u128 == need {
            Some(Raster { width, height, data })
        } else {
            None
        }
    }

    /// Number of columns.
    pub fn width(&self) -> (w: u32)
        ensures
            w == self@.width,
    {
        self.width
    }

    /// Number of rows.
    pub fn height(&self) -> (h: u32)
        ensures
            h == self@.height,
    {
        self.height
    }

    /// The samples, four per pixel.
    pub fn as_raw(&self) -> (samples: &Vec<u8>)
        ensures
            samples@ == self@.samples,
    {
        &self.data
    }

    /// The pixel with row-major number `i`.
    pub fn pixel(&self, i: usize) -> (p: Pixel)
        requires
            self.wf(),
            i < self@.width * self@.height,
        ensures
            p == self@.pixel(i as int),
    {
        let total: usize = self.data.len();
        assert(total == 4 * (self@.width * self@.height));
        Pixel {
            r: self.data[4 * i],
            g: self.data[4 * i + 1],
            b: self.data[4 * i + 2],
            a: self.data[4 * i + 3],
        }
    }

    /// The pixel in column `x` of row `y`.
    pub fn get_pixel(&self, x: u32, y: u32) -> (p: Pixel)
        requires
            self.wf(),
            x < self@.width,
            y < self@.height,
        ensures
            p == self@.pixel_at(x as int, y as int),
    {
        assert(y * self.width + x < self.width * self.height) by (nonlinear_arith)
            requires
                x < self.width,
                y < self.height,
        ;
        assert(y * self.width >= 0) by (nonlinear_arith);
        let total: usize = self.data.len();
        assert(total == 4 * (self@.width * self@.height));
        let i: usize = y as usize * self.width as usize + x as usize;
        self.pixel(i)
    }
}

} // verus!
