//! Renders a raster image as lines of glyphs for a terminal.
//!
//! A picture is first scaled to fit a square bound of character cells, with an
//! optional horizontal stretch that makes up for cells being taller than wide.
//! Each pixel of the scaled picture then becomes one glyph of a fixed ramp that
//! is ordered by brightness, optionally wrapped in a true-colour escape.

pub mod color;
pub mod glyph;
pub mod layout;
pub mod raster;
pub mod render;
pub mod scale;
mod text;

pub use color::colorize;
pub use glyph::{brightness, density_index, glyph_for, ramp_glyph, BRIGHTNESS_FULL, RAMP_LEN};
pub use raster::{Pixel, Raster};
pub use render::{calculate_bytes, render, Render, RenderError};
pub use scale::{bounded_dimensions, corrected_dimensions, Filter};
