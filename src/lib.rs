//! Rendering of RGBA raster images onto a grid of terminal cells, two
//! stacked pixels per cell drawn with an upper half-block glyph.
pub mod pixel;
pub mod image;
pub mod view;
pub mod render;


pub use crate::pixel::{blend, BgColor, Pixel, Rgb};
pub use crate::image::{Image, SampleLayout};
pub use crate::view::{Fit, ImageView, Region, ViewPixels};
pub use crate::render::{scale_for, Cell, Paint, Scaling, PIXEL_CHAR};


