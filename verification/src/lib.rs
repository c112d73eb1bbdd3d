//! Per-channel intensity histograms of decoded images.
//!
//! The library works on a [`buffer::PixelBuffer`]: a decoded bitmap in a
//! normalized layout, `channels` bytes per pixel in raster order. From such a
//! buffer, [`histogram::compute_histograms`] produces one frequency table of
//! 256 counts per channel, with a proof that every entry is exactly the number
//! of pixels carrying that value and that each table sums to the pixel count.

pub mod buffer;
pub mod histogram;
