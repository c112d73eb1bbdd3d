//! A normalized in-memory pixel buffer.

use vstd::prelude::*;

verus! {

/// A decoded bitmap in an explicit, uniform layout: `channels` bytes per
/// pixel (one byte per channel, intensity 0-255), pixels stored in raster
/// order (row-major, top-to-bottom, left-to-right).
pub struct PixelBuffer {
    width: u32,
    height: u32,
    channels: u32,
    data: Vec<u8>,
}

impl PixelBuffer {
    /// Width of the bitmap in pixels.
    pub closed spec fn spec_width(self) -> u32 {
        self.width
    }

    /// Height of the bitmap in pixels.
    pub closed spec fn spec_height(self) -> u32 {
        self.height
    }

    /// Number of channels of every pixel.
    pub closed spec fn spec_channels(self) -> u32 {
        self.channels
    }

    /// The raw bytes, `channels` per pixel, in raster order.
    pub closed spec fn spec_data(self) -> Seq<u8> {
        self.data@
    }

    /// Total number of pixels.
    pub open spec fn spec_pixel_count(self) -> int {
        self.spec_width() * self.spec_height()
    }

    /// The buffer's invariant: between one and four channels, a pixel count
    /// that fits a `u32` (so every per-value count fits a table entry), and
    /// exactly `channels` bytes of data for every pixel.
    pub open spec fn well_formed(self) -> bool {
        &&& 1 <= self.spec_channels() <= 4
        &&& self.spec_pixel_count() <= u32::MAX
        &&& self.spec_data().len() == self.spec_pixel_count() * self.spec_channels()
    }

    /// The value of channel `c` of the `p`-th pixel in raster order.
    pub open spec fn spec_value_at(self, p: int, c: int) -> u8 {
        self.spec_data()[p * self.spec_channels() + c]
    }

    /// Builds a buffer from a decoded image's dimensions, channel count and
    /// raw bytes. Returns `None` exactly when the arguments cannot form a
    /// well-formed buffer: a channel count outside 1..=4, a pixel count
    /// beyond `u32::MAX`, or a byte length other than
    /// `width * height * channels`.
    pub fn new(width: u32, height: u32, channels: u32, data: Vec<u8>) -> (r: Option<PixelBuffer>)
        ensures
            r is Some <==> {
                &&& 1 <= channels <= 4
                &&& width * height <= u32::MAX
                &&& data@.len() == width * height * channels
            },
            r matches Some(buf) ==> {
                &&& buf.well_formed()
                &&& buf.spec_width() == width
                &&& buf.spec_height() == height
                &&& buf.spec_channels() == channels
                &&& buf.spec_data() == data@
            },
    {
        if channels < 1 || channels > 4 {
            return None;
        }
        proof {
            assert((width as int) * (height as int) <= 0xffff_ffff * 0xffff_ffff)
                by (nonlinear_arith)
                requires
                    width <= 0xffff_ffffu32,
                    height <= 0xffff_ffffu32,
            ;
        }
        let pixels: u64 = (width as u64) * (height as u64);
        if pixels > u32::MAX as u64 {
            return None;
        }
        proof {
            assert((pixels as int) * (channels as int) <= 0xffff_ffff * 4)
                by (nonlinear_arith)
                requires
                    pixels <= 0xffff_ffffu64,
                    channels <= 4u32,
            ;
        }
        let expected: u64 = pixels * (channels as u64);
        if (data.len() as u64) != expected {
            return None;
        }
        Some(PixelBuffer { width, height, channels, data })
    }

    /// Width of the bitmap in pixels.
    pub fn width(&self) -> (r: u32)
        ensures
            r == self.spec_width(),
    {
        self.width
    }

    /// Height of the bitmap in pixels.
    pub fn height(&self) -> (r: u32)
        ensures
            r == self.spec_height(),
    {
        self.height
    }

    /// Number of channels of every pixel.
    pub fn channels(&self) -> (r: u32)
        ensures
            r == self.spec_channels(),
    {
        self.channels
    }

    /// Total number of pixels.
    pub fn pixel_count(&self) -> (r: u32)
        requires
            self.well_formed(),
        ensures
            r == self.spec_pixel_count(),
    {
        self.width * self.height
    }

    /// Reads channel `c` of the `p`-th pixel in raster order.
    pub fn value_at(&self, p: usize, c: usize) -> (r: u8)
        requires
            self.well_formed(),
            p < self.spec_pixel_count(),
            c < self.spec_channels(),
        ensures
            r == self.spec_value_at(p as int, c as int),
    {
        let len: usize = self.data.len();
        proof {
            assert(p * self.spec_channels() + c < self.spec_pixel_count() * self.spec_channels())
                by (nonlinear_arith)
                requires
                    p < self.spec_pixel_count(),
                    c < self.spec_channels(),
            ;
        }
        let idx: usize = p * (self.channels as usize) + c;
        self.data[idx]
    }
}

} // verus!
