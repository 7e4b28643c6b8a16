use vstd::prelude::*;

use crate::color::Rgb;

verus! {

/// A texture that is looked up in a decoded image: rows from the top, in
/// each row the pixels from the left, three bytes to the pixel.
pub struct ImageTexture {
    pub img_data: Vec<u8>,
    pub width: u32,
    pub height: u32,
    pub bytes_per_scanline: u32,
}

/// The number of bytes that one pixel takes.
pub const BYTES_PER_PIXEL: u32 = 3;

impl ImageTexture {
    /// The data holds `height` rows of `bytes_per_scanline` bytes, and a
    /// row holds `width` pixels.
    pub open spec fn well_formed(self) -> bool {
        &&& self.bytes_per_scanline == self.width * BYTES_PER_PIXEL
        &&& self.img_data@.len() == self.bytes_per_scanline * self.height
    }

    /// Whether raw data of that length can be an image of that size.
    pub open spec fn fits(len: nat, width: u32, height: u32) -> bool {
        &&& width * BYTES_PER_PIXEL <= u32::MAX
        &&& len == width * BYTES_PER_PIXEL * height
    }

    /// A texture over decoded image data of the given size, or `None`
    /// where the data is not of that size.
    pub fn new(img_data: Vec<u8>, width: u32, height: u32) -> (r: Option<Self>)
        ensures
            r is Some <==> Self::fits(img_data@.len(), width, height),
            r matches Some(t) ==> {
                &&& t.well_formed()
                &&& t.img_data@ == img_data@
                &&& t.width == width
                &&& t.height == height
            },
    {
        if width > u32::MAX / BYTES_PER_PIXEL {
            return None;
        }
        let bytes_per_scanline: u32 = width * BYTES_PER_PIXEL;
        assert(bytes_per_scanline * height <= u64::MAX) by (nonlinear_arith)
            requires
                bytes_per_scanline <= u32::MAX,
                height <= u32::MAX,
        ;
        let size: u64 = bytes_per_scanline as u64 * height as u64;
        assert(size == width * BYTES_PER_PIXEL * height) by (nonlinear_arith)
            requires
                size == bytes_per_scanline * height,
                bytes_per_scanline == width * BYTES_PER_PIXEL,
        ;
        if img_data.len() as u64 != size {
            return None;
        }
        Some(Self { img_data, width, height, bytes_per_scanline })
    }

    /// The column or row that is read for a requested one: the requested
    /// one, or the last where the request lies beyond it.
    pub open spec fn clamped(at: i32, extent: u32) -> int {
        if at >= extent {
            extent - 1
        } else {
            at as int
        }
    }

    /// The pixel in column `i` of row `j`, as a value.
    pub open spec fn pixel(self, i: int, j: int) -> Rgb {
        let base = j * self.bytes_per_scanline + i * BYTES_PER_PIXEL;
        Rgb { r: self.img_data@[base], g: self.img_data@[base + 1], b: self.img_data@[base + 2] }
    }

    /// The pixel in column `i` of row `j`; a column or row beyond the last
    /// is read as the last. The image must hold a pixel.
    pub fn texel(&self, i: i32, j: i32) -> (p: Rgb)
        requires
            self.well_formed(),
            self.width > 0,
            self.height > 0,
            0 <= i,
            0 <= j,
        ensures
            p == self.pixel(Self::clamped(i, self.width), Self::clamped(j, self.height)),
    {
        let column: u32 = if i as u32 >= self.width {
            self.width - 1
        } else {
            i as u32
        };
        let row: u32 = if j as u32 >= self.height {
            self.height - 1
        } else {
            j as u32
        };
        let stride: usize = self.bytes_per_scanline as usize;
        let len: usize = self.img_data.len();
        assert(0 <= (row as usize) * stride && (row as usize) * stride + (column as usize) * 3 + 2
            < len) by (nonlinear_arith)
            requires
                row < self.height,
                column < self.width,
                stride == self.width * 3,
                len == stride * self.height,
        ;
        let base: usize = row as usize * stride + column as usize * (BYTES_PER_PIXEL as usize);
        Rgb { r: self.img_data[base], g: self.img_data[base + 1], b: self.img_data[base + 2] }
    }
}

} // verus!
