pub mod netpbm;

use crate::monos_gfx::types::{fits_i64, Color, Dimension, Position};
use vstd::prelude::*;

verus! {

/// The pixels of an image.
#[derive(Clone)]
pub enum ImageFormat {
    /// 3 bytes per pixel (r, g, b), optionally treat a certain color as transparent
    RGB { data: Vec<u8>, alpha_val: Option<Color> },
    /// 1 bit per pixel (0 = transparent, 1 = opaque), rows padded to whole bytes
    Bitmap { data: Vec<u8>, color: Color },
}

#[derive(Clone)]
pub struct Image {
    pub dimensions: Dimension,
    pub data: ImageFormat,
}

/// Bytes per row of a bitmap: the width in bits, rounded up to whole bytes.
pub open spec fn bitmap_row_bytes(width: u32) -> int {
    width / 8 + if width % 8 != 0 { 1int } else { 0int }
}

/// The index of a pixel's first byte in RGB data, and of its byte in bitmap data.
pub open spec fn rgb_index(dimensions: Dimension, pos: Position) -> int {
    pos.y * dimensions.width + pos.x
}

pub open spec fn bitmap_index(dimensions: Dimension, pos: Position) -> int {
    pos.y * bitmap_row_bytes(dimensions.width) + pos.x / 8
}

impl Image {
    pub fn new(dimensions: Dimension, data: ImageFormat) -> (r: Image)
        ensures
            r.dimensions == dimensions,
            r.data == data,
    {
        Image { dimensions, data }
    }

    /// The pixel can be read: its bytes exist (for a bitmap, its column is not negative).
    pub open spec fn pixel_ok(&self, pos: Position) -> bool {
        match self.data {
            ImageFormat::RGB { data, .. } => {
                &&& fits_i64(pos.y * self.dimensions.width)
                &&& fits_i64(rgb_index(self.dimensions, pos))
                &&& 0 <= rgb_index(self.dimensions, pos)
                &&& rgb_index(self.dimensions, pos) * 3 + 2 < data@.len()
            },
            ImageFormat::Bitmap { data, .. } => {
                &&& 0 <= pos.x
                &&& fits_i64(pos.y * bitmap_row_bytes(self.dimensions.width))
                &&& fits_i64(bitmap_index(self.dimensions, pos))
                &&& 0 <= bitmap_index(self.dimensions, pos) < data@.len()
            },
        }
    }

    /// The color of a pixel; bitmap pixels that are not set are black.
    pub open spec fn spec_pixel(&self, pos: Position) -> Color {
        match self.data {
            ImageFormat::RGB { data, .. } => {
                let i = rgb_index(self.dimensions, pos) * 3;
                Color { r: data@[i], g: data@[i + 1], b: data@[i + 2] }
            },
            ImageFormat::Bitmap { data, color } => {
                let byte = data@[bitmap_index(self.dimensions, pos)];
                if byte & (1u8 << ((7 - pos.x % 8) as u8)) != 0 {
                    color
                } else {
                    Color { r: 0, g: 0, b: 0 }
                }
            },
        }
    }

    pub fn get_pixel(&self, pos: Position) -> (r: Color)
        requires
            self.pixel_ok(pos),
        ensures
            r == self.spec_pixel(pos),
    {
        match &self.data {
            ImageFormat::RGB { data, .. } => {
                let len = data.len();
                let w = self.dimensions.width as i64;
                let row = pos.y * w;
                let idx = row + pos.x;
                assert(idx * 3 + 2 < len);
                let offset = idx as usize * 3;
                Color::new(data[offset], data[offset + 1], data[offset + 2])
            },
            ImageFormat::Bitmap { data, color } => {
                let len = data.len();
                let bytes_per_row = self.dimensions.width as usize / 8 + if self.dimensions.width % 8
                    != 0 {
                    1
                } else {
                    0
                };
                assert(bytes_per_row == bitmap_row_bytes(self.dimensions.width));
                let row = pos.y * bytes_per_row as i64;
                let byte_offset = (row + pos.x / 8) as usize;
                let bit_offset = pos.x % 8;
                let bit_offset = 7 - bit_offset;
                if data[byte_offset] & (1u8 << (bit_offset as u8)) != 0 {
                    *color
                } else {
                    Color::new(0, 0, 0)
                }
            },
        }
    }

    pub fn dimensions(&self) -> (r: Dimension)
        ensures
            r == self.dimensions,
    {
        self.dimensions
    }

    /// Makes `color` transparent in an RGB image; a bitmap is left as it is.
    pub fn set_transparent_color(&mut self, color: Color)
        ensures
            final(self).dimensions == old(self).dimensions,
            match old(self).data {
                ImageFormat::RGB { data, .. } => final(self).data == ImageFormat::RGB {
                    data,
                    alpha_val: Some(color),
                },
                ImageFormat::Bitmap { .. } => final(self).data == old(self).data,
            },
    {
        match &mut self.data {
            ImageFormat::RGB { alpha_val, .. } => {
                *alpha_val = Some(color);
            },
            _ => {},
        }
    }

    /// Sets the color a bitmap draws its set pixels in; an RGB image is left as it is.
    pub fn set_opaque_color(&mut self, color: Color)
        ensures
            final(self).dimensions == old(self).dimensions,
            match old(self).data {
                ImageFormat::Bitmap { data, .. } => final(self).data == ImageFormat::Bitmap {
                    data,
                    color,
                },
                ImageFormat::RGB { .. } => final(self).data == old(self).data,
            },
    {
        match &mut self.data {
            ImageFormat::Bitmap { color: c, .. } => {
                *c = color;
            },
            _ => {},
        }
    }
}

/// Reading a pixel of a bitmap: rows take `ceil(width / 8)` bytes each, and the pixel at
/// `(x, y)` is bit `7 - x % 8` (counting from the lowest) of byte
/// `y * ceil(width / 8) + x / 8`; a set bit gives the image's color, a clear one black.
/// Reading a pixel of an RGB image: its three bytes start at `3 * (y * width + x)`.
pub proof fn lemma_pixel_bytes(image: Image, x: i64, y: i64)
    requires
        0 <= x < image.dimensions.width,
        0 <= y,
    ensures
        image.data matches ImageFormat::Bitmap { data, color } ==> {
            let byte = data@[y * ((image.dimensions.width + 7) / 8) + x / 8];
            let k = (7 - x % 8) as u8;
            image.spec_pixel(Position { x, y }) == if (byte >> k) & 1u8 == 1u8 {
                color
            } else {
                Color { r: 0, g: 0, b: 0 }
            }
        },
        image.data matches ImageFormat::RGB { data, .. } ==> {
            let i = 3 * (y * image.dimensions.width + x);
            image.spec_pixel(Position { x, y }) == Color { r: data@[i], g: data@[i + 1], b: data@[i + 2] }
        },
{
    let w = image.dimensions.width;
    assert((w + 7) / 8 == bitmap_row_bytes(w));
    let pos = Position { x, y };
    assert(x % 8 == pos.x % 8);
    let k = (7 - x % 8) as u8;
    assert(0 <= k < 8);
    if let ImageFormat::Bitmap { data, color } = image.data {
        let byte = data@[bitmap_index(image.dimensions, pos)];
        assert((byte & (1u8 << k) != 0) == ((byte >> k) & 1u8 == 1u8)) by (bit_vector)
            requires
                k < 8,
        ;
    }
    if let ImageFormat::RGB { data, .. } = image.data {
        assert(rgb_index(image.dimensions, pos) * 3 == 3 * (y * w + x));
    }
}

} // verus!
