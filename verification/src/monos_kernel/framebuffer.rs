use crate::monos_gfx::framebuffer::FramebufferFormat;
use vstd::prelude::*;

verus! {

/// How the screen that the bootloader set up stores a pixel's colors.
#[derive(Debug, Clone, Copy, PartialEq, Eq, Structural)]
pub enum PixelLayout {
    /// Red, green, then blue.
    Rgb,
    /// Blue, green, then red.
    Bgr,
    /// One grey byte.
    U8,
    /// Given offsets of the three colors.
    Unknown { red_position: u8, green_position: u8, blue_position: u8 },
}

/// Where red, green and blue stand in a pixel of the given layout: all three in the one
/// byte of a grey screen, and the given offsets for an unknown layout.
pub open spec fn spec_color_positions(layout: PixelLayout) -> (usize, usize, usize) {
    match layout {
        PixelLayout::U8 => (0, 0, 0),
        PixelLayout::Rgb => (0, 1, 2),
        PixelLayout::Bgr => (2, 1, 0),
        PixelLayout::Unknown { red_position, green_position, blue_position } => (
            red_position as usize,
            green_position as usize,
            blue_position as usize,
        ),
    }
}

pub fn color_positions(layout: PixelLayout) -> (r: (usize, usize, usize))
    ensures
        r == spec_color_positions(layout),
{
    match layout {
        PixelLayout::U8 => (0, 0, 0),
        PixelLayout::Rgb => (0, 1, 2),
        PixelLayout::Bgr => (2, 1, 0),
        PixelLayout::Unknown { red_position, green_position, blue_position } => (
            red_position as usize,
            green_position as usize,
            blue_position as usize,
        ),
    }
}

/// The format of the kernel's back buffer for a screen: its pixel size and stride, the
/// color positions of its layout, and no alpha byte.
pub fn screen_format(layout: PixelLayout, bytes_per_pixel: u64, stride: u64) -> (r: FramebufferFormat)
    ensures
        r.bytes_per_pixel == bytes_per_pixel,
        r.stride == stride,
        (r.r_position, r.g_position, r.b_position) == spec_color_positions(layout),
        r.a_position is None,
{
    let (r_position, g_position, b_position) = color_positions(layout);
    FramebufferFormat { bytes_per_pixel, stride, r_position, g_position, b_position, a_position: None }
}

} // verus!
