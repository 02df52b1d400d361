//! The framebuffer: where a pixel lies in it and which bytes make it up.

use vstd::prelude::*;

verus! {

/// The order of the colour bytes of a pixel.
#[derive(Debug, Clone, Copy, PartialEq, Eq, Structural)]
pub enum PixelFormat {
    /// Red, green, blue, and a byte that is not used.
    Rgb,
    /// Blue, green, red, and a byte that is not used.
    Bgr,
    /// The colours lie where bit masks say.
    Bitmask,
    /// The framebuffer cannot be written to directly.
    BltOnly,
}

/// A graphics mode: the size of the picture, the number of pixels from one
/// line to the next, and the format of a pixel.
#[derive(Debug, Clone, Copy, PartialEq, Eq, Structural)]
pub struct ModeInfo {
    pub width: usize,
    pub height: usize,
    pub stride: usize,
    pub format: PixelFormat,
}

/// A colour.
#[derive(Debug, Clone, Copy, PartialEq, Eq, Structural)]
pub struct Color {
    pub r: u8,
    pub g: u8,
    pub b: u8,
}

/// The four bytes of a pixel of the colour `color` in the format `format`.
pub open spec fn pixel_bytes(format: PixelFormat, color: Color) -> Seq<u8> {
    match format {
        PixelFormat::Bgr => seq![color.b, color.g, color.r, 0u8],
        _ => seq![color.r, color.g, color.b, 0u8],
    }
}

/// The geometry of the framebuffer.
#[derive(Debug, Clone, Copy, PartialEq, Eq, Structural)]
pub struct FrameBuffer {
    pub mode_info: ModeInfo,
}

impl FrameBuffer {
    /// Where the pixel at column `x` of line `y` starts in the framebuffer.
    pub open spec fn pixel_at(&self, x: int, y: int) -> int {
        (y * self.mode_info.stride + x) * 4
    }

    /// The number of bytes of the framebuffer.
    pub open spec fn spec_len(&self) -> int {
        self.mode_info.height * self.mode_info.stride * 4
    }

    /// The framebuffer of the mode `mode_info`.
    pub fn new(mode_info: ModeInfo) -> (fb: FrameBuffer)
        ensures
            fb.mode_info == mode_info,
    {
        FrameBuffer { mode_info }
    }

    /// The number of bytes of the framebuffer: four for each pixel of each line.
    pub fn len(&self) -> (n: usize)
        requires
            self.spec_len() <= usize::MAX,
        ensures
            n == self.spec_len(),
    {
        assert(self.mode_info.height * self.mode_info.stride <= self.spec_len()) by (nonlinear_arith)
            requires
                self.spec_len() == self.mode_info.height * self.mode_info.stride * 4,
                self.mode_info.height >= 0,
                self.mode_info.stride >= 0,
        ;
        self.mode_info.height * self.mode_info.stride * 4
    }

    /// Whether the picture has a pixel at column `x` of line `y`.
    pub fn contains(&self, x: i32, y: i32) -> (b: bool)
        ensures
            b == (0 <= x < self.mode_info.width && 0 <= y < self.mode_info.height),
    {
        x >= 0 && y >= 0 && (x as u32 as usize) < self.mode_info.width && (y as u32 as usize)
            < self.mode_info.height
    }

    /// Gives the pixel at column `x` of line `y` the colour `color`: writes
    /// its four bytes into `bytes`, the memory of the framebuffer.
    pub fn set_pixel(&self, bytes: &mut [u8], x: usize, y: usize, color: Color)
        requires
            self.mode_info.format == PixelFormat::Rgb || self.mode_info.format == PixelFormat::Bgr,
            self.pixel_at(x as int, y as int) + 4 <= old(bytes)@.len(),
        ensures
            final(bytes)@.len() == old(bytes)@.len(),
            final(bytes)@.subrange(
                self.pixel_at(x as int, y as int),
                self.pixel_at(x as int, y as int) + 4,
            ) == pixel_bytes(self.mode_info.format, color),
            forall|i: int|
                0 <= i < old(bytes)@.len() && !(self.pixel_at(x as int, y as int) <= i
                    < self.pixel_at(x as int, y as int) + 4) ==> final(bytes)@[i] == old(bytes)@[i],
    {
        assert(bytes@.len() == bytes.len());
        assert(y * self.mode_info.stride >= 0) by (nonlinear_arith)
            requires
                y >= 0,
                self.mode_info.stride >= 0,
        ;
        let index: usize = y * self.mode_info.stride + x;
        let byte: usize = index * 4;
        match self.mode_info.format {
            PixelFormat::Bgr => {
                bytes[byte] = color.b;
                bytes[byte + 1] = color.g;
                bytes[byte + 2] = color.r;
                bytes[byte + 3] = 0;
            },
            _ => {
                bytes[byte] = color.r;
                bytes[byte + 1] = color.g;
                bytes[byte + 2] = color.b;
                bytes[byte + 3] = 0;
            },
        }
    }
}

} // verus!
