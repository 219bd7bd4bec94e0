//! Description of the pixel framebuffer that the bootloader hands over.

use vstd::prelude::*;

verus! {

/// Largest width, height or stride, in pixels, that the console accepts.
pub const MAX_DIMENSION: usize = 0xFFFF;

/// Order of the colour channels in a pixel.
#[derive(Debug, Clone, Copy)]
pub enum PixelFormat {
    RGB,
    BGR,
    U8,
}

/// Geometry and location of the framebuffer. `stride` is the number of pixels
/// from the start of one row to the start of the next.
#[derive(Debug, Clone, Copy)]
pub struct FrameBufferInfo {
    pub buffer_base: u64,
    pub buffer_size: usize,
    pub width: usize,
    pub height: usize,
    pub stride: usize,
    pub format: PixelFormat,
}

impl FrameBufferInfo {
    /// Every row fits in its stride and no dimension exceeds
    /// `MAX_DIMENSION`.
    pub open spec fn valid(self) -> bool {
        self.width <= self.stride && self.stride <= MAX_DIMENSION && self.height
            <= MAX_DIMENSION
    }

    /// Tells whether the geometry is one the console can draw on.
    pub fn is_valid(&self) -> (r: bool)
        ensures
            r == self.valid(),
    {
        self.width <= self.stride && self.stride <= MAX_DIMENSION && self.height <= MAX_DIMENSION
    }

    /// Number of pixels in the buffer, row padding included.
    pub open spec fn pixel_count(self) -> int {
        self.height * self.stride
    }
}

/// What the bootloader tells the kernel at handoff.
#[derive(Debug, Clone, Copy)]
pub struct BootInfo {
    pub memory_map_addr: u64,
    pub memory_map_len: u64,
    pub memory_map_desc_size: u64,
    pub hhdm_offset: u64,
    pub max_phys_memory: u64,
    pub framebuffer: FrameBufferInfo,
}

} // verus!
