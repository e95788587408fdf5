//! Pixel rectangles and frames of image data.

use std::sync::Arc;

use vstd::prelude::*;

verus! {

/// Pixel rectangle (screen coordinates or a region of interest).
#[derive(Debug, Clone, Copy, PartialEq, Eq, Hash, Structural)]
pub struct Rect {
    pub x: i32,
    pub y: i32,
    pub width: u32,
    pub height: u32,
}

impl Rect {
    pub fn new(x: i32, y: i32, width: u32, height: u32) -> (r: Rect)
        ensures
            r == (Rect { x, y, width, height }),
    {
        Rect { x, y, width, height }
    }
}

#[derive(Debug, Clone, Copy, PartialEq, Eq, Structural)]
pub enum PixelFormat {
    Bgra8,
    Bgr8,
    Rgb8,
    Gray8,
}

/// Bytes per pixel of a format.
pub open spec fn channels_of(f: PixelFormat) -> int {
    match f {
        PixelFormat::Gray8 => 1,
        PixelFormat::Bgr8 => 3,
        PixelFormat::Rgb8 => 3,
        PixelFormat::Bgra8 => 4,
    }
}

/// One frame of image data, row after row, `stride` bytes per row.
#[derive(Debug, Clone)]
pub struct Frame {
    pub width: u32,
    pub height: u32,
    pub stride: u32,
    pub format: PixelFormat,
    pub data: Arc<Vec<u8>>,
}

} // verus!
