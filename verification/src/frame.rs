//! Decoded audio and video as the drivers take it.

use vstd::prelude::*;

verus! {

/// Audio sample format. The variants that end in `P` are planar, one plane
/// for each channel; the others interleave the channels in one plane.
/// Multi-byte samples are little-endian.
#[derive(Clone, Copy, Debug, PartialEq, Eq, Structural)]
pub enum SampleFormat {
    U8,
    S8,
    S16,
    S24,
    S32,
    F32,
    F64,
    U8P,
    S16P,
    S32P,
    F32P,
    F64P,
}

/// Uncompressed audio.
#[derive(Debug)]
pub struct AudioFrame {
    pub format: SampleFormat,
    pub channels: u16,
    pub sample_rate: u32,
    /// Number of samples per channel.
    pub samples: u32,
    /// Raw sample bytes, one element for each plane.
    pub data: Vec<Vec<u8>>,
}

/// Video pixel format.
#[derive(Clone, Copy, Debug, PartialEq, Eq, Structural)]
pub enum PixelFormat {
    Yuv420P,
    Yuv422P,
    Yuv444P,
    Rgb24,
    Rgba,
    Gray8,
}

/// One plane of a picture.
#[derive(Debug)]
pub struct VideoPlane {
    /// Bytes from the start of one row to the start of the next.
    pub stride: usize,
    pub data: Vec<u8>,
}

/// Uncompressed video.
#[derive(Debug)]
pub struct VideoFrame {
    pub format: PixelFormat,
    pub width: u32,
    pub height: u32,
    pub planes: Vec<VideoPlane>,
}

} // verus!
