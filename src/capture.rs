//! Descriptions of captured screen and audio data that the session layer
//! carries without interpreting them.

use vstd::prelude::*;

verus! {

/// Pixel layout of a captured screen frame.
#[derive(Debug, Clone, Copy, PartialEq, Eq, Structural)]
pub enum ScreenFormat {
    Rgba8,
    Rgb8,
    Bgra8,
    Bgr8,
}

/// One captured screen image, as raw pixel bytes.
#[derive(Debug, Clone)]
pub struct ScreenFrame {
    pub data: Vec<u8>,
    pub width: u32,
    pub height: u32,
    pub format: ScreenFormat,
}

/// Trade-off between encoding speed and image quality.
#[derive(Debug, Clone, Copy, PartialEq, Eq, Structural)]
pub enum CaptureQuality {
    Low,
    Medium,
    High,
    Lossless,
}

impl CaptureQuality {
    /// Compression level (0 to 9) used when encoding at this quality.
    pub open spec fn spec_compression_level(self) -> u8 {
        match self {
            CaptureQuality::Low => 1,
            CaptureQuality::Medium => 6,
            CaptureQuality::High => 9,
            CaptureQuality::Lossless => 0,
        }
    }

    /// Target frames per second at this quality.
    pub open spec fn spec_frame_rate(self) -> u32 {
        match self {
            CaptureQuality::Low => 15,
            CaptureQuality::Medium => 30,
            CaptureQuality::High => 60,
            CaptureQuality::Lossless => 30,
        }
    }

    pub fn compression_level(&self) -> (r: u8)
        ensures
            r == self.spec_compression_level(),
            r <= 9,
    {
        match self {
            CaptureQuality::Low => 1,
            CaptureQuality::Medium => 6,
            CaptureQuality::High => 9,
            CaptureQuality::Lossless => 0,
        }
    }

    pub fn frame_rate(&self) -> (r: u32)
        ensures
            r == self.spec_frame_rate(),
    {
        match self {
            CaptureQuality::Low => 15,
            CaptureQuality::Medium => 30,
            CaptureQuality::High => 60,
            CaptureQuality::Lossless => 30,
        }
    }
}

/// Failures of the capture collaborators.
#[derive(Debug, Clone)]
pub enum CaptureError {
    AlreadyCapturing,
    NotCapturing,
    ScreenCaptureFailed(String),
    AudioCaptureFailed(String),
    CompressionFailed(String),
    InvalidFormat,
    SystemError(String),
    ScreenAccessError(String),
    NoScreensFound,
    CaptureFailure(String),
    EncodingError(String),
    TaskError(String),
    InvalidParameters,
}

/// Encoding of a captured audio frame.
#[derive(Debug, Clone, Copy, PartialEq, Eq, Structural)]
pub enum AudioFormat {
    Pcm,
    Mp3,
    Opus,
}

/// An audio endpoint of the host machine.
#[derive(Debug, Clone)]
pub struct AudioDevice {
    pub id: String,
    pub name: String,
    pub is_default: bool,
    pub is_input: bool,
    pub is_output: bool,
}

/// Failures of the audio collaborator.
#[derive(Debug, Clone)]
pub enum AudioError {
    AlreadyCapturing,
    DeviceError(String),
    NoDevicesFound,
    CaptureFailure(String),
    EncodingError(String),
    InvalidParameters,
    DeviceNotFound,
    PermissionDenied,
    NotInitialized,
}

/// Geometry of one display of the host machine.
#[derive(Debug, Clone)]
pub struct ScreenInfo {
    pub id: usize,
    pub name: String,
    pub width: u32,
    pub height: u32,
    pub x: i32,
    pub y: i32,
    pub is_primary: bool,
}

} // verus!
