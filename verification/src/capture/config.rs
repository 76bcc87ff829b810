//! Fixed parameters of the screen capture output.
use vstd::prelude::*;

verus! {

/// File name of the encoded video.
pub const CAPTURE_FILE: &'static str = "capture.mp4";
/// Width in pixels of every encoded frame.
pub const OUTPUT_WIDTH: u32 = 640;
/// Height in pixels of every encoded frame.
pub const OUTPUT_HEIGHT: u32 = 360;
/// Frames per second written to the video.
pub const TARGET_FPS: u32 = 10;
/// Length of one output frame in 100 ns units.
pub const FRAME_DURATION_100NS: i64 = 1_000_000;
/// Average bit rate requested from the encoder.
pub const VIDEO_BITRATE: u32 = 1_000_000;
/// Bytes per BGRA pixel.
pub const BYTES_PER_PIXEL_BGRA: usize = 4;
/// Frames buffered by the capture frame pool.
pub const CAPTURE_BUFFER_COUNT: i32 = 2;
/// Byte length of one output frame.
pub const OUTPUT_FRAME_LEN: usize = 921_600;

} // verus!
