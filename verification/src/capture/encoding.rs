//! Values handed to the video encoder.
use vstd::prelude::*;
use super::config::{FRAME_DURATION_100NS, OUTPUT_FRAME_LEN};

verus! {

/// Two 32-bit values packed into one attribute value, `high` in the upper half.
pub fn pack_ratio(high: u32, low: u32) -> (r: u64)
    ensures
        r == high as int * 0x1_0000_0000 + low as int,
{
    (high as u64) * 0x1_0000_0000 + (low as u64)
}

/// The presentation time of output frame `frame_index`, in 100 ns units.
pub fn sample_time_100ns(frame_index: u64) -> (r: i64)
    requires
        frame_index * FRAME_DURATION_100NS <= i64::MAX,
    ensures
        r == frame_index * FRAME_DURATION_100NS,
{
    (frame_index as i64) * FRAME_DURATION_100NS
}

/// Whether a buffer has the byte length of one output frame.
pub fn is_output_frame_len(len: usize) -> (r: bool)
    ensures
        r == (len == OUTPUT_FRAME_LEN),
{
    len == OUTPUT_FRAME_LEN
}

} // verus!
