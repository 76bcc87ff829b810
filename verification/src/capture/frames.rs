//! What to do with a frame the capture pool hands over, by its content size.
use vstd::prelude::*;

verus! {

/// The handling of one captured frame.
#[derive(Debug, Clone, Copy, PartialEq, Eq, Structural)]
pub enum FrameStep {
    /// The frame has no content: skip it.
    Skip,
    /// The content changed size: recreate the pool at `width` x `height` and skip the frame.
    Recreate { width: i32, height: i32 },
    /// Read the frame.
    Use,
}

/// Whether a size has content in both directions.
pub open spec fn spec_has_area(width: i32, height: i32) -> bool {
    width > 0 && height > 0
}

/// A frame without area is skipped; one whose size differs from the pool's
/// makes the pool be recreated at that size; any other is read.
pub open spec fn spec_frame_step(width: i32, height: i32, pool_width: i32, pool_height: i32) -> FrameStep {
    if !spec_has_area(width, height) {
        FrameStep::Skip
    } else if width != pool_width || height != pool_height {
        FrameStep::Recreate { width, height }
    } else {
        FrameStep::Use
    }
}

/// Whether a window of this size can be captured.
pub fn has_area(width: i32, height: i32) -> (r: bool)
    ensures
        r == spec_has_area(width, height),
{
    width > 0 && height > 0
}

/// The handling of a frame of content size `width` x `height` from a pool of
/// size `pool_width` x `pool_height` (see `spec_frame_step`).
pub fn frame_step(width: i32, height: i32, pool_width: i32, pool_height: i32) -> (r: FrameStep)
    ensures
        r == spec_frame_step(width, height, pool_width, pool_height),
{
    if !has_area(width, height) {
        FrameStep::Skip
    } else if width != pool_width || height != pool_height {
        FrameStep::Recreate { width, height }
    } else {
        FrameStep::Use
    }
}

/// A frame is read only when its size is exactly the pool's, in both
/// dimensions; a frame with content of any other size makes the pool be
/// recreated at the frame's own size; a frame without content is skipped.
pub proof fn law_pool_follows_content_size(width: i32, height: i32, pool_width: i32, pool_height: i32)
    ensures
        (spec_frame_step(width, height, pool_width, pool_height) == FrameStep::Use) == (width > 0
            && height > 0 && width == pool_width && height == pool_height),
        width > 0 && height > 0 && (width != pool_width || height != pool_height) ==> spec_frame_step(
            width,
            height,
            pool_width,
            pool_height,
        ) == (FrameStep::Recreate { width, height }),
        width <= 0 || height <= 0 ==> spec_frame_step(width, height, pool_width, pool_height)
            == FrameStep::Skip,
        spec_frame_step(width, height, pool_width, pool_height) matches FrameStep::Recreate {
            width: w,
            height: h,
        } ==> w == width && h == height && w > 0 && h > 0,
{
}

} // verus!
