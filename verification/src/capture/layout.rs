//! Placement of captured content inside the fixed 640x360 output frame.
use vstd::prelude::*;
use super::config::{OUTPUT_HEIGHT, OUTPUT_WIDTH};

verus! {

/// Where the scaled content lies in the output frame.
#[derive(Debug, Clone, Copy, PartialEq, Eq, Structural)]
pub struct OutputLayout {
    pub x: u32,
    pub y: u32,
    pub width: u32,
    pub height: u32,
}

/// The content box for a source of the given size: as wide as the frame if
/// the scaled height fits, else as tall as the frame, never thinner than one
/// pixel, and centred. An empty source fills the whole frame.
pub open spec fn spec_fit_to_360p(src_width: u32, src_height: u32) -> OutputLayout {
    if src_width == 0 || src_height == 0 {
        OutputLayout { x: 0, y: 0, width: 640, height: 360 }
    } else {
        let width_limited_height = 640 * src_height as int / src_width as int;
        let (width, height) = if width_limited_height <= 360 {
            (640int, if width_limited_height < 1 { 1int } else { width_limited_height })
        } else {
            let w = 360 * src_width as int / src_height as int;
            (if w < 1 { 1int } else { w }, 360int)
        };
        OutputLayout {
            x: ((640 - width) / 2) as u32,
            y: ((360 - height) / 2) as u32,
            width: width as u32,
            height: height as u32,
        }
    }
}

proof fn lemma_height_limited_width_fits(w: int, h: int)
    requires
        w > 0,
        h > 0,
        640 * h / w > 360,
    ensures
        360 * w / h < 640,
{
    assert(640 * h >= 361 * w) by (nonlinear_arith)
        requires
            w > 0,
            640 * h / w > 360,
    {
        vstd::arithmetic::div_mod::lemma_fundamental_div_mod(640 * h, w);
        vstd::arithmetic::mul::lemma_mul_inequality(361, 640 * h / w, w);
    }
    assert(360 * w / h < 640) by (nonlinear_arith)
        requires
            h > 0,
            w > 0,
            640 * h >= 361 * w,
    {
        vstd::arithmetic::div_mod::lemma_fundamental_div_mod(360 * w, h);
    }
}

/// The content box of a source of the given size (see `spec_fit_to_360p`).
pub fn fit_to_360p(src_width: u32, src_height: u32) -> (r: OutputLayout)
    ensures
        r == spec_fit_to_360p(src_width, src_height),
        1 <= r.width <= OUTPUT_WIDTH,
        1 <= r.height <= OUTPUT_HEIGHT,
        r.width == OUTPUT_WIDTH || r.height == OUTPUT_HEIGHT,
        r.x + r.width <= OUTPUT_WIDTH,
        r.y + r.height <= OUTPUT_HEIGHT,
        r.x == (OUTPUT_WIDTH - r.width) / 2,
        r.y == (OUTPUT_HEIGHT - r.height) / 2,
{
    if src_width == 0 || src_height == 0 {
        return OutputLayout { x: 0, y: 0, width: OUTPUT_WIDTH, height: OUTPUT_HEIGHT };
    }
    let width_limited_height: u64 = 640u64 * (src_height as u64) / (src_width as u64);
    let width: u32;
    let height: u32;
    if width_limited_height <= OUTPUT_HEIGHT as u64 {
        width = OUTPUT_WIDTH;
        height = if width_limited_height < 1 { 1 } else { width_limited_height as u32 };
    } else {
        let w: u64 = 360u64 * (src_width as u64) / (src_height as u64);
        proof {
            lemma_height_limited_width_fits(src_width as int, src_height as int);
        }
        width = if w < 1 { 1 } else { w as u32 };
        height = OUTPUT_HEIGHT;
    }
    OutputLayout {
        x: (OUTPUT_WIDTH - width) / 2,
        y: (OUTPUT_HEIGHT - height) / 2,
        width,
        height,
    }
}

} // verus!
