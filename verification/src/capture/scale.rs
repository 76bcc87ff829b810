//! Nearest-neighbour scaling of a bottom-up BGRA frame into the fixed
//! 640x360 top-down output frame, letterboxed with black.
use vstd::prelude::*;
use super::config::{BYTES_PER_PIXEL_BGRA, OUTPUT_FRAME_LEN, OUTPUT_HEIGHT, OUTPUT_WIDTH};
use super::layout::{OutputLayout, fit_to_360p, spec_fit_to_360p};

verus! {

/// Scales captured frames on the CPU.
pub struct CpuBgraScaler;

/// The source row that output row `dst_y` of a box `mapped_height` rows tall
/// shows: rows are read bottom-up.
pub open spec fn spec_src_row(dst_y: int, mapped_height: int, src_height: int) -> int {
    src_height - 1 - dst_y * src_height / mapped_height
}

/// Byte `i` of the output frame for the given source.
///
/// Output pixel `p = i / 4` lies at column `p % 640` and row `p / 640`.
/// Outside the content box it is black. Inside, at offset `(x, y)` in the
/// box, it copies channel `i % 4` of source pixel
/// `(x * src_width / box_width, spec_src_row(y, box_height, src_height))`,
/// whose first byte is at `row * src_row_pitch + column * 4`, when that
/// pixel's four bytes lie inside `src`; otherwise it is black.
pub open spec fn spec_scaled_byte(
    src: Seq<u8>,
    src_width: u32,
    src_height: u32,
    src_row_pitch: usize,
    i: int,
) -> u8 {
    if src_width == 0 || src_height == 0 {
        0
    } else {
        let layout = spec_fit_to_360p(src_width, src_height);
        let pixel = i / 4;
        let channel = i % 4;
        let dx = pixel % 640;
        let dy = pixel / 640;
        if layout.x <= dx < layout.x + layout.width && layout.y <= dy < layout.y + layout.height {
            let x = dx - layout.x;
            let y = dy - layout.y;
            let src_x = x * src_width / layout.width as int;
            let src_y = spec_src_row(y, layout.height as int, src_height as int);
            let src_index = src_y * src_row_pitch + src_x * 4;
            if src_index + 4 <= src.len() {
                src[src_index + channel]
            } else {
                0
            }
        } else {
            0
        }
    }
}

/// The source row shown by output row `dst_y` (see `spec_src_row`).
pub fn map_src_y(dst_y: u32, mapped_height: u32, src_height: u32) -> (r: usize)
    requires
        dst_y < mapped_height,
        src_height > 0,
    ensures
        r == spec_src_row(dst_y as int, mapped_height as int, src_height as int),
        r < src_height,
{
    proof {
        assert((dst_y as int) * (src_height as int) / (mapped_height as int) < src_height) by (nonlinear_arith)
            requires
                dst_y < mapped_height,
                src_height > 0,
                0 <= dst_y,
        {
            vstd::arithmetic::div_mod::lemma_div_by_multiple_is_strongly_ordered(
                dst_y as int * src_height as int,
                mapped_height as int * src_height as int,
                mapped_height as int,
                src_height as int,
            );
        }
        assert((dst_y as u64) * (src_height as u64) <= 0xffff_ffffu64 * 0xffff_ffffu64) by (nonlinear_arith)
            requires
                dst_y <= 0xffff_ffffu32,
                src_height <= 0xffff_ffffu32,
        ;
    }
    let normalized: u64 = (dst_y as u64) * (src_height as u64) / (mapped_height as u64);
    (src_height as usize) - 1 - (normalized as usize)
}

proof fn lemma_index_split(dy: int, dx: int, c: int)
    requires
        0 <= dy,
        0 <= dx < 640,
        0 <= c < 4,
    ensures
        ((dy * 640 + dx) * 4 + c) / 4 == dy * 640 + dx,
        ((dy * 640 + dx) * 4 + c) % 4 == c,
        (dy * 640 + dx) % 640 == dx,
        (dy * 640 + dx) / 640 == dy,
{
    vstd::arithmetic::div_mod::lemma_fundamental_div_mod_converse(
        (dy * 640 + dx) * 4 + c,
        4,
        dy * 640 + dx,
        c,
    );
    vstd::arithmetic::div_mod::lemma_fundamental_div_mod_converse(dy * 640 + dx, 640, dy, dx);
}

proof fn lemma_src_column_bound(x: int, src_width: int, width: int)
    requires
        0 <= x < width,
        src_width > 0,
    ensures
        0 <= x * src_width / width < src_width,
{
    assert(0 <= x * src_width / width < src_width) by (nonlinear_arith)
        requires
            0 <= x < width,
            src_width > 0,
    {
        vstd::arithmetic::div_mod::lemma_div_by_multiple_is_strongly_ordered(
            x * src_width,
            width * src_width,
            width,
            src_width,
        );
        vstd::arithmetic::div_mod::lemma_div_pos_is_pos(x * src_width, width);
    }
}

impl CpuBgraScaler {
    /// The 640x360 BGRA output frame for a source frame (see `spec_scaled_byte`).
    pub fn scale_to_output(
        &self,
        src: &[u8],
        src_width: u32,
        src_height: u32,
        src_row_pitch: usize,
    ) -> (dst: Vec<u8>)
        ensures
            dst.len() == OUTPUT_FRAME_LEN,
            forall|i: int|
                0 <= i < OUTPUT_FRAME_LEN ==> #[trigger] dst@[i] == spec_scaled_byte(
                    src@,
                    src_width,
                    src_height,
                    src_row_pitch,
                    i,
                ),
    {
        if src_width == 0 || src_height == 0 {
            let dst: Vec<u8> = vec![0u8; OUTPUT_FRAME_LEN];
            return dst;
        }
        let layout: OutputLayout = fit_to_360p(src_width, src_height);
        let mut dst: Vec<u8> = Vec::new();
        let mut dy: u32 = 0;
        while dy < OUTPUT_HEIGHT
            invariant
                layout == spec_fit_to_360p(src_width, src_height),
                src_width > 0,
                src_height > 0,
                1 <= layout.width <= 640,
                1 <= layout.height <= 360,
                layout.x + layout.width <= 640,
                layout.y + layout.height <= 360,
                dy <= 360,
                dst.len() == dy * 2560,
                forall|i: int|
                    0 <= i < dst.len() ==> #[trigger] dst@[i] == spec_scaled_byte(
                        src@,
                        src_width,
                        src_height,
                        src_row_pitch,
                        i,
                    ),
            decreases 360 - dy,
        {
            let mut dx: u32 = 0;
            while dx < OUTPUT_WIDTH
                invariant
                    layout == spec_fit_to_360p(src_width, src_height),
                    src_width > 0,
                    src_height > 0,
                    1 <= layout.width <= 640,
                    1 <= layout.height <= 360,
                    layout.x + layout.width <= 640,
                    layout.y + layout.height <= 360,
                    dy < 360,
                    dx <= 640,
                    dst.len() == dy * 2560 + dx * 4,
                    forall|i: int|
                        0 <= i < dst.len() ==> #[trigger] dst@[i] == spec_scaled_byte(
                            src@,
                            src_width,
                            src_height,
                            src_row_pitch,
                            i,
                        ),
                decreases 640 - dx,
            {
                let inside = layout.x <= dx && dx < layout.x + layout.width && layout.y <= dy
                    && dy < layout.y + layout.height;
                let mut src_start: u128 = 0;
                let mut copy = false;
                if inside {
                    let x = dx - layout.x;
                    let y = dy - layout.y;
                    let src_y = map_src_y(y, layout.height, src_height);
                    proof {
                        assert((x as u64) * (src_width as u64) <= 640u64 * 0xffff_ffffu64) by (nonlinear_arith)
                            requires
                                x < 640,
                                src_width <= 0xffff_ffffu32,
                        ;
                    }
                    let src_x: u64 = (x as u64) * (src_width as u64) / (layout.width as u64);
                    proof {
                        lemma_src_column_bound(x as int, src_width as int, layout.width as int);
                        assert((src_y as int) * (src_row_pitch as int) <= 0xffff_ffff_ffff_ffffu64 * 0xffff_ffff_ffff_ffffu64) by (nonlinear_arith)
                            requires
                                0 <= src_y <= 0xffff_ffff_ffff_ffffu64,
                                0 <= src_row_pitch <= 0xffff_ffff_ffff_ffffu64,
                        ;
                    }
                    src_start = (src_y as u128) * (src_row_pitch as u128) + (src_x as u128) * 4;
                    copy = src_start + 4 <= src.len() as u128;
                }
                let mut c: usize = 0;
                while c < BYTES_PER_PIXEL_BGRA
                    invariant
                        layout == spec_fit_to_360p(src_width, src_height),
                        src_width > 0,
                        src_height > 0,
                        dy < 360,
                        dx < 640,
                        c <= 4,
                        dst.len() == dy * 2560 + dx * 4 + c,
                        inside == (layout.x <= dx && dx < layout.x + layout.width && layout.y <= dy
                            && dy < layout.y + layout.height),
                        inside ==> src_start == spec_src_row(
                            (dy - layout.y) as int,
                            layout.height as int,
                            src_height as int,
                        ) * src_row_pitch + ((dx - layout.x) * src_width / layout.width as int) * 4,
                        copy == (inside && src_start + 4 <= src.len()),
                        forall|i: int|
                            0 <= i < dst.len() ==> #[trigger] dst@[i] == spec_scaled_byte(
                                src@,
                                src_width,
                                src_height,
                                src_row_pitch,
                                i,
                            ),
                    decreases 4 - c,
                {
                    let value: u8 = if copy {
                        src[(src_start as usize) + c]
                    } else {
                        0
                    };
                    proof {
                        lemma_index_split(dy as int, dx as int, c as int);
                        assert((dy as int * 640 + dx as int) * 4 + c as int == dst.len());
                        assert(value == spec_scaled_byte(
                            src@,
                            src_width,
                            src_height,
                            src_row_pitch,
                            dst.len() as int,
                        ));
                    }
                    dst.push(value);
                    c = c + 1;
                }
                dx = dx + 1;
            }
            dy = dy + 1;
        }
        dst
    }
}

} // verus!
