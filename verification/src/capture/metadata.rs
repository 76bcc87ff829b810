//! Per-frame rows of `capture_metadata.csv` and the bookkeeping that
//! decides which captured frames become output frames.
use vstd::prelude::*;
use super::timing::{
    CaptureTimeMapper, FrameDecimator, decimator_emits, decimator_next, decimator_time_ok,
    renderable_unix_millis,
    spec_filetime_unix_millis, spec_format_unix_millis,
};
use crate::text::{dec, dec_int, push_char, push_dec, push_dec_i64, push_str};

verus! {

/// File name of the per-frame metadata.
pub const CAPTURE_METADATA_FILE: &'static str = "capture_metadata.csv";
/// Header line of the per-frame metadata (with its line break).
pub const CAPTURE_METADATA_HEADER: &'static str = "frame_index,system_relative_time,utc_timestamp,content_width,content_height\n";

/// One written frame: its index, capture time, UTC time and content size.
#[derive(Debug, Clone)]
pub struct CaptureFrameMetadata {
    pub frame_index: u64,
    pub system_relative_time: i64,
    pub utc_timestamp: String,
    pub content_width: u32,
    pub content_height: u32,
}

/// `frame_index,system_relative_time,utc_timestamp,content_width,content_height`.
pub open spec fn spec_metadata_row(m: CaptureFrameMetadata) -> Seq<char> {
    dec(m.frame_index as nat) + ","@ + dec_int(m.system_relative_time as int) + ","@
        + m.utc_timestamp@ + ","@ + dec(m.content_width as nat) + ","@ + dec(
        m.content_height as nat,
    )
}

impl CaptureFrameMetadata {
    /// The metadata of one frame.
    pub fn new(
        frame_index: u64,
        system_relative_time: i64,
        utc_timestamp: String,
        content_width: u32,
        content_height: u32,
    ) -> (r: Self)
        ensures
            r.frame_index == frame_index,
            r.system_relative_time == system_relative_time,
            r.utc_timestamp == utc_timestamp,
            r.content_width == content_width,
            r.content_height == content_height,
    {
        CaptureFrameMetadata {
            frame_index,
            system_relative_time,
            utc_timestamp,
            content_width,
            content_height,
        }
    }

    /// The CSV row of the frame (without line break).
    pub fn to_csv_row(&self) -> (r: String)
        ensures
            r@ == spec_metadata_row(*self),
    {
        let mut s = String::new();
        push_dec(&mut s, self.frame_index);
        push_char(&mut s, ',');
        push_dec_i64(&mut s, self.system_relative_time);
        push_char(&mut s, ',');
        push_str(&mut s, self.utc_timestamp.as_str());
        push_char(&mut s, ',');
        push_dec(&mut s, self.content_width as u64);
        push_char(&mut s, ',');
        push_dec(&mut s, self.content_height as u64);
        proof {
            reveal_strlit(",");
            assert(s@ =~= spec_metadata_row(*self));
        }
        s
    }
}

/// The frame loop's state: which frames to keep and how many were written.
#[derive(Debug, Clone, Copy)]
pub struct CaptureProgress {
    time_mapper: CaptureTimeMapper,
    decimator: FrameDecimator,
    frame_index: u64,
}

impl CaptureProgress {
    /// A loop that has written no frame, with the clocks tied by `time_mapper`.
    pub fn new(time_mapper: CaptureTimeMapper) -> (r: Self)
        ensures
            r.frames_written() == 0,
            r.mapper() == time_mapper,
            r.decimator().next_emit_at() == None::<i64>,
    {
        CaptureProgress { time_mapper, decimator: FrameDecimator::new(), frame_index: 0 }
    }

    pub closed spec fn frames_written(&self) -> u64 {
        self.frame_index
    }

    pub closed spec fn mapper(&self) -> CaptureTimeMapper {
        self.time_mapper
    }

    pub closed spec fn decimator(&self) -> FrameDecimator {
        self.decimator
    }

    /// Whether `accept_frame` can take a frame captured at `system_relative_time`:
    /// the time is clear of the top of the `i64` range, the frame count can
    /// grow, and the frame's UTC time is rendered as a date.
    pub fn can_accept(&self, system_relative_time: i64) -> (r: bool)
        ensures
            r == (decimator_time_ok(system_relative_time) && self.frames_written() < u64::MAX
                && renderable_unix_millis(
                spec_filetime_unix_millis(self.mapper().spec_utc_filetime(system_relative_time)),
            )),
    {
        system_relative_time <= i64::MAX - super::config::FRAME_DURATION_100NS
            && self.frame_index < u64::MAX && self.time_mapper.renders(system_relative_time)
    }

    /// Decides whether a captured frame is written; for a written frame,
    /// returns its metadata, numbered by the frames written before it.
    pub fn accept_frame(
        &mut self,
        system_relative_time: i64,
        content_width: u32,
        content_height: u32,
    ) -> (r: Option<CaptureFrameMetadata>)
        requires
            decimator_time_ok(system_relative_time),
            old(self).frames_written() < u64::MAX,
            renderable_unix_millis(
                spec_filetime_unix_millis(old(self).mapper().spec_utc_filetime(system_relative_time)),
            ),
        ensures
            final(self).mapper() == old(self).mapper(),
            r.is_some() == decimator_emits(old(self).decimator().next_emit_at(), system_relative_time),
            final(self).decimator().next_emit_at() == decimator_next(
                old(self).decimator().next_emit_at(),
                system_relative_time,
            ),
            match r {
                None => final(self).frames_written() == old(self).frames_written()
                    && final(self).decimator() == old(self).decimator(),
                Some(m) => {
                    &&& final(self).frames_written() == old(self).frames_written() + 1
                    &&& m.frame_index == old(self).frames_written()
                    &&& m.system_relative_time == system_relative_time
                    &&& m.utc_timestamp@ == spec_format_unix_millis(
                        spec_filetime_unix_millis(old(self).mapper().spec_utc_filetime(system_relative_time)),
                    )
                    &&& m.content_width == content_width
                    &&& m.content_height == content_height
                },
            },
    {
        let mut decimator = self.decimator;
        let emit = decimator.should_emit(system_relative_time);
        if !emit {
            return None;
        }
        self.decimator = decimator;
        let utc = self.time_mapper.utc_timestamp_for_system_relative(system_relative_time);
        let m = CaptureFrameMetadata::new(
            self.frame_index,
            system_relative_time,
            utc,
            content_width,
            content_height,
        );
        self.frame_index = self.frame_index + 1;
        Some(m)
    }
}

} // verus!
