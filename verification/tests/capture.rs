use operation_logger::capture::config::{
    BYTES_PER_PIXEL_BGRA, FRAME_DURATION_100NS, OUTPUT_FRAME_LEN, OUTPUT_HEIGHT, OUTPUT_WIDTH,
};
use operation_logger::capture::encoding::{is_output_frame_len, pack_ratio, sample_time_100ns};
use operation_logger::capture::frames::{frame_step, has_area, FrameStep};
use operation_logger::capture::layout::{fit_to_360p, OutputLayout};
use operation_logger::capture::metadata::{CaptureFrameMetadata, CaptureProgress};
use operation_logger::capture::scale::{map_src_y, CpuBgraScaler};
use operation_logger::capture::timing::{
    civil_from_days, filetime_to_i128, format_filetime_utc_millis, format_unix_millis_utc,
    qpc_ticks_to_100ns, CaptureTimeMapper, FrameDecimator, QpcError, FILETIME_UNIX_EPOCH_100NS,
};

#[test]
fn fit_to_360p_preserves_wide_aspect_ratio() {
    assert_eq!(
        fit_to_360p(1920, 1080),
        OutputLayout {
            x: 0,
            y: 0,
            width: 640,
            height: 360
        }
    );
}

#[test]
fn fit_to_360p_letterboxes_tall_content() {
    assert_eq!(
        fit_to_360p(1080, 1920),
        OutputLayout {
            x: 219,
            y: 0,
            width: 202,
            height: 360
        }
    );
}

#[test]
fn fit_to_360p_centers_square_content() {
    assert_eq!(
        fit_to_360p(1000, 1000),
        OutputLayout {
            x: 140,
            y: 0,
            width: 360,
            height: 360
        }
    );
}

#[test]
fn fit_to_360p_centers_ultra_wide_content_vertically() {
    assert_eq!(
        fit_to_360p(3200, 900),
        OutputLayout {
            x: 0,
            y: 90,
            width: 640,
            height: 180
        }
    );
    assert_eq!(
        fit_to_360p(0, 1080),
        OutputLayout {
            x: 0,
            y: 0,
            width: 640,
            height: 360
        }
    );
}

#[test]
fn fit_to_360p_keeps_a_pixel_for_extreme_aspect_ratios() {
    let layout = fit_to_360p(1, 100_000);
    assert_eq!(layout.width, 1);
    assert_eq!(layout.height, 360);
    assert_eq!(layout.x, 319);
}

#[test]
fn metadata_row_matches_capture_schema() {
    let metadata =
        CaptureFrameMetadata::new(3, 123456, "2026-04-12T19:05:44.116".to_string(), 1920, 1080);

    assert_eq!(
        metadata.to_csv_row(),
        "3,123456,2026-04-12T19:05:44.116,1920,1080"
    );
}

#[test]
fn metadata_rows_keep_content_size_per_frame() {
    let first =
        CaptureFrameMetadata::new(7, 1000, "2026-04-12T19:05:44.116".to_string(), 1280, 720);
    let resized =
        CaptureFrameMetadata::new(8, 2000, "2026-04-12T19:05:44.216".to_string(), 1920, 1080);

    assert_eq!(first.content_width, 1280);
    assert_eq!(first.content_height, 720);
    assert_eq!(resized.content_width, 1920);
    assert_eq!(resized.content_height, 1080);
}

#[test]
fn metadata_row_writes_negative_times() {
    let metadata = CaptureFrameMetadata::new(0, -42, "x".to_string(), 0, 0);
    assert_eq!(metadata.to_csv_row(), "0,-42,x,0,0");
}

#[test]
fn capture_progress_numbers_written_frames_only() {
    let mapper = CaptureTimeMapper::new(0, FILETIME_UNIX_EPOCH_100NS);
    let mut progress = CaptureProgress::new(mapper);

    let first = progress.accept_frame(0, 1920, 1080).expect("first frame is kept");
    assert_eq!(first.frame_index, 0);
    assert_eq!(first.utc_timestamp, "1970-01-01T00:00:00.000");

    assert!(progress.accept_frame(FRAME_DURATION_100NS / 2, 1920, 1080).is_none());

    let second = progress
        .accept_frame(FRAME_DURATION_100NS, 1280, 720)
        .expect("frame on the next slot is kept");
    assert_eq!(second.frame_index, 1);
    assert_eq!(second.system_relative_time, FRAME_DURATION_100NS);
    assert_eq!(second.utc_timestamp, "1970-01-01T00:00:00.100");
    assert_eq!(second.content_width, 1280);
    assert_eq!(second.content_height, 720);
}

#[test]
fn scaled_frame_keeps_output_size() {
    let src = vec![255u8; 4 * 4 * BYTES_PER_PIXEL_BGRA];
    let scaled = CpuBgraScaler.scale_to_output(&src, 4, 4, 4 * BYTES_PER_PIXEL_BGRA);
    assert_eq!(
        scaled.len(),
        (OUTPUT_WIDTH * OUTPUT_HEIGHT) as usize * BYTES_PER_PIXEL_BGRA
    );
}

#[test]
fn scale_handles_row_pitch_padding() {
    let src_row_pitch = 8 * BYTES_PER_PIXEL_BGRA;
    let src = vec![128u8; src_row_pitch * 4];
    let scaled = CpuBgraScaler.scale_to_output(&src, 4, 4, src_row_pitch);
    assert_eq!(
        scaled.len(),
        (OUTPUT_WIDTH * OUTPUT_HEIGHT) as usize * BYTES_PER_PIXEL_BGRA
    );
}

#[test]
fn scale_zero_source_dimensions_returns_black_frame() {
    let src = vec![255u8; BYTES_PER_PIXEL_BGRA];
    let scaled = CpuBgraScaler.scale_to_output(&src, 0, 0, BYTES_PER_PIXEL_BGRA);
    assert_eq!(
        scaled.len(),
        (OUTPUT_WIDTH * OUTPUT_HEIGHT) as usize * BYTES_PER_PIXEL_BGRA
    );
    assert!(scaled.iter().all(|value| *value == 0));
}

#[test]
fn scale_flips_bottom_up_source_to_top_down_output() {
    let src_width = 2;
    let src_height = 2;
    let src_row_pitch = src_width as usize * BYTES_PER_PIXEL_BGRA;

    // Bottom-up input rows:
    // row0 (memory first): bottom row => blue (B=200)
    // row1: top row => red (R=150)
    let src = vec![
        200, 0, 0, 255, 200, 0, 0, 255, 0, 0, 150, 255, 0, 0, 150, 255,
    ];
    let scaled = CpuBgraScaler.scale_to_output(&src, src_width, src_height, src_row_pitch);
    let layout = fit_to_360p(src_width, src_height);

    let top_left = ((layout.y as usize * OUTPUT_WIDTH as usize) + layout.x as usize)
        * BYTES_PER_PIXEL_BGRA;
    let bottom_left = (((layout.y + layout.height - 1) as usize * OUTPUT_WIDTH as usize)
        + layout.x as usize)
        * BYTES_PER_PIXEL_BGRA;

    assert_eq!(scaled[top_left], 0);
    assert_eq!(scaled[top_left + 2], 150);
    assert_eq!(scaled[bottom_left], 200);
    assert_eq!(scaled[bottom_left + 2], 0);
}

#[test]
fn scale_leaves_letterbox_black_and_reads_short_sources_as_black() {
    // A tall 1x2 source fills a centered column; the first pixel of every row is letterbox.
    let src = vec![9u8; 8];
    let scaled = CpuBgraScaler.scale_to_output(&src, 1, 2, 4);
    assert_eq!(scaled.len(), OUTPUT_FRAME_LEN);
    assert!(scaled[0..4].iter().all(|value| *value == 0));
    let layout = fit_to_360p(1, 2);
    let inside = (layout.y as usize * OUTPUT_WIDTH as usize + layout.x as usize) * BYTES_PER_PIXEL_BGRA;
    assert_eq!(scaled[inside], 9);

    // A source buffer shorter than its rows gives black where it ends.
    let short = vec![7u8; 4];
    let scaled = CpuBgraScaler.scale_to_output(&short, 1, 2, 4);
    let layout = fit_to_360p(1, 2);
    let top = (layout.y as usize * OUTPUT_WIDTH as usize + layout.x as usize) * BYTES_PER_PIXEL_BGRA;
    let bottom = ((layout.y + layout.height - 1) as usize * OUTPUT_WIDTH as usize
        + layout.x as usize)
        * BYTES_PER_PIXEL_BGRA;
    assert_eq!(scaled[top], 0);
    assert_eq!(scaled[bottom], 7);
}

#[test]
fn map_src_y_reads_rows_bottom_up() {
    assert_eq!(map_src_y(0, 360, 720), 719);
    assert_eq!(map_src_y(359, 360, 720), 1);
    assert_eq!(map_src_y(1, 2, 2), 0);
}

#[test]
fn format_unix_epoch_millis() {
    assert_eq!(format_unix_millis_utc(0), "1970-01-01T00:00:00.000");
}

#[test]
fn format_known_utc_millis() {
    assert_eq!(
        format_unix_millis_utc(86_401_234),
        "1970-01-02T00:00:01.234"
    );
}

#[test]
fn format_utc_millis_before_the_epoch_and_on_leap_days() {
    assert_eq!(format_unix_millis_utc(-1), "1969-12-31T23:59:59.999");
    assert_eq!(
        format_unix_millis_utc(951_782_400_000),
        "2000-02-29T00:00:00.000"
    );
    assert_eq!(
        format_unix_millis_utc(1_776_020_744_116),
        "2026-04-12T19:05:44.116"
    );
}

#[test]
fn civil_from_days_gives_calendar_dates() {
    assert_eq!(civil_from_days(0), (1970, 1, 1));
    assert_eq!(civil_from_days(-1), (1969, 12, 31));
    assert_eq!(civil_from_days(11_016), (2000, 2, 29));
    assert_eq!(civil_from_days(-719_468), (0, 3, 1));
    assert_eq!(civil_from_days(-719_469), (0, 2, 29));
    assert_eq!(civil_from_days(-719_834), (-1, 3, 1));
}

#[test]
fn format_utc_millis_pads_years_like_the_standard_formatter() {
    assert_eq!(
        format_unix_millis_utc(-719_469 * 86_400_000),
        "0000-02-29T00:00:00.000"
    );
    assert_eq!(
        format_unix_millis_utc(-719_834 * 86_400_000 + 1),
        format!("{:04}-03-01T00:00:00.001", -1)
    );
    assert_eq!(
        format_unix_millis_utc(253_402_300_799_999),
        "9999-12-31T23:59:59.999"
    );
    assert_eq!(
        format_unix_millis_utc(253_402_300_800_000),
        "10000-01-01T00:00:00.000"
    );
}

#[test]
fn format_filetime_counts_from_1601() {
    assert_eq!(
        format_filetime_utc_millis(FILETIME_UNIX_EPOCH_100NS + 12_345_678),
        "1970-01-01T00:00:01.234"
    );
    assert_eq!(
        format_filetime_utc_millis(FILETIME_UNIX_EPOCH_100NS - 1),
        "1969-12-31T23:59:59.999"
    );
}

#[test]
fn filetime_halves_join_into_one_value() {
    assert_eq!(filetime_to_i128(0, 0), 0);
    assert_eq!(filetime_to_i128(1, 2), 0x1_0000_0002);
    assert_eq!(
        filetime_to_i128(u32::MAX, u32::MAX),
        0xffff_ffff_ffff_ffff_i128
    );
}

#[test]
fn qpc_ticks_convert_to_100ns_units() {
    assert_eq!(qpc_ticks_to_100ns(3, 10_000_000), Ok(3));
    assert_eq!(qpc_ticks_to_100ns(1_000, 1_000), Ok(10_000_000));
    assert_eq!(qpc_ticks_to_100ns(-7, 2), Ok(-35_000_000));
    assert_eq!(qpc_ticks_to_100ns(5, 3), Ok(16_666_666));
    assert_eq!(qpc_ticks_to_100ns(1, 0), Err(QpcError::InvalidFrequency));
    assert_eq!(qpc_ticks_to_100ns(1, -5), Err(QpcError::InvalidFrequency));
    assert_eq!(
        qpc_ticks_to_100ns(i64::MAX, 1),
        Err(QpcError::ConversionOverflow)
    );
}

#[test]
fn reconstruct_utc_from_system_relative_delta() {
    let anchor = CaptureTimeMapper::new(1_000_000, FILETIME_UNIX_EPOCH_100NS + 5_000 * 10_000);

    assert_eq!(
        anchor.utc_timestamp_for_system_relative(1_000_000 + 20_000),
        "1970-01-01T00:00:05.002"
    );
}

#[test]
fn reconstruct_utc_before_the_anchor() {
    let anchor = CaptureTimeMapper::new(1_000_000, FILETIME_UNIX_EPOCH_100NS + 5_000 * 10_000);
    assert_eq!(
        anchor.utc_timestamp_for_system_relative(1_000_000 - 10_000),
        "1970-01-01T00:00:04.999"
    );
}

#[test]
fn frame_decimator_emits_on_interval() {
    let mut decimator = FrameDecimator::new();

    assert!(decimator.should_emit(1_000));
    assert!(!decimator.should_emit(1_000 + FRAME_DURATION_100NS / 2));
    assert!(decimator.should_emit(1_000 + FRAME_DURATION_100NS));
    assert!(decimator.should_emit(1_000 + FRAME_DURATION_100NS * 2 + 50));
}

#[test]
fn frame_decimator_skips_missed_slots_without_bursting() {
    let mut decimator = FrameDecimator::new();
    assert!(decimator.should_emit(0));
    // A long gap: the frame after it is kept, and the next slot lies after it.
    assert!(decimator.should_emit(FRAME_DURATION_100NS * 5 + 10));
    assert!(!decimator.should_emit(FRAME_DURATION_100NS * 5 + 20));
    assert!(!decimator.should_emit(FRAME_DURATION_100NS * 6 - 1));
    assert!(decimator.should_emit(FRAME_DURATION_100NS * 6));
}

#[test]
fn encoder_values() {
    assert_eq!(pack_ratio(640, 360), (640u64 << 32) | 360);
    assert_eq!(pack_ratio(10, 1), 42_949_672_961);
    assert_eq!(sample_time_100ns(0), 0);
    assert_eq!(sample_time_100ns(3), 3 * FRAME_DURATION_100NS);
    assert!(is_output_frame_len(OUTPUT_FRAME_LEN));
    assert!(!is_output_frame_len(OUTPUT_FRAME_LEN - 1));
    assert_eq!(
        OUTPUT_FRAME_LEN,
        (OUTPUT_WIDTH * OUTPUT_HEIGHT) as usize * BYTES_PER_PIXEL_BGRA
    );
}

#[test]
fn frame_decimator_keeps_frames_on_the_grid_of_the_first_frame() {
    let mut decimator = FrameDecimator::new();
    assert!(decimator.should_emit(0));
    assert!(decimator.should_emit(1_500_000));
    assert!(decimator.should_emit(2_000_000));
    assert!(!decimator.should_emit(2_999_999));
    assert!(decimator.should_emit(3_000_000));
}

#[test]
fn frame_steps_by_content_size() {
    assert_eq!(frame_step(0, 720, 1280, 720), FrameStep::Skip);
    assert_eq!(frame_step(1280, -1, 1280, 720), FrameStep::Skip);
    assert_eq!(frame_step(1280, 720, 1280, 720), FrameStep::Use);
    assert_eq!(
        frame_step(1920, 1080, 1280, 720),
        FrameStep::Recreate {
            width: 1920,
            height: 1080
        }
    );
    assert_eq!(
        frame_step(1280, 721, 1280, 720),
        FrameStep::Recreate {
            width: 1280,
            height: 721
        }
    );
    assert!(has_area(1, 1));
    assert!(!has_area(0, 1));
    assert!(!has_area(5, 0));
}
