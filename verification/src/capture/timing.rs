//! Capture clocks: mapping capture-relative times onto UTC, thinning frames
//! to the output rate, and rendering UTC instants as text.
use vstd::prelude::*;
use super::config::FRAME_DURATION_100NS;
use crate::text::{dec_padded, push_char, push_dec_padded, push_dec_padded_i64};

verus! {

/// 100 ns units in one second.
pub const HUNDRED_NS_PER_SECOND: i128 = 10_000_000;
/// The Unix epoch as a FILETIME (100 ns units since 1601-01-01).
pub const FILETIME_UNIX_EPOCH_100NS: i128 = 116_444_736_000_000_000;
/// Largest distance in days from the Unix epoch that is rendered as a date.
pub const MAX_RENDERED_DAYS: i64 = 549_755_813_888;

/// Ties the capture clock to UTC at one instant.
#[derive(Debug, Clone, Copy)]
pub struct CaptureTimeMapper {
    system_relative_anchor_100ns: i64,
    utc_anchor_filetime_100ns: i128,
}

/// Decides which captured frames are kept so that the output runs at the
/// target frame rate.
#[derive(Debug, Clone, Copy)]
pub struct FrameDecimator {
    next_emit_at_100ns: Option<i64>,
}

/// Why a performance counter reading could not be converted.
#[derive(Debug, Clone, Copy, PartialEq, Eq, Structural)]
pub enum QpcError {
    /// The counter frequency was zero or negative.
    InvalidFrequency,
    /// The converted time does not fit in an `i64`.
    ConversionOverflow,
}

// ---------------------------------------------------------------------------
// Calendar

/// The proleptic Gregorian date `(year, month, day)` of a day count from
/// 1970-01-01 (civil-from-days over 400-year eras of 146097 days, with
/// years that start in March).
pub open spec fn spec_civil_from_days(days: int) -> (int, int, int) {
    let z = days + 719468;
    let era = z / 146097;
    let doe = z - era * 146097;
    let yoe = (doe - doe / 1460 + doe / 36524 - doe / 146096) / 365;
    let y = yoe + era * 400;
    let doy = doe - (365 * yoe + yoe / 4 - yoe / 100);
    let mp = (5 * doy + 2) / 153;
    let day = doy - (153 * mp + 2) / 5 + 1;
    let month = if mp < 10 { mp + 3 } else { mp - 9 };
    let year = if month <= 2 { y + 1 } else { y };
    (year, month, day)
}

/// The day count from 1970-01-01 of a proleptic Gregorian date.
pub open spec fn spec_days_from_civil(year: int, month: int, day: int) -> int {
    let y = if month <= 2 { year - 1 } else { year };
    let era = y / 400;
    let yoe = y - era * 400;
    let mp = if month > 2 { month - 3 } else { month + 9 };
    let doy = (153 * mp + 2) / 5 + day - 1;
    let doe = yoe * 365 + yoe / 4 - yoe / 100 + doy;
    era * 146097 + doe - 719468
}

/// The date of a day count (see `spec_civil_from_days`).
pub fn civil_from_days(days_since_unix_epoch: i64) -> (r: (i32, u32, u32))
    requires
        -MAX_RENDERED_DAYS <= days_since_unix_epoch <= MAX_RENDERED_DAYS,
    ensures
        (r.0 as int, r.1 as int, r.2 as int) == spec_civil_from_days(days_since_unix_epoch as int),
        1 <= r.1 <= 12,
        1 <= r.2 <= 31,
{
    let z: i64 = days_since_unix_epoch + 719_468;
    let era: i64 = match z.checked_div_euclid(146_097) {
        Some(v) => v,
        None => 0,
    };
    let ghost zi = z as int;
    proof {
        assert(era == zi / 146097);
        vstd::arithmetic::div_mod::lemma_fundamental_div_mod(zi, 146097);
        assert(0 <= zi % 146097 < 146097);
    }
    let doe: i64 = z - era * 146_097;
    proof {
        assert(doe == zi % 146097);
    }
    let yoe: i64 = (doe - doe / 1_460 + doe / 36_524 - doe / 146_096) / 365;
    proof {
        assert(0 <= yoe <= 399) by {
            assert(doe / 1460 <= doe);
            assert(doe / 146096 <= 1);
            assert(doe / 36524 <= 4);
        }
    }
    let y: i64 = yoe + era * 400;
    let doy: i64 = doe - (365 * yoe + yoe / 4 - yoe / 100);
    proof {
        assert(0 <= doy <= 365) by (nonlinear_arith)
            requires
                0 <= doe < 146097,
                yoe == (doe - doe / 1460 + doe / 36524 - doe / 146096) / 365,
                doy == doe - (365 * yoe + yoe / 4 - yoe / 100),
        {
            lemma_day_of_year_range(doe as int);
        }
    }
    let mp: i64 = (5 * doy + 2) / 153;
    let day: i64 = doy - (153 * mp + 2) / 5 + 1;
    proof {
        lemma_month_day_range(doy as int);
    }
    let month: i64 = if mp < 10 { mp + 3 } else { mp - 9 };
    let year: i64 = if month <= 2 { y + 1 } else { y };
    (year as i32, month as u32, day as u32)
}

/// Day of era, year of era and day of year agree: the day of year lies in `0..=365`.
proof fn lemma_day_of_year_range(doe: int)
    requires
        0 <= doe < 146097,
    ensures
        ({
            let yoe = (doe - doe / 1460 + doe / 36524 - doe / 146096) / 365;
            let doy = doe - (365 * yoe + yoe / 4 - yoe / 100);
            0 <= doy <= 365
        }),
{
    let a = doe / 1460;
    let b = doe / 36524;
    let c = doe / 146096;
    vstd::arithmetic::div_mod::lemma_fundamental_div_mod(doe, 1460);
    vstd::arithmetic::div_mod::lemma_fundamental_div_mod(doe, 36524);
    vstd::arithmetic::div_mod::lemma_fundamental_div_mod(doe, 146096);
    let n = doe - a + b - c;
    let yoe = n / 365;
    vstd::arithmetic::div_mod::lemma_fundamental_div_mod(n, 365);
    let e = yoe / 4;
    let f = yoe / 100;
    vstd::arithmetic::div_mod::lemma_fundamental_div_mod(yoe, 4);
    vstd::arithmetic::div_mod::lemma_fundamental_div_mod(yoe, 100);
    assert(0 <= doe - (365 * yoe + e - f) <= 365) by (nonlinear_arith)
        requires
            0 <= doe < 146097,
            doe == 1460 * a + doe % 1460,
            0 <= doe % 1460 < 1460,
            doe == 36524 * b + doe % 36524,
            0 <= doe % 36524 < 36524,
            doe == 146096 * c + doe % 146096,
            0 <= doe % 146096 < 146096,
            n == doe - a + b - c,
            n == 365 * yoe + n % 365,
            0 <= n % 365 < 365,
            yoe == 4 * e + yoe % 4,
            0 <= yoe % 4 < 4,
            yoe == 100 * f + yoe % 100,
            0 <= yoe % 100 < 100,
    ;
}

proof fn lemma_month_day_range(doy: int)
    requires
        0 <= doy <= 365,
    ensures
        ({
            let mp = (5 * doy + 2) / 153;
            let day = doy - (153 * mp + 2) / 5 + 1;
            0 <= mp <= 11 && 1 <= day <= 31
        }),
{
    let mp = (5 * doy + 2) / 153;
    vstd::arithmetic::div_mod::lemma_fundamental_div_mod(5 * doy + 2, 153);
    let q = (153 * mp + 2) / 5;
    vstd::arithmetic::div_mod::lemma_fundamental_div_mod(153 * mp + 2, 5);
    assert(0 <= mp <= 11 && 1 <= doy - q + 1 <= 31) by (nonlinear_arith)
        requires
            0 <= doy <= 365,
            5 * doy + 2 == 153 * mp + (5 * doy + 2) % 153,
            0 <= (5 * doy + 2) % 153 < 153,
            153 * mp + 2 == 5 * q + (153 * mp + 2) % 5,
            0 <= (153 * mp + 2) % 5 < 5,
    ;
}

/// The date given to a day count names that very day: counting the days from
/// 1970-01-01 to it gives the day count back.
pub proof fn law_civil_date_counts_back_to_its_day(days: int)
    ensures
        ({
            let date = spec_civil_from_days(days);
            spec_days_from_civil(date.0, date.1, date.2) == days
        }),
{
    let z = days + 719468;
    let era = z / 146097;
    vstd::arithmetic::div_mod::lemma_fundamental_div_mod(z, 146097);
    let doe = z - era * 146097;
    assert(0 <= doe < 146097);
    let yoe = (doe - doe / 1460 + doe / 36524 - doe / 146096) / 365;
    assert(0 <= yoe <= 399) by {
        assert(doe / 1460 <= doe);
        assert(doe / 146096 <= 1);
        assert(doe / 36524 <= 4);
    }
    lemma_day_of_year_range(doe);
    let doy = doe - (365 * yoe + yoe / 4 - yoe / 100);
    lemma_month_day_range(doy);
    let y = yoe + era * 400;
    vstd::arithmetic::div_mod::lemma_fundamental_div_mod_converse(y, 400, era, yoe);
    assert(y / 400 == era);
}

// ---------------------------------------------------------------------------
// Text

proof fn lemma_nested_floor_div(m: int)
    ensures
        (m / 1000) / 86400 == m / 86_400_000,
{
    let q = m / 86_400_000;
    let r = m % 86_400_000;
    vstd::arithmetic::div_mod::lemma_fundamental_div_mod(m, 86_400_000);
    vstd::arithmetic::div_mod::lemma_fundamental_div_mod(r, 1000);
    vstd::arithmetic::div_mod::lemma_fundamental_div_mod_converse(
        m,
        1000,
        86400 * q + r / 1000,
        r % 1000,
    );
    assert(r / 1000 < 86400) by {
        vstd::arithmetic::div_mod::lemma_div_is_ordered(r, 86_399_999, 1000);
    }
    vstd::arithmetic::div_mod::lemma_fundamental_div_mod_converse(
        86400 * q + r / 1000,
        86400,
        q,
        r / 1000,
    );
}

/// `YYYY-MM-DDTHH:MM:SS.mmm` for a Unix time in milliseconds.
pub open spec fn spec_format_unix_millis(unix_millis: int) -> Seq<char> {
    let unix_seconds = unix_millis / 1000;
    let millis = unix_millis % 1000;
    let days = unix_seconds / 86400;
    let seconds_of_day = unix_seconds % 86400;
    let date = spec_civil_from_days(days);
    dec_padded(date.0, 4) + "-"@ + dec_padded(date.1, 2) + "-"@ + dec_padded(date.2, 2) + "T"@
        + dec_padded(seconds_of_day / 3600, 2) + ":"@ + dec_padded((seconds_of_day % 3600) / 60, 2)
        + ":"@ + dec_padded(seconds_of_day % 60, 2) + "."@ + dec_padded(millis, 3)
}

/// Whether a Unix time in milliseconds lies in the range that is rendered as a date.
pub open spec fn renderable_unix_millis(unix_millis: int) -> bool {
    -MAX_RENDERED_DAYS * 86_400_000 <= unix_millis < MAX_RENDERED_DAYS * 86_400_000
}

/// The Unix time in milliseconds of a FILETIME (rounded down).
pub open spec fn spec_filetime_unix_millis(filetime_100ns: int) -> int {
    (filetime_100ns - FILETIME_UNIX_EPOCH_100NS) / 10_000
}

/// `YYYY-MM-DDTHH:MM:SS.mmm` in UTC for a Unix time in milliseconds.
pub fn format_unix_millis_utc(unix_millis: i128) -> (s: String)
    requires
        renderable_unix_millis(unix_millis as int),
    ensures
        s@ == spec_format_unix_millis(unix_millis as int),
{
    let unix_seconds: i128 = match unix_millis.checked_div_euclid(1_000) {
        Some(v) => v,
        None => 0,
    };
    let millis: i128 = match unix_millis.checked_rem_euclid(1_000) {
        Some(v) => v,
        None => 0,
    };
    let days_wide: i128 = match unix_seconds.checked_div_euclid(86_400) {
        Some(v) => v,
        None => 0,
    };
    let seconds_of_day: i128 = match unix_seconds.checked_rem_euclid(86_400) {
        Some(v) => v,
        None => 0,
    };
    proof {
        let m = unix_millis as int;
        lemma_nested_floor_div(m);
        assert(days_wide == m / 86_400_000);
        assert(-MAX_RENDERED_DAYS <= m / 86_400_000 < MAX_RENDERED_DAYS) by {
            vstd::arithmetic::div_mod::lemma_div_is_ordered(
                -MAX_RENDERED_DAYS * 86_400_000,
                m,
                86_400_000,
            );
            vstd::arithmetic::div_mod::lemma_div_is_ordered(
                m,
                MAX_RENDERED_DAYS * 86_400_000 - 1,
                86_400_000,
            );
            vstd::arithmetic::div_mod::lemma_div_multiples_vanish(-MAX_RENDERED_DAYS, 86_400_000);
            vstd::arithmetic::div_mod::lemma_div_multiples_vanish_fancy(
                MAX_RENDERED_DAYS - 1,
                86_400_000 - 1,
                86_400_000,
            );
        }
    }
    let days: i64 = days_wide as i64;
    let seconds_of_day: u64 = seconds_of_day as u64;
    let millis: u64 = millis as u64;
    let hour: u64 = seconds_of_day / 3_600;
    let minute: u64 = (seconds_of_day % 3_600) / 60;
    let second: u64 = seconds_of_day % 60;
    let (year, month, day) = civil_from_days(days);
    let mut s = String::new();
    push_dec_padded_i64(&mut s, year as i64, 4);
    push_char(&mut s, '-');
    push_dec_padded(&mut s, month as u64, 2);
    push_char(&mut s, '-');
    push_dec_padded(&mut s, day as u64, 2);
    push_char(&mut s, 'T');
    push_dec_padded(&mut s, hour, 2);
    push_char(&mut s, ':');
    push_dec_padded(&mut s, minute, 2);
    push_char(&mut s, ':');
    push_dec_padded(&mut s, second, 2);
    push_char(&mut s, '.');
    push_dec_padded(&mut s, millis, 3);
    proof {
        reveal_strlit("-");
        reveal_strlit("T");
        reveal_strlit(":");
        reveal_strlit(".");
        assert(s@ =~= spec_format_unix_millis(unix_millis as int));
    }
    s
}

/// `YYYY-MM-DDTHH:MM:SS.mmm` in UTC for a FILETIME.
pub fn format_filetime_utc_millis(filetime_100ns: i128) -> (s: String)
    requires
        renderable_unix_millis(spec_filetime_unix_millis(filetime_100ns as int)),
    ensures
        s@ == spec_format_unix_millis(spec_filetime_unix_millis(filetime_100ns as int)),
{
    proof {
        assert(i128::MIN <= filetime_100ns - FILETIME_UNIX_EPOCH_100NS) by {
            vstd::arithmetic::div_mod::lemma_fundamental_div_mod(
                filetime_100ns - FILETIME_UNIX_EPOCH_100NS,
                10_000,
            );
        }
    }
    let since_epoch: i128 = filetime_100ns - FILETIME_UNIX_EPOCH_100NS;
    let unix_millis: i128 = match since_epoch.checked_div_euclid(10_000) {
        Some(v) => v,
        None => 0,
    };
    format_unix_millis_utc(unix_millis)
}

/// A FILETIME from its two 32-bit halves.
pub fn filetime_to_i128(high: u32, low: u32) -> (r: i128)
    ensures
        r == high as int * 0x1_0000_0000 + low as int,
{
    (high as i128) * 0x1_0000_0000 + (low as i128)
}

// ---------------------------------------------------------------------------
// Clocks

/// Rust's `/` on integers: the quotient rounded toward zero.
pub open spec fn trunc_div(a: int, b: int) -> int {
    if a >= 0 { a / b } else { -((-a) / b) }
}

/// A performance-counter reading in 100 ns units, rounded toward zero.
pub open spec fn spec_qpc_100ns(counter: i64, frequency: i64) -> int {
    trunc_div(counter * HUNDRED_NS_PER_SECOND, frequency as int)
}

/// Converts a performance-counter reading to 100 ns units: an error for a
/// non-positive frequency or a result outside `i64`.
pub fn qpc_ticks_to_100ns(counter: i64, frequency: i64) -> (r: Result<i64, QpcError>)
    ensures
        frequency <= 0 ==> r == Err::<i64, QpcError>(QpcError::InvalidFrequency),
        frequency > 0 && i64::MIN <= spec_qpc_100ns(counter, frequency) <= i64::MAX ==> r == Ok::<
            i64,
            QpcError,
        >(spec_qpc_100ns(counter, frequency) as i64),
        frequency > 0 && !(i64::MIN <= spec_qpc_100ns(counter, frequency) <= i64::MAX) ==> r
            == Err::<i64, QpcError>(QpcError::ConversionOverflow),
{
    if frequency <= 0 {
        return Err(QpcError::InvalidFrequency);
    }
    proof {
        assert((counter as int) * 10_000_000 <= 0x7fff_ffff_ffff_ffffint * 10_000_000) by (nonlinear_arith)
            requires
                counter <= 0x7fff_ffff_ffff_ffffint,
        ;
        assert((counter as int) * 10_000_000 >= -0x8000_0000_0000_0000int * 10_000_000) by (nonlinear_arith)
            requires
                counter >= -0x8000_0000_0000_0000int,
        ;
    }
    let scaled: i128 = (counter as i128) * HUNDRED_NS_PER_SECOND;
    let value: i128 = match scaled.checked_div(frequency as i128) {
        Some(v) => v,
        None => 0,
    };
    if value < i64::MIN as i128 || value > i64::MAX as i128 {
        Err(QpcError::ConversionOverflow)
    } else {
        Ok(value as i64)
    }
}

/// Whether a decimator whose next slot is `next` keeps a frame captured at
/// `t`: always the first frame, then frames at or past the slot.
pub open spec fn decimator_emits(next: Option<i64>, t: i64) -> bool {
    match next {
        None => true,
        Some(n) => t >= n,
    }
}

/// The next slot after a frame captured at `t`: one frame duration after the
/// first frame; unchanged for a dropped frame; otherwise moved forward by whole
/// frame durations to the first slot after `t`.
pub open spec fn decimator_next(next: Option<i64>, t: i64) -> Option<i64> {
    let d = FRAME_DURATION_100NS as int;
    match next {
        None => Some((t + d) as i64),
        Some(n) => if t < n {
            next
        } else {
            Some((n + d * ((t - n) / d + 1)) as i64)
        },
    }
}

/// The next slot of a decimator that was handed the frame times `ts` in order.
pub open spec fn decimator_after(ts: Seq<i64>) -> Option<i64>
    decreases ts.len(),
{
    if ts.len() == 0 {
        None
    } else {
        decimator_next(decimator_after(ts.drop_last()), ts.last())
    }
}

/// The `k`-th point of the frame grid that starts at `first`.
pub open spec fn grid_point(first: i64, k: int) -> int {
    first + FRAME_DURATION_100NS * k
}

/// Kept frames do not drift: whatever frame times a decimator is handed, its
/// next slot is always a point of the grid of whole frame durations that starts
/// at the first frame, and after a kept frame at `t` it is the first grid
/// point after `t`, at most one frame duration away.
pub proof fn law_decimator_slots_stay_on_grid(ts: Seq<i64>)
    requires
        ts.len() > 0,
        forall|i: int| 0 <= i < ts.len() ==> decimator_time_ok(#[trigger] ts[i]),
    ensures
        decimator_after(ts).is_some(),
        exists|k: int| k >= 1 && #[trigger] grid_point(ts[0], k) == decimator_after(ts).unwrap(),
        decimator_emits(decimator_after(ts.drop_last()), ts.last()) ==> ts.last()
            < decimator_after(ts).unwrap() <= ts.last() + FRAME_DURATION_100NS,
    decreases ts.len(),
{
    let d = FRAME_DURATION_100NS as int;
    let t = ts.last();
    assert(decimator_time_ok(ts[ts.len() - 1]));
    if ts.len() == 1 {
        assert(ts.drop_last().len() == 0);
        assert(decimator_after(ts) == Some((t + d) as i64));
        assert(ts[0] == t);
        assert(grid_point(ts[0], 1) == decimator_after(ts).unwrap());
    } else {
        let prefix = ts.drop_last();
        assert forall|i: int| 0 <= i < prefix.len() implies decimator_time_ok(#[trigger] prefix[i]) by {
            assert(prefix[i] == ts[i]);
        }
        law_decimator_slots_stay_on_grid(prefix);
        assert(prefix[0] == ts[0]);
        let n = decimator_after(prefix).unwrap();
        let k = choose|k: int| k >= 1 && #[trigger] grid_point(prefix[0], k) == n;
        if t < n {
            assert(decimator_after(ts) == decimator_after(prefix));
            assert(grid_point(ts[0], k) == decimator_after(ts).unwrap());
        } else {
            let q = (t - n) / d;
            vstd::arithmetic::div_mod::lemma_fundamental_div_mod(t - n, d);
            assert(0 <= q);
            assert(d * q <= t - n);
            let v = n + d * (q + 1);
            assert(n < v <= t + d);
            assert(decimator_after(ts) == Some(v as i64));
            assert(grid_point(ts[0], k + q + 1) == v);
        }
    }
}

/// Whether the decimator, handed the frame times `ts` in order, keeps frame `i`.
pub open spec fn kept_at(ts: Seq<i64>, i: int) -> bool {
    decimator_emits(decimator_after(ts.take(i)), ts[i])
}

/// The index of the latest frame before `i` that was kept, `-1` if none.
pub open spec fn last_kept(ts: Seq<i64>, i: int) -> int
    decreases i,
{
    if i <= 0 {
        -1
    } else if kept_at(ts, i - 1) {
        i - 1
    } else {
        last_kept(ts, i - 1)
    }
}

/// The slot a kept frame at `t` opens on the grid of the first frame `first`:
/// the first grid point after `t`.
pub open spec fn grid_slot_after(first: i64, t: i64) -> int {
    first + FRAME_DURATION_100NS * ((t - first) / (FRAME_DURATION_100NS as int) + 1)
}

/// Over a whole sequence of calls: the first frame is kept; after that, frame
/// `i` is kept exactly when its time reaches the first grid point (of the
/// grid of whole frame durations from the first frame) after the latest
/// kept frame before it. The decimator's slot is always that grid point, so
/// kept frames never drift off the first frame's grid.
pub proof fn law_decimator_sequence(ts: Seq<i64>, i: int)
    requires
        0 < i <= ts.len(),
        forall|j: int| 0 <= j < ts.len() ==> decimator_time_ok(#[trigger] ts[j]),
    ensures
        kept_at(ts, 0),
        0 <= last_kept(ts, i) < i,
        decimator_after(ts.take(i)).is_some(),
        decimator_after(ts.take(i)).unwrap() == grid_slot_after(ts[0], ts[last_kept(ts, i)]),
        i < ts.len() ==> (kept_at(ts, i) == (ts[i] >= grid_slot_after(ts[0], ts[last_kept(ts, i)]))),
    decreases i,
{
    let d = FRAME_DURATION_100NS as int;
    let t0 = ts[0];
    assert(ts.take(0) =~= Seq::<i64>::empty());
    assert(kept_at(ts, 0));
    let t = ts[i - 1];
    assert(decimator_time_ok(ts[i - 1]));
    assert(ts.take(i).drop_last() =~= ts.take(i - 1));
    assert(ts.take(i).last() == t);
    if i == 1 {
        assert(last_kept(ts, 1) == 0);
        assert(decimator_after(ts.take(1)) == Some((t0 + d) as i64));
        assert((t0 - t0) / d == 0);
        assert(grid_slot_after(t0, t0) == t0 + d);
    } else {
        law_decimator_sequence(ts, i - 1);
        let l = last_kept(ts, i - 1);
        let g = grid_slot_after(t0, ts[l]);
        assert(decimator_after(ts.take(i - 1)).unwrap() == g);
        if t < g {
            assert(!kept_at(ts, i - 1));
            assert(last_kept(ts, i) == l);
            assert(decimator_after(ts.take(i)) == decimator_after(ts.take(i - 1)));
        } else {
            assert(kept_at(ts, i - 1));
            assert(last_kept(ts, i) == i - 1);
            let m = (ts[l] - t0) / d + 1;
            assert(g == t0 + d * m);
            let q = (t - t0) / d;
            let r = (t - t0) % d;
            vstd::arithmetic::div_mod::lemma_fundamental_div_mod(t - t0, d);
            assert(t - g == d * (q - m) + r);
            vstd::arithmetic::div_mod::lemma_fundamental_div_mod_converse(t - g, d, q - m, r);
            assert((t - g) / d == q - m);
            let v = g + d * ((t - g) / d + 1);
            assert(v == t0 + d * (q + 1));
            vstd::arithmetic::div_mod::lemma_fundamental_div_mod(t - g, d);
            assert(g < v <= t + d);
            assert(decimator_after(ts.take(i)) == Some(v as i64));
            assert(grid_slot_after(t0, t) == v);
        }
    }
    if i < ts.len() {
        assert(decimator_after(ts.take(i)) == Some(decimator_after(ts.take(i)).unwrap()));
    }
}

/// Whether times near `t` stay clear of the top of the `i64` range.
pub open spec fn decimator_time_ok(t: i64) -> bool {
    t <= i64::MAX - FRAME_DURATION_100NS
}

impl CaptureTimeMapper {
    /// A mapper anchored at a capture-clock time and the UTC FILETIME of the same instant.
    pub fn new(system_relative_anchor_100ns: i64, utc_anchor_filetime_100ns: i128) -> (r: Self)
        ensures
            r.system_anchor() == system_relative_anchor_100ns,
            r.utc_anchor() == utc_anchor_filetime_100ns,
    {
        CaptureTimeMapper { system_relative_anchor_100ns, utc_anchor_filetime_100ns }
    }

    pub closed spec fn system_anchor(&self) -> i64 {
        self.system_relative_anchor_100ns
    }

    pub closed spec fn utc_anchor(&self) -> i128 {
        self.utc_anchor_filetime_100ns
    }

    /// The UTC FILETIME of a capture-clock time: the anchor moved by the same distance.
    pub open spec fn spec_utc_filetime(&self, system_relative_time_100ns: i64) -> int {
        self.utc_anchor() + (system_relative_time_100ns - self.system_anchor())
    }

    /// Whether the UTC time of a capture-clock time lies in the range that is
    /// rendered as a date (see `renderable_unix_millis`).
    pub fn renders(&self, system_relative_time_100ns: i64) -> (r: bool)
        ensures
            r == renderable_unix_millis(
                spec_filetime_unix_millis(self.spec_utc_filetime(system_relative_time_100ns)),
            ),
    {
        let ghost f = self.spec_utc_filetime(system_relative_time_100ns);
        proof {
            vstd::arithmetic::div_mod::lemma_fundamental_div_mod(f - FILETIME_UNIX_EPOCH_100NS, 10_000);
        }
        let delta: i128 = system_relative_time_100ns as i128
            - self.system_relative_anchor_100ns as i128;
        let filetime: i128 = match self.utc_anchor_filetime_100ns.checked_add(delta) {
            Some(v) => v,
            None => {
                return false;
            },
        };
        let since_epoch: i128 = match filetime.checked_sub(FILETIME_UNIX_EPOCH_100NS) {
            Some(v) => v,
            None => {
                return false;
            },
        };
        let unix_millis: i128 = match since_epoch.checked_div_euclid(10_000) {
            Some(v) => v,
            None => 0,
        };
        let bound: i128 = (MAX_RENDERED_DAYS as i128) * 86_400_000;
        -bound <= unix_millis && unix_millis < bound
    }

    /// The UTC time of a capture-clock time, as text.
    pub fn utc_timestamp_for_system_relative(&self, system_relative_time_100ns: i64) -> (s:
        String)
        requires
            renderable_unix_millis(
                spec_filetime_unix_millis(self.spec_utc_filetime(system_relative_time_100ns)),
            ),
        ensures
            s@ == spec_format_unix_millis(
                spec_filetime_unix_millis(self.spec_utc_filetime(system_relative_time_100ns)),
            ),
    {
        let delta: i128 = system_relative_time_100ns as i128
            - self.system_relative_anchor_100ns as i128;
        proof {
            let f = self.spec_utc_filetime(system_relative_time_100ns);
            vstd::arithmetic::div_mod::lemma_fundamental_div_mod(f - FILETIME_UNIX_EPOCH_100NS, 10_000);
        }
        let frame_filetime_100ns: i128 = self.utc_anchor_filetime_100ns + delta;
        format_filetime_utc_millis(frame_filetime_100ns)
    }
}

impl FrameDecimator {
    /// A decimator that keeps the next frame it sees.
    pub fn new() -> (r: Self)
        ensures
            r.next_emit_at() == None::<i64>,
    {
        FrameDecimator { next_emit_at_100ns: None }
    }

    /// The earliest time at which the next frame is kept, once a frame was kept.
    pub closed spec fn next_emit_at(&self) -> Option<i64> {
        self.next_emit_at_100ns
    }

    /// Whether to keep a frame captured at `t`. The first frame is kept; after
    /// that a frame is kept when it is at or past the next slot, and the next
    /// slot moves forward by whole frame durations to the first one after `t`.
    pub fn should_emit(&mut self, system_relative_time_100ns: i64) -> (r: bool)
        requires
            decimator_time_ok(system_relative_time_100ns),
        ensures
            ({
                let t = system_relative_time_100ns as int;
                let d = FRAME_DURATION_100NS as int;
                match old(self).next_emit_at() {
                    None => r && final(self).next_emit_at() == Some((t + d) as i64),
                    Some(n) => if t < n {
                        !r && final(self).next_emit_at() == old(self).next_emit_at()
                    } else {
                        r && final(self).next_emit_at() == Some((n + d * ((t - n) / d + 1)) as i64)
                    },
                }
            }),
            r ==> system_relative_time_100ns < final(self).next_emit_at().unwrap()
                <= system_relative_time_100ns + FRAME_DURATION_100NS,
            !r ==> final(self).next_emit_at() == old(self).next_emit_at(),
    {
        let t = system_relative_time_100ns;
        match self.next_emit_at_100ns {
            None => {
                self.next_emit_at_100ns = Some(t + FRAME_DURATION_100NS);
                true
            },
            Some(next) => {
                if t < next {
                    return false;
                }
                let mut next_emit_at_100ns = next;
                let ghost mut k: int = 0;
                while next_emit_at_100ns <= t
                    invariant
                        next <= t,
                        decimator_time_ok(t),
                        next_emit_at_100ns == next + FRAME_DURATION_100NS * k,
                        0 <= k,
                        k == 0 || next_emit_at_100ns - FRAME_DURATION_100NS <= t,
                    decreases t + FRAME_DURATION_100NS - next_emit_at_100ns,
                {
                    next_emit_at_100ns = next_emit_at_100ns + FRAME_DURATION_100NS;
                    proof {
                        k = k + 1;
                    }
                }
                proof {
                    let d = FRAME_DURATION_100NS as int;
                    let ti = t as int;
                    let ni = next as int;
                    assert(k >= 1);
                    assert(ni + d * (k - 1) <= ti < ni + d * k);
                    vstd::arithmetic::div_mod::lemma_fundamental_div_mod_converse(
                        ti - ni,
                        d,
                        k - 1,
                        ti - ni - d * (k - 1),
                    );
                }
                self.next_emit_at_100ns = Some(next_emit_at_100ns);
                true
            },
        }
    }
}

} // verus!
