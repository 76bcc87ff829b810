//! The `YYYY-MM-DDTHH:MM:SS.mmm` UTC timestamps written in every log.
use vstd::prelude::*;
use crate::text::{
    chars_of, dec, dec_padded, digit_char, fill_count, lemma_dec_len_le, pow10, push_char,
    push_dec_padded, zeros,
};

verus! {

/// The timestamp text of a calendar time: year in at least four digits,
/// the other fields in two, milliseconds in three.
pub open spec fn spec_utc_timestamp(
    year: u16,
    month: u16,
    day: u16,
    hour: u16,
    minute: u16,
    second: u16,
    millis: u16,
) -> Seq<char> {
    dec_padded(year as int, 4) + "-"@ + dec_padded(month as int, 2) + "-"@ + dec_padded(day as int, 2)
        + "T"@ + dec_padded(hour as int, 2) + ":"@ + dec_padded(minute as int, 2) + ":"@
        + dec_padded(second as int, 2) + "."@ + dec_padded(millis as int, 3)
}

/// Renders the fields of a system time as a timestamp.
pub fn format_utc_timestamp(
    year: u16,
    month: u16,
    day: u16,
    hour: u16,
    minute: u16,
    second: u16,
    millis: u16,
) -> (s: String)
    ensures
        s@ == spec_utc_timestamp(year, month, day, hour, minute, second, millis),
{
    let mut s = String::new();
    push_dec_padded(&mut s, year as u64, 4);
    push_char(&mut s, '-');
    push_dec_padded(&mut s, month as u64, 2);
    push_char(&mut s, '-');
    push_dec_padded(&mut s, day as u64, 2);
    push_char(&mut s, 'T');
    push_dec_padded(&mut s, hour as u64, 2);
    push_char(&mut s, ':');
    push_dec_padded(&mut s, minute as u64, 2);
    push_char(&mut s, ':');
    push_dec_padded(&mut s, second as u64, 2);
    push_char(&mut s, '.');
    push_dec_padded(&mut s, millis as u64, 3);
    proof {
        reveal_strlit("-");
        reveal_strlit("T");
        reveal_strlit(":");
        reveal_strlit(".");
        assert(s@ =~= spec_utc_timestamp(year, month, day, hour, minute, second, millis));
    }
    s
}

pub open spec fn is_ascii_digit(c: char) -> bool {
    '0' <= c <= '9'
}

pub open spec fn all_digits(s: Seq<char>, from: int, to: int) -> bool {
    forall|i: int| from <= i < to ==> is_ascii_digit(#[trigger] s[i])
}

/// Whether `s` has the timestamp shape: 23 characters, digits with `-`,
/// `-`, `T`, `:`, `:` and `.` at positions 4, 7, 10, 13, 16 and 19.
pub open spec fn spec_is_utc_millis_format(s: Seq<char>) -> bool {
    &&& s.len() == 23
    &&& all_digits(s, 0, 4)
    &&& s[4] == '-'
    &&& all_digits(s, 5, 7)
    &&& s[7] == '-'
    &&& all_digits(s, 8, 10)
    &&& s[10] == 'T'
    &&& all_digits(s, 11, 13)
    &&& s[13] == ':'
    &&& all_digits(s, 14, 16)
    &&& s[16] == ':'
    &&& all_digits(s, 17, 19)
    &&& s[19] == '.'
    &&& all_digits(s, 20, 23)
}

fn digits_between(cs: &Vec<char>, from: usize, to: usize) -> (r: bool)
    requires
        from <= to <= cs.len(),
    ensures
        r == all_digits(cs@, from as int, to as int),
{
    let mut i = from;
    while i < to
        invariant
            from <= i <= to,
            to <= cs.len(),
            all_digits(cs@, from as int, i as int),
        decreases to - i,
    {
        let c = cs[i];
        if !('0' <= c && c <= '9') {
            return false;
        }
        i = i + 1;
    }
    true
}

/// Whether `value` has the timestamp shape (see `spec_is_utc_millis_format`).
pub fn is_utc_millis_format(value: &str) -> (r: bool)
    ensures
        r == spec_is_utc_millis_format(value@),
{
    let cs = chars_of(value);
    if cs.len() != 23 {
        return false;
    }
    digits_between(&cs, 0, 4) && cs[4] == '-' && digits_between(&cs, 5, 7) && cs[7] == '-'
        && digits_between(&cs, 8, 10) && cs[10] == 'T' && digits_between(&cs, 11, 13) && cs[13]
        == ':' && digits_between(&cs, 14, 16) && cs[16] == ':' && digits_between(&cs, 17, 19)
        && cs[19] == '.' && digits_between(&cs, 20, 23)
}

proof fn lemma_dec_all_digits(n: nat)
    ensures
        all_digits(dec(n), 0, dec(n).len() as int),
    decreases n,
{
    if n >= 10 {
        lemma_dec_all_digits(n / 10);
        assert(is_ascii_digit(digit_char(n % 10)));
    } else {
        assert(is_ascii_digit(digit_char(n)));
    }
}

proof fn lemma_dec_padded_shape(n: nat, w: nat)
    requires
        1 <= w,
        n < pow10(w),
    ensures
        dec_padded(n as int, w).len() == w,
        all_digits(dec_padded(n as int, w), 0, w as int),
{
    lemma_dec_len_le(n, w);
    lemma_dec_all_digits(n);
    let d = dec(n);
    let z = zeros(fill_count(d.len(), w));
    assert(dec_padded(n as int, w) == z + d);
    assert forall|i: int| 0 <= i < w implies is_ascii_digit(#[trigger] (z + d)[i]) by {
        if i < z.len() {
            assert((z + d)[i] == '0');
        } else {
            assert((z + d)[i] == d[i - z.len()]);
        }
    }
}

/// A timestamp of a time whose year has at most four digits (and every
/// other field at most its width) has the timestamp shape.
pub proof fn law_timestamps_have_the_checked_shape(
    year: u16,
    month: u16,
    day: u16,
    hour: u16,
    minute: u16,
    second: u16,
    millis: u16,
)
    requires
        year <= 9999,
        month <= 99,
        day <= 99,
        hour <= 99,
        minute <= 99,
        second <= 99,
        millis <= 999,
    ensures
        spec_is_utc_millis_format(spec_utc_timestamp(year, month, day, hour, minute, second, millis)),
{
    reveal_with_fuel(pow10, 5);
    reveal_strlit("-");
    reveal_strlit("T");
    reveal_strlit(":");
    reveal_strlit(".");
    lemma_dec_padded_shape(year as nat, 4);
    lemma_dec_padded_shape(month as nat, 2);
    lemma_dec_padded_shape(day as nat, 2);
    lemma_dec_padded_shape(hour as nat, 2);
    lemma_dec_padded_shape(minute as nat, 2);
    lemma_dec_padded_shape(second as nat, 2);
    lemma_dec_padded_shape(millis as nat, 3);
    let s = spec_utc_timestamp(year, month, day, hour, minute, second, millis);
    let y = dec_padded(year as int, 4);
    let mo = dec_padded(month as int, 2);
    let d = dec_padded(day as int, 2);
    let h = dec_padded(hour as int, 2);
    let mi = dec_padded(minute as int, 2);
    let se = dec_padded(second as int, 2);
    let ms = dec_padded(millis as int, 3);
    assert(s == y + "-"@ + mo + "-"@ + d + "T"@ + h + ":"@ + mi + ":"@ + se + "."@ + ms);
    assert(s.len() == 23);
    assert forall|i: int| 0 <= i < 4 implies is_ascii_digit(#[trigger] s[i]) by {
        assert(s[i] == y[i]);
    }
    assert forall|i: int| 5 <= i < 7 implies is_ascii_digit(#[trigger] s[i]) by {
        assert(s[i] == mo[i - 5]);
    }
    assert forall|i: int| 8 <= i < 10 implies is_ascii_digit(#[trigger] s[i]) by {
        assert(s[i] == d[i - 8]);
    }
    assert forall|i: int| 11 <= i < 13 implies is_ascii_digit(#[trigger] s[i]) by {
        assert(s[i] == h[i - 11]);
    }
    assert forall|i: int| 14 <= i < 16 implies is_ascii_digit(#[trigger] s[i]) by {
        assert(s[i] == mi[i - 14]);
    }
    assert forall|i: int| 17 <= i < 19 implies is_ascii_digit(#[trigger] s[i]) by {
        assert(s[i] == se[i - 17]);
    }
    assert forall|i: int| 20 <= i < 23 implies is_ascii_digit(#[trigger] s[i]) by {
        assert(s[i] == ms[i - 20]);
    }
}

} // verus!
