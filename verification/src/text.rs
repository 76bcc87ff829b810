//! Character and string building blocks shared by every log format:
//! decimal and hexadecimal rendering, zero padding, whitespace trimming and
//! CSV field quoting, each stated over `Seq<char>`.
use vstd::prelude::*;
use vstd::std_specs::iter::IteratorSpec;

verus! {

/// Appends one character to a `String` (`String::push`).
/// Claimed: the string afterwards is the old contents followed by `c`.
#[verifier::external_body]
pub(crate) fn push_char(s: &mut String, c: char)
    ensures
        final(s)@ == old(s)@.push(c),
{
    s.push(c);
}

/// Appends every character of `t` to `s`.
pub fn push_str(s: &mut String, t: &str)
    ensures
        final(s)@ == old(s)@ + t@,
{
    let ghost start = s@;
    let mut it = t.chars();
    loop
        invariant
            s@ + it.remaining() == start + t@,
            it.decrease() is Some,
        ensures
            s@ == start + t@,
        decreases it.decrease()->0,
    {
        let ghost before = it.remaining();
        match it.next() {
            Some(c) => {
                push_char(s, c);
                proof {
                    assert(before == seq![c] + it.remaining());
                    assert(s@ + it.remaining() == start + t@);
                }
            },
            None => {
                proof {
                    assert(before.len() == 0);
                    assert(s@ == start + t@);
                }
                break;
            },
        }
    }
}

/// The characters of `s`, one per element.
pub fn chars_of(s: &str) -> (v: Vec<char>)
    ensures
        v@ == s@,
{
    let mut v: Vec<char> = Vec::new();
    let mut it = s.chars();
    loop
        invariant
            v@ + it.remaining() == s@,
            it.decrease() is Some,
        decreases it.decrease()->0,
    {
        let ghost before = it.remaining();
        match it.next() {
            Some(c) => {
                v.push(c);
                proof {
                    assert(before == seq![c] + it.remaining());
                    assert(v@ + it.remaining() == s@);
                }
            },
            None => {
                proof {
                    assert(before.len() == 0);
                    assert(v@ == s@);
                }
                return v;
            },
        }
    }
}

/// A `String` holding exactly the characters `cs`.
pub fn string_of_chars(cs: &[char]) -> (s: String)
    ensures
        s@ == cs@,
{
    let mut s = String::new();
    let mut i: usize = 0;
    while i < cs.len()
        invariant
            i <= cs.len(),
            s@ == cs@.take(i as int),
        decreases cs.len() - i,
    {
        proof {
            assert(cs@.take(i + 1) == cs@.take(i as int).push(cs@[i as int]));
        }
        push_char(&mut s, cs[i]);
        i = i + 1;
    }
    proof {
        assert(cs@.take(i as int) == cs@);
    }
    s
}

/// A `String` with the characters of `t`.
pub fn string_of(t: &str) -> (s: String)
    ensures
        s@ == t@,
{
    let mut s = String::new();
    push_str(&mut s, t);
    s
}

/// Whether two strings hold the same characters.
pub fn str_eq(a: &str, b: &str) -> (r: bool)
    ensures
        r == (a@ == b@),
{
    let va = chars_of(a);
    let vb = chars_of(b);
    if va.len() != vb.len() {
        return false;
    }
    let mut i: usize = 0;
    while i < va.len()
        invariant
            va@ == a@,
            vb@ == b@,
            va.len() == vb.len(),
            i <= va.len(),
            forall|j: int| 0 <= j < i ==> va@[j] == vb@[j],
        decreases va.len() - i,
    {
        if va[i] != vb[i] {
            return false;
        }
        i = i + 1;
    }
    proof {
        assert(va@ =~= vb@);
    }
    true
}

/// The character for a decimal digit value below ten.
pub open spec fn digit_char(d: nat) -> char {
    if d == 0 { '0' }
    else if d == 1 { '1' }
    else if d == 2 { '2' }
    else if d == 3 { '3' }
    else if d == 4 { '4' }
    else if d == 5 { '5' }
    else if d == 6 { '6' }
    else if d == 7 { '7' }
    else if d == 8 { '8' }
    else { '9' }
}

/// The character for a hexadecimal digit value below sixteen, upper case.
pub open spec fn hex_char_upper(d: nat) -> char {
    if d < 10 { digit_char(d) }
    else if d == 10 { 'A' }
    else if d == 11 { 'B' }
    else if d == 12 { 'C' }
    else if d == 13 { 'D' }
    else if d == 14 { 'E' }
    else { 'F' }
}

/// Shortest decimal rendering of `n` (no sign, no leading zero but for `0`).
pub open spec fn dec(n: nat) -> Seq<char>
    decreases n,
{
    if n < 10 {
        seq![digit_char(n)]
    } else {
        dec(n / 10).push(digit_char(n % 10))
    }
}

/// Decimal rendering of a signed number: a `-` before the digits of a negative value.
pub open spec fn dec_int(n: int) -> Seq<char> {
    if n < 0 {
        seq!['-'] + dec((-n) as nat)
    } else {
        dec(n as nat)
    }
}

/// `width` minus the length of `s`, at least zero, as a count of fill characters.
pub open spec fn fill_count(len: nat, width: nat) -> nat {
    if len < width { (width - len) as nat } else { 0 }
}

/// `'0'` repeated `n` times.
pub open spec fn zeros(n: nat) -> Seq<char> {
    Seq::new(n, |i: int| '0')
}

/// What `{:0width}` prints for a signed number: the sign first, then zeros
/// up to `width` characters in all, then the digits.
pub open spec fn dec_padded(n: int, width: nat) -> Seq<char> {
    if n < 0 {
        let digits = dec((-n) as nat);
        seq!['-'] + zeros(fill_count(digits.len() + 1, width)) + digits
    } else {
        let digits = dec(n as nat);
        zeros(fill_count(digits.len(), width)) + digits
    }
}

/// Upper-case hexadecimal rendering of `n` in exactly `width` digits
/// (the value is taken modulo `16^width`).
pub open spec fn hex_fixed(n: nat, width: nat) -> Seq<char>
    decreases width,
{
    if width == 0 {
        Seq::empty()
    } else {
        hex_fixed(n / 16, (width - 1) as nat).push(hex_char_upper(n % 16))
    }
}

pub open spec fn pow16(w: nat) -> nat
    decreases w,
{
    if w == 0 { 1 } else { 16 * pow16((w - 1) as nat) }
}

fn digit_to_char(d: u64) -> (c: char)
    requires
        d < 10,
    ensures
        c == digit_char(d as nat),
{
    if d == 0 { '0' }
    else if d == 1 { '1' }
    else if d == 2 { '2' }
    else if d == 3 { '3' }
    else if d == 4 { '4' }
    else if d == 5 { '5' }
    else if d == 6 { '6' }
    else if d == 7 { '7' }
    else if d == 8 { '8' }
    else { '9' }
}

fn hex_digit_to_char(d: u64) -> (c: char)
    requires
        d < 16,
    ensures
        c == hex_char_upper(d as nat),
{
    if d < 10 { digit_to_char(d) }
    else if d == 10 { 'A' }
    else if d == 11 { 'B' }
    else if d == 12 { 'C' }
    else if d == 13 { 'D' }
    else if d == 14 { 'E' }
    else { 'F' }
}

/// Appends the decimal digits of `n`.
pub fn push_dec(s: &mut String, n: u64)
    ensures
        final(s)@ == old(s)@ + dec(n as nat),
    decreases n,
{
    if n >= 10 {
        push_dec(s, n / 10);
        push_char(s, digit_to_char(n % 10));
        proof {
            assert(dec(n as nat) == dec((n / 10) as nat).push(digit_char((n % 10) as nat)));
        }
    } else {
        push_char(s, digit_to_char(n));
    }
}

pub proof fn lemma_dec_len_pos(n: nat)
    ensures
        dec(n).len() >= 1,
    decreases n,
{
    if n >= 10 {
        lemma_dec_len_pos(n / 10);
    }
}

/// Number of decimal digits of `n`.
pub fn dec_len(n: u64) -> (len: usize)
    ensures
        len == dec(n as nat).len(),
        len <= 20,
    decreases n,
{
    proof {
        lemma_dec_len_bound(n as nat);
    }
    if n >= 10 {
        dec_len(n / 10) + 1
    } else {
        1
    }
}

pub proof fn lemma_dec_len_bound(n: nat)
    requires
        n <= u64::MAX,
    ensures
        dec(n).len() <= 20,
    decreases n,
{
    if n >= 10 {
        lemma_dec_len_bound(n / 10);
        if n / 10 < 10 {
        } else {
            lemma_dec_len_small(n);
        }
    }
}

proof fn lemma_dec_len_small(n: nat)
    requires
        n <= u64::MAX,
    ensures
        dec(n).len() <= 20,
    decreases n,
{
    reveal_with_fuel(pow10, 21);
    assert(pow10(20) == 100000000000000000000nat);
    lemma_dec_len_le(n, 20);
}

/// `dec(n)` has at most `k` digits when `n < 10^k`.
pub proof fn lemma_dec_len_le(n: nat, k: nat)
    requires
        k >= 1,
        n < pow10(k),
    ensures
        dec(n).len() <= k,
    decreases n,
{
    reveal_with_fuel(pow10, 2);
    if n >= 10 {
        if k == 1 {
        } else {
            assert(n / 10 < pow10((k - 1) as nat)) by {
                lemma_pow10_unfold(k);
                assert(n < 10 * pow10((k - 1) as nat));
            }
            lemma_dec_len_le(n / 10, (k - 1) as nat);
        }
    }
}

pub open spec fn pow10(k: nat) -> nat
    decreases k,
{
    if k == 0 { 1 } else { 10 * pow10((k - 1) as nat) }
}

proof fn lemma_pow10_unfold(k: nat)
    requires
        k >= 1,
    ensures
        pow10(k) == 10 * pow10((k - 1) as nat),
{
}

/// Appends `n` zeros.
pub fn push_zeros(s: &mut String, n: usize)
    ensures
        final(s)@ == old(s)@ + zeros(n as nat),
{
    let ghost start = s@;
    let mut i: usize = 0;
    while i < n
        invariant
            i <= n,
            s@ == start + zeros(i as nat),
        decreases n - i,
    {
        push_char(s, '0');
        proof {
            assert(zeros((i + 1) as nat) == zeros(i as nat).push('0'));
        }
        i = i + 1;
    }
}

/// Appends `n` as `{:0width}` prints an unsigned number.
pub fn push_dec_padded(s: &mut String, n: u64, width: usize)
    ensures
        final(s)@ == old(s)@ + dec_padded(n as int, width as nat),
{
    let len = dec_len(n);
    let fill: usize = if len < width { width - len } else { 0 };
    push_zeros(s, fill);
    push_dec(s, n);
    proof {
        assert(old(s)@ + zeros(fill as nat) + dec(n as nat) == old(s)@ + dec_padded(n as int, width as nat));
    }
}

/// Appends `n` as `{:0width}` prints a signed number.
pub fn push_dec_padded_i64(s: &mut String, n: i64, width: usize)
    ensures
        final(s)@ == old(s)@ + dec_padded(n as int, width as nat),
{
    if n < 0 {
        let mag: u64 = if n == i64::MIN { 9223372036854775808u64 } else { (-n) as u64 };
        let len = dec_len(mag);
        let fill: usize = if len + 1 < width { width - (len + 1) } else { 0 };
        push_char(s, '-');
        push_zeros(s, fill);
        push_dec(s, mag);
        proof {
            assert(old(s)@.push('-') + zeros(fill as nat) + dec(mag as nat)
                == old(s)@ + dec_padded(n as int, width as nat));
        }
    } else {
        push_dec_padded(s, n as u64, width);
    }
}

/// Appends the decimal rendering of a signed number (as `{}` prints it).
pub fn push_dec_i64(s: &mut String, n: i64)
    ensures
        final(s)@ == old(s)@ + dec_int(n as int),
{
    if n < 0 {
        let mag: u64 = if n == i64::MIN { 9223372036854775808u64 } else { (-n) as u64 };
        push_char(s, '-');
        push_dec(s, mag);
        proof {
            assert(old(s)@.push('-') + dec(mag as nat) == old(s)@ + dec_int(n as int));
        }
    } else {
        push_dec(s, n as u64);
    }
}

/// Appends exactly `width` upper-case hexadecimal digits of `n`.
pub fn push_hex_fixed(s: &mut String, n: u64, width: usize)
    ensures
        final(s)@ == old(s)@ + hex_fixed(n as nat, width as nat),
    decreases width,
{
    if width > 0 {
        push_hex_fixed(s, n / 16, width - 1);
        push_char(s, hex_digit_to_char(n % 16));
    }
}

} // verus!

verus! {

/// Shortest upper-case hexadecimal rendering of `n`.
pub open spec fn hex_min(n: nat) -> Seq<char>
    decreases n,
{
    if n < 16 {
        seq![hex_char_upper(n)]
    } else {
        hex_min(n / 16).push(hex_char_upper(n % 16))
    }
}

/// What `{:0width$X}` prints: zeros up to `width` characters, then the digits.
pub open spec fn hex_padded(n: nat, width: nat) -> Seq<char> {
    zeros(fill_count(hex_min(n).len(), width)) + hex_min(n)
}

/// Appends the shortest hexadecimal digits of `n`.
pub fn push_hex_min(s: &mut String, n: u64)
    ensures
        final(s)@ == old(s)@ + hex_min(n as nat),
    decreases n,
{
    if n >= 16 {
        push_hex_min(s, n / 16);
        push_char(s, hex_digit_to_char(n % 16));
    } else {
        push_char(s, hex_digit_to_char(n));
    }
}

fn hex_min_len(n: u64) -> (len: usize)
    ensures
        len == hex_min(n as nat).len(),
        len <= 16,
    decreases n,
{
    proof {
        reveal_with_fuel(pow16, 17);
        assert(pow16(16) == 0x1_0000_0000_0000_0000nat);
        lemma_hex_min_len(n as nat, 16);
    }
    if n >= 16 {
        hex_min_len(n / 16) + 1
    } else {
        1
    }
}

proof fn lemma_hex_min_len(n: nat, k: nat)
    requires
        k >= 1,
        n < pow16(k),
    ensures
        hex_min(n).len() <= k,
    decreases n,
{
    reveal_with_fuel(pow16, 2);
    if n >= 16 && k > 1 {
        assert(n / 16 < pow16((k - 1) as nat));
        lemma_hex_min_len(n / 16, (k - 1) as nat);
    }
}

/// Appends `n` as `{:0width$X}` prints it.
pub fn push_hex_padded(s: &mut String, n: u64, width: usize)
    ensures
        final(s)@ == old(s)@ + hex_padded(n as nat, width as nat),
{
    proof {
        reveal_with_fuel(pow16, 17);
        assert(pow16(16) == 0x1_0000_0000_0000_0000nat);
    }
    let len = hex_min_len(n);
    let fill: usize = if len < width { width - len } else { 0 };
    push_zeros(s, fill);
    push_hex_min(s, n);
    proof {
        assert(old(s)@ + zeros(fill as nat) + hex_min(n as nat) == old(s)@ + hex_padded(n as nat, width as nat));
    }
}

/// Characters that `str::trim` removes: those with the Unicode `White_Space` property.
pub open spec fn is_unicode_whitespace(c: char) -> bool {
    let v = c as u32;
    (0x09 <= v <= 0x0D) || v == 0x20 || v == 0x85 || v == 0xA0 || v == 0x1680
        || (0x2000 <= v <= 0x200A) || v == 0x2028 || v == 0x2029 || v == 0x202F || v == 0x205F
        || v == 0x3000
}

/// Which characters a trim removes.
#[derive(Debug, Clone, Copy, PartialEq, Eq, Structural)]
pub enum TrimSet {
    /// Unicode white space, as `str::trim`.
    Whitespace,
    /// Spaces and dots.
    SpaceOrDot,
}

pub open spec fn trims(set: TrimSet, c: char) -> bool {
    match set {
        TrimSet::Whitespace => is_unicode_whitespace(c),
        TrimSet::SpaceOrDot => c == ' ' || c == '.',
    }
}

/// `s` without its leading characters of `set`.
pub open spec fn trim_start(s: Seq<char>, set: TrimSet) -> Seq<char>
    decreases s.len(),
{
    if s.len() > 0 && trims(set, s[0]) {
        trim_start(s.drop_first(), set)
    } else {
        s
    }
}

/// `s` without its trailing characters of `set`.
pub open spec fn trim_end(s: Seq<char>, set: TrimSet) -> Seq<char>
    decreases s.len(),
{
    if s.len() > 0 && trims(set, s.last()) {
        trim_end(s.drop_last(), set)
    } else {
        s
    }
}

/// `s` without its leading and trailing characters of `set`.
pub open spec fn trim(s: Seq<char>, set: TrimSet) -> Seq<char> {
    trim_end(trim_start(s, set), set)
}

fn char_trims(set: TrimSet, c: char) -> (r: bool)
    ensures
        r == trims(set, c),
{
    match set {
        TrimSet::Whitespace => {
            let v = c as u32;
            (0x09 <= v && v <= 0x0D) || v == 0x20 || v == 0x85 || v == 0xA0 || v == 0x1680 || (
            0x2000 <= v && v <= 0x200A) || v == 0x2028 || v == 0x2029 || v == 0x202F || v
                == 0x205F || v == 0x3000
        },
        TrimSet::SpaceOrDot => c == ' ' || c == '.',
    }
}

proof fn lemma_trim_start_skip(s: Seq<char>, set: TrimSet, i: int)
    requires
        0 <= i <= s.len(),
        forall|j: int| 0 <= j < i ==> trims(set, s[j]),
    ensures
        trim_start(s, set) == trim_start(s.skip(i), set),
    decreases i,
{
    if i > 0 {
        assert(s.skip(1) =~= s.drop_first());
        lemma_trim_start_skip(s.drop_first(), set, i - 1);
        assert(s.drop_first().skip(i - 1) =~= s.skip(i));
    } else {
        assert(s.skip(0) =~= s);
    }
}

proof fn lemma_trim_end_take(s: Seq<char>, set: TrimSet, i: int)
    requires
        0 <= i <= s.len(),
        forall|j: int| i <= j < s.len() ==> trims(set, s[j]),
    ensures
        trim_end(s, set) == trim_end(s.take(i), set),
    decreases s.len() - i,
{
    if i < s.len() {
        assert(s.drop_last().take(i) =~= s.take(i));
        lemma_trim_end_take(s.drop_last(), set, i);
    } else {
        assert(s.take(i) =~= s);
    }
}

/// The characters of `s` without the leading and trailing ones of `set`.
pub fn trim_chars(s: &str, set: TrimSet) -> (r: String)
    ensures
        r@ == trim(s@, set),
{
    let cs = chars_of(s);
    let mut start: usize = 0;
    while start < cs.len() && char_trims(set, cs[start])
        invariant
            cs@ == s@,
            start <= cs.len(),
            forall|j: int| 0 <= j < start ==> trims(set, cs@[j]),
        decreases cs.len() - start,
    {
        start = start + 1;
    }
    proof {
        lemma_trim_start_skip(s@, set, start as int);
        if start < cs.len() {
            assert(s@.skip(start as int)[0] == s@[start as int]);
        }
    }
    let ghost rest = s@.skip(start as int);
    assert(trim_start(s@, set) == rest);
    let mut end: usize = cs.len();
    while end > start && char_trims(set, cs[end - 1])
        invariant
            cs@ == s@,
            rest == s@.skip(start as int),
            start <= end <= cs.len(),
            forall|j: int| end <= j < cs.len() ==> trims(set, cs@[j]),
        decreases end - start,
    {
        end = end - 1;
    }
    proof {
        let k = end - start;
        assert forall|j: int| k <= j < rest.len() implies trims(set, rest[j]) by {
            assert(rest[j] == s@[j + start]);
        }
        lemma_trim_end_take(rest, set, k);
        if k > 0 {
            assert(rest.take(k).last() == s@[end - 1]);
        }
        assert(rest.take(k) =~= cs@.subrange(start as int, end as int));
    }
    let mut out = String::new();
    let mut i: usize = start;
    while i < end
        invariant
            cs@ == s@,
            start <= i <= end <= cs.len(),
            out@ == cs@.subrange(start as int, i as int),
        decreases end - i,
    {
        push_char(&mut out, cs[i]);
        proof {
            assert(cs@.subrange(start as int, i + 1) =~= cs@.subrange(start as int, i as int).push(cs@[i as int]));
        }
        i = i + 1;
    }
    out
}

/// `s` with every `"` doubled.
pub open spec fn double_quotes(s: Seq<char>) -> Seq<char>
    decreases s.len(),
{
    if s.len() == 0 {
        Seq::empty()
    } else if s.last() == '"' {
        double_quotes(s.drop_last()) + seq!['"', '"']
    } else {
        double_quotes(s.drop_last()).push(s.last())
    }
}

/// Whether a CSV field must be quoted: it holds a comma, a quote or a line break.
pub open spec fn needs_csv_quoting(s: Seq<char>) -> bool {
    s.contains(',') || s.contains('"') || s.contains('\n') || s.contains('\r')
}

/// A CSV field: quoted, with quotes doubled, when it needs quoting; else unchanged.
pub open spec fn csv_field(s: Seq<char>) -> Seq<char> {
    if needs_csv_quoting(s) {
        seq!['"'] + double_quotes(s) + seq!['"']
    } else {
        s
    }
}

/// Appends `value` as a CSV field (see `csv_field`).
pub fn push_csv_field(out: &mut String, value: &str)
    ensures
        final(out)@ == old(out)@ + csv_field(value@),
{
    let cs = chars_of(value);
    let mut needs = false;
    let mut i: usize = 0;
    while i < cs.len()
        invariant
            cs@ == value@,
            i <= cs.len(),
            needs == (exists|j: int| 0 <= j < i && (cs@[j] == ',' || cs@[j] == '"' || cs@[j] == '\n' || cs@[j] == '\r')),
        decreases cs.len() - i,
    {
        let c = cs[i];
        if c == ',' || c == '"' || c == '\n' || c == '\r' {
            needs = true;
        }
        i = i + 1;
    }
    proof {
        if needs {
            let j = choose|j: int| 0 <= j < cs.len() && (cs@[j] == ',' || cs@[j] == '"' || cs@[j] == '\n' || cs@[j] == '\r');
            assert(value@[j] == cs@[j]);
        }
        if needs_csv_quoting(value@) {
            if value@.contains(',') {
                let j = choose|j: int| 0 <= j < value@.len() && value@[j] == ',';
                assert(cs@[j] == ',');
            } else if value@.contains('"') {
                let j = choose|j: int| 0 <= j < value@.len() && value@[j] == '"';
                assert(cs@[j] == '"');
            } else if value@.contains('\n') {
                let j = choose|j: int| 0 <= j < value@.len() && value@[j] == '\n';
                assert(cs@[j] == '\n');
            } else {
                let j = choose|j: int| 0 <= j < value@.len() && value@[j] == '\r';
                assert(cs@[j] == '\r');
            }
        }
        assert(needs == needs_csv_quoting(value@));
    }
    if !needs {
        push_str(out, value);
        return;
    }
    let ghost start = out@;
    push_char(out, '"');
    let mut k: usize = 0;
    while k < cs.len()
        invariant
            cs@ == value@,
            k <= cs.len(),
            out@ == start.push('"') + double_quotes(cs@.take(k as int)),
        decreases cs.len() - k,
    {
        proof {
            assert(cs@.take(k + 1).drop_last() =~= cs@.take(k as int));
        }
        if cs[k] == '"' {
            push_char(out, '"');
            push_char(out, '"');
            proof {
                assert(out@ =~= start.push('"') + double_quotes(cs@.take(k + 1)));
            }
        } else {
            push_char(out, cs[k]);
            proof {
                assert(out@ =~= start.push('"') + double_quotes(cs@.take(k + 1)));
            }
        }
        k = k + 1;
    }
    push_char(out, '"');
    proof {
        assert(cs@.take(k as int) =~= value@);
        assert(out@ =~= start + csv_field(value@));
    }
}

/// `"true"` or `"false"`, as `{}` prints a `bool`.
pub open spec fn bool_text(b: bool) -> Seq<char> {
    if b { "true"@ } else { "false"@ }
}

/// Appends `true` or `false`.
pub fn push_bool(s: &mut String, b: bool)
    ensures
        final(s)@ == old(s)@ + bool_text(b),
{
    if b {
        push_str(s, "true");
    } else {
        push_str(s, "false");
    }
}

} // verus!
