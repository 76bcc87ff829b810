//! UUID text: what the `uuid` crate accepts as a UUID and what it prints
//! for a new random one.
use vstd::prelude::*;

verus! {

/// A hexadecimal digit of either case.
pub open spec fn is_hex_digit(c: char) -> bool {
    ('0' <= c <= '9') || ('a' <= c <= 'f') || ('A' <= c <= 'F')
}

/// A lower-case hexadecimal digit.
pub open spec fn is_lower_hex_digit(c: char) -> bool {
    ('0' <= c <= '9') || ('a' <= c <= 'f')
}

/// Position of a hyphen in the hyphenated form.
pub open spec fn is_hyphen_position(i: int) -> bool {
    i == 8 || i == 13 || i == 18 || i == 23
}

/// `8-4-4-4-12` hex digits separated by hyphens.
pub open spec fn is_hyphenated_uuid(s: Seq<char>) -> bool {
    &&& s.len() == 36
    &&& forall|i: int|
        0 <= i < 36 ==> if is_hyphen_position(i) {
            #[trigger] s[i] == '-'
        } else {
            is_hex_digit(s[i])
        }
}

/// 32 hex digits.
pub open spec fn is_simple_uuid(s: Seq<char>) -> bool {
    s.len() == 32 && forall|i: int| 0 <= i < 32 ==> is_hex_digit(#[trigger] s[i])
}

/// Equal letters ignoring ASCII case.
pub open spec fn ascii_case_eq(c: char, d: char) -> bool {
    c == d || ('a' <= d <= 'z' && (c as int) == (d as int) - 32)
}

/// The text `urn:uuid:` in any ASCII case.
pub open spec fn is_urn_prefix(s: Seq<char>) -> bool {
    let p = "urn:uuid:"@;
    s.len() == 9 && forall|i: int| 0 <= i < 9 ==> ascii_case_eq(#[trigger] s[i], p[i])
}

/// The texts `Uuid::parse_str` accepts: the simple form, the hyphenated
/// form, the hyphenated form in braces, and the hyphenated form after
/// `urn:uuid:` in any ASCII case. Both cases of hex digits are accepted.
pub open spec fn is_uuid_text(s: Seq<char>) -> bool {
    ||| is_simple_uuid(s)
    ||| is_hyphenated_uuid(s)
    ||| (s.len() == 38 && s[0] == '{' && s[37] == '}' && is_hyphenated_uuid(s.subrange(1, 37)))
    ||| (s.len() == 45 && is_urn_prefix(s.subrange(0, 9)) && is_hyphenated_uuid(s.subrange(9, 45)))
}

/// What `Uuid::new_v4().to_string()` prints: the lower-case hyphenated form
/// with version digit `4` and a variant digit of `8`, `9`, `a` or `b`.
pub open spec fn is_v4_uuid_text(s: Seq<char>) -> bool {
    &&& s.len() == 36
    &&& forall|i: int|
        0 <= i < 36 ==> if is_hyphen_position(i) {
            #[trigger] s[i] == '-'
        } else {
            is_lower_hex_digit(s[i])
        }
    &&& s[14] == '4'
    &&& (s[19] == '8' || s[19] == '9' || s[19] == 'a' || s[19] == 'b')
}

/// The lower-case hexadecimal digit of `d` (below 16).
pub open spec fn lower_hex_char(d: int) -> char {
    if d < 10 {
        (d + 48) as char
    } else {
        (d + 87) as char
    }
}

/// The index among the 32 hex digits of position `i` of the hyphenated form.
pub open spec fn hex_index(i: int) -> int {
    if i < 8 {
        i
    } else if i < 13 {
        i - 1
    } else if i < 18 {
        i - 2
    } else if i < 23 {
        i - 3
    } else {
        i - 4
    }
}

/// Hex digit `j` of 16 bytes: the high half of byte `j / 2` for even `j`,
/// the low half for odd `j`.
pub open spec fn nibble(bytes: Seq<u8>, j: int) -> int {
    if j % 2 == 0 {
        (bytes[j / 2] / 16) as int
    } else {
        (bytes[j / 2] % 16) as int
    }
}

/// The lower-case hyphenated text of the UUID with these 16 bytes.
pub open spec fn uuid_text_of(bytes: Seq<u8>) -> Seq<char> {
    Seq::new(
        36,
        |i: int|
            if is_hyphen_position(i) {
                '-'
            } else {
                lower_hex_char(nibble(bytes, hex_index(i)))
            },
    )
}

/// Random bytes with the version-4 bits (byte 6) and the RFC 4122 variant
/// bits (byte 8) set.
pub open spec fn v4_bytes(random: Seq<u8>) -> Seq<u8> {
    random.update(6, (random[6] & 0x0f) | 0x40).update(8, (random[8] & 0x3f) | 0x80)
}

/// The text of the version-4 UUID made from 16 random bytes.
pub open spec fn spec_v4_uuid_text(random: Seq<u8>) -> Seq<char> {
    uuid_text_of(v4_bytes(random))
}

/// Calls `uuid::Builder::from_random_bytes`, takes the UUID and renders it
/// with `to_string`. Claimed: the builder sets the version bits of byte 6 to
/// 4 and the variant bits of byte 8 to `10`, keeping the other bits, and the
/// crate's `Display` prints the 16 bytes in order as lower-case hex pairs in
/// `8-4-4-4-12` groups (`uuid_text_of`). Neither call panics.
#[verifier::external_body]
fn uuid_text_from_random_bytes(random_bytes: [u8; 16]) -> (s: String)
    ensures
        s@ == uuid_text_of(v4_bytes(random_bytes@)),
{
    uuid::Builder::from_random_bytes(random_bytes).into_uuid().to_string()
}

/// The hex digit of a value below 16 is a lower-case hex digit.
proof fn lemma_lower_hex_char(d: int)
    requires
        0 <= d < 16,
    ensures
        is_lower_hex_digit(lower_hex_char(d)),
{
}

/// The text of a version-4 UUID made from 16 random bytes: the random bits
/// are kept, the version and variant bits set (see `spec_v4_uuid_text`).
pub fn v4_uuid_text(random_bytes: [u8; 16]) -> (s: String)
    ensures
        s@ == spec_v4_uuid_text(random_bytes@),
        is_v4_uuid_text(s@),
{
    let s = uuid_text_from_random_bytes(random_bytes);
    proof {
        law_v4_text_is_v4(random_bytes@);
    }
    s
}

/// The text made from any 16 random bytes is a lower-case hyphenated UUID
/// with version `4` and an RFC 4122 variant digit.
pub proof fn law_v4_text_is_v4(random: Seq<u8>)
    requires
        random.len() == 16,
    ensures
        is_v4_uuid_text(spec_v4_uuid_text(random)),
{
    let b = v4_bytes(random);
    let t = spec_v4_uuid_text(random);
    assert forall|i: int| 0 <= i < 36 implies if is_hyphen_position(i) {
        #[trigger] t[i] == '-'
    } else {
        is_lower_hex_digit(t[i])
    } by {
        if !is_hyphen_position(i) {
            let j = hex_index(i);
            assert(0 <= j < 32);
            assert(0 <= j / 2 < 16);
            let x = b[j / 2];
            assert(0 <= nibble(b, j) < 16) by {
                assert(0 <= x / 16 < 16);
                assert(0 <= x % 16 < 16);
            }
            lemma_lower_hex_char(nibble(b, j));
        }
    }
    let r6: u8 = random[6];
    let v: u8 = (r6 & 0x0f) | 0x40;
    assert(v / 16 == 4) by (bit_vector)
        requires
            v == (r6 & 0x0f) | 0x40,
    ;
    assert(b[6] == v);
    assert(hex_index(14) == 12);
    assert(t[14] == lower_hex_char(nibble(b, 12)));
    let r8: u8 = random[8];
    let w: u8 = (r8 & 0x3f) | 0x80;
    assert(8 <= w / 16 <= 11) by (bit_vector)
        requires
            w == (r8 & 0x3f) | 0x80,
    ;
    assert(b[8] == w);
    assert(hex_index(19) == 16);
    assert(t[19] == lower_hex_char(nibble(b, 16)));
}

/// Calls `uuid::Uuid::parse_str` and reports whether it succeeded.
/// Claimed: it succeeds exactly on the texts of `is_uuid_text`, the four
/// shapes its parser matches by length (32, 36, 38, 45 bytes).
#[verifier::external_body]
fn uuid_parse_succeeds(s: &str) -> (r: bool)
    ensures
        r == is_uuid_text(s@),
{
    uuid::Uuid::parse_str(s).is_ok()
}

/// Whether `s` is a UUID in one of the accepted forms.
pub fn is_valid_uuid(s: &str) -> (r: bool)
    ensures
        r == is_uuid_text(s@),
{
    uuid_parse_succeeds(s)
}

/// A freshly printed version-4 UUID is accepted when read back.
pub proof fn law_new_uuid_text_parses(s: Seq<char>)
    requires
        is_v4_uuid_text(s),
    ensures
        is_uuid_text(s),
{
    assert(is_hyphenated_uuid(s)) by {
        assert forall|i: int| 0 <= i < 36 implies if is_hyphen_position(i) {
            #[trigger] s[i] == '-'
        } else {
            is_hex_digit(s[i])
        } by {
            if !is_hyphen_position(i) {
                assert(is_lower_hex_digit(s[i]));
            }
        }
    }
}

} // verus!
