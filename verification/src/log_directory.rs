//! Names of the per-session log directories.
use vstd::prelude::*;
use crate::applications::AppWindow;
use crate::text::{TrimSet, chars_of, push_char, push_str, string_of, string_of_chars, trim, trim_chars, trim_end, trim_start};

verus! {

/// Name of the directory, under the user's Documents, that holds the session directories.
pub const OPERATION_LOGS_DIR: &'static str = "OperationLogs";

/// Control characters (Unicode category Cc).
pub open spec fn is_control(c: char) -> bool {
    (c as u32) <= 0x1F || (0x7F <= (c as u32) && (c as u32) <= 0x9F)
}

/// Characters that may not appear in a Windows file name component.
pub open spec fn is_forbidden_in_file_name(c: char) -> bool {
    is_control(c) || c == '<' || c == '>' || c == ':' || c == '"' || c == '/' || c == '\\' || c
        == '|' || c == '?' || c == '*'
}

/// `s` with every forbidden character replaced by `_`.
pub open spec fn replace_forbidden(s: Seq<char>) -> Seq<char> {
    s.map_values(|c: char| if is_forbidden_in_file_name(c) { '_' } else { c })
}

/// A safe path component: forbidden characters become `_`, leading and
/// trailing spaces and dots go, and an empty result becomes `unknown`.
pub open spec fn spec_sanitize_path_component(value: Seq<char>) -> Seq<char> {
    let t = trim(replace_forbidden(value), TrimSet::SpaceOrDot);
    if t.len() == 0 {
        "unknown"@
    } else {
        t
    }
}

/// `{timestamp}_{sanitized process name}`, with `unknown` for an
/// application whose process name is not known.
pub open spec fn spec_log_directory_name(timestamp: Seq<char>, app: AppWindow) -> Seq<char> {
    let process_name = match app.process_name {
        Some(name) => name@,
        None => "unknown"@,
    };
    timestamp + "_"@ + spec_sanitize_path_component(process_name)
}

/// Makes `value` safe as one component of a path (see `spec_sanitize_path_component`).
pub fn sanitize_path_component(value: &str) -> (r: String)
    ensures
        r@ == spec_sanitize_path_component(value@),
{
    let cs = chars_of(value);
    let mut replaced: Vec<char> = Vec::new();
    let mut i: usize = 0;
    while i < cs.len()
        invariant
            cs@ == value@,
            i <= cs.len(),
            replaced@ == replace_forbidden(value@.take(i as int)),
        decreases cs.len() - i,
    {
        let c = cs[i];
        let v = c as u32;
        let forbidden = v <= 0x1F || (0x7F <= v && v <= 0x9F) || c == '<' || c == '>' || c == ':'
            || c == '"' || c == '/' || c == '\\' || c == '|' || c == '?' || c == '*';
        replaced.push(if forbidden { '_' } else { c });
        proof {
            assert(replaced@ =~= replace_forbidden(value@.take(i + 1)));
        }
        i = i + 1;
    }
    proof {
        assert(value@.take(i as int) =~= value@);
    }
    let replaced_text = string_of_chars(replaced.as_slice());
    let trimmed = trim_chars(replaced_text.as_str(), TrimSet::SpaceOrDot);
    if trimmed.as_str().is_empty() {
        string_of("unknown")
    } else {
        trimmed
    }
}

/// The name of the log directory of a session of `app` started at `timestamp`.
pub fn operation_log_directory_name(timestamp: &str, app: &AppWindow) -> (r: String)
    ensures
        r@ == spec_log_directory_name(timestamp@, *app),
{
    let sanitized = match &app.process_name {
        Some(name) => sanitize_path_component(name.as_str()),
        None => sanitize_path_component("unknown"),
    };
    let mut s = String::new();
    push_str(&mut s, timestamp);
    push_char(&mut s, '_');
    push_str(&mut s, sanitized.as_str());
    proof {
        reveal_strlit("_");
        reveal_strlit("unknown");
        let u = "unknown"@;
        assert(replace_forbidden(u) =~= u);
        assert(trim_start(u, TrimSet::SpaceOrDot) == u);
        assert(trim_end(u, TrimSet::SpaceOrDot) == u);
        assert(s@ =~= spec_log_directory_name(timestamp@, *app));
    }
    s
}

/// The `{:04}-{:02}-{:02}_{:02}{:02}{:02}` local-time stamp of a session directory.
pub open spec fn spec_directory_timestamp(year: u16, month: u16, day: u16, hour: u16, minute: u16, second: u16) -> Seq<char> {
    crate::text::dec_padded(year as int, 4) + "-"@ + crate::text::dec_padded(month as int, 2) + "-"@
        + crate::text::dec_padded(day as int, 2) + "_"@ + crate::text::dec_padded(hour as int, 2)
        + crate::text::dec_padded(minute as int, 2) + crate::text::dec_padded(second as int, 2)
}

/// Renders the local time of a session start for its directory name.
pub fn directory_timestamp(year: u16, month: u16, day: u16, hour: u16, minute: u16, second: u16) -> (r: String)
    ensures
        r@ == spec_directory_timestamp(year, month, day, hour, minute, second),
{
    let mut s = String::new();
    crate::text::push_dec_padded(&mut s, year as u64, 4);
    push_char(&mut s, '-');
    crate::text::push_dec_padded(&mut s, month as u64, 2);
    push_char(&mut s, '-');
    crate::text::push_dec_padded(&mut s, day as u64, 2);
    push_char(&mut s, '_');
    crate::text::push_dec_padded(&mut s, hour as u64, 2);
    crate::text::push_dec_padded(&mut s, minute as u64, 2);
    crate::text::push_dec_padded(&mut s, second as u64, 2);
    proof {
        reveal_strlit("-");
        reveal_strlit("_");
        assert(s@ =~= spec_directory_timestamp(year, month, day, hour, minute, second));
    }
    s
}

/// A sanitized component never holds a forbidden character and is never empty.
pub proof fn law_sanitized_components_are_safe(value: Seq<char>)
    ensures
        spec_sanitize_path_component(value).len() > 0,
        forall|i: int| 0 <= i < spec_sanitize_path_component(value).len()
            ==> !is_forbidden_in_file_name(#[trigger] spec_sanitize_path_component(value)[i]),
{
    let r = replace_forbidden(value);
    assert forall|i: int| 0 <= i < r.len() implies !is_forbidden_in_file_name(#[trigger] r[i]) by {}
    lemma_trim_keeps_safe(r);
    reveal_strlit("unknown");
}

proof fn lemma_trim_keeps_safe(r: Seq<char>)
    requires
        forall|i: int| 0 <= i < r.len() ==> !is_forbidden_in_file_name(#[trigger] r[i]),
    ensures
        forall|i: int| 0 <= i < trim(r, TrimSet::SpaceOrDot).len()
            ==> !is_forbidden_in_file_name(#[trigger] trim(r, TrimSet::SpaceOrDot)[i]),
{
    lemma_trim_start_sub(r);
    let s = trim_start(r, TrimSet::SpaceOrDot);
    lemma_trim_end_sub(s);
}

proof fn lemma_trim_start_sub(r: Seq<char>)
    requires
        forall|i: int| 0 <= i < r.len() ==> !is_forbidden_in_file_name(#[trigger] r[i]),
    ensures
        forall|i: int| 0 <= i < trim_start(r, TrimSet::SpaceOrDot).len()
            ==> !is_forbidden_in_file_name(#[trigger] trim_start(r, TrimSet::SpaceOrDot)[i]),
    decreases r.len(),
{
    if r.len() > 0 && crate::text::trims(TrimSet::SpaceOrDot, r[0]) {
        assert forall|i: int| 0 <= i < r.drop_first().len() implies !is_forbidden_in_file_name(#[trigger] r.drop_first()[i]) by {
            assert(r.drop_first()[i] == r[i + 1]);
        }
        lemma_trim_start_sub(r.drop_first());
        assert(trim_start(r, TrimSet::SpaceOrDot) == trim_start(r.drop_first(), TrimSet::SpaceOrDot));
    } else {
        assert(trim_start(r, TrimSet::SpaceOrDot) == r);
    }
}

proof fn lemma_trim_end_sub(r: Seq<char>)
    requires
        forall|i: int| 0 <= i < r.len() ==> !is_forbidden_in_file_name(#[trigger] r[i]),
    ensures
        forall|i: int| 0 <= i < trim_end(r, TrimSet::SpaceOrDot).len()
            ==> !is_forbidden_in_file_name(#[trigger] trim_end(r, TrimSet::SpaceOrDot)[i]),
    decreases r.len(),
{
    if r.len() > 0 && crate::text::trims(TrimSet::SpaceOrDot, r.last()) {
        lemma_trim_end_sub(r.drop_last());
        assert(trim_end(r, TrimSet::SpaceOrDot) == trim_end(r.drop_last(), TrimSet::SpaceOrDot));
    } else {
        assert(trim_end(r, TrimSet::SpaceOrDot) == r);
    }
}

} // verus!
