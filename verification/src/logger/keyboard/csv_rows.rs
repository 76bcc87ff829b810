//! Lines of `keyboard_input.csv`.
use vstd::prelude::*;
use super::model::{KeyboardInputEvent, KeyboardInputKind};
use crate::text::{bool_text, csv_field, dec, push_bool, push_char, push_csv_field, push_dec, push_str};

verus! {

/// File name of the keyboard log.
pub const KEYBOARD_INPUT_FILE: &'static str = "keyboard_input.csv";
/// Header line of the keyboard log.
pub const KEYBOARD_INPUT_HEADER: &'static str = "timestamp,virtual_key,scan_code,key_name,event,is_injected";

pub open spec fn kind_text(kind: KeyboardInputKind) -> Seq<char> {
    match kind {
        KeyboardInputKind::Down => "keydown"@,
        KeyboardInputKind::Up => "keyup"@,
    }
}

/// `timestamp,virtual_key,scan_code,key_name,event,is_injected` for one event,
/// with the key name quoted as a CSV field.
pub open spec fn spec_keyboard_row(timestamp: Seq<char>, e: KeyboardInputEvent) -> Seq<char> {
    timestamp + ","@ + dec(e.virtual_key as nat) + ","@ + dec(e.scan_code as nat) + ","@
        + csv_field(e.key_name@) + ","@ + kind_text(e.kind) + ","@ + bool_text(e.is_injected)
}

/// The log line of one event (without line break).
pub fn keyboard_input_row(timestamp: &str, event: &KeyboardInputEvent) -> (r: String)
    ensures
        r@ == spec_keyboard_row(timestamp@, *event),
{
    let mut s = String::new();
    push_str(&mut s, timestamp);
    push_char(&mut s, ',');
    push_dec(&mut s, event.virtual_key as u64);
    push_char(&mut s, ',');
    push_dec(&mut s, event.scan_code as u64);
    push_char(&mut s, ',');
    push_csv_field(&mut s, event.key_name.as_str());
    push_char(&mut s, ',');
    push_str(&mut s, event.kind.as_csv_value());
    push_char(&mut s, ',');
    push_bool(&mut s, event.is_injected);
    proof {
        reveal_strlit(",");
        assert(s@ =~= spec_keyboard_row(timestamp@, *event));
    }
    s
}

} // verus!
