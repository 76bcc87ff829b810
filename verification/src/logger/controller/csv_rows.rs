//! Lines of `controller_button_input.csv` and `controller_analog_input.csv`.
use vstd::prelude::*;
use super::model::{ControllerAnalogEvent, ControllerButtonEvent, ControllerButtonEventKind};
use crate::text::{csv_field, dec_int, push_char, push_csv_field, push_dec_i64, push_str};

verus! {

/// File name of the button log.
pub const CONTROLLER_BUTTON_FILE: &'static str = "controller_button_input.csv";
/// File name of the analog log.
pub const CONTROLLER_ANALOG_FILE: &'static str = "controller_analog_input.csv";
/// Header line of the button log.
pub const CONTROLLER_BUTTON_HEADER: &'static str = "timestamp,device_id,button,event";
/// Header line of the analog log.
pub const CONTROLLER_ANALOG_HEADER: &'static str = "timestamp,device_id,control,value";

pub open spec fn button_kind_text(kind: ControllerButtonEventKind) -> Seq<char> {
    match kind {
        ControllerButtonEventKind::Down => "keydown"@,
        ControllerButtonEventKind::Up => "keyup"@,
    }
}

/// `timestamp,device_id,button,event`, the two names as CSV fields.
pub open spec fn spec_button_row(timestamp: Seq<char>, e: ControllerButtonEvent) -> Seq<char> {
    timestamp + ","@ + csv_field(e.device_id@) + ","@ + csv_field(e.button@) + ","@
        + button_kind_text(e.kind)
}

/// `timestamp,device_id,control,value`, the two names as CSV fields.
pub open spec fn spec_analog_row(timestamp: Seq<char>, e: ControllerAnalogEvent) -> Seq<char> {
    timestamp + ","@ + csv_field(e.device_id@) + ","@ + csv_field(e.control@) + ","@ + dec_int(
        e.value as int,
    )
}

/// The log line of a button event (without line break).
pub fn controller_button_row(timestamp: &str, event: &ControllerButtonEvent) -> (r: String)
    ensures
        r@ == spec_button_row(timestamp@, *event),
{
    let mut s = String::new();
    push_str(&mut s, timestamp);
    push_char(&mut s, ',');
    push_csv_field(&mut s, event.device_id.as_str());
    push_char(&mut s, ',');
    push_csv_field(&mut s, event.button.as_str());
    push_char(&mut s, ',');
    push_str(&mut s, event.kind.as_csv_value());
    proof {
        reveal_strlit(",");
        assert(s@ =~= spec_button_row(timestamp@, *event));
    }
    s
}

/// The log line of an analog event (without line break).
pub fn controller_analog_row(timestamp: &str, event: &ControllerAnalogEvent) -> (r: String)
    ensures
        r@ == spec_analog_row(timestamp@, *event),
{
    let mut s = String::new();
    push_str(&mut s, timestamp);
    push_char(&mut s, ',');
    push_csv_field(&mut s, event.device_id.as_str());
    push_char(&mut s, ',');
    push_csv_field(&mut s, event.control.as_str());
    push_char(&mut s, ',');
    push_dec_i64(&mut s, event.value as i64);
    proof {
        reveal_strlit(",");
        assert(s@ =~= spec_analog_row(timestamp@, *event));
    }
    s
}

} // verus!
