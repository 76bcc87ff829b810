//! Decoding of DualSense-style HID input reports into generic button and
//! axis names. Reports of other layouts are rejected rather than guessed.
use vstd::prelude::*;
use super::model::{ControllerSnapshot, entry_views};
use crate::name_set::{insert_name, name_set, names_of, strictly_ascending};
use crate::text::{dec_padded, push_dec_padded, push_str, string_of};

verus! {

/// Report id of a DualSense report over USB.
pub const DUALSENSE_USB_REPORT_ID: u8 = 0x01;
/// Shortest USB report that is decoded.
pub const DUALSENSE_USB_MIN_REPORT_LEN: usize = 11;
/// Position of the first analog byte in a USB report.
pub const DUALSENSE_USB_ANALOG_OFFSET: usize = 1;
/// Position of the first button byte in a USB report.
pub const DUALSENSE_USB_BUTTON_OFFSET: usize = 8;

/// Report id of a DualSense report over Bluetooth.
pub const DUALSENSE_BLUETOOTH_REPORT_ID: u8 = 0x31;
/// Shortest Bluetooth report that is decoded.
pub const DUALSENSE_BLUETOOTH_MIN_REPORT_LEN: usize = 12;
/// Position of the first analog byte in a Bluetooth report.
pub const DUALSENSE_BLUETOOTH_ANALOG_OFFSET: usize = 2;
/// Position of the first button byte in a Bluetooth report.
pub const DUALSENSE_BLUETOOTH_BUTTON_OFFSET: usize = 9;

/// Number of analog controls in a report.
pub const ANALOG_CONTROL_COUNT: usize = 6;
/// Highest generic button number a report can carry.
pub const LAST_BUTTON_NUMBER: u8 = 20;

/// Where the analog and button bytes of a report start.
#[derive(Debug, Clone, Copy, PartialEq, Eq, Structural)]
pub struct ReportLayout {
    pub analog_offset: usize,
    pub button_offset: usize,
}

/// The layout of a report, by its first byte and its length.
pub open spec fn spec_layout(report: Seq<u8>) -> Option<ReportLayout> {
    if report.len() == 0 {
        None
    } else if report[0] == DUALSENSE_USB_REPORT_ID && report.len() >= DUALSENSE_USB_MIN_REPORT_LEN {
        Some(
            ReportLayout {
                analog_offset: DUALSENSE_USB_ANALOG_OFFSET,
                button_offset: DUALSENSE_USB_BUTTON_OFFSET,
            },
        )
    } else if report[0] == DUALSENSE_BLUETOOTH_REPORT_ID && report.len()
        >= DUALSENSE_BLUETOOTH_MIN_REPORT_LEN {
        Some(
            ReportLayout {
                analog_offset: DUALSENSE_BLUETOOTH_ANALOG_OFFSET,
                button_offset: DUALSENSE_BLUETOOTH_BUTTON_OFFSET,
            },
        )
    } else {
        None
    }
}

/// The generic name of analog control `i` of a report.
pub open spec fn spec_analog_name(i: int) -> Seq<char> {
    if i == 0 { "axis_left_x"@ }
    else if i == 1 { "axis_left_y"@ }
    else if i == 2 { "axis_right_x"@ }
    else if i == 3 { "axis_right_y"@ }
    else if i == 4 { "trigger_left"@ }
    else { "trigger_right"@ }
}

/// `button_NN`, the number in at least two digits.
pub open spec fn button_name(n: int) -> Seq<char> {
    "button_"@ + dec_padded(n, 2)
}

/// The directional buttons that a hat value (the low four bits) denotes.
pub open spec fn dpad_names(hat: u8) -> Set<Seq<char>> {
    if hat == 0 { set!["dpad_up"@] }
    else if hat == 1 { set!["dpad_up"@, "dpad_right"@] }
    else if hat == 2 { set!["dpad_right"@] }
    else if hat == 3 { set!["dpad_down"@, "dpad_right"@] }
    else if hat == 4 { set!["dpad_down"@] }
    else if hat == 5 { set!["dpad_down"@, "dpad_left"@] }
    else if hat == 6 { set!["dpad_left"@] }
    else if hat == 7 { set!["dpad_up"@, "dpad_left"@] }
    else { Set::empty() }
}

/// Whether bit `bit` of `byte` is set.
pub open spec fn bit_is_set(byte: u8, bit: u8) -> bool {
    byte & (1u8 << bit) != 0
}

/// Whether generic button `n` is pressed in the button bytes at `offset`:
/// buttons 1 to 4 are bits 4 to 7 of the first button byte, and buttons 5 to
/// 20 are the bits of the next two bytes, lowest bit first, where present.
pub open spec fn button_pressed(report: Seq<u8>, offset: int, n: int) -> bool {
    if 1 <= n <= 4 {
        offset < report.len() && bit_is_set(report[offset], (n + 3) as u8)
    } else if 5 <= n <= 20 {
        let k = (n - 5) / 8;
        let b = (n - 5) % 8;
        offset + 1 + k < report.len() && bit_is_set(report[offset + 1 + k], b as u8)
    } else {
        false
    }
}

/// Names of the pressed generic buttons numbered below `upto`.
pub open spec fn numbered_buttons(report: Seq<u8>, offset: int, upto: int) -> Set<Seq<char>> {
    Set::new(
        |name: Seq<char>|
            exists|n: int| 1 <= n < upto && button_pressed(report, offset, n) && name == button_name(n),
    )
}

/// Every button name pressed in the button bytes that start at `offset`.
pub open spec fn report_buttons(report: Seq<u8>, offset: int) -> Set<Seq<char>> {
    if offset < report.len() {
        dpad_names(report[offset] & 0x0f).union(numbered_buttons(report, offset, 21))
    } else {
        Set::empty()
    }
}

/// The analog entries of a report: each control name with its byte, for the
/// bytes present after `offset`.
pub open spec fn report_analog_entries(report: Seq<u8>, offset: int) -> Seq<(Seq<char>, i32)> {
    let count: int = if offset + 6 <= report.len() {
        6
    } else if offset < report.len() {
        report.len() - offset
    } else {
        0
    };
    Seq::new(count as nat, |i: int| (spec_analog_name(i), report[offset + i] as i32))
}

/// Decodes HID reports of the supported controller layouts.
pub struct HidMapper;

impl ReportLayout {
    /// The layout of `report`, or `None` for an unknown or short report.
    pub fn from_report(report: &[u8]) -> (r: Option<Self>)
        ensures
            r == spec_layout(report@),
    {
        if report.len() == 0 {
            return None;
        }
        let report_id = report[0];
        if report_id == DUALSENSE_USB_REPORT_ID && report.len() >= DUALSENSE_USB_MIN_REPORT_LEN {
            Some(
                ReportLayout {
                    analog_offset: DUALSENSE_USB_ANALOG_OFFSET,
                    button_offset: DUALSENSE_USB_BUTTON_OFFSET,
                },
            )
        } else if report_id == DUALSENSE_BLUETOOTH_REPORT_ID && report.len()
            >= DUALSENSE_BLUETOOTH_MIN_REPORT_LEN {
            Some(
                ReportLayout {
                    analog_offset: DUALSENSE_BLUETOOTH_ANALOG_OFFSET,
                    button_offset: DUALSENSE_BLUETOOTH_BUTTON_OFFSET,
                },
            )
        } else {
            None
        }
    }
}

fn analog_name(i: usize) -> (r: &'static str)
    requires
        i < 6,
    ensures
        r@ == spec_analog_name(i as int),
{
    if i == 0 { "axis_left_x" }
    else if i == 1 { "axis_left_y" }
    else if i == 2 { "axis_right_x" }
    else if i == 3 { "axis_right_y" }
    else if i == 4 { "trigger_left" }
    else { "trigger_right" }
}

/// The name of generic button `n`.
pub fn make_button_name(n: u8) -> (r: String)
    ensures
        r@ == button_name(n as int),
{
    let mut s = String::new();
    push_str(&mut s, "button_");
    push_dec_padded(&mut s, n as u64, 2);
    s
}

fn insert_literal(set: &mut Vec<String>, name: &str)
    requires
        strictly_ascending(names_of(old(set)@)),
    ensures
        strictly_ascending(names_of(final(set)@)),
        name_set(names_of(final(set)@)) == name_set(names_of(old(set)@)).insert(name@),
{
    insert_name(set, string_of(name));
}

fn is_button_pressed(report: &[u8], offset: usize, n: u8) -> (r: bool)
    requires
        1 <= n <= 20,
        offset < report.len(),
    ensures
        r == button_pressed(report@, offset as int, n as int),
{
    if n <= 4 {
        report[offset] & (1u8 << (n + 3)) != 0
    } else {
        let k: usize = ((n - 5) / 8) as usize;
        let b: u8 = (n - 5) % 8;
        if k + 1 < report.len() - offset {
            report[offset + 1 + k] & (1u8 << b) != 0
        } else {
            false
        }
    }
}

proof fn lemma_numbered_buttons_step(report: Seq<u8>, offset: int, upto: int)
    requires
        1 <= upto,
    ensures
        numbered_buttons(report, offset, upto + 1) == (if button_pressed(report, offset, upto) {
            numbered_buttons(report, offset, upto).insert(button_name(upto))
        } else {
            numbered_buttons(report, offset, upto)
        }),
{
    let next = numbered_buttons(report, offset, upto + 1);
    let cur = numbered_buttons(report, offset, upto);
    if button_pressed(report, offset, upto) {
        assert forall|name: Seq<char>| next.contains(name) == cur.insert(button_name(upto)).contains(name) by {
            if next.contains(name) {
                let n = choose|n: int| 1 <= n < upto + 1 && button_pressed(report, offset, n) && name == button_name(n);
                if n < upto {
                    assert(cur.contains(name));
                }
            }
            if cur.contains(name) {
                let n = choose|n: int| 1 <= n < upto && button_pressed(report, offset, n) && name == button_name(n);
                assert(next.contains(name));
            }
            if name == button_name(upto) {
                assert(next.contains(name));
            }
        }
        assert(next =~= cur.insert(button_name(upto)));
    } else {
        assert forall|name: Seq<char>| next.contains(name) == cur.contains(name) by {
            if next.contains(name) {
                let n = choose|n: int| 1 <= n < upto + 1 && button_pressed(report, offset, n) && name == button_name(n);
                assert(n != upto);
                assert(cur.contains(name));
            }
            if cur.contains(name) {
                let n = choose|n: int| 1 <= n < upto && button_pressed(report, offset, n) && name == button_name(n);
                assert(next.contains(name));
            }
        }
        assert(next =~= cur);
    }
}

/// The pressed buttons of the button bytes at `offset`, as an ascending set.
pub fn pressed_buttons(report: &[u8], offset: usize) -> (r: Vec<String>)
    ensures
        strictly_ascending(names_of(r@)),
        name_set(names_of(r@)) == report_buttons(report@, offset as int),
{
    let mut buttons: Vec<String> = Vec::new();
    proof {
        assert(name_set(names_of(buttons@)) =~= Set::<Seq<char>>::empty());
    }
    if offset >= report.len() {
        return buttons;
    }
    let first = report[offset];
    let hat = first & 0x0f;
    if hat == 0 {
        insert_literal(&mut buttons, "dpad_up");
    } else if hat == 1 {
        insert_literal(&mut buttons, "dpad_up");
        insert_literal(&mut buttons, "dpad_right");
    } else if hat == 2 {
        insert_literal(&mut buttons, "dpad_right");
    } else if hat == 3 {
        insert_literal(&mut buttons, "dpad_down");
        insert_literal(&mut buttons, "dpad_right");
    } else if hat == 4 {
        insert_literal(&mut buttons, "dpad_down");
    } else if hat == 5 {
        insert_literal(&mut buttons, "dpad_down");
        insert_literal(&mut buttons, "dpad_left");
    } else if hat == 6 {
        insert_literal(&mut buttons, "dpad_left");
    } else if hat == 7 {
        insert_literal(&mut buttons, "dpad_up");
        insert_literal(&mut buttons, "dpad_left");
    }
    let ghost dpad = dpad_names(hat);
    proof {
        assert(name_set(names_of(buttons@)) =~= dpad);
        assert(numbered_buttons(report@, offset as int, 1) =~= Set::<Seq<char>>::empty());
        assert(dpad.union(numbered_buttons(report@, offset as int, 1)) =~= dpad);
    }
    let mut n: u8 = 1;
    while n <= LAST_BUTTON_NUMBER
        invariant
            1 <= n <= 21,
            offset < report.len(),
            dpad == dpad_names(report@[offset as int] & 0x0f),
            strictly_ascending(names_of(buttons@)),
            name_set(names_of(buttons@)) == dpad.union(
                numbered_buttons(report@, offset as int, n as int),
            ),
        decreases 21 - n,
    {
        proof {
            lemma_numbered_buttons_step(report@, offset as int, n as int);
        }
        if is_button_pressed(report, offset, n) {
            insert_name(&mut buttons, make_button_name(n));
            proof {
                assert(dpad.union(numbered_buttons(report@, offset as int, n as int)).insert(
                    button_name(n as int),
                ) =~= dpad.union(numbered_buttons(report@, offset as int, n + 1)));
            }
        }
        n = n + 1;
    }
    buttons
}

impl HidMapper {
    /// A mapper.
    pub fn new() -> Self {
        HidMapper
    }

    /// Decodes one report: `None` unless it has a known layout; otherwise the
    /// pressed buttons and the analog bytes under their generic names.
    pub fn map_report(&mut self, report: &[u8]) -> (r: Option<ControllerSnapshot>)
        ensures
            r.is_some() == (spec_layout(report@).is_some() && report@.len()
                > spec_layout(report@).unwrap().button_offset),
            r.is_some() ==> name_set(r.unwrap().pressed_names()) == report_buttons(
                report@,
                spec_layout(report@).unwrap().button_offset as int,
            ),
            r.is_some() ==> r.unwrap().analog_entries() == report_analog_entries(
                report@,
                spec_layout(report@).unwrap().analog_offset as int,
            ),
    {
        let layout = match ReportLayout::from_report(report) {
            Some(layout) => layout,
            None => {
                return None;
            },
        };
        if report.len() <= layout.button_offset {
            return None;
        }
        let mut analog_values: Vec<(String, i32)> = Vec::new();
        let ghost expected = report_analog_entries(report@, layout.analog_offset as int);
        let mut index: usize = 0;
        while index < ANALOG_CONTROL_COUNT
            invariant
                spec_layout(report@).is_some(),
                layout == spec_layout(report@).unwrap(),
                layout.analog_offset <= 2,
                index <= 6,
                expected == report_analog_entries(report@, layout.analog_offset as int),
                entry_views(analog_values@) == (if index <= expected.len() {
                    expected.take(index as int)
                } else {
                    expected
                }),
            decreases 6 - index,
        {
            if layout.analog_offset + index < report.len() {
                let name = string_of(analog_name(index));
                let value = report[layout.analog_offset + index] as i32;
                let ghost before = analog_values@;
                analog_values.push((name, value));
                proof {
                    assert(expected.take(index + 1) =~= expected.take(index as int).push(
                        expected[index as int],
                    ));
                    assert(entry_views(analog_values@) =~= entry_views(before).push(
                        (name@, value),
                    ));
                }
            } else {
                proof {
                    assert(expected.len() <= index);
                    assert(expected.take(expected.len() as int) =~= expected);
                }
            }
            index = index + 1;
        }
        proof {
            if expected.len() >= 6 {
                assert(expected.take(6) =~= expected);
            }
        }
        let buttons = pressed_buttons(report, layout.button_offset);
        Some(ControllerSnapshot::from_ascending(buttons, analog_values))
    }
}

/// The names a report's button bytes give: the d-pad names are the compass
/// reading of the hat (the low four bits of the first button byte): up for
/// hat 0, 1 and 7; right for 1, 2 and 3; down for 3, 4 and 5; left for 5, 6
/// and 7; none for 8 to 15. Every other name is a numbered `button_` name.
pub proof fn law_dpad_is_the_hat_compass(report: Seq<u8>, offset: int)
    requires
        0 <= offset < report.len(),
    ensures
        ({
            let hat = report[offset] & 0x0f;
            let b = report_buttons(report, offset);
            &&& b.contains("dpad_up"@) == (hat == 0 || hat == 1 || hat == 7)
            &&& b.contains("dpad_right"@) == (hat == 1 || hat == 2 || hat == 3)
            &&& b.contains("dpad_down"@) == (hat == 3 || hat == 4 || hat == 5)
            &&& b.contains("dpad_left"@) == (hat == 5 || hat == 6 || hat == 7)
            &&& forall|name: Seq<char>|
                #[trigger] b.contains(name) ==> name == "dpad_up"@ || name == "dpad_right"@
                    || name == "dpad_down"@ || name == "dpad_left"@ || (name.len() >= 7
                    && name.take(7) == "button_"@)
        }),
{
    reveal_strlit("dpad_up");
    reveal_strlit("dpad_right");
    reveal_strlit("dpad_down");
    reveal_strlit("dpad_left");
    reveal_strlit("button_");
    let byte: u8 = report[offset];
    let hat: u8 = byte & 0x0f;
    assert(hat < 16) by (bit_vector)
        requires
            hat == byte & 0x0f,
    ;
    let numbered = numbered_buttons(report, offset, 21);
    assert forall|name: Seq<char>| #[trigger] numbered.contains(name) implies name.len() >= 7
        && name.take(7) == "button_"@ && name[0] == 'b' by {
        let n = choose|n: int| 1 <= n < 21 && button_pressed(report, offset, n) && name == button_name(n);
        assert(button_name(n).take(7) =~= "button_"@);
        assert(button_name(n)[0] == "button_"@[0]);
    }
    assert(!numbered.contains("dpad_up"@));
    assert(!numbered.contains("dpad_right"@));
    assert(!numbered.contains("dpad_down"@));
    assert(!numbered.contains("dpad_left"@));
    assert("dpad_up"@.len() == 7 && "dpad_right"@.len() == 10 && "dpad_down"@.len() == 9
        && "dpad_left"@.len() == 9);
    assert("dpad_down"@[5] != "dpad_left"@[5]);
    assert("dpad_up"@ != "dpad_right"@ && "dpad_up"@ != "dpad_down"@ && "dpad_up"@ != "dpad_left"@);
    assert("dpad_right"@ != "dpad_down"@ && "dpad_right"@ != "dpad_left"@);
    assert("dpad_down"@ != "dpad_left"@);
}

} // verus!
