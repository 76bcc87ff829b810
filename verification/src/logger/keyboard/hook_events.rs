//! Decoding of low-level keyboard hook messages.
use vstd::prelude::*;
use super::model::{KeyboardInputKind, KeyboardKeyId, RawKeyboardEvent};

verus! {

/// A key was pressed.
pub const WM_KEYDOWN: u32 = 0x0100;
/// A key was released.
pub const WM_KEYUP: u32 = 0x0101;
/// A key was pressed while Alt was held (or F10).
pub const WM_SYSKEYDOWN: u32 = 0x0104;
/// A key was released while Alt was held (or F10).
pub const WM_SYSKEYUP: u32 = 0x0105;
/// Hook flag: the key is an extended key.
pub const LLKHF_EXTENDED: u32 = 0x01;
/// Hook flag: the event was injected by software.
pub const LLKHF_INJECTED: u32 = 0x10;

/// The transition a hook message denotes, with the key and the injected flag.
pub open spec fn spec_raw_keyboard_event(message: u32, virtual_key: u32, scan_code: u32, flags: u32)
    -> Option<RawKeyboardEvent> {
    let key = KeyboardKeyId {
        virtual_key,
        scan_code,
        is_extended: flags & LLKHF_EXTENDED != 0,
    };
    let is_injected = flags & LLKHF_INJECTED != 0;
    if message == WM_KEYDOWN || message == WM_SYSKEYDOWN {
        Some(RawKeyboardEvent { key, kind: KeyboardInputKind::Down, is_injected })
    } else if message == WM_KEYUP || message == WM_SYSKEYUP {
        Some(RawKeyboardEvent { key, kind: KeyboardInputKind::Up, is_injected })
    } else {
        None
    }
}

/// Decodes a hook message with the fields of its keyboard data.
pub fn raw_keyboard_event(message: u32, virtual_key: u32, scan_code: u32, flags: u32) -> (r: Option<
    RawKeyboardEvent,
>)
    ensures
        r == spec_raw_keyboard_event(message, virtual_key, scan_code, flags),
{
    let key = KeyboardKeyId { virtual_key, scan_code, is_extended: flags & LLKHF_EXTENDED != 0 };
    let is_injected = flags & LLKHF_INJECTED != 0;
    if message == WM_KEYDOWN || message == WM_SYSKEYDOWN {
        Some(RawKeyboardEvent { key, kind: KeyboardInputKind::Down, is_injected })
    } else if message == WM_KEYUP || message == WM_SYSKEYUP {
        Some(RawKeyboardEvent { key, kind: KeyboardInputKind::Up, is_injected })
    } else {
        None
    }
}

} // verus!
