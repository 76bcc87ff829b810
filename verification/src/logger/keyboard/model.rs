//! Keyboard events: identities of physical keys, key names, and the
//! transitions that are logged.
use vstd::prelude::*;
use crate::text::{hex_padded, push_hex_padded, push_str, string_of};

verus! {

/// A physical key: virtual-key code, scan code and the extended-key flag.
#[derive(Debug, Clone, Copy, PartialEq, Eq, Hash, Structural)]
pub struct KeyboardKeyId {
    pub virtual_key: u32,
    pub scan_code: u32,
    pub is_extended: bool,
}

/// A key going down or coming up.
#[derive(Debug, Clone, Copy, PartialEq, Eq, Structural)]
pub enum KeyboardInputKind {
    Down,
    Up,
}

/// A keyboard transition as the hook reports it.
#[derive(Debug, Clone, Copy, PartialEq, Eq, Structural)]
pub struct RawKeyboardEvent {
    pub key: KeyboardKeyId,
    pub kind: KeyboardInputKind,
    pub is_injected: bool,
}

/// A keyboard transition ready to be logged.
#[derive(Debug, Clone)]
pub struct KeyboardInputEvent {
    pub virtual_key: u32,
    pub scan_code: u32,
    pub key_name: String,
    pub kind: KeyboardInputKind,
    pub is_injected: bool,
}

impl KeyboardInputKind {
    /// The value written in the `event` column.
    pub fn as_csv_value(self) -> (r: &'static str)
        ensures
            r@ == (match self {
                KeyboardInputKind::Down => "keydown"@,
                KeyboardInputKind::Up => "keyup"@,
            }),
    {
        match self {
            KeyboardInputKind::Down => "keydown",
            KeyboardInputKind::Up => "keyup",
        }
    }
}

/// Fixed names for keys whose left and right variants must stay apart.
pub open spec fn spec_known_key_name(key: KeyboardKeyId) -> Option<Seq<char>> {
    let vk = key.virtual_key;
    let sc = key.scan_code;
    let ext = key.is_extended;
    if vk == 0xA0 { Some("LShift"@) }
    else if vk == 0xA1 { Some("RShift"@) }
    else if vk == 0x10 && sc == 0x2A { Some("LShift"@) }
    else if vk == 0x10 && sc == 0x36 { Some("RShift"@) }
    else if vk == 0xA2 { Some("LCtrl"@) }
    else if vk == 0xA3 { Some("RCtrl"@) }
    else if vk == 0x11 && sc == 0x1D && !ext { Some("LCtrl"@) }
    else if vk == 0x11 && sc == 0x1D && ext { Some("RCtrl"@) }
    else if vk == 0xA4 { Some("LAlt"@) }
    else if vk == 0xA5 { Some("RAlt"@) }
    else if vk == 0x12 && sc == 0x38 && !ext { Some("LAlt"@) }
    else if vk == 0x12 && sc == 0x38 && ext { Some("RAlt"@) }
    else if vk == 0x20 { Some("Space"@) }
    else if vk == 0x1B { Some("Esc"@) }
    else if vk == 0x0D { Some("Enter"@) }
    else if vk == 0x09 { Some("Tab"@) }
    else if vk == 0x08 { Some("Backspace"@) }
    else { None }
}

/// The name of a key: its fixed name, else the name the keyboard layout
/// gives it, else `VK_` and the virtual-key code in (at least) two hex digits.
pub open spec fn spec_key_name(key: KeyboardKeyId, layout_name: Option<Seq<char>>) -> Seq<char> {
    match spec_known_key_name(key) {
        Some(name) => name,
        None => match layout_name {
            Some(name) => name,
            None => "VK_"@ + hex_padded(key.virtual_key as nat, 2),
        },
    }
}

/// The fixed name of a key, if it has one.
pub fn known_key_name(key: KeyboardKeyId) -> (r: Option<&'static str>)
    ensures
        match r {
            Some(s) => spec_known_key_name(key) == Some(s@),
            None => spec_known_key_name(key) == None::<Seq<char>>,
        },
{
    let vk = key.virtual_key;
    let sc = key.scan_code;
    let ext = key.is_extended;
    if vk == 0xA0 { Some("LShift") }
    else if vk == 0xA1 { Some("RShift") }
    else if vk == 0x10 && sc == 0x2A { Some("LShift") }
    else if vk == 0x10 && sc == 0x36 { Some("RShift") }
    else if vk == 0xA2 { Some("LCtrl") }
    else if vk == 0xA3 { Some("RCtrl") }
    else if vk == 0x11 && sc == 0x1D && !ext { Some("LCtrl") }
    else if vk == 0x11 && sc == 0x1D && ext { Some("RCtrl") }
    else if vk == 0xA4 { Some("LAlt") }
    else if vk == 0xA5 { Some("RAlt") }
    else if vk == 0x12 && sc == 0x38 && !ext { Some("LAlt") }
    else if vk == 0x12 && sc == 0x38 && ext { Some("RAlt") }
    else if vk == 0x20 { Some("Space") }
    else if vk == 0x1B { Some("Esc") }
    else if vk == 0x0D { Some("Enter") }
    else if vk == 0x09 { Some("Tab") }
    else if vk == 0x08 { Some("Backspace") }
    else { None }
}

/// The argument that asks the keyboard layout for a key's name: the scan
/// code in bits 16 and up, bit 24 set for an extended key. A key without a
/// scan code has no layout name.
pub open spec fn spec_key_name_lparam(key: KeyboardKeyId) -> Option<i32> {
    if key.scan_code == 0 {
        None
    } else if key.is_extended {
        Some(((key.scan_code << 16u32) as i32) | (1i32 << 24u32))
    } else {
        Some((key.scan_code << 16u32) as i32)
    }
}

/// The layout-name query argument of a key (see `spec_key_name_lparam`).
pub fn key_name_lparam(key: KeyboardKeyId) -> (r: Option<i32>)
    ensures
        r == spec_key_name_lparam(key),
{
    if key.scan_code == 0 {
        return None;
    }
    let mut lparam: i32 = (key.scan_code << 16u32) as i32;
    if key.is_extended {
        lparam = lparam | (1i32 << 24u32);
    }
    Some(lparam)
}

/// The name of a key (see `spec_key_name`); `layout_name` is what the
/// keyboard layout calls the key, where it names it.
pub fn key_name(key: KeyboardKeyId, layout_name: Option<String>) -> (r: String)
    ensures
        r@ == spec_key_name(
            key,
            match layout_name {
                Some(n) => Some(n@),
                None => None,
            },
        ),
{
    if let Some(name) = known_key_name(key) {
        return string_of(name);
    }
    match layout_name {
        Some(name) => name,
        None => {
            let mut s = String::new();
            push_str(&mut s, "VK_");
            push_hex_padded(&mut s, key.virtual_key as u64, 2);
            s
        },
    }
}

impl KeyboardInputEvent {
    /// The loggable form of a raw transition; `layout_name` as for `key_name`.
    pub fn from_raw(raw: RawKeyboardEvent, layout_name: Option<String>) -> (r: Self)
        ensures
            r.virtual_key == raw.key.virtual_key,
            r.scan_code == raw.key.scan_code,
            r.key_name@ == spec_key_name(
                raw.key,
                match layout_name {
                    Some(n) => Some(n@),
                    None => None,
                },
            ),
            r.kind == raw.kind,
            r.is_injected == raw.is_injected,
    {
        KeyboardInputEvent {
            virtual_key: raw.key.virtual_key,
            scan_code: raw.key.scan_code,
            key_name: key_name(raw.key, layout_name),
            kind: raw.kind,
            is_injected: raw.is_injected,
        }
    }
}

/// Left and right modifier keys keep distinct names, whatever the keyboard
/// layout calls them: the side-specific virtual keys 0xA0 to 0xA5 are
/// LShift, RShift, LCtrl, RCtrl, LAlt, RAlt; the generic Shift key is told
/// apart by its scan code (0x2A left, 0x36 right), and the generic Ctrl and
/// Alt keys by the extended flag (set for the right key).
pub proof fn law_modifier_sides_are_named(scan_code: u32, is_extended: bool, layout_name: Option<Seq<char>>)
    ensures
        ({
            let key = |vk: u32| KeyboardKeyId { virtual_key: vk, scan_code, is_extended };
            &&& spec_key_name(key(0xA0), layout_name) == "LShift"@
            &&& spec_key_name(key(0xA1), layout_name) == "RShift"@
            &&& spec_key_name(key(0xA2), layout_name) == "LCtrl"@
            &&& spec_key_name(key(0xA3), layout_name) == "RCtrl"@
            &&& spec_key_name(key(0xA4), layout_name) == "LAlt"@
            &&& spec_key_name(key(0xA5), layout_name) == "RAlt"@
            &&& scan_code == 0x2A ==> spec_key_name(key(0x10), layout_name) == "LShift"@
            &&& scan_code == 0x36 ==> spec_key_name(key(0x10), layout_name) == "RShift"@
            &&& scan_code == 0x1D ==> spec_key_name(key(0x11), layout_name) == (if is_extended {
                "RCtrl"@
            } else {
                "LCtrl"@
            })
            &&& scan_code == 0x38 ==> spec_key_name(key(0x12), layout_name) == (if is_extended {
                "RAlt"@
            } else {
                "LAlt"@
            })
        }),
{
}

} // verus!
