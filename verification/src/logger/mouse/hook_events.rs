//! Decoding of low-level mouse hook messages.
use vstd::prelude::*;
use super::model::{MouseButton, MouseInputKind, RawMouseEvent, RawMouseEventKind, ScreenPoint};

verus! {

/// Window message of a pointer move.
pub const WM_MOUSEMOVE: u32 = 0x0200;
/// Window message of a left button press.
pub const WM_LBUTTONDOWN: u32 = 0x0201;
/// Window message of a left button release.
pub const WM_LBUTTONUP: u32 = 0x0202;
/// Window message of a right button press.
pub const WM_RBUTTONDOWN: u32 = 0x0204;
/// Window message of a right button release.
pub const WM_RBUTTONUP: u32 = 0x0205;
/// Window message of a vertical wheel turn.
pub const WM_MOUSEWHEEL: u32 = 0x020A;
/// Window message of a horizontal wheel turn.
pub const WM_MOUSEHWHEEL: u32 = 0x020E;

/// The wheel distance in a hook's mouse data: its high 16 bits as a signed number.
pub open spec fn spec_wheel_delta(mouse_data: u32) -> i32 {
    let high = mouse_data / 65536;
    (if high >= 32768 { high - 65536 } else { high as int }) as i32
}

/// The wheel distance of a hook's mouse data (see `spec_wheel_delta`).
pub fn wheel_delta(mouse_data: u32) -> (r: i32)
    ensures
        r == spec_wheel_delta(mouse_data),
{
    let high: u32 = mouse_data / 65536;
    if high >= 32768 {
        (high as i32) - 65536
    } else {
        high as i32
    }
}

/// The event a hook message denotes, if it is one that is logged.
pub open spec fn spec_raw_mouse_event(message: u32, x: i32, y: i32, mouse_data: u32) -> Option<
    RawMouseEvent,
> {
    let p = ScreenPoint { x, y };
    let input = |button: MouseButton, kind: MouseInputKind, delta: i32|
        Some(RawMouseEvent { screen_position: p, kind: RawMouseEventKind::Input { button, kind, delta } });
    if message == WM_MOUSEMOVE {
        Some(RawMouseEvent { screen_position: p, kind: RawMouseEventKind::Move })
    } else if message == WM_LBUTTONDOWN {
        input(MouseButton::Left, MouseInputKind::Down, 0)
    } else if message == WM_LBUTTONUP {
        input(MouseButton::Left, MouseInputKind::Up, 0)
    } else if message == WM_RBUTTONDOWN {
        input(MouseButton::Right, MouseInputKind::Down, 0)
    } else if message == WM_RBUTTONUP {
        input(MouseButton::Right, MouseInputKind::Up, 0)
    } else if message == WM_MOUSEWHEEL {
        input(MouseButton::WheelVertical, MouseInputKind::Wheel, spec_wheel_delta(mouse_data))
    } else if message == WM_MOUSEHWHEEL {
        input(MouseButton::WheelHorizontal, MouseInputKind::Wheel, spec_wheel_delta(mouse_data))
    } else {
        None
    }
}

/// Decodes a hook message with the pointer position and mouse data it carries.
pub fn raw_mouse_event(message: u32, x: i32, y: i32, mouse_data: u32) -> (r: Option<RawMouseEvent>)
    ensures
        r == spec_raw_mouse_event(message, x, y, mouse_data),
{
    let screen_position = ScreenPoint { x, y };
    let kind = if message == WM_MOUSEMOVE {
        RawMouseEventKind::Move
    } else if message == WM_LBUTTONDOWN {
        RawMouseEventKind::Input { button: MouseButton::Left, kind: MouseInputKind::Down, delta: 0 }
    } else if message == WM_LBUTTONUP {
        RawMouseEventKind::Input { button: MouseButton::Left, kind: MouseInputKind::Up, delta: 0 }
    } else if message == WM_RBUTTONDOWN {
        RawMouseEventKind::Input { button: MouseButton::Right, kind: MouseInputKind::Down, delta: 0 }
    } else if message == WM_RBUTTONUP {
        RawMouseEventKind::Input { button: MouseButton::Right, kind: MouseInputKind::Up, delta: 0 }
    } else if message == WM_MOUSEWHEEL {
        RawMouseEventKind::Input {
            button: MouseButton::WheelVertical,
            kind: MouseInputKind::Wheel,
            delta: wheel_delta(mouse_data),
        }
    } else if message == WM_MOUSEHWHEEL {
        RawMouseEventKind::Input {
            button: MouseButton::WheelHorizontal,
            kind: MouseInputKind::Wheel,
            delta: wheel_delta(mouse_data),
        }
    } else {
        return None;
    };
    Some(RawMouseEvent { screen_position, kind })
}

/// Each hook message decodes to what its name says, at the pointer position
/// it carries: 0x0200 (move) a move; 0x0201/0x0202 left button down/up and
/// 0x0204/0x0205 right button down/up, with no wheel distance; 0x020A and
/// 0x020E a vertical/horizontal wheel turn whose distance is the signed high
/// half of the mouse data; any other message nothing.
pub proof fn law_hook_messages_decode_by_name(message: u32, x: i32, y: i32, mouse_data: u32)
    ensures
        ({
            let at = ScreenPoint { x, y };
            let input = |button: MouseButton, kind: MouseInputKind, delta: i32|
                Some(RawMouseEvent { screen_position: at, kind: RawMouseEventKind::Input { button, kind, delta } });
            &&& message == 0x0200 ==> spec_raw_mouse_event(message, x, y, mouse_data)
                == Some(RawMouseEvent { screen_position: at, kind: RawMouseEventKind::Move })
            &&& message == 0x0201 ==> spec_raw_mouse_event(message, x, y, mouse_data)
                == input(MouseButton::Left, MouseInputKind::Down, 0)
            &&& message == 0x0202 ==> spec_raw_mouse_event(message, x, y, mouse_data)
                == input(MouseButton::Left, MouseInputKind::Up, 0)
            &&& message == 0x0204 ==> spec_raw_mouse_event(message, x, y, mouse_data)
                == input(MouseButton::Right, MouseInputKind::Down, 0)
            &&& message == 0x0205 ==> spec_raw_mouse_event(message, x, y, mouse_data)
                == input(MouseButton::Right, MouseInputKind::Up, 0)
            &&& message == 0x020A ==> spec_raw_mouse_event(message, x, y, mouse_data)
                == input(MouseButton::WheelVertical, MouseInputKind::Wheel, spec_wheel_delta(mouse_data))
            &&& message == 0x020E ==> spec_raw_mouse_event(message, x, y, mouse_data)
                == input(MouseButton::WheelHorizontal, MouseInputKind::Wheel, spec_wheel_delta(mouse_data))
            &&& !(message == 0x0200 || message == 0x0201 || message == 0x0202 || message == 0x0204
                || message == 0x0205 || message == 0x020A || message == 0x020E)
                ==> spec_raw_mouse_event(message, x, y, mouse_data).is_none()
        }),
        -32768 <= spec_wheel_delta(mouse_data) < 32768,
        (spec_wheel_delta(mouse_data) * 65536 + mouse_data % 65536 - mouse_data) % 0x1_0000_0000 == 0,
{
}

} // verus!
