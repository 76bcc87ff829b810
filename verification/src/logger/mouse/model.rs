//! Mouse events in screen and window-client coordinates.
use vstd::prelude::*;

verus! {

/// A point on the screen.
#[derive(Debug, Clone, Copy, PartialEq, Eq, Structural)]
pub struct ScreenPoint {
    pub x: i32,
    pub y: i32,
}

/// A point relative to the target window's client area.
#[derive(Debug, Clone, Copy, PartialEq, Eq, Structural)]
pub struct ClientPoint {
    pub x: i32,
    pub y: i32,
}

/// The mouse button (or wheel) of an input event.
#[derive(Debug, Clone, Copy, PartialEq, Eq, Structural)]
pub enum MouseButton {
    Left,
    Right,
    WheelVertical,
    WheelHorizontal,
}

/// What happened to the button.
#[derive(Debug, Clone, Copy, PartialEq, Eq, Structural)]
pub enum MouseInputKind {
    Down,
    Up,
    Wheel,
}

/// A button or wheel event at a client position.
#[derive(Debug, Clone, Copy, PartialEq, Eq, Structural)]
pub struct MouseInputEvent {
    pub position: ClientPoint,
    pub button: MouseButton,
    pub kind: MouseInputKind,
    pub delta: i32,
}

/// A move to a client position.
#[derive(Debug, Clone, Copy, PartialEq, Eq, Structural)]
pub struct MouseMoveEvent {
    pub position: ClientPoint,
}

/// What a raw mouse event is.
#[derive(Debug, Clone, Copy, PartialEq, Eq, Structural)]
pub enum RawMouseEventKind {
    Move,
    Input { button: MouseButton, kind: MouseInputKind, delta: i32 },
}

/// A mouse event as the low-level hook reports it.
#[derive(Debug, Clone, Copy, PartialEq, Eq, Structural)]
pub struct RawMouseEvent {
    pub screen_position: ScreenPoint,
    pub kind: RawMouseEventKind,
}

/// A mouse event over the target window, in its client coordinates.
#[derive(Debug, Clone, Copy, PartialEq, Eq, Structural)]
pub enum ResolvedMouseEvent {
    Move(MouseMoveEvent),
    Input(MouseInputEvent),
}

pub open spec fn button_text(b: MouseButton) -> Seq<char> {
    match b {
        MouseButton::Left => "left"@,
        MouseButton::Right => "right"@,
        MouseButton::WheelVertical => "wheel_v"@,
        MouseButton::WheelHorizontal => "wheel_h"@,
    }
}

pub open spec fn input_kind_text(k: MouseInputKind) -> Seq<char> {
    match k {
        MouseInputKind::Down => "mousedown"@,
        MouseInputKind::Up => "mouseup"@,
        MouseInputKind::Wheel => "wheel"@,
    }
}

impl MouseButton {
    /// The value written in the `button` column.
    pub fn as_csv_value(self) -> (r: &'static str)
        ensures
            r@ == button_text(self),
    {
        match self {
            MouseButton::Left => "left",
            MouseButton::Right => "right",
            MouseButton::WheelVertical => "wheel_v",
            MouseButton::WheelHorizontal => "wheel_h",
        }
    }
}

impl MouseInputKind {
    /// The value written in the `event` column.
    pub fn as_csv_value(self) -> (r: &'static str)
        ensures
            r@ == input_kind_text(self),
    {
        match self {
            MouseInputKind::Down => "mousedown",
            MouseInputKind::Up => "mouseup",
            MouseInputKind::Wheel => "wheel",
        }
    }
}

} // verus!
