//! Keeps the mouse events that happen over the target application and
//! moves them into its client coordinates.
use vstd::prelude::*;
use super::model::{
    ClientPoint, MouseInputEvent, MouseMoveEvent, RawMouseEvent, RawMouseEventKind,
    ResolvedMouseEvent,
};
use crate::applications::AppWindow;

verus! {

/// The target window and its process.
#[derive(Debug, Clone, Copy)]
pub struct TargetResolver {
    target_hwnd: isize,
    target_process_id: u32,
}

/// The resolved form of `event`: dropped unless there is a window under the
/// pointer and it belongs to the target process, and the position maps into
/// the target's client area; otherwise the same event at the client position.
pub open spec fn spec_resolve(
    target_process_id: u32,
    event: RawMouseEvent,
    process_under_pointer: Option<u32>,
    client_position: Option<ClientPoint>,
) -> Option<ResolvedMouseEvent> {
    if process_under_pointer != Some(target_process_id) {
        None
    } else {
        match client_position {
            None => None,
            Some(position) => match event.kind {
                RawMouseEventKind::Move => Some(ResolvedMouseEvent::Move(MouseMoveEvent { position })),
                RawMouseEventKind::Input { button, kind, delta } => Some(
                    ResolvedMouseEvent::Input(MouseInputEvent { position, button, kind, delta }),
                ),
            },
        }
    }
}

impl TargetResolver {
    /// A resolver for `target`.
    pub fn new(target: &AppWindow) -> (r: Self)
        ensures
            r.target_hwnd() == target.hwnd,
            r.target_process_id() == target.process_id,
    {
        TargetResolver { target_hwnd: target.hwnd, target_process_id: target.process_id }
    }

    pub closed spec fn target_hwnd(&self) -> isize {
        self.target_hwnd
    }

    pub closed spec fn target_process_id(&self) -> u32 {
        self.target_process_id
    }

    /// The window whose client coordinates events are reported in.
    pub fn hwnd(&self) -> (r: isize)
        ensures
            r == self.target_hwnd(),
    {
        self.target_hwnd
    }

    /// Resolves `event`, given the process that owns the top-level window
    /// under the pointer (`None` when there is no window there) and the
    /// pointer position in the target's client coordinates (`None` when it
    /// cannot be mapped).
    pub fn resolve(
        &self,
        event: RawMouseEvent,
        process_under_pointer: Option<u32>,
        client_position: Option<ClientPoint>,
    ) -> (r: Option<ResolvedMouseEvent>)
        ensures
            r == spec_resolve(self.target_process_id(), event, process_under_pointer, client_position),
    {
        match process_under_pointer {
            Some(pid) => {
                if pid != self.target_process_id {
                    return None;
                }
            },
            None => {
                return None;
            },
        }
        let position = match client_position {
            Some(p) => p,
            None => {
                return None;
            },
        };
        match event.kind {
            RawMouseEventKind::Move => Some(ResolvedMouseEvent::Move(MouseMoveEvent { position })),
            RawMouseEventKind::Input { button, kind, delta } => Some(
                ResolvedMouseEvent::Input(MouseInputEvent { position, button, kind, delta }),
            ),
        }
    }
}

} // verus!
