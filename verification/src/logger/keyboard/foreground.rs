//! Whether the target application owns the foreground window.
use vstd::prelude::*;
use crate::applications::AppWindow;

verus! {

/// Compares the foreground window's process with the target's.
#[derive(Debug, Clone, Copy)]
pub struct ForegroundResolver {
    target_process_id: u32,
}

impl ForegroundResolver {
    /// A resolver for the process of `target`.
    pub fn new(target: &AppWindow) -> (r: Self)
        ensures
            r.target_process_id() == target.process_id,
    {
        ForegroundResolver { target_process_id: target.process_id }
    }

    pub closed spec fn target_process_id(&self) -> u32 {
        self.target_process_id
    }

    /// Whether the target is in the foreground, given the process id that
    /// owns the foreground window (`None` when there is no foreground
    /// window or its process id reads as zero).
    pub fn is_target_foreground(&self, foreground_process_id: Option<u32>) -> (r: bool)
        ensures
            r == (foreground_process_id == Some(self.target_process_id())),
    {
        match foreground_process_id {
            Some(pid) => pid == self.target_process_id,
            None => false,
        }
    }
}

/// The foreground process id as the window system reports it: zero means none.
pub fn foreground_process_from_raw(process_id: u32) -> (r: Option<u32>)
    ensures
        r == (if process_id == 0 { None::<u32> } else { Some(process_id) }),
{
    if process_id == 0 {
        None
    } else {
        Some(process_id)
    }
}

} // verus!
