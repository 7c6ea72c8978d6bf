//! The switch that turns throttle synchronisation on and off.
//!
//! The switch is shared between the menu, which sets it, and the per-frame
//! correction, which reads it. The frame must never wait for the menu: it reads
//! without blocking, and a reading that could not be had counts as off.

use vstd::prelude::*;

verus! {

/// Whether synchronisation is on, given the outcome of a non-blocking read. A
/// read that could not be had (`None`) counts as off.
pub open spec fn toggle_enabled(attempt: Option<bool>) -> bool {
    attempt == Some(true)
}

/// The throttle synchronisation toggle. It is on until the user switches it off.
#[derive(Clone, Copy, PartialEq, Eq, Structural, Debug)]
pub struct SyncThrottles {
    pub enabled: bool,
}

impl SyncThrottles {
    /// The toggle as it is at start-up: on.
    pub fn new() -> (r: Self)
        ensures
            r.enabled,
    {
        SyncThrottles { enabled: true }
    }

    /// Whether synchronisation is on.
    pub fn get(&self) -> (r: bool)
        ensures
            r == self.enabled,
    {
        self.enabled
    }

    /// Switches synchronisation on or off.
    pub fn set(&mut self, enabled: bool)
        ensures
            final(self).enabled == enabled,
    {
        self.enabled = enabled;
    }

    /// Whether synchronisation is on, given the outcome of a non-blocking read.
    pub fn observed(attempt: Option<bool>) -> (r: bool)
        ensures
            r == toggle_enabled(attempt),
    {
        match attempt {
            Some(enabled) => enabled,
            None => false,
        }
    }
}

} // verus!
