//! The file-picker guard: a request-in-flight flag plus a minimum re-open
//! cooldown, so that rapid repeated triggers never raise duplicate dialogs.
//! A refused request is ignored silently; it is no error a user sees.
use vstd::prelude::*;

verus! {

/// The shortest time between two picker requests, in milliseconds.
pub const DIALOG_COOLDOWN_MS: u64 = 500;

/// The state of the one picker the application may have outstanding.
pub struct DialogGate {
    pub last_request_ms: u64,
    pub in_flight: bool,
}

impl DialogGate {
    /// A fresh gate: nothing outstanding, nothing on cooldown.
    pub fn new() -> (r: DialogGate)
        ensures
            !r.in_flight,
            r.last_request_ms == 0,
    {
        DialogGate { last_request_ms: 0, in_flight: false }
    }

    /// Ask to open the picker at time `now_ms` (a monotonic clock, so time
    /// never runs backwards past the last request). The picker opens only
    /// when the cooldown has elapsed and none is outstanding; the cooldown
    /// restarts whenever it had elapsed, opened or not.
    pub fn request(&mut self, now_ms: u64) -> (r: bool)
        requires
            old(self).last_request_ms <= now_ms,
        ensures
            r == (now_ms - old(self).last_request_ms > DIALOG_COOLDOWN_MS
                && !old(self).in_flight),
            final(self).in_flight == (old(self).in_flight || r),
            final(self).last_request_ms == (
                if now_ms - old(self).last_request_ms > DIALOG_COOLDOWN_MS {
                    now_ms
                } else {
                    old(self).last_request_ms
                }
            ),
            final(self).last_request_ms <= now_ms,
    {
        if now_ms - self.last_request_ms > DIALOG_COOLDOWN_MS {
            self.last_request_ms = now_ms;
            if !self.in_flight {
                self.in_flight = true;
                return true;
            }
        }
        false
    }

    /// The outstanding picker handed back its result (or was dismissed).
    pub fn complete(&mut self)
        ensures
            !final(self).in_flight,
            final(self).last_request_ms == old(self).last_request_ms,
    {
        self.in_flight = false;
    }
}

} // verus!
