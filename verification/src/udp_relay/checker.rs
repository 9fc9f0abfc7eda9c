//! The throttle of a dispatcher's keep-alive signal.

use vstd::prelude::*;

verus! {

/// A periodic check that runs only after it was asked for. While it is not
/// armed, waiting for it never ends; once armed, the wait ends with the next
/// tick of its period and disarms it.
#[derive(Clone, Copy, Debug, PartialEq, Eq, Structural)]
pub struct Checker {
    /// Seconds between two ticks.
    pub period_secs: u64,
    /// Whether a check was asked for since the last one ran.
    pub need_check: bool,
}

impl Checker {
    /// This checker, armed.
    pub open spec fn armed(self) -> Checker {
        Checker { need_check: true, ..self }
    }

    /// This checker, not armed.
    pub open spec fn disarmed(self) -> Checker {
        Checker { need_check: false, ..self }
    }

    /// A checker of the given period that is not armed.
    pub fn new(period_secs: u64) -> (c: Checker)
        ensures
            c == (Checker { period_secs, need_check: false }),
    {
        Checker { period_secs, need_check: false }
    }

    /// Whether the next tick ends a wait.
    pub fn is_armed(&self) -> (b: bool)
        ensures
            b == self.need_check,
    {
        self.need_check
    }

    /// Asks for a check at the next tick.
    pub fn activate(&mut self)
        ensures
            *final(self) == old(self).armed(),
    {
        if !self.need_check {
            self.need_check = true;
        }
    }

    /// Called when a tick has passed: says whether a check is due, and
    /// disarms the checker. A checker that is not armed has nothing due.
    pub fn wait(&mut self) -> (due: bool)
        ensures
            due == old(self).need_check,
            *final(self) == old(self).disarmed(),
    {
        let due = self.need_check;
        self.need_check = false;
        due
    }
}

} // verus!
