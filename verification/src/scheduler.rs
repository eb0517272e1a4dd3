//! Whether a background task keeps running, and how signals change that.
use vstd::prelude::*;
use crate::consts::Signal;

verus! {

/// The running state of a background task and the signal it exits on.
pub struct ScheduleMixin {
    pub is_alive: bool,
    pub exit_signal: Signal,
}

impl ScheduleMixin {
    /// A task that is not running yet.
    pub fn new(exit_signal: Signal) -> (r: Self)
        ensures
            r.is_alive == false,
            r.exit_signal == exit_signal,
    {
        ScheduleMixin { is_alive: false, exit_signal }
    }

    /// Handles `signal`: a shutdown stops the task, anything else leaves it
    /// as it is.
    pub fn handle(&mut self, signal: Signal)
        ensures
            final(self).is_alive == (old(self).is_alive && signal != Signal::SignalShutdown),
            final(self).exit_signal == old(self).exit_signal,
    {
        if let Signal::SignalShutdown = signal {
            self.is_alive = false;
        }
    }

    pub fn set_active(&mut self, active: bool)
        ensures
            final(self).is_alive == active,
            final(self).exit_signal == old(self).exit_signal,
    {
        self.is_alive = active;
    }

    pub fn is_active(&self) -> (r: bool)
        ensures
            r == self.is_alive,
    {
        self.is_alive
    }
}

} // verus!
