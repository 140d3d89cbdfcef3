//! The decisions of the loop that owns the output: how long to wait for
//! the next command, and what to do to the output device after each step.

use vstd::prelude::*;
use crate::command::{Action, SleepTime};
use crate::strength::Strength;

verus! {

/// What the loop is waiting for.
#[derive(Debug, Clone, Copy, PartialEq, Eq, Structural)]
pub enum Sleeping {
    /// A deadline on the local clock.
    To(i64),
    /// The next rendering tick.
    Wake,
    Forever,
}

/// How long to wait for a command before stepping the controller.
#[derive(Debug, Clone, Copy, PartialEq, Eq, Structural)]
pub enum WaitFor {
    /// At most this many milliseconds.
    Millis(u64),
    /// One rendering tick.
    Tick,
    Forever,
}

/// What to do to the output device after a step, in this order: disable
/// it, enable it, set it; then stop if asked.
#[derive(Debug, Clone, Copy, PartialEq, Eq, Structural)]
pub struct OutputOps {
    pub disable: bool,
    pub enable: bool,
    pub set: Option<Strength>,
    pub stop: bool,
}

/// How early before a deadline the loop wakes, in milliseconds.
pub const WAKE_MARGIN: i64 = 2;

/// The wait before a deadline `to`, seen at `now`: the time left less the
/// margin, and none once that is past.
pub open spec fn wait_before(to: int, now: int) -> int {
    if to - now - WAKE_MARGIN > 0 {
        to - now - WAKE_MARGIN
    } else {
        0
    }
}

/// Whether the output was last set to zero.
pub open spec fn is_off_opt(e: Option<Strength>) -> bool {
    match e {
        Some(s) => s@ == 0,
        None => false,
    }
}

/// The loop's memory between steps: what it waits for, and the last
/// strength set while the output is enabled.
#[derive(Debug, Clone, Copy, PartialEq, Eq, Structural)]
pub struct Runner {
    pub sleeping: Sleeping,
    pub enabled: Option<Strength>,
}

impl Runner {
    /// A loop that steps at once, with the output not yet enabled.
    pub fn new() -> (r: Self)
        ensures
            r.sleeping == Sleeping::Wake,
            r.enabled is None,
    {
        Runner { sleeping: Sleeping::Wake, enabled: None }
    }

    /// How long to wait for a command at local moment `now`.
    pub fn wait(&self, now: i64) -> (r: WaitFor)
        ensures
            self.sleeping matches Sleeping::To(t) ==> r == WaitFor::Millis(wait_before(t as int, now as int) as u64),
            self.sleeping == Sleeping::Wake ==> r == WaitFor::Tick,
            self.sleeping == Sleeping::Forever ==> r == WaitFor::Forever,
    {
        match self.sleeping {
            Sleeping::To(t) => {
                let left: i128 = t as i128 - now as i128 - WAKE_MARGIN as i128;
                if left > 0 {
                    WaitFor::Millis(left as u64)
                } else {
                    WaitFor::Millis(0)
                }
            },
            Sleeping::Wake => WaitFor::Tick,
            Sleeping::Forever => WaitFor::Forever,
        }
    }

    /// A command arrived: the next step renders at once.
    pub fn on_command(&mut self)
        ensures
            final(self).sleeping == Sleeping::Wake,
            final(self).enabled == old(self).enabled,
    {
        self.sleeping = Sleeping::Wake;
    }

    /// Follows a step's action: a wait disables an output left at zero; a
    /// strength enables the output if it is off, then sets it; a break
    /// stops.
    pub fn on_action(&mut self, action: Action) -> (r: OutputOps)
        ensures
            match action {
                Action::Wait(w) => {
                    &&& r.disable == (w is To && is_off_opt(old(self).enabled))
                    &&& !r.enable && r.set is None && !r.stop
                    &&& final(self).enabled == (if r.disable { None } else { old(self).enabled })
                    &&& final(self).sleeping == match w {
                        SleepTime::To(t) => Sleeping::To(t),
                        SleepTime::Forever => Sleeping::Forever,
                    }
                },
                Action::SetStrength(s) => {
                    &&& r.enable == (old(self).enabled is None || is_off_opt(old(self).enabled))
                    &&& !r.disable && r.set == Some(s) && !r.stop
                    &&& final(self).enabled == Some(s)
                    &&& final(self).sleeping == Sleeping::Wake
                },
                Action::Break => {
                    &&& !r.disable && !r.enable && r.set is None && r.stop
                    &&& *final(self) == *old(self)
                },
            },
    {
        match action {
            Action::Wait(SleepTime::To(t)) => {
                let disable = match self.enabled {
                    Some(s) => s.is_off(),
                    None => false,
                };
                if disable {
                    self.enabled = None;
                }
                self.sleeping = Sleeping::To(t);
                OutputOps { disable, enable: false, set: None, stop: false }
            },
            Action::Wait(SleepTime::Forever) => {
                self.sleeping = Sleeping::Forever;
                OutputOps { disable: false, enable: false, set: None, stop: false }
            },
            Action::SetStrength(s) => {
                let enable = match self.enabled {
                    Some(e) => e.is_off(),
                    None => true,
                };
                self.enabled = Some(s);
                self.sleeping = Sleeping::Wake;
                OutputOps { disable: false, enable, set: Some(s), stop: false }
            },
            Action::Break => OutputOps { disable: false, enable: false, set: None, stop: true },
        }
    }
}

} // verus!
