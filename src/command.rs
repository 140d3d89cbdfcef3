//! The messages that drive the controller, and what it answers.

use vstd::prelude::*;
use crate::clock::TimeOfDay;
use crate::scheduler::ExtraScheduler;
use crate::strength::{Strength, ONE};
use crate::transition::Transition;
use crate::weekday::Weekday;

verus! {

/// A continuously evaluated override of the output.
///
/// `Radar` is a falling cubic pulse that repeats every `speed` milliseconds
/// of the Unix clock, shifted by `offset` milliseconds.
#[derive(Debug, Clone, Copy, PartialEq, Eq, Structural)]
pub enum Effect {
    Radar { offset: i64, speed: u64 },
}

impl Effect {
    pub open spec fn wf(self) -> bool {
        match self {
            Effect::Radar { speed, .. } => speed > 0,
        }
    }
}

/// The level of a radar pulse at Unix time `t`: with
/// `u = 1 - frac((t - offset) / speed)`, the value `u^3`, in units.
pub open spec fn radar_level(offset: int, speed: int, t: int) -> int {
    let phase = (t - offset) % speed;
    let u = ONE - phase * ONE / speed;
    u * u * u / (ONE as int * ONE as int)
}

/// The level of an effect at Unix time `t`, in units.
pub open spec fn effect_level(e: Effect, t: int) -> int {
    match e {
        Effect::Radar { offset, speed } => radar_level(offset as int, speed as int, t),
    }
}

/// A message to the controller.
#[derive(Debug)]
pub enum Command {
    SetStrength(Strength),
    SetTransition(Transition),
    ChangeDayTimer(Weekday, Option<TimeOfDay>),
    ChangeDayTimerTransition(Transition),
    AddReplaceScheduler(String, Box<ExtraScheduler>),
    RemoveScheduler(String),
    ClearAllSchedulers,
    SetEffect(Effect),
    UpdateWake,
    Finish,
}

impl Command {
    /// Whether the command may be stashed and replayed: all but
    /// `AddReplaceScheduler`, which owns a scheduler.
    pub open spec fn cloneable(self) -> bool {
        !(self is AddReplaceScheduler)
    }

    /// The well-formedness of a command other than `AddReplaceScheduler`.
    pub open spec fn plain_wf(self) -> bool {
        match self {
            Command::SetTransition(t) => t.wf(),
            Command::ChangeDayTimer(_, Some(t)) => t.wf(),
            Command::ChangeDayTimerTransition(t) => t.wf(),
            Command::SetEffect(e) => e.wf(),
            _ => true,
        }
    }

    /// Transitions within range, valid times of day, a positive effect
    /// period, and a well-formed scheduler.
    pub open spec fn wf(self) -> bool {
        match self {
            Command::AddReplaceScheduler(_, s) => s.wf(),
            _ => self.plain_wf(),
        }
    }

    /// Whether the command is well-formed, computed.
    pub fn is_valid(&self) -> (r: bool)
        ensures
            r == self.wf(),
    {
        match self {
            Command::AddReplaceScheduler(_, s) => s.is_valid(),
            _ => self.is_plain_valid(),
        }
    }

    /// Whether a command other than `AddReplaceScheduler` is well-formed,
    /// computed.
    pub fn is_plain_valid(&self) -> (r: bool)
        ensures
            r == self.plain_wf(),
    {
        match self {
            Command::SetTransition(t) => t.is_valid(),
            Command::ChangeDayTimer(_, Some(t)) => t.is_valid(),
            Command::ChangeDayTimerTransition(t) => t.is_valid(),
            Command::SetEffect(Effect::Radar { speed, .. }) => *speed > 0,
            _ => true,
        }
    }

    /// Whether the command may be stashed and replayed.
    pub fn can_clone(&self) -> (r: bool)
        ensures
            r == self.cloneable(),
    {
        match self {
            Command::AddReplaceScheduler(_, _) => false,
            _ => true,
        }
    }
}

/// A command that is known to be cloneable.
#[derive(Debug)]
pub struct ClonableCommand(Command);

impl ClonableCommand {
    #[verifier::type_invariant]
    pub closed spec fn is_cloneable(self) -> bool {
        self.0.cloneable()
    }

    /// What the invariant of a wrapped command says.
    pub proof fn lemma_cloneable(self)
        requires
            self.is_cloneable(),
        ensures
            self.command().cloneable(),
    {
    }

    /// The wrapped command.
    pub closed spec fn command(self) -> Command {
        self.0
    }

    /// Wraps `command`, unless it cannot be cloned.
    pub fn new(command: Command) -> (r: Option<Self>)
        ensures
            r is Some <==> command.cloneable(),
            r matches Some(c) ==> c.command() == command,
    {
        if command.can_clone() {
            Some(ClonableCommand(command))
        } else {
            None
        }
    }

    /// The wrapped command, borrowed.
    pub fn command_ref(&self) -> (r: &Command)
        ensures
            *r == self.command(),
            r.cloneable(),
    {
        proof {
            use_type_invariant(self);
        }
        &self.0
    }

    /// The wrapped command.
    pub fn into_inner(self) -> (r: Command)
        ensures
            r == self.command(),
            r.cloneable(),
    {
        proof {
            use_type_invariant(&self);
        }
        self.0
    }

    /// A copy of the wrapped command.
    pub fn clone_command(&self) -> (r: Command)
        ensures
            r == self.command(),
    {
        proof {
            use_type_invariant(self);
        }
        match &self.0 {
            Command::SetStrength(s) => Command::SetStrength(*s),
            Command::SetTransition(t) => Command::SetTransition(*t),
            Command::ChangeDayTimer(d, t) => Command::ChangeDayTimer(*d, *t),
            Command::ChangeDayTimerTransition(t) => Command::ChangeDayTimerTransition(*t),
            Command::RemoveScheduler(s) => Command::RemoveScheduler(s.clone()),
            Command::ClearAllSchedulers => Command::ClearAllSchedulers,
            Command::SetEffect(e) => Command::SetEffect(*e),
            Command::UpdateWake => Command::UpdateWake,
            Command::Finish => Command::Finish,
            Command::AddReplaceScheduler(_, _) => {
                assert(false);
                Command::Finish
            },
        }
    }
}

impl Clone for ClonableCommand {
    fn clone(&self) -> (r: Self)
        ensures
            r == *self,
    {
        proof {
            use_type_invariant(self);
        }
        ClonableCommand(self.clone_command())
    }
}

/// When the controller wants to be called again.
#[derive(Debug, Clone, Copy, PartialEq, Eq, Structural)]
pub enum SleepTime {
    /// At this local moment.
    To(i64),
    Forever,
}

/// What the controller asks of its owner after a step.
#[derive(Debug, Clone, Copy, PartialEq, Eq, Structural)]
pub enum Action {
    /// Sleep until the given time, then call again.
    Wait(SleepTime),
    /// Set the output to this strength.
    SetStrength(Strength),
    /// Stop.
    Break,
}


impl Effect {
    /// The level of the effect at Unix time `unix`, in units.
    pub fn level(&self, unix: i64) -> (r: u32)
        requires
            self.wf(),
        ensures
            r == effect_level(*self, unix as int),
            r <= ONE,
    {
        match *self {
            Effect::Radar { offset, speed } => {
                let x: i128 = unix as i128 - offset as i128;
                let sp: u128 = speed as u128;
                let phase: u128 = if x >= 0 {
                    (x as u128) % sp
                } else {
                    let y = ((-x - 1) as u128) % sp;
                    proof {
                        lemma_negative_mod(x as int, speed as int, y as int);
                    }
                    sp - 1 - y
                };
                proof {
                    vstd::arithmetic::div_mod::lemma_mod_bound(x as int, speed as int);
                    assert(phase * ONE < speed * ONE) by (nonlinear_arith)
                        requires phase < speed;
                    vstd::arithmetic::div_mod::lemma_div_is_ordered(phase * ONE, (speed as int) * ONE - 1, speed as int);
                    vstd::arithmetic::div_mod::lemma_fundamental_div_mod((speed as int) * ONE - 1, speed as int);
                    vstd::arithmetic::div_mod::lemma_mod_bound((speed as int) * ONE - 1, speed as int);
                    assert(((speed as int) * ONE - 1) / (speed as int) < ONE) by (nonlinear_arith)
                        requires
                            (speed as int) * ONE - 1 == (speed as int) * (((speed as int) * ONE - 1) / (speed as int))
                                + ((speed as int) * ONE - 1) % (speed as int),
                            0 <= ((speed as int) * ONE - 1) % (speed as int),
                            speed > 0;
                    vstd::arithmetic::mul::lemma_mul_nonnegative(phase as int, ONE as int);
                    vstd::arithmetic::div_mod::lemma_div_pos_is_pos(phase * ONE, speed as int);
                }
                let u: u128 = (ONE as u128) - phase * (ONE as u128) / sp;
                proof {
                    assert(u * u <= ONE * ONE) by (nonlinear_arith)
                        requires u <= ONE;
                    assert(u * u * u <= ONE * ONE * ONE) by (nonlinear_arith)
                        requires u <= ONE;
                    vstd::arithmetic::div_mod::lemma_div_is_ordered(u * u * u, (ONE as int) * ONE * ONE, (ONE as int) * ONE);
                    vstd::arithmetic::div_mod::lemma_div_by_multiple(ONE as int, (ONE as int) * ONE);
                    assert((ONE as int) * ONE * ONE == (ONE as int) * ((ONE as int) * ONE)) by (nonlinear_arith);
                }
                (u * u * u / ((ONE as u128) * (ONE as u128))) as u32
            },
        }
    }
}

/// The remainder of a negative `x` modulo `s`, from that of `-x - 1`.
proof fn lemma_negative_mod(x: int, s: int, y: int)
    requires
        x < 0,
        s > 0,
        y == (-x - 1) % s,
    ensures
        x % s == s - 1 - y,
{
    vstd::arithmetic::div_mod::lemma_fundamental_div_mod(-x - 1, s);
    vstd::arithmetic::div_mod::lemma_mod_bound(-x - 1, s);
    let q = (-x - 1) / s;
    assert(x == s * (-q - 1) + (s - 1 - y)) by (nonlinear_arith)
        requires -x - 1 == s * q + y;
    vstd::arithmetic::div_mod::lemma_fundamental_div_mod_converse(x, s, -q - 1, s - 1 - y);
}

} // verus!
