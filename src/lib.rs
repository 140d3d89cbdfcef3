//! A single-output intensity controller driven by weekly alarms, extra
//! schedulers and interactive commands, with every decision verified.
//!
//! Strengths are counted in units of `1 / ONE`, durations and moments in
//! milliseconds; wall-clock moments are local.

pub mod clock;
pub mod command;
pub mod data;
pub mod runner;
pub mod scheduler;
pub mod state;
pub mod strength;
pub mod text;
pub mod transition;
pub mod weekday;

pub use clock::{parse_time, Now, TimeOfDay};
pub use command::{Action, ClonableCommand, Command, Effect, SleepTime};
pub use scheduler::{At, Common, EveryDay, EveryWeek, ExtraScheduler, Keep, Next, Scheduler, WeekScheduler};
pub use state::{SharedState, State};
pub use strength::{Strength, ONE};
pub use transition::{Transition, TransitionInterpolation, TransitionState, TransitionStateOut};
pub use weekday::{weekday_to_lowercase_str, Weekday};
