//! The records exchanged with the outside (HTTP bodies, saved state), with
//! times in milliseconds and strengths in units, and their conversion to
//! and from the controller's types.

use vstd::prelude::*;
use vstd::string::StringExecFns;
use crate::strength::{clamp_units, Strength, ONE};
use crate::text::{decimal_from_text, decimal_text, format_decimal, lemma_decimal_round_trip, parse_decimal, str_equals};
use crate::transition::{Transition, TransitionInterpolation, MAX_SPAN};
use crate::clock::{
    format_time, hms_from_text, lemma_text_time_round_trip, parse_time, parse_time_seconds, time_from_text,
    time_text, TimeOfDay,
};
use crate::scheduler::{At, Common, EveryDay, EveryWeek, ExtraScheduler, WeekScheduler};
use crate::command::{ClonableCommand, Command, Effect};
use crate::clock::{day_from_text, parse_date, DAY_MS};
use crate::state::SharedState;
use crate::weekday::{day_at, day_name, Weekday};

verus! {

/// The wire name of an interpolation kind.
pub open spec fn kind_name(i: TransitionInterpolation) -> Seq<char> {
    match i {
        TransitionInterpolation::Linear => "linear"@,
        TransitionInterpolation::Sine => "sine"@,
        TransitionInterpolation::LinearToAndBack(_) => "linear-extra"@,
        TransitionInterpolation::SineToAndBack(_) => "sine-extra"@,
    }
}

/// A multiplier read from its text: a positive count of millionths that
/// fits in 32 bits.
pub open spec fn multiplier_from_text(s: Seq<char>) -> Option<u32> {
    match decimal_from_text(s) {
        Some(v) => if 0 < v <= u32::MAX {
            Some(v as u32)
        } else {
            None
        },
        None => None,
    }
}

/// The interpolation named `kind`, with its multiplier (for the "-extra"
/// kinds) read from the single extra.
pub open spec fn interpolation_from_text(kind: Seq<char>, extras: Seq<Seq<char>>) -> Option<TransitionInterpolation> {
    if kind == "linear"@ {
        Some(TransitionInterpolation::Linear)
    } else if kind == "sine"@ {
        Some(TransitionInterpolation::Sine)
    } else if kind == "linear-extra"@ && extras.len() == 1 && multiplier_from_text(extras[0]) is Some {
        Some(TransitionInterpolation::LinearToAndBack(multiplier_from_text(extras[0])->0))
    } else if kind == "sine-extra"@ && extras.len() == 1 && multiplier_from_text(extras[0]) is Some {
        Some(TransitionInterpolation::SineToAndBack(multiplier_from_text(extras[0])->0))
    } else {
        None
    }
}

/// The extras that carry an interpolation's multiplier.
pub open spec fn extras_text(i: TransitionInterpolation) -> Seq<Seq<char>> {
    match i.multiplier() {
        Some(k) => seq![decimal_text(k as int)],
        None => seq![],
    }
}

/// The characters of each string.
pub open spec fn texts(v: Seq<String>) -> Seq<Seq<char>> {
    v.map_values(|s: String| s@)
}

impl TransitionInterpolation {
    /// The wire name of the kind.
    pub fn as_str(&self) -> (r: &'static str)
        ensures
            r@ == kind_name(*self),
    {
        match self {
            TransitionInterpolation::Linear => "linear",
            TransitionInterpolation::Sine => "sine",
            TransitionInterpolation::LinearToAndBack(_) => "linear-extra",
            TransitionInterpolation::SineToAndBack(_) => "sine-extra",
        }
    }

    /// Reads an interpolation from its kind name and extras.
    pub fn from_str(string: &str, extras: &Vec<String>) -> (r: Option<Self>)
        ensures
            r == interpolation_from_text(string@, texts(extras@)),
    {
        proof {
            reveal_strlit("linear");
            reveal_strlit("sine");
            reveal_strlit("linear-extra");
            reveal_strlit("sine-extra");
        }
        if str_equals(string, "linear") {
            return Some(TransitionInterpolation::Linear);
        }
        if str_equals(string, "sine") {
            return Some(TransitionInterpolation::Sine);
        }
        let linear = str_equals(string, "linear-extra");
        let sine = str_equals(string, "sine-extra");
        if (!linear && !sine) || extras.len() != 1 {
            return None;
        }
        let k = match parse_decimal(extras[0].as_str()) {
            Some(v) => if 0 < v && v <= u32::MAX as u64 {
                v as u32
            } else {
                return None;
            },
            None => return None,
        };
        if linear {
            Some(TransitionInterpolation::LinearToAndBack(k))
        } else {
            Some(TransitionInterpolation::SineToAndBack(k))
        }
    }

    /// Appends the extras that carry the multiplier, if there is one.
    pub fn apply_extras(&self, extras: &mut Vec<String>)
        ensures
            texts(final(extras)@) == texts(old(extras)@) + extras_text(*self),
    {
        match self {
            TransitionInterpolation::Linear | TransitionInterpolation::Sine => {
                assert(texts(final(extras)@) =~= texts(old(extras)@) + extras_text(*self));
            },
            TransitionInterpolation::LinearToAndBack(k) | TransitionInterpolation::SineToAndBack(k) => {
                extras.push(format_decimal(*k));
                assert(texts(final(extras)@) =~= texts(old(extras)@) + extras_text(*self));
            },
        }
    }
}

/// A transition as it travels on the wire: strengths in units (clamped
/// when read), the duration in milliseconds, the kind name and its extras.
#[derive(Debug, Clone)]
pub struct TransitionData {
    pub from: i64,
    pub to: i64,
    pub time: u64,
    pub interpolation: String,
    pub extras: Vec<String>,
}

impl TransitionData {
    /// Whether `t` is what this record reads as.
    pub open spec fn reads_as(self, t: Transition) -> bool {
        &&& t.from@ == clamp_units(self.from as int)
        &&& t.to@ == clamp_units(self.to as int)
        &&& t.time == self.time
        &&& Some(t.interpolation) == interpolation_from_text(self.interpolation@, texts(self.extras@))
    }

    /// Whether the record names a transition.
    pub open spec fn readable(self) -> bool {
        self.time <= MAX_SPAN && interpolation_from_text(self.interpolation@, texts(self.extras@)) is Some
    }

    /// Whether this record is what writing `t` gives.
    pub open spec fn written_from(self, t: Transition) -> bool {
        &&& self.from == t.from@
        &&& self.to == t.to@
        &&& self.time == t.time
        &&& self.interpolation@ == kind_name(t.interpolation)
        &&& texts(self.extras@) == extras_text(t.interpolation)
    }

    /// Reads the transition, if the kind and extras name one and the
    /// duration is within range.
    pub fn to_transition(&self) -> (r: Option<Transition>)
        ensures
            r is Some <==> self.readable(),
            r matches Some(t) ==> self.reads_as(t) && t.wf(),
    {
        let from = Strength::new_clamped(self.from);
        let to = Strength::new_clamped(self.to);
        if self.time > MAX_SPAN {
            return None;
        }
        match TransitionInterpolation::from_str(self.interpolation.as_str(), &self.extras) {
            Some(interpolation) => Some(Transition { from, to, time: self.time, interpolation }),
            None => None,
        }
    }

    /// Writes a transition.
    pub fn from_transition(transition: &Transition) -> (r: Self)
        ensures
            r.written_from(*transition),
    {
        let mut extras: Vec<String> = Vec::new();
        transition.interpolation.apply_extras(&mut extras);
        assert(texts(extras@) =~= extras_text(transition.interpolation));
        TransitionData {
            from: transition.from.into_inner() as i64,
            to: transition.to.into_inner() as i64,
            time: transition.time,
            interpolation: String::from_str(transition.interpolation.as_str()),
            extras,
        }
    }
}

/// Reading a well-formed transition record and writing the transition back
/// gives the same record, up to the text of the multiplier, which reads as
/// the same number. Well-formed: strengths within `0..=ONE`, and exactly
/// one extra for the "-extra" kinds and none for the others.
pub proof fn lemma_transition_data_round_trip(d: TransitionData, t: Transition, w: TransitionData)
    requires
        d.reads_as(t),
        0 <= d.from <= ONE,
        0 <= d.to <= ONE,
        d.extras@.len() == (if d.interpolation@ == "linear-extra"@ || d.interpolation@ == "sine-extra"@ { 1int } else { 0int }),
        w.written_from(t),
    ensures
        w.from == d.from,
        w.to == d.to,
        w.time == d.time,
        w.interpolation@ == d.interpolation@,
        w.extras@.len() == d.extras@.len(),
        forall|i: int| 0 <= i < d.extras@.len() ==> decimal_from_text(#[trigger] w.extras@[i]@) == decimal_from_text(d.extras@[i]@),
{
    reveal_strlit("linear");
    reveal_strlit("sine");
    reveal_strlit("linear-extra");
    reveal_strlit("sine-extra");
    assert("linear"@.len() == 6 && "sine"@.len() == 4);
    assert("linear-extra"@.len() == 12 && "sine-extra"@.len() == 10);
    assert(texts(w.extras@).len() == w.extras@.len());
    assert(texts(d.extras@).len() == d.extras@.len());
    match t.interpolation.multiplier() {
        Some(k) => {
            assert(d.extras@.len() == 1);
            assert(extras_text(t.interpolation).len() == 1);
            assert(w.extras@.len() == 1);
            lemma_decimal_round_trip(k as int);
            assert(texts(w.extras@)[0] == w.extras@[0]@);
            assert(texts(d.extras@)[0] == d.extras@[0]@);
            assert(multiplier_from_text(d.extras@[0]@) == Some(k));
        },
        None => {
            assert(d.extras@.len() == 0);
            assert(extras_text(t.interpolation).len() == 0);
        },
    }
}


/// The time written for a day, if it has one.
pub open spec fn time_text_of(t: Option<TimeOfDay>) -> Option<Seq<char>> {
    match t {
        Some(t) => Some(time_text(t)),
        None => None,
    }
}

/// The characters of an optional string.
pub open spec fn opt_text(s: Option<String>) -> Option<Seq<char>> {
    match s {
        Some(s) => Some(s@),
        None => None,
    }
}

/// An optional `HH:MM:SS` text read as an optional time; `None` when the
/// text is there but does not read.
pub open spec fn day_time_from_text(s: Option<Seq<char>>) -> Option<Option<TimeOfDay>> {
    match s {
        None => Some(None),
        Some(s) => match hms_from_text(s) {
            Some(t) => Some(Some(t)),
            None => None,
        },
    }
}

fn read_day_time(s: &Option<String>) -> (r: Option<Option<TimeOfDay>>)
    ensures
        r == day_time_from_text(opt_text(*s)),
        r matches Some(Some(t)) ==> t.wf(),
{
    match s {
        None => Some(None),
        Some(text) => match parse_time_seconds(text.as_str()) {
            Some(t) => Some(Some(t)),
            None => None,
        },
    }
}

fn write_day_time(t: &Option<TimeOfDay>) -> (r: Option<String>)
    requires
        t matches Some(t) ==> t.wf(),
    ensures
        opt_text(r) == time_text_of(*t),
{
    match t {
        Some(t) => Some(format_time(t)),
        None => None,
    }
}

/// The weekly plan as saved: each day's time as `HH:MM:SS` text, and the
/// transition.
#[derive(Debug)]
pub struct WeekSchedulerData {
    pub mon: Option<String>,
    pub tue: Option<String>,
    pub wed: Option<String>,
    pub thu: Option<String>,
    pub fri: Option<String>,
    pub sat: Option<String>,
    pub sun: Option<String>,
    pub transition: TransitionData,
}

impl WeekSchedulerData {
    /// The text saved for day `d`.
    pub open spec fn day(self, d: Weekday) -> Option<String> {
        match d {
            Weekday::Mon => self.mon,
            Weekday::Tue => self.tue,
            Weekday::Wed => self.wed,
            Weekday::Thu => self.thu,
            Weekday::Fri => self.fri,
            Weekday::Sat => self.sat,
            Weekday::Sun => self.sun,
        }
    }

    /// The record with the text of day `d` replaced.
    pub open spec fn with_day(self, d: Weekday, t: Option<String>) -> Self {
        match d {
            Weekday::Mon => WeekSchedulerData { mon: t, ..self },
            Weekday::Tue => WeekSchedulerData { tue: t, ..self },
            Weekday::Wed => WeekSchedulerData { wed: t, ..self },
            Weekday::Thu => WeekSchedulerData { thu: t, ..self },
            Weekday::Fri => WeekSchedulerData { fri: t, ..self },
            Weekday::Sat => WeekSchedulerData { sat: t, ..self },
            Weekday::Sun => WeekSchedulerData { sun: t, ..self },
        }
    }

    /// The text saved for `day`, to change in place.
    pub fn get_mut(&mut self, day: Weekday) -> (r: &mut Option<String>)
        ensures
            *r == old(self).day(day),
            *final(self) == old(self).with_day(day, *final(r)),
    {
        match day {
            Weekday::Mon => &mut self.mon,
            Weekday::Tue => &mut self.tue,
            Weekday::Wed => &mut self.wed,
            Weekday::Thu => &mut self.thu,
            Weekday::Fri => &mut self.fri,
            Weekday::Sat => &mut self.sat,
            Weekday::Sun => &mut self.sun,
        }
    }

    /// Writes a weekly plan.
    pub fn from_scheduler(scheduler: &WeekScheduler) -> (r: Self)
        requires
            scheduler.wf(),
        ensures
            forall|d: Weekday| #[trigger] opt_text(r.day(d)) == time_text_of(scheduler.day(d)),
            r.transition.written_from(scheduler.transition),
    {
        assert(scheduler.day(Weekday::Mon) == scheduler.mon);
        assert(scheduler.day(Weekday::Tue) == scheduler.tue);
        assert(scheduler.day(Weekday::Wed) == scheduler.wed);
        assert(scheduler.day(Weekday::Thu) == scheduler.thu);
        assert(scheduler.day(Weekday::Fri) == scheduler.fri);
        assert(scheduler.day(Weekday::Sat) == scheduler.sat);
        assert(scheduler.day(Weekday::Sun) == scheduler.sun);
        let r = WeekSchedulerData {
            mon: write_day_time(&scheduler.mon),
            tue: write_day_time(&scheduler.tue),
            wed: write_day_time(&scheduler.wed),
            thu: write_day_time(&scheduler.thu),
            fri: write_day_time(&scheduler.fri),
            sat: write_day_time(&scheduler.sat),
            sun: write_day_time(&scheduler.sun),
            transition: TransitionData::from_transition(&scheduler.transition),
        };
        assert forall|d: Weekday| #[trigger] opt_text(r.day(d)) == time_text_of(scheduler.day(d)) by {
            match d {
                Weekday::Mon => {},
                Weekday::Tue => {},
                Weekday::Wed => {},
                Weekday::Thu => {},
                Weekday::Fri => {},
                Weekday::Sat => {},
                Weekday::Sun => {},
            }
        }
        r
    }

    /// Reads the weekly plan, if every time and the transition read; the
    /// plan has not fired yet.
    pub fn to_scheduler(&self) -> (r: Option<WeekScheduler>)
        ensures
            r is Some <==> ((forall|d: Weekday| #[trigger] day_time_from_text(opt_text(self.day(d))) is Some)
                && self.transition.readable()),
            r matches Some(w) ==> w.wf() && w.last is None && self.transition.reads_as(w.transition)
                && forall|d: Weekday| #[trigger] day_time_from_text(opt_text(self.day(d))) == Some(w.day(d)),
    {
        let transition = match self.transition.to_transition() {
            Some(t) => t,
            None => return None,
        };
        let mon = read_day_time(&self.mon);
        let tue = read_day_time(&self.tue);
        let wed = read_day_time(&self.wed);
        let thu = read_day_time(&self.thu);
        let fri = read_day_time(&self.fri);
        let sat = read_day_time(&self.sat);
        let sun = read_day_time(&self.sun);
        match (mon, tue, wed, thu, fri, sat, sun) {
            (Some(mon), Some(tue), Some(wed), Some(thu), Some(fri), Some(sat), Some(sun)) => {
                let w = WeekScheduler { mon, tue, wed, thu, fri, sat, sun, transition, last: None };
                assert forall|d: Weekday| #[trigger] day_time_from_text(opt_text(self.day(d))) == Some(w.day(d)) by {
                    match d {
                        Weekday::Mon => {},
                        Weekday::Tue => {},
                        Weekday::Wed => {},
                        Weekday::Thu => {},
                        Weekday::Fri => {},
                        Weekday::Sat => {},
                        Weekday::Sun => {},
                    }
                }
                Some(w)
            },
            _ => {
                assert(!((forall|d: Weekday| #[trigger] day_time_from_text(opt_text(self.day(d))) is Some))) by {
                    if mon is None {
                        assert(day_time_from_text(opt_text(self.day(Weekday::Mon))) is None);
                    } else if tue is None {
                        assert(day_time_from_text(opt_text(self.day(Weekday::Tue))) is None);
                    } else if wed is None {
                        assert(day_time_from_text(opt_text(self.day(Weekday::Wed))) is None);
                    } else if thu is None {
                        assert(day_time_from_text(opt_text(self.day(Weekday::Thu))) is None);
                    } else if fri is None {
                        assert(day_time_from_text(opt_text(self.day(Weekday::Fri))) is None);
                    } else if sat is None {
                        assert(day_time_from_text(opt_text(self.day(Weekday::Sat))) is None);
                    } else {
                        assert(day_time_from_text(opt_text(self.day(Weekday::Sun))) is None);
                    }
                }
                None
            },
        }
    }
}

/// Reading a saved weekly plan and writing it back gives the same seven
/// times and the same transition record (up to the text of the multiplier,
/// which reads as the same number), for a well-formed transition record.
pub proof fn lemma_week_data_round_trip(d: WeekSchedulerData, w: WeekScheduler, back: WeekSchedulerData)
    requires
        forall|x: Weekday| #[trigger] day_time_from_text(opt_text(d.day(x))) == Some(w.day(x)),
        d.transition.reads_as(w.transition),
        0 <= d.transition.from <= ONE,
        0 <= d.transition.to <= ONE,
        d.transition.extras@.len() == (if d.transition.interpolation@ == "linear-extra"@
            || d.transition.interpolation@ == "sine-extra"@ { 1int } else { 0int }),
        forall|x: Weekday| #[trigger] opt_text(back.day(x)) == time_text_of(w.day(x)),
        back.transition.written_from(w.transition),
    ensures
        forall|x: Weekday| #[trigger] opt_text(back.day(x)) == opt_text(d.day(x)),
        back.transition.from == d.transition.from,
        back.transition.to == d.transition.to,
        back.transition.time == d.transition.time,
        back.transition.interpolation@ == d.transition.interpolation@,
        back.transition.extras@.len() == d.transition.extras@.len(),
        forall|i: int| 0 <= i < d.transition.extras@.len() ==> decimal_from_text(
            #[trigger] back.transition.extras@[i]@,
        ) == decimal_from_text(d.transition.extras@[i]@),
{
    lemma_transition_data_round_trip(d.transition, w.transition, back.transition);
    assert forall|x: Weekday| #[trigger] opt_text(back.day(x)) == opt_text(d.day(x)) by {
        assert(day_time_from_text(opt_text(d.day(x))) == Some(w.day(x)));
        match d.day(x) {
            Some(s) => {
                lemma_text_time_round_trip(s@);
            },
            None => {},
        }
    }
}

/// A request to set one day's time: the day's name, and the time as
/// `HH:MM:SS` or `HH:MM`, or none to clear it.
#[derive(Debug)]
pub struct DayData {
    pub day: String,
    pub time: Option<String>,
}

impl DayData {
    /// The day and time asked for, if both read.
    pub fn parse(&self) -> (r: Option<(Weekday, Option<TimeOfDay>)>)
        ensures
            r is Some <==> ((exists|d: Weekday| day_name(d) == self.day@)
                && (self.time matches Some(t) ==> time_from_text(t@) is Some)),
            r matches Some((d, t)) ==> day_name(d) == self.day@ && (match self.time {
                Some(s) => t == time_from_text(s@),
                None => t is None,
            }) && (t matches Some(x) ==> x.wf()),
    {
        let day = match Weekday::from_name(self.day.as_str()) {
            Some(d) => d,
            None => return None,
        };
        let time = match &self.time {
            Some(s) => match parse_time(s.as_str()) {
                Some(t) => Some(t),
                None => return None,
            },
            None => None,
        };
        Some((day, time))
    }
}


/// A request to add a named scheduler: its kind (`at`, `every-day` or
/// `every-week`), its time of day, name, description, extras (the date
/// `YYYY-MM-DD` for `at`, the day name for `every-week`) and the
/// transition it plays.
#[derive(Debug, Clone)]
pub struct AddSchedulerData {
    pub kind: String,
    pub time: String,
    pub name: String,
    pub description: String,
    pub extras: Vec<String>,
    pub transition: TransitionData,
}

/// Whether `s` is the scheduler that request `d` asks for, firing `t`.
pub open spec fn scheduler_for(d: AddSchedulerData, s: ExtraScheduler, t: Transition) -> bool {
    let time = time_from_text(d.time@)->0;
    let common_ok = |c: Common| c.description == d.description && c.command.command() == Command::SetTransition(t);
    match s {
        ExtraScheduler::At(a) => d.kind@ == "at"@ && common_ok(a.common) && a.moment == day_from_text(d.extras@[0]@)->0
            * DAY_MS + time.ms(),
        ExtraScheduler::EveryDay(e) => d.kind@ == "every-day"@ && common_ok(e.common) && e.time == time,
        ExtraScheduler::EveryWeek(e) => d.kind@ == "every-week"@ && common_ok(e.common) && e.time == time
            && day_name(e.day) == d.extras@[0]@,
    }
}

/// Whether request `d` is accepted at local moment `now`: the transition
/// and time read, and the kind is `every-day`, or `every-week` with a day
/// name, or `at` with a date whose moment is not past (unless `allow_past`).
pub open spec fn add_accepted(d: AddSchedulerData, allow_past: bool, now: int) -> bool {
    &&& d.transition.readable()
    &&& time_from_text(d.time@) is Some
    &&& {
        ||| d.kind@ == "every-day"@
        ||| (d.kind@ == "every-week"@ && d.extras@.len() == 1 && exists|w: Weekday| day_name(w) == d.extras@[0]@)
        ||| (d.kind@ == "at"@ && d.extras@.len() == 1 && day_from_text(d.extras@[0]@) is Some && (allow_past
            || day_from_text(d.extras@[0]@)->0 * DAY_MS + time_from_text(d.time@)->0.ms() >= now))
    }
}

impl AddSchedulerData {
    /// The command that adds the scheduler asked for, if the request is
    /// accepted at local moment `now`.
    pub fn into_command(self, allow_past: bool, now: i64) -> (r: Option<Command>)
        ensures
            r is Some <==> add_accepted(self, allow_past, now as int),
            r matches Some(c) ==> c.wf() && (c matches Command::AddReplaceScheduler(n, s) && n@ == self.name@
                && exists|t: Transition| self.transition.reads_as(t) && scheduler_for(self, *s, t)),
    {
        proof {
            reveal_strlit("at");
            reveal_strlit("every-day");
            reveal_strlit("every-week");
            assert("at"@.len() == 2);
            assert("every-day"@.len() == 9);
            assert("every-week"@.len() == 10);
            assert("every-day"@[6] != "every-week"@[6]);
        }
        let transition = match self.transition.to_transition() {
            Some(t) => t,
            None => return None,
        };
        let time = match parse_time(self.time.as_str()) {
            Some(t) => t,
            None => return None,
        };
        let run = match ClonableCommand::new(Command::SetTransition(transition)) {
            Some(c) => c,
            None => return None,
        };
        let is_at = str_equals(self.kind.as_str(), "at");
        let is_week = str_equals(self.kind.as_str(), "every-week");
        let is_day = str_equals(self.kind.as_str(), "every-day");
        let one_extra = self.extras.len() == 1;
        if is_at && one_extra {
            let day = match parse_date(self.extras[0].as_str()) {
                Some(d) => d,
                None => return None,
            };
            let moment = day * DAY_MS + time.millis();
            if moment < now && !allow_past {
                return None;
            }
            let common = Common::new(self.description, run);
            let s = ExtraScheduler::At(At::new(common, moment));
            Some(Command::AddReplaceScheduler(self.name, Box::new(s)))
        } else if is_week && one_extra {
            let day = match Weekday::from_name(self.extras[0].as_str()) {
                Some(d) => d,
                None => return None,
            };
            let common = Common::new(self.description, run);
            let s = ExtraScheduler::EveryWeek(EveryWeek::new(common, time, day));
            Some(Command::AddReplaceScheduler(self.name, Box::new(s)))
        } else if is_day {
            let common = Common::new(self.description, run);
            let s = ExtraScheduler::EveryDay(EveryDay::new(common, time));
            Some(Command::AddReplaceScheduler(self.name, Box::new(s)))
        } else {
            None
        }
    }
}

/// A request to start an effect: its kind (`radar`) and numbers (the
/// offset and the period, in milliseconds).
#[derive(Debug, Clone)]
pub struct EffectData {
    pub kind: String,
    pub nums: Vec<i64>,
}

impl EffectData {
    /// The command that starts the effect, if the kind is `radar` and a
    /// positive period follows the offset.
    pub fn into_command(self) -> (r: Option<Command>)
        ensures
            r is Some <==> (self.kind@ == "radar"@ && self.nums@.len() >= 2 && self.nums@[1] > 0),
            r matches Some(c) ==> c.wf() && c == Command::SetEffect(
                Effect::Radar { offset: self.nums@[0], speed: self.nums@[1] as u64 },
            ),
    {
        proof {
            reveal_strlit("radar");
        }
        if !str_equals(self.kind.as_str(), "radar") || self.nums.len() < 2 || self.nums[1] <= 0 {
            return None;
        }
        Some(Command::SetEffect(Effect::Radar { offset: self.nums[0], speed: self.nums[1] as u64 }))
    }
}

/// The live view as reported: the strength, each day's name and time (in
/// week order, Monday first) and the weekly plan's transition.
#[derive(Debug)]
pub struct StateData {
    pub strength: u32,
    pub days: Vec<(String, Option<String>)>,
    pub transition: TransitionData,
}

impl StateData {
    /// Reports the live view.
    pub fn from_shared_state(state: &SharedState) -> (r: Self)
        requires
            state.wf(),
        ensures
            r.strength == state.strength()@,
            r.days@.len() == 7,
            forall|i: int| 0 <= i < 7 ==> (#[trigger] r.days@[i]).0@ == day_name(day_at(i))
                && opt_text(r.days@[i].1) == time_text_of(state.week().day(day_at(i))),
            r.transition.written_from(state.week().transition),
    {
        let week = state.ref_week_schedule();
        let mut days: Vec<(String, Option<String>)> = Vec::new();
        let mut day = Weekday::Mon;
        let mut i: usize = 0;
        while i < 7
            invariant
                i <= 7,
                *week == state.week(),
                week.wf(),
                day == day_at(i as int),
                days@.len() == i,
                forall|j: int| 0 <= j < i ==> (#[trigger] days@[j]).0@ == day_name(day_at(j))
                    && opt_text(days@[j].1) == time_text_of(week.day(day_at(j))),
            decreases 7 - i,
        {
            let name = String::from_str(crate::weekday::weekday_to_lowercase_str(&day));
            let time = week.get(day);
            assert(week.day(day) == time);
            let text = write_day_time(&time);
            days.push((name, text));
            proof {
                crate::weekday::lemma_day_index_at(i as int);
                assert(day_at(crate::weekday::day_index(day) + 1) == day_at(i + 1));
            }
            day = day.succ();
            i = i + 1;
        }
        StateData {
            strength: state.get_strength().into_inner(),
            days,
            transition: TransitionData::from_transition(&week.transition),
        }
    }
}

/// How far off a scheduler's next firing is, for users: a whole number of
/// hours, minutes or seconds when it is less than a day away, else the
/// moment itself.
#[derive(Debug, Clone, Copy, PartialEq, Eq, Structural)]
pub enum NextOccurrence {
    At(i64),
    InHours(i64),
    InMinutes(i64),
    InSeconds(i64),
}

/// `x / unit`, rounded toward zero.
pub open spec fn whole(x: int, unit: int) -> int {
    if x >= 0 {
        x / unit
    } else {
        -((-x) / unit)
    }
}

/// How far off `deadline` is from `now`.
pub open spec fn occurrence(deadline: int, now: int) -> NextOccurrence {
    let d = deadline - now;
    if whole(d, 86_400_000) > 0 {
        NextOccurrence::At(deadline as i64)
    } else if whole(d, 3_600_000) > 0 {
        NextOccurrence::InHours(whole(d, 3_600_000) as i64)
    } else if whole(d, 60_000) > 0 {
        NextOccurrence::InMinutes(whole(d, 60_000) as i64)
    } else {
        NextOccurrence::InSeconds(whole(d, 1000) as i64)
    }
}

fn whole_of(x: i128, unit: i128) -> (r: i128)
    requires
        unit >= 1000,
        -0x1_0000_0000_0000_0000int <= x <= 0x1_0000_0000_0000_0000int,
    ensures
        r == whole(x as int, unit as int),
        -0x1_0000_0000_0000_0000int / 1000 <= r <= 0x1_0000_0000_0000_0000int / 1000,
{
    proof {
        vstd::arithmetic::div_mod::lemma_div_is_ordered_by_denominator(if x >= 0 { x as int } else { -x }, 1000, unit as int);
        vstd::arithmetic::div_mod::lemma_div_pos_is_pos(if x >= 0 { x as int } else { -x }, unit as int);
        vstd::arithmetic::div_mod::lemma_div_is_ordered(if x >= 0 { x as int } else { -x }, 0x1_0000_0000_0000_0000int, 1000);
    }
    if x >= 0 {
        ((x as u128) / (unit as u128)) as i128
    } else {
        -((((-x) as u128) / (unit as u128)) as i128)
    }
}

/// Says how far off `deadline` is from `now`, both local moments.
pub fn describe_next(deadline: i64, now: i64) -> (r: NextOccurrence)
    ensures
        r == occurrence(deadline as int, now as int),
{
    let d: i128 = deadline as i128 - now as i128;
    let days = whole_of(d, 86_400_000);
    if days > 0 {
        return NextOccurrence::At(deadline);
    }
    let hours = whole_of(d, 3_600_000);
    if hours > 0 {
        return NextOccurrence::InHours(hours as i64);
    }
    let minutes = whole_of(d, 60_000);
    if minutes > 0 {
        return NextOccurrence::InMinutes(minutes as i64);
    }
    NextOccurrence::InSeconds(whole_of(d, 1000) as i64)
}

} // verus!
