//! Schedulers: sources of timed commands.

use vstd::prelude::*;
use crate::clock::{day_of, moment_of, ms_of_day, weekday_at, Now, TimeOfDay, day_number, time_in_day, weekday_of};
use crate::command::{ClonableCommand, Command};
use crate::transition::Transition;
use crate::weekday::{day_at, day_index, Weekday};

verus! {

/// Whether a scheduler stays after it fired.
#[derive(Debug, Clone, Copy, PartialEq, Eq, Structural)]
pub enum Keep {
    Keep,
    Remove,
}

/// When a scheduler next fires, and with which command.
#[derive(Debug)]
pub enum Next {
    At(i64, Command),
    Unknown,
}

/// A source of timed commands.
pub trait Scheduler: Sized {
    /// The invariant of the scheduler's data.
    spec fn inv(&self) -> bool;

    /// When the scheduler next fires, seen at local moment `now`.
    spec fn next_at(&self, now: int) -> Next;

    /// The scheduler after it fired at local moment `now`.
    spec fn after_fire(&self, now: int) -> Self;

    /// Whether the scheduler stays after it fired.
    spec fn keeps(&self) -> Keep;

    /// The description shown to users.
    spec fn description_text(&self) -> Seq<char>;

    /// The name of the scheduler's kind shown to users.
    spec fn kind_text(&self) -> Seq<char>;

    /// Records that the scheduler fired at `now`; says whether it stays.
    fn advance(&mut self, now: &Now) -> (r: Keep)
        requires
            old(self).inv(),
            now.wf(),
        ensures
            final(self).inv(),
            *final(self) == old(self).after_fire(now.local as int),
            r == old(self).keeps();

    /// When the scheduler next fires, seen at `now`.
    fn get_next(&self, now: &Now) -> (r: Next)
        requires
            self.inv(),
            now.wf(),
        ensures
            r == self.next_at(now.local as int);

    /// A description for users of what the scheduler does.
    fn description(&self) -> (r: &str)
        ensures
            r@ == self.description_text();

    /// The kind of scheduler, for users.
    fn kind(&self) -> (r: &str)
        ensures
            r@ == self.kind_text();
}


/// The weekly plan: an optional alarm time for each day, and the transition
/// that each alarm plays so that it ends at the alarm time.
#[derive(Debug, Clone, PartialEq, Eq, Structural)]
pub struct WeekScheduler {
    pub mon: Option<TimeOfDay>,
    pub tue: Option<TimeOfDay>,
    pub wed: Option<TimeOfDay>,
    pub thu: Option<TimeOfDay>,
    pub fri: Option<TimeOfDay>,
    pub sat: Option<TimeOfDay>,
    pub sun: Option<TimeOfDay>,
    pub transition: Transition,
    /// The local moment at which the plan last fired.
    pub last: Option<i64>,
}

/// The first enabled day of `ws` at or after position `start + i` of the
/// week, scanning up to position `start + 6`: its time and its distance
/// from `start` in days.
pub open spec fn scan_from(ws: WeekScheduler, start: int, i: int) -> Option<(TimeOfDay, int)>
    decreases 7 - i,
{
    if i >= 7 || i < 0 {
        None
    } else {
        match ws.day(day_at(start + i)) {
            Some(t) => Some((t, i)),
            None => scan_from(ws, start, i + 1),
        }
    }
}

/// The first enabled day of `ws` from `d` on, within a week: its time and
/// how many days after `d` it comes.
pub open spec fn next_from_day(ws: WeekScheduler, d: Weekday) -> Option<(TimeOfDay, int)> {
    scan_from(ws, day_index(d), 0)
}

/// When the weekly plan fires next, seen at local moment `now`: today, at
/// today's time less the transition's duration, if that moment has not
/// passed and the plan has not fired today; otherwise on the next enabled day after
/// today, at that day's time less the duration.
pub open spec fn week_next(ws: WeekScheduler, now: int) -> Next {
    let today = day_of(now);
    let cmd = Command::SetTransition(ws.transition);
    let fired_today = ws.last matches Some(l) && day_of(l as int) >= today;
    match ws.day(weekday_at(now)) {
        Some(t) if now <= moment_of(today, t.ms()) - ws.transition.time && !fired_today => Next::At(
            (moment_of(today, t.ms()) - ws.transition.time) as i64,
            cmd,
        ),
        _ => match next_from_day(ws, weekday_at(now).succ_spec()) {
            Some((t, n)) => Next::At((moment_of(today + n + 1, t.ms()) - ws.transition.time) as i64, cmd),
            None => Next::Unknown,
        },
    }
}

impl WeekScheduler {
    /// The time set for day `d`.
    pub open spec fn day(self, d: Weekday) -> Option<TimeOfDay> {
        match d {
            Weekday::Mon => self.mon,
            Weekday::Tue => self.tue,
            Weekday::Wed => self.wed,
            Weekday::Thu => self.thu,
            Weekday::Fri => self.fri,
            Weekday::Sat => self.sat,
            Weekday::Sun => self.sun,
        }
    }

    /// The plan with day `d` set to `t`.
    pub open spec fn with_day(self, d: Weekday, t: Option<TimeOfDay>) -> Self {
        match d {
            Weekday::Mon => WeekScheduler { mon: t, ..self },
            Weekday::Tue => WeekScheduler { tue: t, ..self },
            Weekday::Wed => WeekScheduler { wed: t, ..self },
            Weekday::Thu => WeekScheduler { thu: t, ..self },
            Weekday::Fri => WeekScheduler { fri: t, ..self },
            Weekday::Sat => WeekScheduler { sat: t, ..self },
            Weekday::Sun => WeekScheduler { sun: t, ..self },
        }
    }

    /// Valid times, a transition within range, and a last fire within the
    /// handled range.
    pub open spec fn wf(self) -> bool {
        &&& forall|d: Weekday| (#[trigger] self.day(d)) matches Some(t) ==> t.wf()
        &&& self.transition.wf()
        &&& (self.last matches Some(l) ==> crate::clock::moment_ok(l as int))
    }

    /// Whether no day has a time.
    pub open spec fn is_empty(self) -> bool {
        forall|d: Weekday| #[trigger] self.day(d) is None
    }

    /// A plan with the same time, or none, on every day.
    fn same_with_day(time: Option<TimeOfDay>, transition: Transition) -> (r: Self)
        ensures
            forall|d: Weekday| #[trigger] r.day(d) == time,
            r.transition == transition,
            r.last is None,
    {
        WeekScheduler {
            mon: time,
            tue: time,
            wed: time,
            thu: time,
            fri: time,
            sat: time,
            sun: time,
            transition,
            last: None,
        }
    }

    /// A plan with no alarm on any day.
    pub fn empty(transition: Transition) -> (r: Self)
        ensures
            r.is_empty(),
            r.transition == transition,
            r.last is None,
    {
        Self::same_with_day(None, transition)
    }

    /// A plan with the alarm at `time` on every day.
    pub fn same(time: TimeOfDay, transition: Transition) -> (r: Self)
        ensures
            forall|d: Weekday| #[trigger] r.day(d) == Some(time),
            r.transition == transition,
            r.last is None,
    {
        Self::same_with_day(Some(time), transition)
    }

    /// The time set for day `day`.
    pub fn get(&self, day: Weekday) -> (r: Option<TimeOfDay>)
        ensures
            r == self.day(day),
    {
        match day {
            Weekday::Mon => self.mon,
            Weekday::Tue => self.tue,
            Weekday::Wed => self.wed,
            Weekday::Thu => self.thu,
            Weekday::Fri => self.fri,
            Weekday::Sat => self.sat,
            Weekday::Sun => self.sun,
        }
    }

    /// The time of day `day`, to change in place.
    pub fn get_mut(&mut self, day: Weekday) -> (r: &mut Option<TimeOfDay>)
        ensures
            *r == old(self).day(day),
            *final(self) == old(self).with_day(day, *final(r)),
    {
        match day {
            Weekday::Mon => &mut self.mon,
            Weekday::Tue => &mut self.tue,
            Weekday::Wed => &mut self.wed,
            Weekday::Thu => &mut self.thu,
            Weekday::Fri => &mut self.fri,
            Weekday::Sat => &mut self.sat,
            Weekday::Sun => &mut self.sun,
        }
    }

    /// The first enabled day from `day` on, within a week: its time and how
    /// many days after `day` it comes.
    pub fn get_next_from_day(&self, day: Weekday) -> (r: Option<(TimeOfDay, u8)>)
        ensures
            r matches Some((t, n)) ==> next_from_day(*self, day) == Some((t, n as int)) && n < 7
                && self.day(day_at(day_index(day) + n)) == Some(t),
            r is None ==> next_from_day(*self, day) is None,
    {
        let mut d = day;
        let mut passed: u8 = 0;
        while passed < 7
            invariant
                passed <= 7,
                d == day_at(day_index(day) + passed),
                scan_from(*self, day_index(day), 0) == scan_from(*self, day_index(day), passed as int),
            decreases 7 - passed,
        {
            match self.get(d) {
                Some(t) => {
                    return Some((t, passed));
                },
                None => {},
            }
            proof {
                crate::weekday::lemma_day_index_at(day_index(day) + passed);
                assert(day_at(day_index(d) + 1) == day_at(day_index(day) + passed + 1)) by {
                    assert((day_index(day) + passed) % 7 + 1 == (day_index(day) + passed + 1) - 7 * ((day_index(day) + passed) / 7));
                    crate::weekday::lemma_day_at_shift(day_index(day) + passed + 1, (day_index(day) + passed) / 7);
                }
            }
            d = d.succ();
            passed = passed + 1;
        }
        None
    }
}


/// The part shared by the extra schedulers: a description for users and
/// the command to run.
#[derive(Debug, Clone)]
pub struct Common {
    pub description: String,
    pub command: ClonableCommand,
}

impl Common {
    pub fn new(description: String, command: ClonableCommand) -> (r: Self)
        ensures
            r.description == description,
            r.command == command,
            r.command.command().cloneable(),
    {
        proof {
            use_type_invariant(&command);
            command.lemma_cloneable();
        }
        Common { description, command }
    }

    /// A copy of the command to run.
    pub fn get_command(&self) -> (r: ClonableCommand)
        ensures
            r == self.command,
    {
        self.command.clone()
    }

    pub open spec fn wf(self) -> bool {
        self.command.command().plain_wf() && self.command.command().cloneable()
    }
}

/// Fires once, at a local moment, and is then removed.
#[derive(Debug, Clone)]
pub struct At {
    pub common: Common,
    pub moment: i64,
}

/// Fires every day at a time of day.
#[derive(Debug, Clone)]
pub struct EveryDay {
    pub common: Common,
    pub time: TimeOfDay,
}

/// Fires every week on a weekday at a time of day.
#[derive(Debug, Clone)]
pub struct EveryWeek {
    pub common: Common,
    pub time: TimeOfDay,
    pub day: Weekday,
}

impl At {
    pub fn new(common: Common, moment: i64) -> (r: Self)
        ensures
            r.common == common,
            r.moment == moment,
    {
        At { common, moment }
    }
}

impl EveryDay {
    pub fn new(common: Common, time: TimeOfDay) -> (r: Self)
        ensures
            r.common == common,
            r.time == time,
    {
        EveryDay { common, time }
    }
}

impl EveryWeek {
    pub fn new(common: Common, time: TimeOfDay, day: Weekday) -> (r: Self)
        ensures
            r.common == common,
            r.time == time,
            r.day == day,
    {
        EveryWeek { common, time, day }
    }
}

/// When an every-day scheduler at `time` fires next, seen at `now`: today
/// if that time is still ahead, else tomorrow.
pub open spec fn every_day_next(time: TimeOfDay, now: int) -> int {
    if ms_of_day(now) < time.ms() {
        moment_of(day_of(now), time.ms())
    } else {
        moment_of(day_of(now) + 1, time.ms())
    }
}

/// When an every-week scheduler at `time` on `day` fires next, seen at
/// `now`: today if today is `day` and the time is still ahead, else on the
/// next `day` after today.
pub open spec fn every_week_next(time: TimeOfDay, day: Weekday, now: int) -> int {
    let today = weekday_at(now);
    if today == day && ms_of_day(now) < time.ms() {
        moment_of(day_of(now), time.ms())
    } else {
        moment_of(day_of(now) + (day_index(day) - day_index(today) + 6) % 7 + 1, time.ms())
    }
}

impl Scheduler for At {
    open spec fn inv(&self) -> bool {
        self.common.wf()
    }

    open spec fn next_at(&self, now: int) -> Next {
        Next::At(self.moment, self.common.command.command())
    }

    open spec fn after_fire(&self, now: int) -> Self {
        *self
    }

    open spec fn keeps(&self) -> Keep {
        Keep::Remove
    }

    open spec fn description_text(&self) -> Seq<char> {
        self.common.description@
    }

    open spec fn kind_text(&self) -> Seq<char> {
        "At"@
    }

    fn advance(&mut self, now: &Now) -> (r: Keep) {
        Keep::Remove
    }

    fn get_next(&self, now: &Now) -> (r: Next) {
        Next::At(self.moment, self.common.get_command().into_inner())
    }

    fn description(&self) -> &str {
        self.common.description.as_str()
    }

    fn kind(&self) -> &str {
        "At"
    }
}

impl Scheduler for EveryDay {
    open spec fn inv(&self) -> bool {
        self.common.wf() && self.time.wf()
    }

    open spec fn next_at(&self, now: int) -> Next {
        Next::At(every_day_next(self.time, now) as i64, self.common.command.command())
    }

    open spec fn after_fire(&self, now: int) -> Self {
        *self
    }

    open spec fn keeps(&self) -> Keep {
        Keep::Keep
    }

    open spec fn description_text(&self) -> Seq<char> {
        self.common.description@
    }

    open spec fn kind_text(&self) -> Seq<char> {
        "Every day at"@
    }

    fn advance(&mut self, now: &Now) -> (r: Keep) {
        Keep::Keep
    }

    fn get_next(&self, now: &Now) -> (r: Next) {
        let today = day_number(now.local);
        let t = self.time.millis();
        let at = if time_in_day(now.local) < t {
            today * crate::clock::DAY_MS + t
        } else {
            (today + 1) * crate::clock::DAY_MS + t
        };
        Next::At(at, self.common.get_command().into_inner())
    }

    fn description(&self) -> &str {
        self.common.description.as_str()
    }

    fn kind(&self) -> &str {
        "Every day at"
    }
}

impl Scheduler for EveryWeek {
    open spec fn inv(&self) -> bool {
        self.common.wf() && self.time.wf()
    }

    open spec fn next_at(&self, now: int) -> Next {
        Next::At(every_week_next(self.time, self.day, now) as i64, self.common.command.command())
    }

    open spec fn after_fire(&self, now: int) -> Self {
        *self
    }

    open spec fn keeps(&self) -> Keep {
        Keep::Keep
    }

    open spec fn description_text(&self) -> Seq<char> {
        self.common.description@
    }

    open spec fn kind_text(&self) -> Seq<char> {
        "Every week at"@
    }

    fn advance(&mut self, now: &Now) -> (r: Keep) {
        Keep::Keep
    }

    fn get_next(&self, now: &Now) -> (r: Next) {
        let today = day_number(now.local);
        let wd = weekday_of(now.local);
        let t = self.time.millis();
        let offset: i64 = if wd == self.day && time_in_day(now.local) < t {
            0
        } else {
            proof {
                crate::weekday::lemma_day_at_index(wd);
                crate::weekday::lemma_day_at_index(self.day);
            }
            (day_position(self.day) + 7 - day_position(wd) - 1) % 7 + 1
        };
        Next::At((today + offset) * crate::clock::DAY_MS + t, self.common.get_command().into_inner())
    }

    fn description(&self) -> &str {
        self.common.description.as_str()
    }

    fn kind(&self) -> &str {
        "Every week at"
    }
}

/// The position of a day in the week, Monday first, computed.
fn day_position(d: Weekday) -> (r: i64)
    ensures
        r == day_index(d),
{
    match d {
        Weekday::Mon => 0,
        Weekday::Tue => 1,
        Weekday::Wed => 2,
        Weekday::Thu => 3,
        Weekday::Fri => 4,
        Weekday::Sat => 5,
        Weekday::Sun => 6,
    }
}

/// One of the extra schedulers.
#[derive(Debug, Clone)]
pub enum ExtraScheduler {
    At(At),
    EveryDay(EveryDay),
    EveryWeek(EveryWeek),
}

impl ExtraScheduler {
    /// Whether the scheduler is well-formed, computed.
    pub fn is_valid(&self) -> (r: bool)
        ensures
            r == self.wf(),
    {
        let (common, time) = match self {
            ExtraScheduler::At(s) => (&s.common, None),
            ExtraScheduler::EveryDay(s) => (&s.common, Some(s.time)),
            ExtraScheduler::EveryWeek(s) => (&s.common, Some(s.time)),
        };
        let c = common.command.command_ref();
        c.is_plain_valid() && c.can_clone() && match time {
            Some(t) => t.is_valid(),
            None => true,
        }
    }

    pub open spec fn wf(self) -> bool {
        match self {
            ExtraScheduler::At(s) => s.inv(),
            ExtraScheduler::EveryDay(s) => s.inv(),
            ExtraScheduler::EveryWeek(s) => s.inv(),
        }
    }
}

impl Scheduler for ExtraScheduler {
    open spec fn inv(&self) -> bool {
        self.wf()
    }

    open spec fn next_at(&self, now: int) -> Next {
        match self {
            ExtraScheduler::At(s) => s.next_at(now),
            ExtraScheduler::EveryDay(s) => s.next_at(now),
            ExtraScheduler::EveryWeek(s) => s.next_at(now),
        }
    }

    open spec fn after_fire(&self, now: int) -> Self {
        *self
    }

    open spec fn keeps(&self) -> Keep {
        match self {
            ExtraScheduler::At(s) => s.keeps(),
            ExtraScheduler::EveryDay(s) => s.keeps(),
            ExtraScheduler::EveryWeek(s) => s.keeps(),
        }
    }

    open spec fn description_text(&self) -> Seq<char> {
        match self {
            ExtraScheduler::At(s) => s.description_text(),
            ExtraScheduler::EveryDay(s) => s.description_text(),
            ExtraScheduler::EveryWeek(s) => s.description_text(),
        }
    }

    open spec fn kind_text(&self) -> Seq<char> {
        match self {
            ExtraScheduler::At(s) => s.kind_text(),
            ExtraScheduler::EveryDay(s) => s.kind_text(),
            ExtraScheduler::EveryWeek(s) => s.kind_text(),
        }
    }

    fn advance(&mut self, now: &Now) -> (r: Keep) {
        match self {
            ExtraScheduler::At(s) => s.advance(now),
            ExtraScheduler::EveryDay(s) => s.advance(now),
            ExtraScheduler::EveryWeek(s) => s.advance(now),
        }
    }

    fn get_next(&self, now: &Now) -> (r: Next) {
        match self {
            ExtraScheduler::At(s) => s.get_next(now),
            ExtraScheduler::EveryDay(s) => s.get_next(now),
            ExtraScheduler::EveryWeek(s) => s.get_next(now),
        }
    }

    fn description(&self) -> &str {
        match self {
            ExtraScheduler::At(s) => s.description(),
            ExtraScheduler::EveryDay(s) => s.description(),
            ExtraScheduler::EveryWeek(s) => s.description(),
        }
    }

    fn kind(&self) -> &str {
        match self {
            ExtraScheduler::At(s) => s.kind(),
            ExtraScheduler::EveryDay(s) => s.kind(),
            ExtraScheduler::EveryWeek(s) => s.kind(),
        }
    }
}

impl Scheduler for WeekScheduler {
    open spec fn inv(&self) -> bool {
        self.wf()
    }

    open spec fn next_at(&self, now: int) -> Next {
        week_next(*self, now)
    }

    open spec fn after_fire(&self, now: int) -> Self {
        WeekScheduler { last: Some(now as i64), ..*self }
    }

    open spec fn keeps(&self) -> Keep {
        Keep::Keep
    }

    open spec fn description_text(&self) -> Seq<char> {
        "Can schedule once per weekday, repeating every week."@
    }

    open spec fn kind_text(&self) -> Seq<char> {
        "Weekly cycle"@
    }

    fn advance(&mut self, now: &Now) -> (r: Keep) {
        self.last = Some(now.local);
        assert(forall|d: Weekday| #[trigger] self.day(d) == old(self).day(d));
        Keep::Keep
    }

    fn get_next(&self, now: &Now) -> (r: Next) {
        let today = day_number(now.local);
        let wd = weekday_of(now.local);
        assert(self.transition.time <= crate::transition::MAX_SPAN);
        let span = self.transition.time as i64;
        let fired_today = match self.last {
            Some(l) => day_number(l) >= today,
            None => false,
        };
        match self.get(wd) {
            Some(t) => {
                let at = today * crate::clock::DAY_MS + t.millis() - span;
                if now.local <= at && !fired_today {
                    return Next::At(at, Command::SetTransition(self.transition));
                }
            },
            None => {},
        }
        match self.get_next_from_day(wd.succ()) {
            Some((t, n)) => {
                assert(t.wf());
                let at = (today + n as i64 + 1) * crate::clock::DAY_MS + t.millis() - span;
                Next::At(at, Command::SetTransition(self.transition))
            },
            None => Next::Unknown,
        }
    }

    fn description(&self) -> &str {
        "Can schedule once per weekday, repeating every week."
    }

    fn kind(&self) -> &str {
        "Weekly cycle"
    }
}

impl Default for WeekScheduler {
    fn default() -> (r: Self)
        ensures
            r.is_empty(),
            r.last is None,
    {
        Self::empty(Transition::default())
    }
}

} // verus!
