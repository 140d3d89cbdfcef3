//! The controller's state machine and the live view it keeps: current
//! strength and transition, the weekly plan, and the named schedulers.

use vstd::prelude::*;
use vstd::math::min;
use crate::clock::{Now, TimeOfDay};
use crate::command::{effect_level, Action, Command, Effect, SleepTime};
use crate::scheduler::{ExtraScheduler, Keep, Next, Scheduler, WeekScheduler, week_next};
use crate::strength::{Strength, ONE};
use crate::transition::{end_point, level_at, Transition, TransitionState, TransitionStateOut};
use crate::weekday::Weekday;

verus! {

/// The named schedulers as a map from name to scheduler.
pub open spec fn entries_map(s: Seq<(String, ExtraScheduler)>) -> Map<Seq<char>, ExtraScheduler>
    decreases s.len(),
{
    if s.len() == 0 {
        Map::empty()
    } else {
        entries_map(s.drop_last()).insert(s.last().0@, s.last().1)
    }
}

/// No two entries share a name.
pub open spec fn unique_names(s: Seq<(String, ExtraScheduler)>) -> bool {
    forall|i: int, j: int| 0 <= i < s.len() && 0 <= j < s.len() && i != j ==> s[i].0@ != s[j].0@
}

pub proof fn lemma_entries_map_index(s: Seq<(String, ExtraScheduler)>, i: int)
    requires
        unique_names(s),
        0 <= i < s.len(),
    ensures
        entries_map(s).contains_key(s[i].0@),
        entries_map(s)[s[i].0@] == s[i].1,
    decreases s.len(),
{
    if i < s.len() - 1 {
        let t = s.drop_last();
        assert(unique_names(t));
        assert(t[i] == s[i]);
        lemma_entries_map_index(t, i);
        assert(s.last().0@ != s[i].0@);
    }
}

pub proof fn lemma_entries_map_domain(s: Seq<(String, ExtraScheduler)>, k: Seq<char>)
    ensures
        entries_map(s).contains_key(k) <==> exists|i: int| 0 <= i < s.len() && #[trigger] s[i].0@ == k,
    decreases s.len(),
{
    if s.len() > 0 {
        let t = s.drop_last();
        lemma_entries_map_domain(t, k);
        if entries_map(s).contains_key(k) {
            if s.last().0@ != k {
                let i = choose|i: int| 0 <= i < t.len() && #[trigger] t[i].0@ == k;
                assert(s[i].0@ == k);
            } else {
                assert(s[s.len() - 1].0@ == k);
            }
        }
        if exists|i: int| 0 <= i < s.len() && #[trigger] s[i].0@ == k {
            let i = choose|i: int| 0 <= i < s.len() && #[trigger] s[i].0@ == k;
            if i < s.len() - 1 {
                assert(t[i].0@ == k);
            }
        }
    }
}

pub proof fn lemma_entries_map_update(s: Seq<(String, ExtraScheduler)>, i: int, e: (String, ExtraScheduler))
    requires
        unique_names(s),
        0 <= i < s.len(),
        e.0@ == s[i].0@,
    ensures
        entries_map(s.update(i, e)) == entries_map(s).insert(e.0@, e.1),
        unique_names(s.update(i, e)),
    decreases s.len(),
{
    let u = s.update(i, e);
    if i == s.len() - 1 {
        assert(u.drop_last() == s.drop_last());
        assert(entries_map(u) =~= entries_map(s).insert(e.0@, e.1));
    } else {
        let t = s.drop_last();
        assert(unique_names(t));
        lemma_entries_map_update(t, i, e);
        assert(u.drop_last() == t.update(i, e));
        assert(s.last().0@ != e.0@);
        assert(entries_map(u) =~= entries_map(s).insert(e.0@, e.1));
    }
}

pub proof fn lemma_entries_map_remove(s: Seq<(String, ExtraScheduler)>, i: int)
    requires
        unique_names(s),
        0 <= i < s.len(),
    ensures
        entries_map(s.remove(i)) == entries_map(s).remove(s[i].0@),
        unique_names(s.remove(i)),
    decreases s.len(),
{
    let r = s.remove(i);
    let k = s[i].0@;
    if i == s.len() - 1 {
        assert(r == s.drop_last());
        lemma_entries_map_domain(r, k);
        assert(!entries_map(r).contains_key(k));
        assert(entries_map(r) =~= entries_map(s).remove(k));
    } else {
        let t = s.drop_last();
        assert(unique_names(t));
        lemma_entries_map_remove(t, i);
        assert(r.drop_last() == t.remove(i));
        assert(r.last() == s.last());
        assert(s.last().0@ != k);
        assert(entries_map(r) =~= entries_map(s).remove(k));
    }
}

/// The state shared with readers: what the output shows and what is
/// planned.
#[derive(Debug, Clone)]
pub struct SharedState {
    strength: Strength,
    transition: Option<Transition>,
    week_scheduler: WeekScheduler,
    schedulers: Vec<(String, ExtraScheduler)>,
}

/// What readers see of the shared state: the strength last committed to
/// the output, the transition in flight, the weekly plan and the named
/// schedulers by name.
pub struct SharedModel {
    pub strength: Strength,
    pub transition: Option<Transition>,
    pub week: WeekScheduler,
    pub schedulers: Map<Seq<char>, ExtraScheduler>,
}

impl View for SharedState {
    type V = SharedModel;

    closed spec fn view(&self) -> SharedModel {
        SharedModel {
            strength: self.strength,
            transition: self.transition,
            week: self.week_scheduler,
            schedulers: entries_map(self.schedulers@),
        }
    }
}

impl SharedState {
    /// The strength last committed to the output.
    pub open spec fn strength(self) -> Strength {
        self@.strength
    }

    /// The transition in flight, if any.
    pub open spec fn transition(self) -> Option<Transition> {
        self@.transition
    }

    /// The weekly plan.
    pub open spec fn week(self) -> WeekScheduler {
        self@.week
    }

    /// The named schedulers, in their stored order.
    pub closed spec fn entries(self) -> Seq<(String, ExtraScheduler)> {
        self.schedulers@
    }

    /// The named schedulers by name.
    pub open spec fn schedulers(self) -> Map<Seq<char>, ExtraScheduler> {
        self@.schedulers
    }

    /// Unique names, and well-formed schedulers and plan.
    pub open spec fn wf(self) -> bool {
        &&& unique_names(self.entries())
        &&& forall|i: int| 0 <= i < self.entries().len() ==> (#[trigger] self.entries()[i]).1.wf()
        &&& self.week().wf()
        &&& (self.transition() matches Some(t) ==> t.wf())
    }

    /// A view with the output off, no transition, the given plan, and no
    /// named schedulers.
    pub fn new(scheduler: WeekScheduler) -> (r: Self)
        ensures
            r.strength()@ == 0,
            r.transition() is None,
            r.week() == scheduler,
            r.entries().len() == 0,
            r.schedulers() == Map::<Seq<char>, ExtraScheduler>::empty(),
    {
        SharedState {
            strength: Strength::new(0),
            transition: None,
            week_scheduler: scheduler,
            schedulers: Vec::new(),
        }
    }

    pub fn get_strength(&self) -> (r: &Strength)
        ensures
            *r == self.strength(),
    {
        &self.strength
    }

    /// Records a committed strength; no transition is then in flight.
    pub fn set_strength(&mut self, strength: Strength)
        ensures
            final(self).strength() == strength,
            final(self).transition() is None,
            final(self).week() == old(self).week(),
            final(self).entries() == old(self).entries(),
    {
        self.strength = strength;
        self.transition = None;
    }

    pub fn get_transition(&self) -> (r: Option<&Transition>)
        ensures
            r matches Some(t) ==> self.transition() == Some(*t),
            r is None ==> self.transition() is None,
    {
        self.transition.as_ref()
    }

    pub fn set_transition(&mut self, transition: Option<Transition>)
        ensures
            final(self).transition() == transition,
            final(self).strength() == old(self).strength(),
            final(self).week() == old(self).week(),
            final(self).entries() == old(self).entries(),
    {
        self.transition = transition;
    }

    pub fn ref_week_schedule(&self) -> (r: &WeekScheduler)
        ensures
            *r == self.week(),
    {
        &self.week_scheduler
    }

    pub fn mut_week_scheduler(&mut self) -> (r: &mut WeekScheduler)
        ensures
            *r == old(self).week(),
            final(self).week() == *final(r),
            final(self).strength() == old(self).strength(),
            final(self).transition() == old(self).transition(),
            final(self).entries() == old(self).entries(),
    {
        &mut self.week_scheduler
    }

    pub fn ref_schedulers(&self) -> (r: &Vec<(String, ExtraScheduler)>)
        ensures
            r@ == self.entries(),
    {
        &self.schedulers
    }

    /// The position of the scheduler named `name`, if there is one.
    pub fn find(&self, name: &str) -> (r: Option<usize>)
        ensures
            r matches Some(i) ==> i < self.entries().len() && self.entries()[i as int].0@ == name@,
            r is None ==> forall|i: int| 0 <= i < self.entries().len() ==> #[trigger] self.entries()[i].0@ != name@,
    {
        let mut i: usize = 0;
        while i < self.schedulers.len()
            invariant
                i <= self.schedulers.len(),
                forall|j: int| 0 <= j < i ==> #[trigger] self.schedulers@[j].0@ != name@,
            decreases self.schedulers.len() - i,
        {
            if crate::text::str_equals(self.schedulers[i].0.as_str(), name) {
                return Some(i);
            }
            i = i + 1;
        }
        None
    }

    /// Adds the scheduler `scheduler` under `name`, replacing any scheduler
    /// of that name.
    pub fn insert_scheduler(&mut self, name: String, scheduler: ExtraScheduler)
        requires
            old(self).wf(),
            scheduler.wf(),
        ensures
            final(self).wf(),
            final(self).schedulers() == old(self).schedulers().insert(name@, scheduler),
            final(self).strength() == old(self).strength(),
            final(self).transition() == old(self).transition(),
            final(self).week() == old(self).week(),
    {
        let ghost old_entries = self.schedulers@;
        match self.find(name.as_str()) {
            Some(i) => {
                proof {
                    lemma_entries_map_update(old_entries, i as int, (name, scheduler));
                }
                self.schedulers.set(i, (name, scheduler));
            },
            None => {
                let ghost k = name@;
                self.schedulers.push((name, scheduler));
                proof {
                    assert(self.schedulers@.drop_last() == old_entries);
                    assert(unique_names(self.schedulers@));
                }
            },
        }
    }

    /// Removes the scheduler named `name`, if there is one.
    pub fn remove_scheduler(&mut self, name: &str)
        requires
            old(self).wf(),
        ensures
            final(self).wf(),
            final(self).schedulers() == old(self).schedulers().remove(name@),
            final(self).strength() == old(self).strength(),
            final(self).transition() == old(self).transition(),
            final(self).week() == old(self).week(),
    {
        match self.find(name) {
            Some(i) => {
                proof {
                    lemma_entries_map_remove(self.schedulers@, i as int);
                }
                let _ = self.schedulers.remove(i);
            },
            None => {
                proof {
                    lemma_entries_map_domain(self.schedulers@, name@);
                    assert(self.schedulers() =~= self.schedulers().remove(name@));
                }
            },
        }
    }

    /// Advances the scheduler named `name` after it fired, removing it if
    /// it asks to be removed; does nothing if there is no such scheduler.
    pub fn fire_scheduler(&mut self, name: &str, now: &Now)
        requires
            old(self).wf(),
            now.wf(),
        ensures
            final(self).wf(),
            final(self).schedulers() == fired_map(old(self).schedulers(), name@),
            final(self).strength() == old(self).strength(),
            final(self).transition() == old(self).transition(),
            final(self).week() == old(self).week(),
    {
        match self.find(name) {
            Some(i) => {
                let ghost before = self.schedulers@;
                proof {
                    lemma_entries_map_index(before, i as int);
                }
                let mut entry = self.schedulers.remove(i);
                let keep = entry.1.advance(now);
                match keep {
                    Keep::Keep => {
                        self.schedulers.insert(i, entry);
                        assert(self.schedulers@ =~= before);
                    },
                    Keep::Remove => {
                        proof {
                            lemma_entries_map_remove(before, i as int);
                        }
                    },
                }
            },
            None => {
                proof {
                    lemma_entries_map_domain(self.schedulers@, name@);
                }
            },
        }
    }

    /// Removes every named scheduler.
    pub fn clear_schedulers(&mut self)
        requires
            old(self).wf(),
        ensures
            final(self).wf(),
            final(self).schedulers() == Map::<Seq<char>, ExtraScheduler>::empty(),
            final(self).entries().len() == 0,
            final(self).strength() == old(self).strength(),
            final(self).transition() == old(self).transition(),
            final(self).week() == old(self).week(),
    {
        self.schedulers.clear();
    }
}


/// The named schedulers after the one named `name` fired.
pub open spec fn fired_map(m: Map<Seq<char>, ExtraScheduler>, name: Seq<char>) -> Map<Seq<char>, ExtraScheduler> {
    if m.contains_key(name) && m[name].keeps() == Keep::Remove {
        m.remove(name)
    } else {
        m
    }
}

/// When a named scheduler next fires, seen at local moment `now`.
pub open spec fn extra_deadline(s: ExtraScheduler, now: int) -> int {
    match s.next_at(now) {
        Next::At(d, _) => d as int,
        Next::Unknown => 0,
    }
}

/// The command a named scheduler fires with.
pub open spec fn extra_command(s: ExtraScheduler, now: int) -> Command {
    match s.next_at(now) {
        Next::At(_, c) => c,
        Next::Unknown => Command::UpdateWake,
    }
}

/// The controller's state machine: it takes commands and clock readings and
/// answers with what to do with the output.
#[derive(Debug)]
pub struct State {
    shared: SharedState,
    finish: bool,
    wake_up: Option<(i64, Command)>,
    transition: Option<TransitionState>,
    last_instance: u64,
    last_scheduler: Option<String>,
    effect: Option<Effect>,
}

/// What there is to know of the controller: the shared view; whether it
/// was asked to finish; the stashed deadline and command of the scheduler
/// that armed it, and that scheduler's name (`None` for the weekly plan);
/// the transition being rendered with the milliseconds rendered so far; the
/// monotonic time of the last rendered step; and the effect in place.
pub struct StateModel {
    pub shared: SharedModel,
    pub finish: bool,
    pub wake_up: Option<(i64, Command)>,
    pub rendering: Option<(Transition, nat)>,
    pub last_instant: u64,
    pub armed_by: Option<Seq<char>>,
    pub effect: Option<Effect>,
}

impl View for State {
    type V = StateModel;

    closed spec fn view(&self) -> StateModel {
        StateModel {
            shared: self.shared@,
            finish: self.finish,
            wake_up: self.wake_up,
            rendering: match self.transition {
                Some(ts) => Some((ts.transition(), ts.elapsed())),
                None => None,
            },
            last_instant: self.last_instance,
            armed_by: match self.last_scheduler {
                Some(n) => Some(n@),
                None => None,
            },
            effect: self.effect,
        }
    }
}

impl State {
    /// The view is well-formed, the effect has a positive period, and the
    /// stashed command may be replayed.
    pub closed spec fn wf(self) -> bool {
        &&& self.shared.wf()
        &&& (self.effect matches Some(e) ==> e.wf())
        &&& (self.wake_up matches Some((_, c)) ==> c.plain_wf() && c.cloneable())
    }
}

/// The milliseconds of monotonic time since `last`.
pub open spec fn delta_since(last: u64, now: Now) -> nat {
    if now.monotonic >= last {
        (now.monotonic - last) as nat
    } else {
        0
    }
}

/// One rendering step: the transition in flight advances by the monotonic
/// time since the last step and its level is emitted (committed to the view
/// and dropped once finished); with no transition, the effect's level at
/// the Unix time is emitted; with neither, nothing.
pub open spec fn output_step(s: StateModel, s2: StateModel, now: Now, r: Option<Strength>) -> bool {
    match s.rendering {
        Some((t, el)) => {
            let end = end_point(t);
            let e = min((el + delta_since(s.last_instant, now)) as int, end as int);
            &&& r matches Some(x) && x@ == level_at(t, e)
            &&& s2 == if e >= end {
                StateModel {
                    rendering: None,
                    last_instant: now.monotonic,
                    shared: SharedModel { strength: r->0, transition: None, ..s.shared },
                    ..s
                }
            } else {
                StateModel { rendering: Some((t, e as nat)), last_instant: now.monotonic, ..s }
            }
        },
        None => {
            &&& s2 == s
            &&& match s.effect {
                Some(eff) => r matches Some(x) && x@ == effect_level(eff, now.unix as int),
                None => r is None,
            }
        },
    }
}

/// Planning: the earliest deadline over the weekly plan and the named
/// schedulers is stashed with its command and its scheduler's name (the
/// weekly plan wins ties); with no deadline at all, sleep for ever.
pub open spec fn plan_step(s: StateModel, s2: StateModel, now: Now, w: SleepTime) -> bool {
    let week = week_next(s.shared.week, now.local as int);
    let m = s.shared.schedulers;
    match w {
        SleepTime::Forever => {
            &&& week is Unknown
            &&& m == Map::<Seq<char>, ExtraScheduler>::empty()
            &&& s2 == StateModel { wake_up: None, armed_by: None, ..s }
        },
        SleepTime::To(d) => {
            &&& forall|k: Seq<char>| #[trigger] m.contains_key(k) ==> d <= extra_deadline(m[k], now.local as int)
            &&& (week matches Next::At(wd, _) ==> d <= wd)
            &&& {
                ||| (week matches Next::At(wd, c) && wd == d && s2 == StateModel {
                    wake_up: Some((d, c)),
                    armed_by: None,
                    ..s
                })
                ||| exists|k: Seq<char>|
                    #[trigger] m.contains_key(k) && extra_deadline(m[k], now.local as int) == d
                        && (week matches Next::At(wd, _) ==> d < wd) && s2 == StateModel {
                        wake_up: Some((d, extra_command(m[k], now.local as int))),
                        armed_by: Some(k),
                        ..s
                    }
            }
        },
    }
}

/// The step after a change or on a plain wake-up: render the transition in
/// flight; else stop if finishing; else render the effect; else plan.
pub open spec fn next_step(s: StateModel, s2: StateModel, now: Now, a: Action) -> bool {
    if s.rendering is Some {
        a matches Action::SetStrength(x) && output_step(s, s2, now, Some(x))
    } else if s.finish {
        a == Action::Break && s2 == s
    } else if s.effect is Some {
        a matches Action::SetStrength(x) && output_step(s, s2, now, Some(x))
    } else {
        a matches Action::Wait(w) && plan_step(s, s2, now, w)
    }
}

/// The state with the stashed wake-up dropped when `hit` holds.
pub open spec fn disarmed(s: StateModel, hit: bool) -> StateModel {
    if hit {
        StateModel { wake_up: None, armed_by: None, ..s }
    } else {
        s
    }
}

/// The state with the named schedulers replaced by `m`.
pub open spec fn with_schedulers(s: StateModel, m: Map<Seq<char>, ExtraScheduler>) -> StateModel {
    StateModel { shared: SharedModel { schedulers: m, ..s.shared }, ..s }
}

/// The state with the weekly plan replaced by `w`.
pub open spec fn with_week(s: StateModel, w: WeekScheduler) -> StateModel {
    StateModel { shared: SharedModel { week: w, ..s.shared }, ..s }
}

/// What one command does.
pub open spec fn apply_step(s: StateModel, cmd: Command, now: Now, s2: StateModel, a: Action) -> bool {
    let m = s.shared.schedulers;
    let w = s.shared.week;
    match cmd {
        Command::Finish => {
            let s1 = StateModel { finish: true, wake_up: None, armed_by: None, ..s };
            if s.rendering is Some {
                a matches Action::SetStrength(x) && output_step(s1, s2, now, Some(x))
            } else {
                a == Action::Break && s2 == s1
            }
        },
        Command::SetStrength(x) => {
            &&& a == Action::SetStrength(x)
            &&& s2 == StateModel {
                rendering: None,
                effect: None,
                shared: SharedModel { strength: x, transition: None, ..s.shared },
                ..s
            }
        },
        Command::ChangeDayTimer(d, t) => next_step(with_week(s, WeekScheduler { last: None, ..w.with_day(d, t) }), s2, now, a),
        Command::ChangeDayTimerTransition(t) => next_step(with_week(s, WeekScheduler { transition: t, ..w }), s2, now, a),
        Command::AddReplaceScheduler(n, b) => next_step(
            disarmed(with_schedulers(s, m.insert(n@, *b)), s.armed_by == Some(n@)),
            s2,
            now,
            a,
        ),
        Command::RemoveScheduler(n) => next_step(
            disarmed(with_schedulers(s, m.remove(n@)), s.armed_by == Some(n@)),
            s2,
            now,
            a,
        ),
        Command::ClearAllSchedulers => next_step(
            disarmed(with_schedulers(s, Map::empty()), s.armed_by is Some),
            s2,
            now,
            a,
        ),
        Command::SetTransition(t) => a matches Action::SetStrength(x) && output_step(
            StateModel {
                shared: SharedModel { transition: Some(t), ..s.shared },
                rendering: Some((t, 0)),
                last_instant: now.monotonic,
                ..s
            },
            s2,
            now,
            Some(x),
        ),
        Command::SetEffect(e) => a matches Action::SetStrength(x) && output_step(
            StateModel { effect: Some(e), ..s },
            s2,
            now,
            Some(x),
        ),
        Command::UpdateWake => next_step(s, s2, now, a),
    }
}

/// Whether the stashed deadline has come at `now`.
pub open spec fn due(s: StateModel, now: Now) -> bool {
    s.wake_up matches Some((d, _)) && now.local >= d
}

/// The stashed command.
pub open spec fn stashed(s: StateModel) -> Command {
    match s.wake_up {
        Some((_, c)) => c,
        None => Command::UpdateWake,
    }
}

/// The state once the stashed command is taken and the scheduler that armed
/// the controller has been advanced: a named one is dropped if it asks to
/// be, the weekly plan records the fire.
pub open spec fn fired(s: StateModel, now: Now) -> StateModel {
    let s1 = StateModel { wake_up: None, armed_by: None, ..s };
    match s.armed_by {
        Some(name) => with_schedulers(s1, fired_map(s.shared.schedulers, name)),
        None => with_week(s1, WeekScheduler { last: Some(now.local), ..s.shared.week }),
    }
}

/// What one call of `State::process` does: a command other than
/// `UpdateWake` is carried out; otherwise the stashed command is fired if
/// its deadline has come, and else the controller renders, stops or plans.
pub open spec fn process_step(s: StateModel, cmd: Option<Command>, now: Now, s2: StateModel, a: Action) -> bool {
    match cmd {
        Some(c) if !(c is UpdateWake) => apply_step(s, c, now, s2, a),
        _ => if due(s, now) {
            apply_step(fired(s, now), stashed(s), now, s2, a)
        } else {
            next_step(s, s2, now, a)
        },
    }
}

impl State {
    /// A controller over the view `shared`, idle, with its monotonic clock
    /// starting at `now`.
    pub fn new(shared: SharedState, now: &Now) -> (r: Self)
        requires
            shared.wf(),
        ensures
            r.wf(),
            r@ == (StateModel {
                shared: shared@,
                finish: false,
                wake_up: None,
                rendering: None,
                last_instant: now.monotonic,
                armed_by: None,
                effect: None,
            }),
    {
        State {
            shared,
            finish: false,
            wake_up: None,
            transition: None,
            last_instance: now.monotonic,
            last_scheduler: None,
            effect: None,
        }
    }

    /// The live view.
    pub fn shared_state(&self) -> (r: &SharedState)
        ensures
            r@ == self@.shared,
            self.wf() ==> r.wf(),
    {
        &self.shared
    }

    /// The current output, if a transition or an effect is in place.
    fn current_output(&mut self, now: &Now) -> (r: Option<Strength>)
        requires
            old(self).wf(),
        ensures
            final(self).wf(),
            output_step(old(self)@, final(self)@, *now, r),
    {
        match self.transition {
            Some(ts0) => {
                let delta: u64 = if now.monotonic >= self.last_instance {
                    now.monotonic - self.last_instance
                } else {
                    0
                };
                self.last_instance = now.monotonic;
                let mut ts = ts0;
                match ts.process(delta) {
                    TransitionStateOut::Finished(x) => {
                        self.shared.strength = x;
                        self.shared.transition = None;
                        self.transition = None;
                        Some(x)
                    },
                    TransitionStateOut::Ongoing(x) => {
                        self.transition = Some(ts);
                        Some(x)
                    },
                }
            },
            None => match self.effect {
                Some(e) => {
                    let units = e.level(now.unix);
                    Some(Strength::new(units))
                },
                None => None,
            },
        }
    }

    /// Stashes the earliest deadline and its command; says how long to
    /// sleep.
    fn queue_sleep(&mut self, now: &Now) -> (r: SleepTime)
        requires
            old(self).wf(),
            now.wf(),
        ensures
            final(self).wf(),
            plan_step(old(self)@, final(self)@, *now, r),
    {
        self.last_scheduler = None;
        let ghost entries = self.shared.schedulers@;
        let ghost nl = now.local as int;
        let ghost m = entries_map(entries);
        let mut best: Option<(usize, i64)> = None;
        let mut i: usize = 0;
        while i < self.shared.schedulers.len()
            invariant
                self.shared.wf(),
                entries == self.shared.schedulers@,
                i <= entries.len(),
                now.wf(),
                nl == now.local,
                best matches Some((j, d)) ==> j < i && d == extra_deadline(entries[j as int].1, nl)
                    && forall|k: int| 0 <= k < i ==> d <= extra_deadline(#[trigger] entries[k].1, nl),
                best is None ==> i == 0,
            decreases entries.len() - i,
        {
            assert(entries[i as int].1.wf());
            let d = match self.shared.schedulers[i].1.get_next(now) {
                Next::At(d, _) => d,
                Next::Unknown => 0,
            };
            best = match best {
                Some((j, bd)) => if d < bd {
                    Some((i, d))
                } else {
                    Some((j, bd))
                },
                None => Some((i, d)),
            };
            i = i + 1;
        }
        proof {
            if let Some((_, bd)) = best {
                assert forall|k: Seq<char>| #[trigger] m.contains_key(k) implies bd <= extra_deadline(m[k], nl) by {
                    lemma_entries_map_domain(entries, k);
                    let x = choose|x: int| 0 <= x < entries.len() && #[trigger] entries[x].0@ == k;
                    lemma_entries_map_index(entries, x);
                }
            }
        }
        assert(self.shared.week_scheduler.wf());
        let week = self.shared.week_scheduler.get_next(now);
        match week {
            Next::At(wd, wc) => {
                match best {
                    Some((j, bd)) => {
                        if bd < wd {
                            let cmd = match self.shared.schedulers[j].1.get_next(now) {
                                Next::At(_, c) => c,
                                Next::Unknown => Command::UpdateWake,
                            };
                            self.last_scheduler = Some(self.shared.schedulers[j].0.clone());
                            self.wake_up = Some((bd, cmd));
                            proof {
                                lemma_entries_map_index(entries, j as int);
                                assert(entries[j as int].1.wf());
                                let k = entries[j as int].0@;
                                assert(m.contains_key(k) && extra_deadline(m[k], nl) == bd);
                            }
                            return SleepTime::To(bd);
                        }
                    },
                    None => {},
                }
                self.wake_up = Some((wd, wc));
                SleepTime::To(wd)
            },
            Next::Unknown => {
                match best {
                    Some((j, bd)) => {
                        let cmd = match self.shared.schedulers[j].1.get_next(now) {
                            Next::At(_, c) => c,
                            Next::Unknown => Command::UpdateWake,
                        };
                        self.last_scheduler = Some(self.shared.schedulers[j].0.clone());
                        self.wake_up = Some((bd, cmd));
                        proof {
                            lemma_entries_map_index(entries, j as int);
                            assert(entries[j as int].1.wf());
                            let k = entries[j as int].0@;
                            assert(m.contains_key(k) && extra_deadline(m[k], nl) == bd);
                        }
                        SleepTime::To(bd)
                    },
                    None => {
                        assert(m == Map::<Seq<char>, ExtraScheduler>::empty());
                        self.wake_up = None;
                        SleepTime::Forever
                    },
                }
            },
        }
    }

    /// Renders the transition in flight, else stops if finishing, else
    /// renders the effect, else plans.
    fn get_next(&mut self, now: &Now) -> (r: Action)
        requires
            old(self).wf(),
            now.wf(),
        ensures
            final(self).wf(),
            next_step(old(self)@, final(self)@, *now, r),
    {
        if self.transition.is_some() || (!self.finish && self.effect.is_some()) {
            match self.current_output(now) {
                Some(x) => Action::SetStrength(x),
                None => Action::Break,
            }
        } else if self.finish {
            Action::Break
        } else {
            Action::Wait(self.queue_sleep(now))
        }
    }

    /// Drops the stashed wake-up.
    fn disarm(&mut self)
        ensures
            final(self)@ == disarmed(old(self)@, true),
            old(self).wf() ==> final(self).wf(),
    {
        self.wake_up = None;
        self.last_scheduler = None;
    }

    /// Whether the controller was armed by the scheduler named `name`.
    fn armed_by_name(&self, name: &str) -> (r: bool)
        ensures
            r == (self@.armed_by == Some(name@)),
    {
        match &self.last_scheduler {
            Some(a) => crate::text::str_equals(a.as_str(), name),
            None => false,
        }
    }

    /// Carries out one command.
    fn apply(&mut self, command: Command, now: &Now) -> (r: Action)
        requires
            old(self).wf(),
            command.wf(),
            now.wf(),
        ensures
            final(self).wf(),
            apply_step(old(self)@, command, *now, final(self)@, r),
    {
        match command {
            Command::Finish => {
                self.finish = true;
                self.disarm();
                if self.transition.is_some() {
                    match self.current_output(now) {
                        Some(x) => Action::SetStrength(x),
                        None => Action::Break,
                    }
                } else {
                    Action::Break
                }
            },
            Command::SetStrength(x) => {
                self.transition = None;
                self.effect = None;
                self.shared.strength = x;
                self.shared.transition = None;
                Action::SetStrength(x)
            },
            Command::ChangeDayTimer(day, time) => {
                *self.shared.week_scheduler.get_mut(day) = time;
                self.shared.week_scheduler.last = None;
                proof {
                    assert forall|d: Weekday| d != day implies #[trigger] self.shared.week_scheduler.day(d)
                        == old(self).shared.week_scheduler.day(d) by {}
                    assert(self.shared.week_scheduler.day(day) == time);
                }
                self.get_next(now)
            },
            Command::ChangeDayTimerTransition(t) => {
                self.shared.week_scheduler.transition = t;
                proof {
                    assert forall|d: Weekday| #[trigger] self.shared.week_scheduler.day(d)
                        == old(self).shared.week_scheduler.day(d) by {}
                }
                self.get_next(now)
            },
            Command::AddReplaceScheduler(name, scheduler) => {
                let hit = self.armed_by_name(name.as_str());
                self.shared.insert_scheduler(name, *scheduler);
                if hit {
                    self.disarm();
                }
                self.get_next(now)
            },
            Command::RemoveScheduler(name) => {
                let hit = self.armed_by_name(name.as_str());
                self.shared.remove_scheduler(name.as_str());
                if hit {
                    self.disarm();
                }
                self.get_next(now)
            },
            Command::ClearAllSchedulers => {
                let hit = self.last_scheduler.is_some();
                self.shared.clear_schedulers();
                if hit {
                    self.disarm();
                }
                self.get_next(now)
            },
            Command::SetTransition(t) => {
                self.shared.transition = Some(t);
                self.transition = Some(TransitionState::new(t));
                self.last_instance = now.monotonic;
                match self.current_output(now) {
                    Some(x) => Action::SetStrength(x),
                    None => Action::Break,
                }
            },
            Command::SetEffect(e) => {
                self.effect = Some(e);
                match self.current_output(now) {
                    Some(x) => Action::SetStrength(x),
                    None => Action::Break,
                }
            },
            Command::UpdateWake => self.get_next(now),
        }
    }

    /// Takes the stashed command if its deadline has come, and advances the
    /// scheduler that armed it.
    fn wake(&mut self, now: &Now) -> (r: Option<Command>)
        requires
            old(self).wf(),
            now.wf(),
        ensures
            final(self).wf(),
            due(old(self)@, *now) ==> r == Some(stashed(old(self)@)) && final(self)@ == fired(old(self)@, *now),
            !due(old(self)@, *now) ==> r is None && final(self)@ == old(self)@,
    {
        let is_due = match &self.wake_up {
            Some((d, _)) => now.local >= *d,
            None => false,
        };
        if !is_due {
            return None;
        }
        let cmd = match self.wake_up.take() {
            Some((_, c)) => c,
            None => Command::UpdateWake,
        };
        match self.last_scheduler.take() {
            Some(name) => {
                self.shared.fire_scheduler(name.as_str(), now);
            },
            None => {
                self.shared.week_scheduler.advance(now);
            },
        }
        Some(cmd)
    }

    /// One step of the controller: handles `command`, or with none (or an
    /// explicit wake-up) fires the stashed command if its deadline has come
    /// and otherwise renders, stops or plans. The answer says what to do
    /// with the output; every strength it sets lies in `0..=ONE`.
    pub fn process(&mut self, command: Option<Command>, now: &Now) -> (r: Action)
        requires
            old(self).wf(),
            now.wf(),
            command matches Some(c) ==> c.wf(),
        ensures
            final(self).wf(),
            process_step(old(self)@, command, *now, final(self)@, r),
            r matches Action::SetStrength(x) ==> x@ <= ONE,
    {
        let r = match command {
            Some(Command::UpdateWake) | None => {
                match self.wake(now) {
                    Some(c) => self.apply(c, now),
                    None => self.get_next(now),
                }
            },
            Some(c) => self.apply(c, now),
        };
        proof {
            if let Action::SetStrength(x) = r {
                use_type_invariant(&x);
                x.lemma_in_range();
            }
        }
        r
    }
}


/// A `SetTransition` command is answered at once by setting the output to
/// the transition's starting level, before any wait; unless it is already
/// over, the view then shows the transition, which is rendered from its
/// start.
pub proof fn lemma_set_transition_sets_first(s: StateModel, t: Transition, now: Now, s2: StateModel, a: Action)
    requires
        process_step(s, Some(Command::SetTransition(t)), now, s2, a),
    ensures
        a matches Action::SetStrength(x) && x@ == level_at(t, 0),
        end_point(t) > 0 ==> s2.shared.transition == Some(t) && s2.rendering == Some((t, 0nat)),
{
}

/// `Finish` drops any stashed wake-up; with nothing rendering it stops at
/// once.
pub proof fn lemma_finish_disarms(s: StateModel, now: Now, s2: StateModel, a: Action)
    requires
        process_step(s, Some(Command::Finish), now, s2, a),
    ensures
        s2.finish,
        s2.wake_up is None,
        s.rendering is None ==> a == Action::Break,
{
}

/// Once finishing with nothing rendering and nothing stashed, every plain
/// step stops, whether or not an effect is in place.
pub proof fn lemma_finish_stops(s: StateModel, now: Now, s2: StateModel, a: Action)
    requires
        s.finish,
        s.rendering is None,
        s.wake_up is None,
        process_step(s, None, now, s2, a),
    ensures
        a == Action::Break,
        s2 == s,
{
}

/// A plan with no time on any day never fires.
pub proof fn lemma_empty_week_never_fires(w: WeekScheduler, now: int)
    requires
        w.is_empty(),
    ensures
        week_next(w, now) is Unknown,
{
    assert(w.day(crate::clock::weekday_at(now)) is None);
    lemma_scan_empty(w, crate::weekday::day_index(crate::clock::weekday_at(now).succ_spec()), 0);
}

proof fn lemma_scan_empty(w: WeekScheduler, start: int, i: int)
    requires
        w.is_empty(),
    ensures
        crate::scheduler::scan_from(w, start, i) is None,
    decreases 7 - i,
{
    if 0 <= i < 7 {
        assert(w.day(crate::weekday::day_at(start + i)) is None);
        lemma_scan_empty(w, start, i + 1);
    }
}

/// With nothing rendering, no effect, not finishing and an empty weekly
/// plan, removing the last named scheduler leaves no named scheduler and
/// makes the controller sleep for ever.
pub proof fn lemma_nothing_left_sleeps_forever(s: StateModel, name: String, now: Now, s2: StateModel, a: Action)
    requires
        s.rendering is None,
        s.effect is None,
        !s.finish,
        s.shared.week.is_empty(),
        s.shared.schedulers.dom() == Set::<Seq<char>>::empty().insert(name@),
        process_step(s, Some(Command::RemoveScheduler(name)), now, s2, a),
    ensures
        a == Action::Wait(SleepTime::Forever),
        s2.shared.schedulers == Map::<Seq<char>, ExtraScheduler>::empty(),
{
    assert(s.shared.schedulers.remove(name@) =~= Map::<Seq<char>, ExtraScheduler>::empty());
    lemma_empty_week_never_fires(s.shared.week, now.local as int);
}

/// Editing a day's time clears the record of the last fire, so the edited
/// day fires again today when its time less the transition's duration has
/// not passed (even if the plan fired earlier today): the plan names
/// today's deadline, the controller wakes no later than that, and exactly
/// then when no named scheduler comes earlier.
pub proof fn lemma_day_edit_fires_today(
    s: StateModel,
    day: Weekday,
    time: TimeOfDay,
    now: Now,
    s2: StateModel,
    a: Action,
)
    requires
        now.wf(),
        time.wf(),
        s.rendering is None,
        s.effect is None,
        !s.finish,
        crate::clock::weekday_at(now.local as int) == day,
        now.local <= crate::clock::moment_of(crate::clock::day_of(now.local as int), time.ms())
            - s.shared.week.transition.time,
        process_step(s, Some(Command::ChangeDayTimer(day, Some(time))), now, s2, a),
    ensures
        s2.shared.week.last is None,
        s2.shared.week.day(day) == Some(time),
        week_next(s2.shared.week, now.local as int) == Next::At(
            (crate::clock::moment_of(crate::clock::day_of(now.local as int), time.ms())
                - s.shared.week.transition.time) as i64,
            Command::SetTransition(s.shared.week.transition),
        ),
        a matches Action::Wait(SleepTime::To(d)) && d <= crate::clock::moment_of(
            crate::clock::day_of(now.local as int),
            time.ms(),
        ) - s.shared.week.transition.time,
        (forall|k: Seq<char>| #[trigger] s.shared.schedulers.contains_key(k) ==> extra_deadline(
            s.shared.schedulers[k],
            now.local as int,
        ) >= crate::clock::moment_of(crate::clock::day_of(now.local as int), time.ms())
            - s.shared.week.transition.time) ==> a == Action::Wait(
            SleepTime::To(
                (crate::clock::moment_of(crate::clock::day_of(now.local as int), time.ms())
                    - s.shared.week.transition.time) as i64,
            ),
        ),
{
}

/// Adding a scheduler under a name already in use replaces it: the named
/// schedulers afterwards are the old ones with the name mapped to the new
/// scheduler, one entry per name.
pub proof fn lemma_add_replaces(s: StateModel, name: String, b: ExtraScheduler, now: Now, s2: StateModel, a: Action)
    requires
        process_step(s, Some(Command::AddReplaceScheduler(name, Box::new(b))), now, s2, a),
    ensures
        s2.shared.schedulers == s.shared.schedulers.insert(name@, b),
{
}

/// Earliest deadline first: when a plain step plans a wake-up, it wakes no
/// later than the next deadline of the weekly plan and of every named
/// scheduler; so of two schedulers with deadlines `d1 < d2`, the wake-up
/// comes by `d1`.
pub proof fn lemma_earliest_deadline_first(
    s: StateModel,
    now: Now,
    s2: StateModel,
    d: i64,
    k1: Seq<char>,
    k2: Seq<char>,
)
    requires
        !due(s, now),
        process_step(s, None, now, s2, Action::Wait(SleepTime::To(d))),
        s.shared.schedulers.contains_key(k1),
        s.shared.schedulers.contains_key(k2),
        extra_deadline(s.shared.schedulers[k1], now.local as int) < extra_deadline(
            s.shared.schedulers[k2],
            now.local as int,
        ),
    ensures
        d <= extra_deadline(s.shared.schedulers[k1], now.local as int),
        d < extra_deadline(s.shared.schedulers[k2], now.local as int),
        week_next(s.shared.week, now.local as int) matches Next::At(wd, _) ==> d <= wd,
{
}

} // verus!
