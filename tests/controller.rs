use httpwm::{EveryWeek, Next, Scheduler};
use httpwm::{
    Action, At, ClonableCommand, Command, Common, Effect, EveryDay, ExtraScheduler, Now, SharedState, SleepTime,
    State, Strength, TimeOfDay, Transition, TransitionInterpolation, WeekScheduler, Weekday, ONE,
};

const DAY: i64 = 86_400_000;
const HOUR: i64 = 3_600_000;

/// Monday 1970-01-05 at the given milliseconds into the day.
fn monday(ms: i64) -> i64 {
    4 * DAY + ms
}

fn now(local: i64, monotonic: u64) -> Now {
    Now { local, unix: local, monotonic }
}

fn default_state(at: &Now) -> State {
    let week = WeekScheduler::same(TimeOfDay::from_hms(7, 0, 0).unwrap(), Transition::default());
    State::new(SharedState::new(week), at)
}

fn linear(time: u64) -> Transition {
    Transition {
        from: Strength::new(0),
        to: Strength::new(ONE),
        time,
        interpolation: TransitionInterpolation::Linear,
    }
}

fn set_units(a: Action) -> u32 {
    match a {
        Action::SetStrength(s) => s.into_inner(),
        other => panic!("expected a strength, got {:?}", other),
    }
}

fn common(description: &str, t: Transition) -> Common {
    Common::new(description.to_string(), ClonableCommand::new(Command::SetTransition(t)).unwrap())
}

#[test]
fn immediate_set() {
    let t0 = now(monday(12 * HOUR), 0);
    let mut state = default_state(&t0);
    let a = state.process(Some(Command::SetStrength(Strength::new(400_000_000))), &t0);
    assert_eq!(a, Action::SetStrength(Strength::new(400_000_000)));
    assert_eq!(state.shared_state().get_strength().into_inner(), 400_000_000);
    assert!(state.shared_state().get_transition().is_none());
}

#[test]
fn linear_transition_samples() {
    let t0 = now(monday(12 * HOUR), 1_000);
    let mut state = default_state(&t0);
    let a = state.process(Some(Command::SetTransition(linear(1000))), &t0);
    assert_eq!(set_units(a), 0);
    assert!(state.shared_state().get_transition().is_some());
    for (ms, expected) in [(250u64, 250_000_000u32), (500, 500_000_000), (750, 750_000_000)] {
        let a = state.process(None, &now(monday(12 * HOUR) + ms as i64, 1_000 + ms));
        assert_eq!(set_units(a), expected);
        assert!(state.shared_state().get_transition().is_some());
    }
    let a = state.process(None, &now(monday(12 * HOUR) + 1000, 2_000));
    assert_eq!(set_units(a), ONE);
    assert!(state.shared_state().get_transition().is_none());
    assert_eq!(state.shared_state().get_strength().into_inner(), ONE);
    // nothing in flight any more: the controller plans the next alarm
    let a = state.process(None, &now(monday(12 * HOUR) + 1001, 2_001));
    assert_eq!(a, Action::Wait(SleepTime::To(monday(DAY + 7 * HOUR - 15 * 60_000))));
}

#[test]
fn and_back_sine_transition() {
    let t0 = now(monday(12 * HOUR), 0);
    let mut state = default_state(&t0);
    let t = Transition {
        from: Strength::new(0),
        to: Strength::new(ONE),
        time: 2000,
        interpolation: TransitionInterpolation::SineToAndBack(500_000),
    };
    assert_eq!(set_units(state.process(Some(Command::SetTransition(t)), &t0)), 0);
    assert_eq!(set_units(state.process(None, &now(monday(12 * HOUR) + 2000, 2000))), ONE);
    assert!(state.shared_state().get_transition().is_some());
    assert_eq!(set_units(state.process(None, &now(monday(12 * HOUR) + 3000, 3000))), 0);
    assert!(state.shared_state().get_transition().is_none());
}

#[test]
fn set_transition_sets_before_waiting() {
    let t0 = now(monday(12 * HOUR), 0);
    let mut state = default_state(&t0);
    let a = state.process(None, &t0);
    assert!(matches!(a, Action::Wait(_)));
    let a = state.process(Some(Command::SetTransition(linear(60_000))), &t0);
    assert!(matches!(a, Action::SetStrength(_)));
}

#[test]
fn priority_between_schedulers() {
    let noon = monday(12 * HOUR);
    let t0 = now(noon, 0);
    let mut state = default_state(&t0);
    let a_sched = ExtraScheduler::EveryDay(EveryDay::new(common("A", linear(100)), TimeOfDay::from_hms(12, 0, 10).unwrap()));
    let b_sched = ExtraScheduler::At(At::new(common("B", linear(100)), noon + 5_000));
    let a = state.process(Some(Command::AddReplaceScheduler("A".to_string(), Box::new(a_sched))), &t0);
    assert_eq!(a, Action::Wait(SleepTime::To(noon + 10_000)));
    let a = state.process(Some(Command::AddReplaceScheduler("B".to_string(), Box::new(b_sched))), &t0);
    assert_eq!(a, Action::Wait(SleepTime::To(noon + 5_000)));
    // not yet due
    let a = state.process(None, &now(noon + 4_999, 4_999));
    assert_eq!(a, Action::Wait(SleepTime::To(noon + 5_000)));
    // B fires and is removed; A stays
    let a = state.process(None, &now(noon + 5_000, 5_000));
    assert_eq!(set_units(a), 0);
    let names: Vec<String> = state.shared_state().ref_schedulers().iter().map(|(n, _)| n.clone()).collect();
    assert_eq!(names, vec!["A".to_string()]);
    assert_eq!(set_units(state.process(None, &now(noon + 5_100, 5_100))), ONE);
    let a = state.process(None, &now(noon + 5_101, 5_101));
    assert_eq!(a, Action::Wait(SleepTime::To(noon + 10_000)));
    // A fires and stays
    let a = state.process(None, &now(noon + 10_000, 10_000));
    assert_eq!(set_units(a), 0);
    assert_eq!(state.shared_state().ref_schedulers().len(), 1);
}

#[test]
fn weekday_edit_fires_same_day() {
    let at = monday(6 * HOUR + 30 * 60_000);
    let t0 = now(at, 0);
    let mut state = default_state(&t0);
    let a = state.process(None, &t0);
    assert_eq!(a, Action::Wait(SleepTime::To(monday(6 * HOUR + 45 * 60_000))));
    let a = state.process(
        Some(Command::ChangeDayTimer(Weekday::Mon, Some(TimeOfDay::from_hms(6, 45, 0).unwrap()))),
        &t0,
    );
    assert_eq!(a, Action::Wait(SleepTime::To(at)));
    assert_eq!(state.shared_state().ref_week_schedule().last, None);
    let a = state.process(None, &t0);
    assert_eq!(set_units(a), 0);
    assert_eq!(state.shared_state().ref_week_schedule().last, Some(at));
    assert!(state.shared_state().get_transition().is_some());
}

#[test]
fn week_plan_does_not_fire_twice_a_day() {
    let at = monday(6 * HOUR + 45 * 60_000);
    let t0 = now(at, 0);
    let mut state = default_state(&t0);
    assert_eq!(state.process(None, &t0), Action::Wait(SleepTime::To(at)));
    assert_eq!(set_units(state.process(None, &t0)), 0);
    assert_eq!(set_units(state.process(Some(Command::SetStrength(Strength::new(0))), &t0)), 0);
    // same day, after the fire: the next alarm is Tuesday's
    let a = state.process(None, &t0);
    assert_eq!(a, Action::Wait(SleepTime::To(monday(DAY + 6 * HOUR + 45 * 60_000))));
}

#[test]
fn effect_override_then_set_clears_it() {
    let t0 = Now { local: monday(12 * HOUR), unix: 250, monotonic: 0 };
    let mut state = default_state(&t0);
    let a = state.process(Some(Command::SetEffect(Effect::Radar { offset: 0, speed: 1000 })), &t0);
    assert_eq!(set_units(a), 421_875_000);
    let a = state.process(None, &Now { local: monday(12 * HOUR), unix: 1000, monotonic: 10 });
    assert_eq!(set_units(a), ONE);
    let a = state.process(None, &Now { local: monday(12 * HOUR), unix: -250, monotonic: 20 });
    assert_eq!(set_units(a), 15_625_000);
    let a = state.process(Some(Command::SetStrength(Strength::new(0))), &t0);
    assert_eq!(set_units(a), 0);
    let a = state.process(None, &t0);
    assert!(matches!(a, Action::Wait(_)));
    assert_eq!(state.shared_state().get_strength().into_inner(), 0);
}

#[test]
fn nothing_scheduled_sleeps_forever() {
    let t0 = now(monday(12 * HOUR), 0);
    let mut state = State::new(SharedState::new(WeekScheduler::empty(Transition::default())), &t0);
    let b = ExtraScheduler::EveryDay(EveryDay::new(common("B", linear(100)), TimeOfDay::from_hms(13, 0, 0).unwrap()));
    let a = state.process(Some(Command::AddReplaceScheduler("B".to_string(), Box::new(b))), &t0);
    assert_eq!(a, Action::Wait(SleepTime::To(monday(13 * HOUR))));
    let a = state.process(Some(Command::RemoveScheduler("B".to_string())), &t0);
    assert_eq!(a, Action::Wait(SleepTime::Forever));
    let a = state.process(Some(Command::RemoveScheduler("missing".to_string())), &t0);
    assert_eq!(a, Action::Wait(SleepTime::Forever));
}

#[test]
fn clearing_the_week_and_schedulers_sleeps_forever() {
    let t0 = now(monday(12 * HOUR), 0);
    let mut state = default_state(&t0);
    let b = ExtraScheduler::EveryDay(EveryDay::new(common("B", linear(100)), TimeOfDay::from_hms(13, 0, 0).unwrap()));
    state.process(Some(Command::AddReplaceScheduler("B".to_string(), Box::new(b))), &t0);
    for d in [Weekday::Mon, Weekday::Tue, Weekday::Wed, Weekday::Thu, Weekday::Fri, Weekday::Sat, Weekday::Sun] {
        let a = state.process(Some(Command::ChangeDayTimer(d, None)), &t0);
        assert_eq!(a, Action::Wait(SleepTime::To(monday(13 * HOUR))));
    }
    let a = state.process(Some(Command::ClearAllSchedulers), &t0);
    assert_eq!(a, Action::Wait(SleepTime::Forever));
}

#[test]
fn add_replace_keeps_one_entry() {
    let t0 = now(monday(12 * HOUR), 0);
    let mut state = default_state(&t0);
    for (h, expected) in [(14u8, monday(14 * HOUR)), (13, monday(13 * HOUR))] {
        let s = ExtraScheduler::EveryDay(EveryDay::new(common("X", linear(100)), TimeOfDay::from_hms(h, 0, 0).unwrap()));
        let a = state.process(Some(Command::AddReplaceScheduler("X".to_string(), Box::new(s))), &t0);
        assert_eq!(a, Action::Wait(SleepTime::To(expected)));
    }
    assert_eq!(state.shared_state().ref_schedulers().len(), 1);
}

#[test]
fn week_plan_wins_ties() {
    let t0 = now(monday(12 * HOUR), 0);
    let mut state = default_state(&t0);
    let tuesday_alarm = monday(DAY + 6 * HOUR + 45 * 60_000);
    let s = ExtraScheduler::At(At::new(common("same", linear(100)), tuesday_alarm));
    state.process(Some(Command::AddReplaceScheduler("same".to_string(), Box::new(s))), &t0);
    assert_eq!(set_units(state.process(None, &now(tuesday_alarm, 1))), 0);
    // the weekly plan fired, so the named one is still there
    assert_eq!(state.shared_state().ref_schedulers().len(), 1);
    assert_eq!(state.shared_state().ref_week_schedule().last, Some(tuesday_alarm));
}

#[test]
fn finish_waits_for_transition() {
    let t0 = now(monday(12 * HOUR), 0);
    let mut state = default_state(&t0);
    assert_eq!(state.process(Some(Command::Finish), &t0), Action::Break);
    let mut state = default_state(&t0);
    state.process(Some(Command::SetTransition(linear(1000))), &t0);
    assert_eq!(set_units(state.process(Some(Command::Finish), &now(monday(12 * HOUR) + 500, 500))), 500_000_000);
    assert_eq!(set_units(state.process(None, &now(monday(12 * HOUR) + 1000, 1000))), ONE);
    assert_eq!(state.process(None, &now(monday(12 * HOUR) + 1001, 1001)), Action::Break);
}

#[test]
fn change_day_timer_transition_moves_the_alarm() {
    let t0 = now(monday(12 * HOUR), 0);
    let mut state = default_state(&t0);
    let a = state.process(Some(Command::ChangeDayTimerTransition(linear(60 * 60_000))), &t0);
    assert_eq!(a, Action::Wait(SleepTime::To(monday(DAY + 6 * HOUR))));
}

#[test]
fn clonable_command_rejects_schedulers() {
    let s = ExtraScheduler::EveryDay(EveryDay::new(common("X", linear(100)), TimeOfDay::from_hms(1, 0, 0).unwrap()));
    let c = Command::AddReplaceScheduler("X".to_string(), Box::new(s));
    assert!(!c.can_clone());
    assert!(ClonableCommand::new(c).is_none());
    let c = ClonableCommand::new(Command::RemoveScheduler("Y".to_string())).unwrap();
    let copy = c.clone();
    assert!(matches!(copy.into_inner(), Command::RemoveScheduler(n) if n == "Y"));
}

#[test]
fn every_week_and_week_plan_next() {
    let s = EveryWeek::new(common("w", linear(100)), TimeOfDay::from_hms(12, 0, 10).unwrap(), Weekday::Mon);
    let at = |local: i64| match s.get_next(&now(local, 0)) {
        Next::At(d, _) => d,
        Next::Unknown => panic!("an every-week scheduler always fires"),
    };
    assert_eq!(at(monday(12 * HOUR)), monday(12 * HOUR + 10_000));
    assert_eq!(at(monday(13 * HOUR)), monday(7 * DAY + 12 * HOUR + 10_000));
    assert_eq!(at(monday(2 * DAY)), monday(7 * DAY + 12 * HOUR + 10_000));
    assert_eq!(at(monday(-DAY)), monday(12 * HOUR + 10_000));
    assert_eq!(s.kind(), "Every week at");
    assert_eq!(s.description(), "w");

    let mut week = WeekScheduler::empty(Transition::default());
    *week.get_mut(Weekday::Fri) = TimeOfDay::from_hms(8, 0, 0);
    assert_eq!(week.get_next_from_day(Weekday::Mon), Some((TimeOfDay::from_hms(8, 0, 0).unwrap(), 4)));
    assert_eq!(week.get_next_from_day(Weekday::Sat), Some((TimeOfDay::from_hms(8, 0, 0).unwrap(), 6)));
    assert_eq!(WeekScheduler::empty(Transition::default()).get_next_from_day(Weekday::Sat), None);
    // today (Monday) has no time: the plan still fires on Friday
    match week.get_next(&now(monday(12 * HOUR), 0)) {
        Next::At(d, Command::SetTransition(t)) => {
            assert_eq!(d, monday(4 * DAY + 8 * HOUR - 15 * 60_000));
            assert_eq!(t, Transition::default());
        },
        other => panic!("unexpected {:?}", other),
    }
    assert_eq!(week.kind(), "Weekly cycle");
}

#[test]
fn finish_with_effect_and_transition_stops_after_transition() {
    let t0 = now(monday(12 * HOUR), 0);
    let mut state = default_state(&t0);
    state.process(Some(Command::SetEffect(Effect::Radar { offset: 0, speed: 1000 })), &t0);
    assert_eq!(set_units(state.process(Some(Command::SetTransition(linear(1000))), &t0)), 0);
    assert_eq!(set_units(state.process(Some(Command::Finish), &now(monday(12 * HOUR) + 500, 500))), 500_000_000);
    assert_eq!(set_units(state.process(None, &now(monday(12 * HOUR) + 1000, 1000))), ONE);
    assert_eq!(state.process(None, &now(monday(12 * HOUR) + 1010, 1010)), Action::Break);
    assert_eq!(state.process(None, &now(monday(12 * HOUR) + 1020, 1020)), Action::Break);
}

#[test]
fn finish_with_only_an_effect_stops_at_once() {
    let t0 = now(monday(12 * HOUR), 0);
    let mut state = default_state(&t0);
    state.process(Some(Command::SetEffect(Effect::Radar { offset: 0, speed: 1000 })), &t0);
    assert_eq!(state.process(Some(Command::Finish), &t0), Action::Break);
}

#[test]
fn removing_the_armed_scheduler_while_rendering_drops_its_wake_up() {
    let noon = monday(12 * HOUR);
    let t0 = now(noon, 0);
    let mut state = default_state(&t0);
    let b = ExtraScheduler::At(At::new(common("B", linear(100)), noon + 5_000));
    let a = state.process(Some(Command::AddReplaceScheduler("B".to_string(), Box::new(b))), &t0);
    assert_eq!(a, Action::Wait(SleepTime::To(noon + 5_000)));
    state.process(Some(Command::SetTransition(linear(10_000))), &t0);
    let a = state.process(Some(Command::RemoveScheduler("B".to_string())), &now(noon + 1_000, 1_000));
    assert_eq!(set_units(a), 100_000_000);
    // the transition ends after B's deadline; B's command no longer fires
    assert_eq!(set_units(state.process(None, &now(noon + 10_000, 10_000))), ONE);
    let a = state.process(None, &now(noon + 10_001, 10_001));
    assert_eq!(a, Action::Wait(SleepTime::To(monday(DAY + 6 * HOUR + 45 * 60_000))));
}
