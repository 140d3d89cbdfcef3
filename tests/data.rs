use httpwm::data::{
    describe_next, AddSchedulerData, DayData, EffectData, NextOccurrence, StateData, TransitionData, WeekSchedulerData,
};
use httpwm::runner::{OutputOps, Runner, Sleeping, WaitFor};
use httpwm::text::parse_decimal;
use httpwm::{
    Action, Command, Effect, ExtraScheduler, Scheduler, SharedState, SleepTime, Strength, TimeOfDay, Transition,
    TransitionInterpolation, WeekScheduler, Weekday, ONE,
};

fn data(from: i64, to: i64, time: u64, kind: &str, extras: &[&str]) -> TransitionData {
    TransitionData {
        from,
        to,
        time,
        interpolation: kind.to_string(),
        extras: extras.iter().map(|s| s.to_string()).collect(),
    }
}

#[test]
fn transition_data_round_trip() {
    let d = data(0, ONE as i64, 2000, "sine-extra", &["0.5"]);
    let t = d.to_transition().unwrap();
    assert_eq!(t.interpolation, TransitionInterpolation::SineToAndBack(500_000));
    assert_eq!(t.time, 2000);
    let back = TransitionData::from_transition(&t);
    assert_eq!(back.from, 0);
    assert_eq!(back.to, ONE as i64);
    assert_eq!(back.time, 2000);
    assert_eq!(back.interpolation, "sine-extra");
    assert_eq!(back.extras.len(), 1);
    assert_eq!(parse_decimal(&back.extras[0]), parse_decimal("0.5"));
    let d = data(250_000_000, 750_000_000, 1000, "linear", &[]);
    let back = TransitionData::from_transition(&d.to_transition().unwrap());
    assert_eq!((back.from, back.to, back.time), (250_000_000, 750_000_000, 1000));
    assert_eq!(back.interpolation, "linear");
    assert!(back.extras.is_empty());
}

#[test]
fn transition_data_rejects_and_clamps() {
    assert!(data(0, 1, 10, "cubic", &[]).to_transition().is_none());
    assert!(data(0, 1, 10, "linear-extra", &[]).to_transition().is_none());
    assert!(data(0, 1, 10, "linear-extra", &["0"]).to_transition().is_none());
    assert!(data(0, 1, 10, "sine-extra", &["x"]).to_transition().is_none());
    assert!(data(0, 1, 2_000_000_000_000_000, "sine", &[]).to_transition().is_none());
    let t = data(-5, 2 * ONE as i64, 10, "linear-extra", &["1.5"]).to_transition().unwrap();
    assert_eq!(t.from.into_inner(), 0);
    assert_eq!(t.to.into_inner(), ONE);
    assert_eq!(t.interpolation, TransitionInterpolation::LinearToAndBack(1_500_000));
    assert_eq!(TransitionInterpolation::Sine.as_str(), "sine");
    let mut extras = Vec::new();
    TransitionInterpolation::LinearToAndBack(2_000_000).apply_extras(&mut extras);
    assert_eq!(extras, vec!["2.000000".to_string()]);
}

fn week_data() -> WeekSchedulerData {
    WeekSchedulerData {
        mon: Some("07:00:00".to_string()),
        tue: None,
        wed: Some("06:30:15".to_string()),
        thu: None,
        fri: Some("23:59:59".to_string()),
        sat: None,
        sun: Some("00:00:00".to_string()),
        transition: data(0, ONE as i64, 900_000, "sine-extra", &["0.5"]),
    }
}

#[test]
fn week_data_round_trip() {
    let d = week_data();
    let w = d.to_scheduler().unwrap();
    assert_eq!(w.get(Weekday::Wed), TimeOfDay::from_hms(6, 30, 15));
    assert_eq!(w.get(Weekday::Tue), None);
    assert_eq!(w.last, None);
    let back = WeekSchedulerData::from_scheduler(&w);
    assert_eq!(back.mon, d.mon);
    assert_eq!(back.tue, d.tue);
    assert_eq!(back.wed, d.wed);
    assert_eq!(back.thu, d.thu);
    assert_eq!(back.fri, d.fri);
    assert_eq!(back.sat, d.sat);
    assert_eq!(back.sun, d.sun);
    assert_eq!(back.transition.interpolation, "sine-extra");
    assert_eq!(parse_decimal(&back.transition.extras[0]), Some(500_000));
}

#[test]
fn week_data_rejects_bad_times() {
    let mut d = week_data();
    *d.get_mut(Weekday::Thu) = Some("7:00".to_string());
    assert!(d.to_scheduler().is_none());
    let mut d = week_data();
    *d.get_mut(Weekday::Thu) = Some("07:00".to_string());
    assert!(d.to_scheduler().is_none());
}

#[test]
fn day_data_parses() {
    let d = DayData { day: "fri".to_string(), time: Some("06:15".to_string()) };
    assert_eq!(d.parse(), Some((Weekday::Fri, TimeOfDay::from_hms(6, 15, 0))));
    let d = DayData { day: "fri".to_string(), time: None };
    assert_eq!(d.parse(), Some((Weekday::Fri, None)));
    let d = DayData { day: "friday".to_string(), time: None };
    assert_eq!(d.parse(), None);
    let d = DayData { day: "fri".to_string(), time: Some("25:00".to_string()) };
    assert_eq!(d.parse(), None);
}

fn add(kind: &str, time: &str, extras: &[&str]) -> AddSchedulerData {
    AddSchedulerData {
        kind: kind.to_string(),
        time: time.to_string(),
        name: "n".to_string(),
        description: "d".to_string(),
        extras: extras.iter().map(|s| s.to_string()).collect(),
        transition: data(0, ONE as i64, 1000, "linear", &[]),
    }
}

#[test]
fn add_scheduler_data_builds_schedulers() {
    let now = 0;
    match add("at", "12:00:05", &["1970-01-05"]).into_command(false, now) {
        Some(Command::AddReplaceScheduler(name, s)) => {
            assert_eq!(name, "n");
            match *s {
                ExtraScheduler::At(a) => {
                    assert_eq!(a.moment, 4 * 86_400_000 + 12 * 3_600_000 + 5_000);
                    assert_eq!(a.description(), "d");
                    assert_eq!(a.kind(), "At");
                },
                other => panic!("unexpected {:?}", other),
            }
        },
        other => panic!("unexpected {:?}", other),
    }
    match add("every-week", "08:00", &["sun"]).into_command(false, now) {
        Some(Command::AddReplaceScheduler(_, s)) => match *s {
            ExtraScheduler::EveryWeek(w) => {
                assert_eq!(w.day, Weekday::Sun);
                assert_eq!(w.time, TimeOfDay::from_hms(8, 0, 0).unwrap());
            },
            other => panic!("unexpected {:?}", other),
        },
        other => panic!("unexpected {:?}", other),
    }
    assert!(matches!(
        add("every-day", "08:00", &[]).into_command(false, now),
        Some(Command::AddReplaceScheduler(_, _))
    ));
    assert!(add("every-week", "08:00", &["someday"]).into_command(false, now).is_none());
    assert!(add("hourly", "08:00", &[]).into_command(false, now).is_none());
    assert!(add("at", "08:00", &[]).into_command(false, now).is_none());
    assert!(add("at", "8", &["1970-01-05"]).into_command(false, now).is_none());
}

#[test]
fn add_scheduler_data_rejects_past_unless_allowed() {
    let later = 10 * 86_400_000;
    assert!(add("at", "12:00:00", &["1970-01-05"]).into_command(false, later).is_none());
    assert!(add("at", "12:00:00", &["1970-01-05"]).into_command(true, later).is_some());
    assert!(add("at", "12:00:00", &["2023-02-30"]).into_command(true, later).is_none());
}

#[test]
fn effect_data_builds_radar() {
    let e = EffectData { kind: "radar".to_string(), nums: vec![100, 2000] };
    assert!(matches!(e.into_command(), Some(Command::SetEffect(Effect::Radar { offset: 100, speed: 2000 }))));
    let e = EffectData { kind: "radar".to_string(), nums: vec![100] };
    assert!(e.into_command().is_none());
    let e = EffectData { kind: "radar".to_string(), nums: vec![100, 0] };
    assert!(e.into_command().is_none());
    let e = EffectData { kind: "pulse".to_string(), nums: vec![0, 1] };
    assert!(e.into_command().is_none());
}

#[test]
fn state_data_reports_week() {
    let week = WeekScheduler::same(TimeOfDay::from_hms(7, 0, 0).unwrap(), Transition::default());
    let shared = SharedState::new(week);
    let s = StateData::from_shared_state(&shared);
    assert_eq!(s.strength, 0);
    assert_eq!(s.days.len(), 7);
    assert_eq!(s.days[0], ("mon".to_string(), Some("07:00:00".to_string())));
    assert_eq!(s.days[6], ("sun".to_string(), Some("07:00:00".to_string())));
    assert_eq!(s.transition.time, 900_000);
}

#[test]
fn next_occurrence_descriptions() {
    assert_eq!(describe_next(2 * 86_400_000, 0), NextOccurrence::At(2 * 86_400_000));
    assert_eq!(describe_next(5 * 3_600_000 + 10, 0), NextOccurrence::InHours(5));
    assert_eq!(describe_next(90_000, 0), NextOccurrence::InMinutes(1));
    assert_eq!(describe_next(59_999, 0), NextOccurrence::InSeconds(59));
    assert_eq!(describe_next(0, 1_500), NextOccurrence::InSeconds(-1));
}

#[test]
fn runner_drives_output_power() {
    let mut r = Runner::new();
    assert_eq!(r.wait(0), WaitFor::Tick);
    let ops = r.on_action(Action::SetStrength(Strength::new(5)));
    assert_eq!(ops, OutputOps { disable: false, enable: true, set: Some(Strength::new(5)), stop: false });
    let ops = r.on_action(Action::SetStrength(Strength::new(0)));
    assert_eq!(ops, OutputOps { disable: false, enable: false, set: Some(Strength::new(0)), stop: false });
    let ops = r.on_action(Action::Wait(SleepTime::To(1_000)));
    assert!(ops.disable);
    assert_eq!(r.sleeping, Sleeping::To(1_000));
    assert_eq!(r.wait(500), WaitFor::Millis(498));
    assert_eq!(r.wait(2_000), WaitFor::Millis(0));
    let ops = r.on_action(Action::SetStrength(Strength::new(7)));
    assert!(ops.enable);
    let ops = r.on_action(Action::Wait(SleepTime::Forever));
    assert!(!ops.disable);
    assert_eq!(r.wait(0), WaitFor::Forever);
    r.on_command();
    assert_eq!(r.sleeping, Sleeping::Wake);
    assert!(r.on_action(Action::Break).stop);
}
