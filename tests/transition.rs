use httpwm::{Strength, Transition, TransitionInterpolation, TransitionState, TransitionStateOut, ONE};

fn transition(from: u32, to: u32, time: u64, interpolation: TransitionInterpolation) -> Transition {
    Transition { from: Strength::new(from), to: Strength::new(to), time, interpolation }
}

fn units(out: TransitionStateOut) -> (bool, u32) {
    match out {
        TransitionStateOut::Ongoing(s) => (false, s.into_inner()),
        TransitionStateOut::Finished(s) => (true, s.into_inner()),
    }
}

#[test]
fn linear_render_in_quarters() {
    let mut ts = TransitionState::new(transition(0, ONE, 1000, TransitionInterpolation::Linear));
    assert_eq!(units(ts.process(0)), (false, 0));
    assert_eq!(units(ts.process(250)), (false, 250_000_000));
    assert_eq!(units(ts.process(250)), (false, 500_000_000));
    assert_eq!(units(ts.process(250)), (false, 750_000_000));
    assert_eq!(units(ts.process(250)), (true, ONE));
}

#[test]
fn downward_linear_and_overshoot_end_at_target() {
    let mut ts = TransitionState::new(transition(800_000_000, 200_000_000, 1000, TransitionInterpolation::Linear));
    assert_eq!(units(ts.process(500)), (false, 500_000_000));
    assert_eq!(units(ts.process(5000)), (true, 200_000_000));
}

#[test]
fn sine_render_is_symmetric() {
    let mut ts = TransitionState::new(transition(0, ONE, 1000, TransitionInterpolation::Sine));
    assert_eq!(units(ts.process(0)), (false, 0));
    assert_eq!(units(ts.process(500)), (false, 500_000_000));
    let (_, quarter) = units(ts.process(250));
    // sin ease at 3/4 is 0.8535...
    assert!(quarter > 850_000_000 && quarter < 857_000_000);
    assert_eq!(units(ts.process(250)), (true, ONE));
}

#[test]
fn sine_and_back_peaks_then_returns() {
    let mut ts = TransitionState::new(transition(0, ONE, 2000, TransitionInterpolation::SineToAndBack(500_000)));
    assert_eq!(units(ts.process(2000)), (false, ONE));
    let (done, half_back) = units(ts.process(500));
    assert!(!done);
    assert_eq!(half_back, 500_000_000);
    assert_eq!(units(ts.process(500)), (true, 0));
}

#[test]
fn linear_and_back_peaks_then_returns() {
    let mut ts = TransitionState::new(transition(100_000_000, 900_000_000, 1000, TransitionInterpolation::LinearToAndBack(2_000_000)));
    assert_eq!(units(ts.process(1000)), (false, 900_000_000));
    assert_eq!(units(ts.process(1000)), (false, 500_000_000));
    assert_eq!(units(ts.process(1000)), (true, 100_000_000));
}

#[test]
fn zero_duration_finishes_at_target() {
    let mut ts = TransitionState::new(transition(0, 300_000_000, 0, TransitionInterpolation::Linear));
    assert_eq!(units(ts.process(0)), (true, 300_000_000));
    let mut ts = TransitionState::new(transition(0, 300_000_000, 0, TransitionInterpolation::SineToAndBack(500_000)));
    assert_eq!(units(ts.process(0)), (true, 300_000_000));
}

#[test]
fn default_transition() {
    let t = Transition::default();
    assert_eq!(t.from.into_inner(), 0);
    assert_eq!(t.to.into_inner(), ONE);
    assert_eq!(t.time, 15 * 60 * 1000);
    assert_eq!(t.interpolation, TransitionInterpolation::SineToAndBack(500_000));
}

#[test]
fn remap_and_check_finish_maps_onto_range() {
    let t = transition(200_000_000, 600_000_000, 1000, TransitionInterpolation::Linear);
    let out = TransitionStateOut::remap_and_check_finish(&t, 500_000_000, 10, 20);
    assert_eq!(units(out), (false, 400_000_000));
    let out = TransitionStateOut::remap_and_check_finish(&t, ONE, 20, 20);
    assert_eq!(units(out), (true, 600_000_000));
}
