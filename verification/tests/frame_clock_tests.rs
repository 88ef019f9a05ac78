use physics_core::frame_clock::{FrameClock, MAX_FIXED_STEPS_PER_FRAME};

#[test]
fn fixed_step_cap_is_eight() {
    assert_eq!(MAX_FIXED_STEPS_PER_FRAME, 8);
}

#[test]
fn a_call_without_positive_dt_is_a_no_op() {
    assert!(FrameClock::begin(false, 1).is_none());
    assert!(FrameClock::begin(false, 100).is_none());
}

#[test]
fn a_call_without_bodies_is_a_no_op() {
    assert!(FrameClock::begin(true, 0).is_none());
    assert!(FrameClock::begin(false, 0).is_none());
}

#[test]
fn a_proper_call_starts_at_zero_steps() {
    let clock = FrameClock::begin(true, 3).unwrap();
    assert_eq!(clock.steps(), 0);
    assert!(!clock.saturated());
}

#[test]
fn no_backlog_no_step() {
    let mut clock = FrameClock::begin(true, 1).unwrap();
    assert!(!clock.take_step(false));
    assert_eq!(clock.steps(), 0);
    assert!(!clock.saturated());
}

#[test]
fn steps_follow_the_backlog() {
    let mut clock = FrameClock::begin(true, 1).unwrap();
    assert!(clock.take_step(true));
    assert!(clock.take_step(true));
    assert!(clock.take_step(true));
    assert!(!clock.take_step(false));
    assert_eq!(clock.steps(), 3);
    assert!(!clock.saturated());
}

#[test]
fn the_ninth_step_is_refused() {
    let mut clock = FrameClock::begin(true, 1).unwrap();
    for expected in 1u32..=8 {
        assert!(clock.take_step(true));
        assert_eq!(clock.steps(), expected);
    }
    assert!(clock.saturated());
    assert!(!clock.take_step(true));
    assert!(!clock.take_step(true));
    assert_eq!(clock.steps(), 8);
    assert!(clock.saturated());
}

#[test]
fn a_frame_of_a_tenth_of_a_second_runs_six_steps() {
    let fixed: f32 = 1.0 / 60.0;
    let mut accumulator: f32 = 0.1;
    let mut clock = FrameClock::begin(accumulator > 0.0, 1).unwrap();
    while clock.take_step(accumulator >= fixed) {
        accumulator -= fixed;
    }
    assert_eq!(clock.steps(), 6);
    assert!(!clock.saturated());
    assert!(accumulator < fixed);
}

#[test]
fn a_long_backlog_saturates_and_is_dropped() {
    let fixed: f32 = 1.0 / 60.0;
    let mut accumulator: f32 = 0.5;
    let mut clock = FrameClock::begin(true, 1).unwrap();
    while clock.take_step(accumulator >= fixed) {
        accumulator -= fixed;
    }
    assert_eq!(clock.steps(), 8);
    assert!(clock.saturated());
    assert!(accumulator >= fixed);
}
