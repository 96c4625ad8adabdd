use open_station::config::PracticeTiming;
use open_station::practice::{PracticeMode, PracticePhase};
use open_station::types::Mode;

fn fast_timing() -> PracticeTiming {
    PracticeTiming {
        countdown_secs: 0,
        auto_secs: 0,
        delay_secs: 0,
        teleop_secs: 0,
    }
}

#[test]
fn practice_test_initial_state() {
    let pm = PracticeMode::new(PracticeTiming::default());
    assert_eq!(pm.phase(), PracticePhase::Idle);
    assert!(!pm.is_running());
}

#[test]
fn test_start() {
    let mut pm = PracticeMode::new(PracticeTiming::default());
    pm.start();
    assert_eq!(pm.phase(), PracticePhase::Countdown);
    assert!(pm.is_running());
}

#[test]
fn test_stop_resets_to_idle() {
    let mut pm = PracticeMode::new(PracticeTiming::default());
    pm.start();
    pm.stop();
    assert_eq!(pm.phase(), PracticePhase::Idle);
    assert!(!pm.is_running());
}

#[test]
fn test_phase_transitions_with_zero_timing() {
    let mut pm = PracticeMode::new(fast_timing());
    pm.start();

    let tick = pm.tick();
    let mut phases_seen = vec![tick.phase];
    for _ in 0..10 {
        let tick = pm.tick();
        if !phases_seen.contains(&tick.phase) {
            phases_seen.push(tick.phase);
        }
        if tick.phase == PracticePhase::Done {
            break;
        }
    }
    assert!(phases_seen.contains(&PracticePhase::Done));
    assert!(!pm.is_running());
}

#[test]
fn test_enable_on_auto_transition() {
    let mut pm = PracticeMode::new(fast_timing());
    pm.start();
    let mut saw_auto_enable = false;
    for _ in 0..10 {
        let tick = pm.tick();
        if tick.should_enable && tick.mode == Some(Mode::Autonomous) {
            saw_auto_enable = true;
            break;
        }
    }
    assert!(saw_auto_enable);
}

#[test]
fn test_done_is_not_running() {
    let mut pm = PracticeMode::new(fast_timing());
    pm.start();
    for _ in 0..20 {
        pm.tick();
    }
    assert_eq!(pm.phase(), PracticePhase::Done);
    assert!(!pm.is_running());
}

#[test]
fn fast_practice_sequence_enables_auto_and_teleop() {
    let mut pm = PracticeMode::new(fast_timing());
    pm.start_at(0);
    let mut auto_enable = false;
    let mut teleop_enable = false;
    let mut phases = Vec::new();
    for _ in 0..10 {
        let tick = pm.tick_at(0);
        phases.push(tick.phase);
        if tick.phase == PracticePhase::Autonomous {
            auto_enable |= tick.should_enable && tick.mode == Some(Mode::Autonomous);
        }
        if tick.phase == PracticePhase::Teleop {
            teleop_enable |= tick.should_enable && tick.mode == Some(Mode::Teleop);
        }
        if tick.phase == PracticePhase::Done {
            assert!(tick.should_disable);
            break;
        }
    }
    assert_eq!(
        phases,
        vec![
            PracticePhase::Autonomous,
            PracticePhase::Delay,
            PracticePhase::Teleop,
            PracticePhase::Done
        ]
    );
    assert!(auto_enable && teleop_enable);
    assert!(!pm.is_running());
}

#[test]
fn a_stop_during_auto() {
    let timing = PracticeTiming { countdown_secs: 0, auto_secs: 10, delay_secs: 0, teleop_secs: 0 };
    let mut pm = PracticeMode::new(timing);
    pm.start_at(1_000);
    let first = pm.tick_at(1_000);
    assert_eq!(first.phase, PracticePhase::Autonomous);
    assert!(first.should_enable);
    assert_eq!(first.mode, Some(Mode::Autonomous));
    pm.a_stop();
    assert!(pm.is_a_stopped());
    for t in [1_020u64, 5_000, 10_999] {
        let tick = pm.tick_at(t);
        assert_eq!(tick.phase, PracticePhase::Autonomous);
        assert!(tick.should_disable);
        assert!(!tick.should_enable);
    }
    let delay = pm.tick_at(11_000);
    assert_eq!(delay.phase, PracticePhase::Delay);
    assert!(delay.should_disable);
    assert!(!delay.should_enable);
    let teleop = pm.tick_at(11_000);
    assert_eq!(teleop.phase, PracticePhase::Teleop);
    assert!(teleop.should_enable);
    assert_eq!(teleop.mode, Some(Mode::Teleop));
    assert!(!pm.is_a_stopped());
}

#[test]
fn countdown_reports_remaining_time() {
    let mut pm = PracticeMode::new(PracticeTiming::default());
    pm.start_at(500);
    let tick = pm.tick_at(1_500);
    assert_eq!(tick.phase, PracticePhase::Countdown);
    assert_eq!(tick.elapsed_ms, 1_000);
    assert_eq!(tick.remaining_ms, 2_000);
    assert!(tick.should_disable);
    let tick = pm.tick_at(2_000);
    assert!(!tick.should_disable);
    assert_eq!(tick.mode, None);
}

#[test]
fn a_stop_outside_auto_does_nothing() {
    let mut pm = PracticeMode::new(PracticeTiming::default());
    pm.a_stop();
    assert!(!pm.is_a_stopped());
    pm.start_at(0);
    pm.a_stop();
    assert!(!pm.is_a_stopped());
}

#[test]
fn timing_is_captured_at_start() {
    let long = PracticeTiming { countdown_secs: 100, auto_secs: 15, delay_secs: 1, teleop_secs: 135 };
    let mut pm = PracticeMode::new(long);
    pm.start_at(0);
    pm.set_timing(fast_timing());
    let tick = pm.tick_at(1);
    assert_eq!(tick.phase, PracticePhase::Countdown);
    assert_eq!(tick.remaining_ms, 99_999);
    pm.stop();
    pm.start_at(10);
    let tick = pm.tick_at(10);
    assert_eq!(tick.phase, PracticePhase::Autonomous);
}
