use pomodoro::clock_text::{clock_text, remaining_text};
use pomodoro::signal::ControlSignal;
use pomodoro::timer::{phase_seconds, PhaseEvent, PhaseOutcome, Step, TimerState};

fn text(v: Vec<char>) -> String {
    v.into_iter().collect()
}

#[test]
fn countdown_reaches_zero_and_completes() {
    let mut s = TimerState::new(3);
    assert_eq!(s.outcome(), None);
    let mut seen = vec![s.remaining];
    for _ in 0..2 {
        match s.step(PhaseEvent::Tick) {
            Step::Show(f) => assert!(!f.paused),
            Step::Done(_) => panic!("ended early"),
        }
        seen.push(s.remaining);
    }
    assert!(matches!(s.step(PhaseEvent::Tick), Step::Done(PhaseOutcome::Completed)));
    seen.push(s.remaining);
    assert_eq!(seen, vec![3, 2, 1, 0]);
    assert_eq!(s.outcome(), Some(PhaseOutcome::Completed));
}

#[test]
fn pause_freezes_remaining() {
    let mut s = TimerState::new(10);
    s.apply(PhaseEvent::Tick);
    s.apply(PhaseEvent::Signal(ControlSignal::PauseToggle));
    assert!(s.paused);
    for _ in 0..20 {
        s.apply(PhaseEvent::Tick);
    }
    assert_eq!(s.remaining, 9);
    assert!(s.frame().paused);
    s.apply(PhaseEvent::Signal(ControlSignal::PauseToggle));
    s.apply(PhaseEvent::Tick);
    assert_eq!(s.remaining, 8);
}

#[test]
fn quit_at_45_seconds_cancels_and_freezes() {
    let mut s = TimerState::new(phase_seconds(1));
    for _ in 0..15 {
        s.apply(PhaseEvent::Tick);
    }
    assert_eq!(s.remaining, 45);
    let r = s.step(PhaseEvent::Signal(ControlSignal::Quit));
    assert!(matches!(r, Step::Done(PhaseOutcome::Cancelled { remaining: 45 })));
    s.apply(PhaseEvent::Tick);
    s.apply(PhaseEvent::Signal(ControlSignal::PauseToggle));
    assert_eq!(s.remaining, 45);
    assert_eq!(s.outcome(), Some(PhaseOutcome::Cancelled { remaining: 45 }));
}

#[test]
fn quit_while_paused_cancels() {
    let mut s = TimerState::new(100);
    s.apply(PhaseEvent::Signal(ControlSignal::PauseToggle));
    s.apply(PhaseEvent::Signal(ControlSignal::Quit));
    assert!(s.is_over());
    assert_eq!(s.outcome(), Some(PhaseOutcome::Cancelled { remaining: 100 }));
}

#[test]
fn zero_length_phase_is_over_at_once() {
    let s = TimerState::new(0);
    assert!(s.is_over());
    assert_eq!(s.outcome(), Some(PhaseOutcome::Completed));
}

#[test]
fn frame_shows_remaining_text() {
    let mut s = TimerState::new(1500);
    match s.step(PhaseEvent::Tick) {
        Step::Show(f) => {
            assert!(!f.paused);
            assert_eq!(text(f.remaining_text), "24:59 remaining.");
        }
        Step::Done(_) => panic!("ended early"),
    }
}

#[test]
fn phase_seconds_scale_minutes() {
    assert_eq!(phase_seconds(25), 1500);
    assert_eq!(phase_seconds(0), 0);
    assert_eq!(phase_seconds(u32::MAX), u32::MAX as u64 * 60);
}

#[test]
fn clock_text_pads_to_two_digits() {
    assert_eq!(text(clock_text(0)), "00:00");
    assert_eq!(text(clock_text(59)), "00:59");
    assert_eq!(text(clock_text(61)), "01:01");
    assert_eq!(text(clock_text(1500)), "25:00");
    assert_eq!(text(clock_text(6000)), "100:00");
    assert_eq!(text(clock_text(599_999)), "9999:59");
}

#[test]
fn remaining_text_has_suffix() {
    assert_eq!(text(remaining_text(300)), "05:00 remaining.");
    assert_eq!(text(remaining_text(0)), "00:00 remaining.");
}
