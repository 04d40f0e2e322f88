use vstd::prelude::*;

use crate::clock_text::{clock_of, remaining_text, remaining_text_of};
use crate::signal::ControlSignal;

verus! {

/// What the engine waits for between two frames: a second that passed
/// with no signal, or a signal from the keyboard.
#[derive(Clone, Copy, Debug, PartialEq, Eq, Structural)]
pub enum PhaseEvent {
    Tick,
    Signal(ControlSignal),
}

/// How a phase ended.
#[derive(Clone, Copy, Debug, PartialEq, Eq, Structural)]
pub enum PhaseOutcome {
    Completed,
    Cancelled { remaining: u64 },
}

/// The state of one running phase.
#[derive(Clone, Copy, Debug, PartialEq, Eq, Structural)]
pub struct TimerState {
    pub remaining: u64,
    pub paused: bool,
    pub cancelled: bool,
}

/// What to show while a phase runs.
#[derive(Debug)]
pub struct Frame {
    pub paused: bool,
    pub remaining_text: Vec<char>,
}

/// What the engine asks for after an event: show a frame and wait again,
/// or end the phase.
#[derive(Debug)]
pub enum Step {
    Show(Frame),
    Done(PhaseOutcome),
}

/// A phase length in minutes, in seconds.
pub open spec fn seconds_of_minutes(minutes: nat) -> nat {
    minutes * 60
}

/// The state a phase of `duration` seconds starts in.
pub open spec fn initial_state(duration: u64) -> TimerState {
    TimerState { remaining: duration, paused: false, cancelled: false }
}

/// A phase is over once it was cancelled or nothing remains.
pub open spec fn is_over(s: TimerState) -> bool {
    s.cancelled || s.remaining == 0
}

/// How the phase ended, once it is over.
pub open spec fn outcome_of(s: TimerState) -> Option<PhaseOutcome> {
    if s.cancelled {
        Some(PhaseOutcome::Cancelled { remaining: s.remaining })
    } else if s.remaining == 0 {
        Some(PhaseOutcome::Completed)
    } else {
        None
    }
}

/// One event applied to a state. A second counts down only while the phase
/// runs unpaused; Quit cancels; an ended phase ignores all events.
pub open spec fn next_state(s: TimerState, e: PhaseEvent) -> TimerState {
    if is_over(s) {
        s
    } else {
        match e {
            PhaseEvent::Tick => if s.paused {
                s
            } else {
                TimerState { remaining: (s.remaining - 1) as u64, ..s }
            },
            PhaseEvent::Signal(ControlSignal::PauseToggle) => TimerState { paused: !s.paused, ..s },
            PhaseEvent::Signal(ControlSignal::Quit) => TimerState { cancelled: true, ..s },
        }
    }
}

/// The state after a sequence of events.
pub open spec fn run_events(s: TimerState, events: Seq<PhaseEvent>) -> TimerState
    decreases events.len(),
{
    if events.len() == 0 {
        s
    } else {
        run_events(next_state(s, events[0]), events.drop_first())
    }
}

/// `n` seconds passing with no signal.
pub open spec fn ticks(n: nat) -> Seq<PhaseEvent> {
    Seq::new(n, |i: int| PhaseEvent::Tick)
}

/// A phase length given in minutes, in seconds.
pub fn phase_seconds(minutes: u32) -> (r: u64)
    ensures
        r == seconds_of_minutes(minutes as nat),
{
    minutes as u64 * 60
}

impl TimerState {
    /// A phase of `duration` seconds, running and not paused.
    pub fn new(duration: u64) -> (r: TimerState)
        ensures
            r == initial_state(duration),
    {
        TimerState { remaining: duration, paused: false, cancelled: false }
    }

    pub fn is_over(&self) -> (r: bool)
        ensures
            r == is_over(*self),
    {
        self.cancelled || self.remaining == 0
    }

    /// `Some` with how the phase ended once it is over, `None` while it runs.
    pub fn outcome(&self) -> (r: Option<PhaseOutcome>)
        ensures
            r == outcome_of(*self),
    {
        if self.cancelled {
            Some(PhaseOutcome::Cancelled { remaining: self.remaining })
        } else if self.remaining == 0 {
            Some(PhaseOutcome::Completed)
        } else {
            None
        }
    }

    /// Applies one event.
    pub fn apply(&mut self, e: PhaseEvent)
        ensures
            *final(self) == next_state(*old(self), e),
            final(self).remaining <= old(self).remaining,
    {
        if self.cancelled || self.remaining == 0 {
            return;
        }
        match e {
            PhaseEvent::Tick => {
                if !self.paused {
                    self.remaining = self.remaining - 1;
                }
            },
            PhaseEvent::Signal(ControlSignal::PauseToggle) => {
                self.paused = !self.paused;
            },
            PhaseEvent::Signal(ControlSignal::Quit) => {
                self.cancelled = true;
            },
        }
    }

    /// What to show for the current state: the pause indicator and the
    /// countdown text.
    pub fn frame(&self) -> (r: Frame)
        ensures
            r.paused == self.paused,
            r.remaining_text@ == remaining_text_of(self.remaining as nat),
    {
        Frame { paused: self.paused, remaining_text: remaining_text(self.remaining) }
    }

    /// Applies one event and says what comes next: the phase's outcome once
    /// it is over, else the frame to show.
    pub fn step(&mut self, e: PhaseEvent) -> (r: Step)
        ensures
            *final(self) == next_state(*old(self), e),
            match outcome_of(*final(self)) {
                Some(o) => r == Step::Done(o),
                None => match r {
                    Step::Show(f) => f.paused == final(self).paused
                        && f.remaining_text@ == remaining_text_of(final(self).remaining as nat),
                    Step::Done(_) => false,
                },
            },
    {
        self.apply(e);
        match self.outcome() {
            Some(o) => Step::Done(o),
            None => Step::Show(self.frame()),
        }
    }
}

/// No event ever raises the time that remains.
pub proof fn lemma_remaining_never_increases(s: TimerState, events: Seq<PhaseEvent>)
    ensures
        run_events(s, events).remaining <= s.remaining,
    decreases events.len(),
{
    if events.len() > 0 {
        lemma_remaining_never_increases(next_state(s, events[0]), events.drop_first());
    }
}

/// Unpaused, a phase of `d > 0` seconds has `d - k` left after `k` seconds,
/// is still running before the last one, and has completed with exactly zero
/// left, shown as `00:00`, after `d`.
pub proof fn lemma_countdown_completes(d: u64, k: nat)
    requires
        d > 0,
        k <= d,
    ensures
        run_events(initial_state(d), ticks(k)).remaining == d - k,
        !run_events(initial_state(d), ticks(k)).paused,
        k < d ==> outcome_of(run_events(initial_state(d), ticks(k))) is None,
        k == d ==> outcome_of(run_events(initial_state(d), ticks(k))) == Some(PhaseOutcome::Completed),
        k == d ==> clock_of(run_events(initial_state(d), ticks(k)).remaining as nat)
            == seq!['0', '0', ':', '0', '0'],
{
    lemma_ticks_from(initial_state(d), k);
    assert(clock_of(0) =~= seq!['0', '0', ':', '0', '0']);
}

proof fn lemma_ticks_from(s: TimerState, k: nat)
    requires
        !s.paused,
        !s.cancelled,
        k <= s.remaining,
    ensures
        run_events(s, ticks(k)) == (TimerState { remaining: (s.remaining - k) as u64, ..s }),
    decreases k,
{
    if k > 0 {
        let t = next_state(s, PhaseEvent::Tick);
        assert(ticks(k).drop_first() =~= ticks((k - 1) as nat));
        lemma_ticks_from(t, (k - 1) as nat);
    } else {
        assert(s == TimerState { remaining: (s.remaining - k) as u64, ..s });
    }
}

/// While paused, seconds that pass change nothing.
pub proof fn lemma_pause_freezes(s: TimerState, n: nat)
    requires
        s.paused,
    ensures
        run_events(s, ticks(n)) == s,
    decreases n,
{
    if n > 0 {
        assert(ticks(n).drop_first() =~= ticks((n - 1) as nat));
        lemma_pause_freezes(s, (n - 1) as nat);
    }
}

/// Quit ends a running phase at once, paused or not, with the time that
/// remained kept; no later event changes it.
pub proof fn lemma_quit_ends_phase(s: TimerState, later: Seq<PhaseEvent>)
    requires
        !is_over(s),
    ensures
        outcome_of(next_state(s, PhaseEvent::Signal(ControlSignal::Quit)))
            == Some(PhaseOutcome::Cancelled { remaining: s.remaining }),
        run_events(next_state(s, PhaseEvent::Signal(ControlSignal::Quit)), later)
            == next_state(s, PhaseEvent::Signal(ControlSignal::Quit)),
{
    lemma_over_is_final(next_state(s, PhaseEvent::Signal(ControlSignal::Quit)), later);
}

/// A phase that is over stays as it is, whatever comes.
pub proof fn lemma_over_is_final(s: TimerState, events: Seq<PhaseEvent>)
    requires
        is_over(s),
    ensures
        run_events(s, events) == s,
    decreases events.len(),
{
    if events.len() > 0 {
        lemma_over_is_final(s, events.drop_first());
    }
}

} // verus!
