use vstd::prelude::*;

use std::time::{Duration, Instant};

use crate::config::PracticeTiming;
use crate::types::Mode;

verus! {

/// std::time::Instant, a reading of the monotonic clock, held opaque.
#[verifier::external_type_specification]
#[verifier::external_body]
pub struct ExInstant(std::time::Instant);

/// Relies on std::time::Instant::now: a reading of the monotonic clock.
#[verifier::external_body]
fn clock_now() -> (r: Instant) {
    Instant::now()
}

/// Relies on std::time::Instant::elapsed: the time since `origin`.
#[verifier::external_body]
fn elapsed_since(origin: &Instant) -> (r: Duration) {
    origin.elapsed()
}

/// Relies on std::time::Duration::as_millis: the whole milliseconds of `d`.
#[verifier::external_body]
fn whole_millis(d: &Duration) -> (r: u128) {
    d.as_millis()
}

/// Milliseconds since `origin` on the monotonic clock, saturated at u64::MAX.
fn millis_since(origin: &Instant) -> (r: u64) {
    let ms = whole_millis(&elapsed_since(origin));
    if ms > u64::MAX as u128 {
        u64::MAX
    } else {
        ms as u64
    }
}

/// Phases of a practice match.
#[derive(Debug, Clone, Copy, PartialEq, Eq, Structural)]
pub enum PracticePhase {
    Idle,
    Countdown,
    Autonomous,
    Delay,
    Teleop,
    Done,
}

impl PracticePhase {
    /// The phase that follows; Idle and Done stay.
    pub open spec fn spec_next(self) -> PracticePhase {
        match self {
            PracticePhase::Countdown => PracticePhase::Autonomous,
            PracticePhase::Autonomous => PracticePhase::Delay,
            PracticePhase::Delay => PracticePhase::Teleop,
            PracticePhase::Teleop => PracticePhase::Done,
            other => other,
        }
    }
}

/// What the scheduler asks of the station on one tick.
#[derive(Debug, Clone, Copy, PartialEq, Eq, Structural)]
pub struct PracticeTick {
    pub phase: PracticePhase,
    /// Milliseconds spent in the current phase.
    pub elapsed_ms: u64,
    /// Milliseconds left in the current phase (0 for Idle and Done).
    pub remaining_ms: u64,
    /// Enable the robot: on entry to Autonomous or Teleop.
    pub should_enable: bool,
    /// Disable the robot: on entry to Countdown, Delay or Done, and on every
    /// tick of Autonomous while the A-stop holds.
    pub should_disable: bool,
    /// Mode to set, on entry to Autonomous or Teleop only.
    pub mode: Option<Mode>,
}

/// Mathematical state of a [`PracticeMode`].
pub struct PracticeView {
    pub phase: PracticePhase,
    /// Timing for the next match.
    pub timing: PracticeTiming,
    /// Timing of the current match, taken from `timing` when it started.
    pub match_timing: PracticeTiming,
    /// Clock reading, in milliseconds, when the phase began.
    pub phase_start: Option<u64>,
    pub a_stopped: bool,
    /// Phase reported by the previous tick.
    pub prev_phase: PracticePhase,
}

/// Practice match timer: Idle, Countdown, Autonomous, Delay, Teleop, Done.
pub struct PracticeMode {
    phase: PracticePhase,
    timing: PracticeTiming,
    match_timing: PracticeTiming,
    phase_start: Option<u64>,
    a_stopped: bool,
    prev_phase: PracticePhase,
    origin: Instant,
}

/// Length of `phase` under `timing`, in milliseconds; Idle and Done have none.
pub open spec fn spec_phase_duration(phase: PracticePhase, timing: PracticeTiming) -> Option<u64> {
    match phase {
        PracticePhase::Countdown => Some((timing.countdown_secs * 1000) as u64),
        PracticePhase::Autonomous => Some((timing.auto_secs * 1000) as u64),
        PracticePhase::Delay => Some((timing.delay_secs * 1000) as u64),
        PracticePhase::Teleop => Some((timing.teleop_secs * 1000) as u64),
        _ => None,
    }
}

/// Milliseconds from `start` to `now`, zero when there is no start or the clock is behind it.
pub open spec fn spec_since(start: Option<u64>, now: u64) -> u64 {
    match start {
        Some(s) => if now >= s {
            (now - s) as u64
        } else {
            0
        },
        None => 0,
    }
}

/// The state once the phase has run its length at `now`: the phase advances
/// by one and its clock restarts.
pub open spec fn spec_advance(v: PracticeView, now: u64) -> PracticeView {
    match spec_phase_duration(v.phase, v.match_timing) {
        Some(d) => if spec_since(v.phase_start, now) >= d {
            PracticeView { phase: v.phase.spec_next(), phase_start: Some(now), ..v }
        } else {
            v
        },
        None => v,
    }
}

/// The state after a tick at `now`, and what the tick reports.
pub open spec fn spec_tick(v: PracticeView, now: u64) -> (PracticeView, PracticeTick) {
    let a = spec_advance(v, now);
    let entered = a.phase != a.prev_phase;
    let enable_phase = a.phase == PracticePhase::Autonomous || a.phase == PracticePhase::Teleop;
    let teleop_release = entered && a.phase == PracticePhase::Teleop && a.a_stopped;
    let a_stopped = a.a_stopped && !teleop_release;
    let elapsed = spec_since(a.phase_start, now);
    let tick = PracticeTick {
        phase: a.phase,
        elapsed_ms: elapsed,
        remaining_ms: match spec_phase_duration(a.phase, a.match_timing) {
            Some(d) => if d >= elapsed {
                (d - elapsed) as u64
            } else {
                0
            },
            None => 0,
        },
        should_enable: (entered && enable_phase && !a.a_stopped) || teleop_release,
        should_disable: (entered && (a.phase == PracticePhase::Countdown || a.phase
            == PracticePhase::Delay || a.phase == PracticePhase::Done)) || (a_stopped && a.phase
            == PracticePhase::Autonomous),
        mode: if entered && a.phase == PracticePhase::Autonomous {
            Some(Mode::Autonomous)
        } else if entered && a.phase == PracticePhase::Teleop {
            Some(Mode::Teleop)
        } else {
            None
        },
    };
    (PracticeView { a_stopped, prev_phase: a.phase, ..a }, tick)
}

impl View for PracticeMode {
    type V = PracticeView;

    closed spec fn view(&self) -> PracticeView {
        PracticeView {
            phase: self.phase,
            timing: self.timing,
            match_timing: self.match_timing,
            phase_start: self.phase_start,
            a_stopped: self.a_stopped,
            prev_phase: self.prev_phase,
        }
    }
}

impl PracticeMode {
    /// A scheduler at Idle with the given timing.
    pub fn new(timing: PracticeTiming) -> (r: PracticeMode)
        ensures
            r@ == (PracticeView {
                phase: PracticePhase::Idle,
                timing,
                match_timing: timing,
                phase_start: None,
                a_stopped: false,
                prev_phase: PracticePhase::Idle,
            }),
    {
        PracticeMode {
            phase: PracticePhase::Idle,
            timing,
            match_timing: timing,
            phase_start: None,
            a_stopped: false,
            prev_phase: PracticePhase::Idle,
            origin: clock_now(),
        }
    }

    /// Begin a match at clock reading `now`: Countdown starts, and the
    /// match keeps the timing configured now until it ends.
    pub fn start_at(&mut self, now: u64)
        ensures
            final(self)@ == (PracticeView {
                phase: PracticePhase::Countdown,
                timing: old(self)@.timing,
                match_timing: old(self)@.timing,
                phase_start: Some(now),
                a_stopped: false,
                prev_phase: PracticePhase::Idle,
            }),
    {
        self.phase = PracticePhase::Countdown;
        self.match_timing = self.timing;
        self.phase_start = Some(now);
        self.a_stopped = false;
        self.prev_phase = PracticePhase::Idle;
    }

    /// Begin a match now.
    pub fn start(&mut self)
        ensures
            exists|now: u64|
                final(self)@ == (PracticeView {
                    phase: PracticePhase::Countdown,
                    timing: old(self)@.timing,
                    match_timing: old(self)@.timing,
                    phase_start: Some(now),
                    a_stopped: false,
                    prev_phase: PracticePhase::Idle,
                }),
    {
        let now = millis_since(&self.origin);
        self.start_at(now);
    }

    /// End the match: back to Idle, the A-stop released.
    pub fn stop(&mut self)
        ensures
            final(self)@ == (PracticeView {
                phase: PracticePhase::Idle,
                phase_start: None,
                a_stopped: false,
                ..old(self)@
            }),
    {
        self.phase = PracticePhase::Idle;
        self.phase_start = None;
        self.a_stopped = false;
    }

    /// A-stop: latch a disable for the rest of Autonomous. Outside
    /// Autonomous it does nothing.
    pub fn a_stop(&mut self)
        ensures
            final(self)@ == (PracticeView {
                a_stopped: old(self)@.a_stopped || old(self)@.phase == PracticePhase::Autonomous,
                ..old(self)@
            }),
    {
        if self.phase == PracticePhase::Autonomous {
            self.a_stopped = true;
        }
    }

    fn phase_duration(&self) -> (r: Option<u64>)
        ensures
            r == spec_phase_duration(self.phase, self.match_timing),
    {
        match self.phase {
            PracticePhase::Countdown => Some(self.match_timing.countdown_secs as u64 * 1000),
            PracticePhase::Autonomous => Some(self.match_timing.auto_secs as u64 * 1000),
            PracticePhase::Delay => Some(self.match_timing.delay_secs as u64 * 1000),
            PracticePhase::Teleop => Some(self.match_timing.teleop_secs as u64 * 1000),
            _ => None,
        }
    }

    fn advance_phase(&mut self, now: u64)
        ensures
            final(self)@ == (PracticeView {
                phase: old(self)@.phase.spec_next(),
                phase_start: Some(now),
                ..old(self)@
            }),
            final(self).origin == old(self).origin,
    {
        self.phase = match self.phase {
            PracticePhase::Countdown => PracticePhase::Autonomous,
            PracticePhase::Autonomous => PracticePhase::Delay,
            PracticePhase::Delay => PracticePhase::Teleop,
            PracticePhase::Teleop => PracticePhase::Done,
            other => other,
        };
        self.phase_start = Some(now);
    }

    fn since_phase_start(&self, now: u64) -> (r: u64)
        ensures
            r == spec_since(self.phase_start, now),
    {
        match self.phase_start {
            Some(s) => if now >= s {
                now - s
            } else {
                0
            },
            None => 0,
        }
    }

    /// Advance the timer to clock reading `now` and report what to do.
    pub fn tick_at(&mut self, now: u64) -> (r: PracticeTick)
        ensures
            (final(self)@, r) == spec_tick(old(self)@, now),
    {
        if let Some(d) = self.phase_duration() {
            if self.since_phase_start(now) >= d {
                self.advance_phase(now);
            }
        }
        let elapsed = self.since_phase_start(now);
        let remaining = match self.phase_duration() {
            Some(d) => if d >= elapsed {
                d - elapsed
            } else {
                0
            },
            None => 0,
        };
        let entered = self.phase != self.prev_phase;
        let enable_phase = self.phase == PracticePhase::Autonomous || self.phase
            == PracticePhase::Teleop;
        let mut should_enable = entered && enable_phase && !self.a_stopped;
        let mut should_disable = entered && (self.phase == PracticePhase::Countdown || self.phase
            == PracticePhase::Delay || self.phase == PracticePhase::Done);
        let mode = if entered && self.phase == PracticePhase::Autonomous {
            Some(Mode::Autonomous)
        } else if entered && self.phase == PracticePhase::Teleop {
            Some(Mode::Teleop)
        } else {
            None
        };
        if entered && self.phase == PracticePhase::Teleop && self.a_stopped {
            self.a_stopped = false;
            should_enable = true;
        }
        if self.a_stopped && self.phase == PracticePhase::Autonomous {
            should_disable = true;
        }
        self.prev_phase = self.phase;
        PracticeTick {
            phase: self.phase,
            elapsed_ms: elapsed,
            remaining_ms: remaining,
            should_enable,
            should_disable,
            mode,
        }
    }

    /// Advance the timer to the current time and report what to do.
    pub fn tick(&mut self) -> (r: PracticeTick)
        ensures
            exists|now: u64| (final(self)@, r) == spec_tick(old(self)@, now),
    {
        let now = millis_since(&self.origin);
        self.tick_at(now)
    }

    /// The current phase.
    pub fn phase(&self) -> (r: PracticePhase)
        ensures
            r == self@.phase,
    {
        self.phase
    }

    /// A match is under way: neither Idle nor Done.
    pub fn is_running(&self) -> (r: bool)
        ensures
            r == (self@.phase != PracticePhase::Idle && self@.phase != PracticePhase::Done),
    {
        self.phase != PracticePhase::Idle && self.phase != PracticePhase::Done
    }

    /// Replace the phase timing; it applies from the next start on, and a
    /// match under way keeps its own.
    pub fn set_timing(&mut self, timing: PracticeTiming)
        ensures
            final(self)@ == (PracticeView { timing, ..old(self)@ }),
    {
        self.timing = timing;
    }

    /// Whether the A-stop is latched.
    pub fn is_a_stopped(&self) -> (r: bool)
        ensures
            r == self@.a_stopped,
    {
        self.a_stopped
    }
}

} // verus!
