//! The game Timer: it starts at the First Click and freezes when the game
//! ends. Reading the wall clock is std's `Instant`; what a reading returns
//! depends on the time, so nothing is claimed of it.

use vstd::prelude::*;

use std::time::{Duration, Instant};

verus! {

#[verifier::external_type_specification]
#[verifier::external_body]
pub struct ExInstant(Instant);

/// The duration `Duration::from_secs` builds.
pub uninterp spec fn duration_from_secs(secs: u64) -> Duration;

/// The whole seconds `Duration::as_secs` reports.
pub uninterp spec fn duration_secs(d: Duration) -> u64;

/// `Instant::now`: the current instant. Nothing is known of it.
#[verifier::external_body]
fn instant_now() -> Instant {
    Instant::now()
}

/// `Instant::elapsed`: the time since `start`. Nothing is known of it.
#[verifier::external_body]
fn instant_elapsed(start: &Instant) -> Duration {
    start.elapsed()
}

/// `Duration::from_secs`: a duration of `secs` whole seconds, whose
/// `as_secs` is `secs` (std's documentation).
#[verifier::external_body]
pub(crate) fn seconds(secs: u64) -> (d: Duration)
    ensures
        d == duration_from_secs(secs),
        duration_secs(d) == secs,
{
    Duration::from_secs(secs)
}

/// `Duration::as_secs`: the whole seconds of a duration.
#[verifier::external_body]
pub(crate) fn whole_seconds(d: &Duration) -> (r: u64)
    ensures
        r == duration_secs(*d),
{
    d.as_secs()
}

/// A game's Timer: idle before the First Click, running during play,
/// frozen at the end of the game.
#[derive(Debug, Clone)]
pub struct Timer {
    started_at: Option<Instant>,
    elapsed_at_end: Option<Duration>,
}

/// What a Timer is doing: idle, running since its start, or frozen at a
/// reading, with the start it ran from.
pub enum TimerPhase {
    Idle,
    Running(Instant),
    Frozen(Duration, Instant),
}

/// The Timer after an action on a game that had already started: frozen at
/// some reading, from the same start, when the action ended the game, and
/// untouched otherwise.
pub open spec fn timer_after(o: TimerPhase, n: TimerPhase, ended: bool) -> bool {
    if ended {
        o matches TimerPhase::Running(t) && n matches TimerPhase::Frozen(_, u) && u == t
    } else {
        n == o
    }
}

impl Timer {
    pub closed spec fn phase(&self) -> TimerPhase {
        match (self.started_at, self.elapsed_at_end) {
            (None, _) => TimerPhase::Idle,
            (Some(t), Some(d)) => TimerPhase::Frozen(d, t),
            (Some(t), None) => TimerPhase::Running(t),
        }
    }

    /// An idle Timer.
    pub fn new() -> (t: Timer)
        ensures
            t.phase() is Idle,
    {
        Timer { started_at: None, elapsed_at_end: None }
    }

    /// Starts the Timer.
    pub fn start(&mut self)
        ensures
            final(self).phase() is Running,
    {
        self.started_at = Some(instant_now());
        self.elapsed_at_end = None;
    }

    /// Freezes a running Timer at its current reading.
    pub fn freeze(&mut self)
        requires
            old(self).phase() is Running,
        ensures
            old(self).phase() matches TimerPhase::Running(t) && final(self).phase() matches TimerPhase::Frozen(
                _,
                u,
            ) && u == t,
    {
        let d = self.elapsed();
        self.elapsed_at_end = Some(d);
    }

    /// The time on the Timer: zero while idle, the frozen reading once
    /// frozen, the time since the start while running.
    pub fn elapsed(&self) -> (r: Duration)
        ensures
            self.phase() is Idle ==> r == duration_from_secs(0) && duration_secs(r) == 0,
            self.phase() matches TimerPhase::Frozen(d, _) ==> r == d,
    {
        match (&self.started_at, &self.elapsed_at_end) {
            (None, _) => seconds(0),
            (Some(_), Some(ended)) => *ended,
            (Some(started), None) => instant_elapsed(started),
        }
    }
}

} // verus!
