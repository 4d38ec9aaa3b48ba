//! Interval timers driven by readings of a monotonic clock.

use std::time::Instant;
use vstd::prelude::*;

verus! {

#[verifier::external_type_specification]
#[verifier::external_body]
pub struct ExInstant(Instant);

/// Relies on `Instant::now`: a reading of the monotonic clock. Nothing is
/// known of its value.
#[verifier::external_body]
fn instant_now() -> (r: Instant) {
    Instant::now()
}

/// Relies on `Instant::elapsed`: the time since `origin`, taken in whole
/// nanoseconds. It depends on when it is called, so nothing is stated of it.
#[verifier::external_body]
fn nanos_since(origin: &Instant) -> (r: u64) {
    origin.elapsed().as_nanos() as u64
}

/// A monotonic clock that counts nanoseconds from the moment it was started.
pub struct Clock {
    origin: Instant,
}

impl Clock {
    /// Starts a clock whose reading is zero now.
    pub fn start() -> (r: Clock) {
        Clock { origin: instant_now() }
    }

    /// The nanoseconds since the clock was started.
    pub fn now(&self) -> (r: u64) {
        nanos_since(&self.origin)
    }
}

/// What a timer is: the clock reading at which it last fired and its
/// interval, both in nanoseconds.
pub struct TimerState {
    pub last_fired: u64,
    pub interval: u64,
}


/// The number of firings when a timer in state `s` is polled at each reading
/// of `times`, in order.
pub open spec fn fire_count(s: TimerState, times: Seq<u64>) -> nat
    decreases times.len(),
{
    if times.len() == 0 {
        0
    } else {
        (if s.fires(times[0]) { 1nat } else { 0nat }) + fire_count(s.polled(times[0]), times.drop_first())
    }
}

/// Polling before a full interval has passed since the last firing returns
/// false and leaves the timer as it was.
pub proof fn lemma_quiet_within_interval(s: TimerState, now: u64)
    requires
        (now as int) < s.last_fired as int + s.interval as int,
    ensures
        !s.fires(now),
        s.polled(now) == s,
{
}

/// A poll that fires restarts the interval at its reading: a later poll
/// fires only once a full interval has passed since that reading.
pub proof fn lemma_fire_restarts(s: TimerState, now: u64, later: u64)
    requires
        s.fires(now),
        now <= later,
    ensures
        s.polled(now).last_fired == now,
        s.polled(now).interval == s.interval,
        s.polled(now).fires(later) == (later as int >= now as int + s.interval as int),
{
}

/// Polls that all come before a full interval has passed since the last
/// firing never fire, and leave the timer as it was.
pub proof fn lemma_no_fire_before_interval(s: TimerState, times: Seq<u64>)
    requires
        forall|k: int| 0 <= k < times.len() ==> (times[k] as int) < s.last_fired as int + s.interval as int,
    ensures
        fire_count(s, times) == 0,
    decreases times.len(),
{
    if times.len() > 0 {
        lemma_no_fire_before_interval(s, times.drop_first());
    }
}

/// A timer polled at non-decreasing readings that all lie within a span
/// shorter than its interval fires at most once: no catch-up firings.
pub proof fn lemma_at_most_once_per_interval(s: TimerState, times: Seq<u64>)
    requires
        forall|j: int, k: int| 0 <= j <= k < times.len() ==> times[j] <= times[k],
        times.len() > 0 ==> (times.last() as int) < times[0] as int + s.interval as int,
    ensures
        fire_count(s, times) <= 1,
    decreases times.len(),
{
    if times.len() > 0 {
        let rest = times.drop_first();
        if s.fires(times[0]) {
            assert forall|k: int| 0 <= k < rest.len() implies (rest[k] as int) < s.polled(times[0]).last_fired as int
                + s.polled(times[0]).interval as int by {
                assert(rest[k] == times[k + 1]);
                assert(times[k + 1] <= times.last());
            }
            lemma_no_fire_before_interval(s.polled(times[0]), rest);
        } else {
            if rest.len() > 0 {
                assert(rest[0] == times[1]);
                assert(rest.last() == times.last());
                assert(times[0] <= times[1]);
            }
            lemma_at_most_once_per_interval(s, rest);
        }
    }
}

impl TimerState {
    /// A poll at reading `now` fires when a full interval has passed since
    /// the last firing.
    pub open spec fn fires(self, now: u64) -> bool {
        now as int >= self.last_fired as int + self.interval as int
    }

    /// The state after a poll at reading `now`: a firing moves the last
    /// firing to `now`; otherwise nothing changes.
    pub open spec fn polled(self, now: u64) -> TimerState {
        if self.fires(now) {
            TimerState { last_fired: now, interval: self.interval }
        } else {
            self
        }
    }
}

/// Reports whether a fixed interval has passed since it last fired, and
/// restarts the interval when it has.
#[derive(Clone, Copy)]
pub struct Timer {
    last_tick: u64,
    interval: u64,
}

impl View for Timer {
    type V = TimerState;

    closed spec fn view(&self) -> TimerState {
        TimerState { last_fired: self.last_tick, interval: self.interval }
    }
}

impl Timer {
    /// A timer of the given interval whose last firing is the reading `now`.
    pub fn new(interval: u64, now: u64) -> (r: Timer)
        ensures
            r@ == (TimerState { last_fired: now, interval }),
    {
        Timer { last_tick: now, interval }
    }

    /// The interval, in nanoseconds.
    pub fn interval(&self) -> (r: u64)
        ensures
            r == self@.interval,
    {
        self.interval
    }

    /// The clock reading of the last firing.
    pub fn last_fired(&self) -> (r: u64)
        ensures
            r == self@.last_fired,
    {
        self.last_tick
    }

    /// Polls the timer at clock reading `now`: returns true, and restarts the
    /// interval at `now`, when a full interval has passed since the last
    /// firing; otherwise returns false and leaves the timer as it was. The
    /// interval never changes, and the last firing never moves back.
    pub fn tick(&mut self, now: u64) -> (fired: bool)
        ensures
            fired == old(self)@.fires(now),
            final(self)@ == old(self)@.polled(now),
            final(self)@.interval == old(self)@.interval,
            final(self)@.last_fired >= old(self)@.last_fired,
    {
        if now >= self.last_tick && now - self.last_tick >= self.interval {
            self.last_tick = now;
            true
        } else {
            false
        }
    }
}

} // verus!
