//! The actor capability interface and the frame loop that drives actors.

use crate::timer::{fire_count, Timer, TimerState};
use vstd::prelude::*;

verus! {

/// A game entity driven by the frame loop. The loop calls every method; an
/// actor never calls its own.
pub trait Actor {
    /// One-time setup, called once before the actor's first frame.
    fn init(&mut self);

    /// Advances the actor's own state by one frame.
    fn update(&mut self);

    /// Produces the actor's output for the frame, after `update`.
    fn render(&self);

    /// Fixed-interval behaviour, called on the frames where the actor's
    /// timer fires.
    fn on_tick(&mut self) {
    }

    /// Whether the actor takes part in fixed-interval ticking.
    fn uses_tick(&self) -> bool {
        false
    }
}

/// A timer slot after a frame at reading `now`: a timer is polled, an empty
/// slot stays empty.
pub open spec fn poll_slot(t: Option<TimerState>, now: u64) -> Option<TimerState> {
    match t {
        Some(s) => Some(s.polled(now)),
        None => None,
    }
}

/// Every actor's timer slot after a frame at reading `now`.
pub open spec fn polled_timers(timers: Seq<Option<TimerState>>, now: u64) -> Seq<Option<TimerState>> {
    timers.map_values(|t: Option<TimerState>| poll_slot(t, now))
}

/// Whether an actor whose timer slot is `t` has `on_tick` called in a frame
/// at reading `now`: only a ticking actor whose timer fires.
pub open spec fn ticks_in_frame(t: Option<TimerState>, now: u64) -> bool {
    match t {
        Some(s) => s.fires(now),
        None => false,
    }
}

/// An actor that does not tick is never polled and never has `on_tick`
/// called: a frame leaves its timer slot empty and does not tick it.
pub proof fn lemma_plain_actor_never_ticks(timers: Seq<Option<TimerState>>, now: u64, i: int)
    requires
        0 <= i < timers.len(),
        timers[i] is None,
    ensures
        !ticks_in_frame(timers[i], now),
        polled_timers(timers, now)[i] is None,
{
}

/// A ticking actor has `on_tick` called in a frame exactly when the poll of
/// its timer in that frame fires, and its timer moves on by that poll alone.
pub proof fn lemma_ticking_actor_ticks_iff_fired(timers: Seq<Option<TimerState>>, now: u64, i: int, s: TimerState)
    requires
        0 <= i < timers.len(),
        timers[i] == Some(s),
    ensures
        ticks_in_frame(timers[i], now) == s.fires(now),
        polled_timers(timers, now)[i] == Some(s.polled(now)),
{
}

/// How many times an actor whose timer slot is `t` has `on_tick` called over
/// frames at the readings `times`, in order.
pub open spec fn slot_tick_count(t: Option<TimerState>, times: Seq<u64>) -> nat
    decreases times.len(),
{
    if times.len() == 0 {
        0
    } else {
        (if ticks_in_frame(t, times[0]) { 1nat } else { 0nat }) + slot_tick_count(
            poll_slot(t, times[0]),
            times.drop_first(),
        )
    }
}

/// Over any run of frames, an actor that does not tick never has `on_tick`
/// called, and a ticking actor has it called once for each firing of its
/// timer.
pub proof fn lemma_ticks_over_frames(t: Option<TimerState>, times: Seq<u64>)
    ensures
        slot_tick_count(t, times) == match t {
            Some(s) => fire_count(s, times),
            None => 0,
        },
    decreases times.len(),
{
    if times.len() > 0 {
        lemma_ticks_over_frames(poll_slot(t, times[0]), times.drop_first());
    }
}

/// Owns a collection of actors and drives their per-frame lifecycle. A
/// ticking actor's timer is held beside it; an actor that does not tick has
/// none, and is never asked for one.
pub struct Runtime<A: Actor> {
    actors: Vec<A>,
    timers: Vec<Option<Timer>>,
}

impl<A: Actor> Runtime<A> {
    /// Each actor's timer slot, in registration order.
    pub closed spec fn timers(&self) -> Seq<Option<TimerState>> {
        self.timers@.map_values(
            |t: Option<Timer>|
                match t {
                    Some(tm) => Some(tm@),
                    None => None,
                },
        )
    }

    /// The registered actors, in registration order.
    pub closed spec fn actors(&self) -> Seq<A> {
        self.actors@
    }

    /// Every actor has its timer slot.
    pub closed spec fn wf(&self) -> bool {
        self.actors@.len() == self.timers@.len()
    }

    /// A runtime with no actors.
    pub fn new() -> (r: Runtime<A>)
        ensures
            r.wf(),
            r.timers().len() == 0,
            r.actors().len() == 0,
    {
        Runtime { actors: Vec::new(), timers: Vec::new() }
    }

    /// The number of registered actors.
    pub fn len(&self) -> (r: usize)
        requires
            self.wf(),
        ensures
            r == self.actors().len(),
            r == self.timers().len(),
    {
        self.actors.len()
    }

    /// The actor registered in position `i`.
    pub fn actor(&self, i: usize) -> (r: &A)
        requires
            self.wf(),
            i < self.actors().len(),
        ensures
            *r == self.actors()[i as int],
    {
        &self.actors[i]
    }

    /// Registers an actor: calls its `init` once, and asks once whether it
    /// ticks. An actor that ticks keeps `timer` (and never ticks if it is
    /// `None`); one that does not tick keeps no timer. Returns the answer.
    pub fn register_actor(&mut self, actor: A, timer: Option<Timer>) -> (ticking: bool)
        requires
            old(self).wf(),
        ensures
            final(self).wf(),
            final(self).timers() == old(self).timers().push(
                if ticking {
                    match timer {
                        Some(t) => Some(t@),
                        None => None,
                    }
                } else {
                    None
                },
            ),
            final(self).actors().len() == old(self).actors().len() + 1,
            forall|i: int| 0 <= i < old(self).actors().len() ==> final(self).actors()[i] == old(self).actors()[i],
    {
        let mut actor = actor;
        actor.init();
        let ticking = actor.uses_tick();
        let slot = if ticking {
            timer
        } else {
            None
        };
        self.actors.push(actor);
        self.timers.push(slot);
        proof {
            assert(self.timers() =~= old(self).timers().push(
                if ticking {
                    match timer {
                        Some(t) => Some(t@),
                        None => None,
                    }
                } else {
                    None
                },
            ));
        }
        ticking
    }

    /// Runs one frame at clock reading `now`. For every actor, in
    /// registration order: `update`, then `render`, then, for a ticking
    /// actor only, a poll of its timer, and `on_tick` when that poll fires.
    /// Returns, for each actor, whether `on_tick` was called.
    pub fn run_frame(&mut self, now: u64) -> (ticked: Vec<bool>)
        requires
            old(self).wf(),
        ensures
            final(self).wf(),
            final(self).actors().len() == old(self).actors().len(),
            final(self).timers() == polled_timers(old(self).timers(), now),
            ticked@.len() == old(self).timers().len(),
            forall|i: int| 0 <= i < ticked@.len() ==> ticked@[i] == ticks_in_frame(old(self).timers()[i], now),
    {
        let n = self.actors.len();
        let mut ticked: Vec<bool> = Vec::new();
        let mut i: usize = 0;
        while i < n
            invariant
                self.wf(),
                n == self.actors@.len(),
                i <= n,
                ticked@.len() == i,
                forall|k: int| 0 <= k < i ==> ticked@[k] == ticks_in_frame(old(self).timers()[k], now),
                forall|k: int| 0 <= k < i ==> self.timers()[k] == polled_timers(old(self).timers(), now)[k],
                forall|k: int| i <= k < n ==> self.timers()[k] == old(self).timers()[k],
                self.timers().len() == old(self).timers().len(),
            decreases n - i,
        {
            let ghost before = self.timers();
            let actor = &mut self.actors[i];
            actor.update();
            actor.render();
            let slot = self.timers[i];
            let fired = match slot {
                Some(t) => {
                    let mut t = t;
                    let f = t.tick(now);
                    self.timers.set(i, Some(t));
                    f
                },
                None => false,
            };
            if fired {
                let actor = &mut self.actors[i];
                actor.on_tick();
            }
            proof {
                assert(self.timers()[i as int] == polled_timers(old(self).timers(), now)[i as int]);
                assert forall|k: int| 0 <= k < n && k != i implies self.timers()[k] == before[k] by {
                    assert(self.timers@[k] == self.timers@[k]);
                }
            }
            ticked.push(fired);
            i = i + 1;
            proof {
                assert forall|k: int| 0 <= k < i implies self.timers()[k] == polled_timers(old(self).timers(), now)[k] by {
                    if k < i - 1 {
                        assert(before[k] == polled_timers(old(self).timers(), now)[k]);
                        assert(self.timers()[k] == before[k]);
                    }
                }
            }
        }
        proof {
            assert(self.timers() =~= polled_timers(old(self).timers(), now));
        }
        ticked
    }
}

} // verus!
