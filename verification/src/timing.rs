//! The frame clock: elapsed game time, per-frame delta with snapping to
//! common display rates, a redraw accumulator for fixed-step updates, and
//! user timers. The operating-system clock lives outside the crate; each
//! update receives the raw elapsed time as a plain value.

use vstd::prelude::*;

use crate::fp::SCALE;

verus! {

/// Snapping tolerance around a common display rate, in fixed-point seconds:
/// a tenth of a millisecond.
pub const DELTA_ERROR: i64 = 10;

/// Steps allowed per redraw before the fixed-step accumulator is dropped.
pub const DEATH_SPIRAL_STEP_LIMIT: u32 = 4;

/// A raw delta snapped to the nearest common display rate when it is within
/// the tolerance: the frame lengths of 30, 60, 120 and 144 frames per second.
pub open spec fn snapped_delta(raw: int) -> int {
    if -DELTA_ERROR < raw - 3333 < DELTA_ERROR {
        3333
    } else if -DELTA_ERROR < raw - 1666 < DELTA_ERROR {
        1666
    } else if -DELTA_ERROR < raw - 833 < DELTA_ERROR {
        833
    } else if -DELTA_ERROR < raw - 694 < DELTA_ERROR {
        694
    } else {
        raw
    }
}

/// Snap a raw delta to the nearest common display rate.
fn snap_delta(raw: i64) -> (r: i64)
    requires
        0 <= raw <= SCALE,
    ensures
        r == snapped_delta(raw as int),
        0 <= r <= SCALE,
{
    if -DELTA_ERROR < raw - 3333 && raw - 3333 < DELTA_ERROR {
        3333
    } else if -DELTA_ERROR < raw - 1666 && raw - 1666 < DELTA_ERROR {
        1666
    } else if -DELTA_ERROR < raw - 833 && raw - 833 < DELTA_ERROR {
        833
    } else if -DELTA_ERROR < raw - 694 && raw - 694 < DELTA_ERROR {
        694
    } else {
        raw
    }
}

/// A one-shot repeating timer: accumulates time and fires once its alarm is
/// reached, then starts over.
#[derive(Clone, Copy, Debug)]
pub struct Timer {
    pub alarm: i64,
    pub current: i64,
    pub finished: bool,
}

impl Timer {
    /// A fresh timer that fires every `alarm` fixed-point seconds.
    pub fn new(alarm: i64) -> (r: Timer)
        requires
            alarm <= SCALE as int * SCALE as int,
        ensures
            r.alarm == alarm,
            r.current == 0,
            !r.finished,
            timer_wf(r),
    {
        Timer { alarm, current: 0, finished: false }
    }

    /// Accumulate a frame's delta: the timer fires and resets exactly when
    /// the accumulated time reaches the alarm.
    pub fn update(&mut self, delta: i64)
        requires
            0 <= delta,
            0 <= old(self).current,
            old(self).current + delta <= i64::MAX,
        ensures
            final(self).alarm == old(self).alarm,
            final(self).finished <==> old(self).current + delta >= old(self).alarm,
            final(self).finished ==> final(self).current == 0,
            !final(self).finished ==> final(self).current == old(self).current + delta,
            final(self).current >= 0,
    {
        self.current = self.current + delta;
        if self.current >= self.alarm {
            self.finished = true;
            self.current = 0;
        } else {
            self.finished = false;
        }
    }
}

/// The per-frame clock: target and measured deltas, the redraw accumulator,
/// total elapsed game time, and user timers keyed by resource id.
#[derive(Clone, Debug)]
pub struct TimeContext {
    pub delta_target: i64,
    pub redraw_delta: i64,
    pub redraw_accumulator: i64,
    pub death_spiral_steps: u32,
    pub duration: i64,
    pub delta: i64,
    pub timers: Vec<(u64, Timer)>,
}

/// A timer the clock can run without overflow: bounded alarm and a
/// non-negative accumulated time below the bound.
pub open spec fn timer_wf(t: Timer) -> bool {
    0 <= t.current <= SCALE as int * SCALE as int && t.alarm <= SCALE as int * SCALE as int
}

/// Every registered timer is runnable.
pub open spec fn timers_wf(timers: Seq<(u64, Timer)>) -> bool {
    forall|k: int| 0 <= k < timers.len() ==> timer_wf((#[trigger] timers[k]).1)
}

impl TimeContext {
    /// A fresh clock with the given target delta.
    pub fn new(delta_target: i64) -> (r: TimeContext)
        ensures
            r.delta_target == delta_target,
            r.duration == 0,
            r.delta == 1666,
            r.redraw_delta == 1666,
            r.redraw_accumulator == 0,
            r.death_spiral_steps == 0,
            r.timers@.len() == 0,
            timers_wf(r.timers@),
    {
        TimeContext {
            delta_target,
            redraw_delta: 1666,
            redraw_accumulator: 0,
            death_spiral_steps: 0,
            duration: 0,
            delta: 1666,
            timers: Vec::new(),
        }
    }

    /// Advance the game clock by a measured frame delta: snap it to common
    /// display rates, extend the elapsed duration, and run every timer.
    pub fn update(&mut self, raw_delta: i64)
        requires
            0 <= raw_delta <= SCALE,
            0 <= old(self).duration,
            old(self).duration + SCALE <= i64::MAX - SCALE,
            timers_wf(old(self).timers@),
        ensures
            final(self).delta == snapped_delta(raw_delta as int),
            final(self).duration == old(self).duration + snapped_delta(raw_delta as int),
            final(self).delta_target == old(self).delta_target,
            final(self).redraw_delta == old(self).redraw_delta,
            final(self).redraw_accumulator == old(self).redraw_accumulator,
            final(self).timers@.len() == old(self).timers@.len(),
            timers_wf(final(self).timers@),
            forall|k: int|
                0 <= k < old(self).timers@.len() ==> {
                    let was = old(self).timers@[k].1;
                    let now = (#[trigger] final(self).timers@[k]).1;
                    &&& final(self).timers@[k].0 == old(self).timers@[k].0
                    &&& now.alarm == was.alarm
                    &&& (now.finished <==> was.current + snapped_delta(raw_delta as int)
                        >= was.alarm)
                    &&& (now.finished ==> now.current == 0)
                    &&& (!now.finished ==> now.current == was.current + snapped_delta(
                        raw_delta as int,
                    ))
                },
    {
        let delta = snap_delta(raw_delta);
        self.delta = delta;
        self.duration = self.duration + delta;
        let ghost before = self.timers@;
        let mut k: usize = 0;
        while k < self.timers.len()
            invariant
                0 <= k <= before.len(),
                self.timers@.len() == before.len(),
                0 <= delta <= SCALE,
                timers_wf(before),
                delta == snapped_delta(raw_delta as int),
                self.delta == snapped_delta(raw_delta as int),
                self.duration == old(self).duration + snapped_delta(raw_delta as int),
                self.delta_target == old(self).delta_target,
                self.redraw_delta == old(self).redraw_delta,
                self.redraw_accumulator == old(self).redraw_accumulator,
                forall|j: int| k <= j < before.len() ==> #[trigger] self.timers@[j] == before[j],
                forall|j: int|
                    0 <= j < k ==> {
                        let was = before[j].1;
                        let now = (#[trigger] self.timers@[j]).1;
                        &&& self.timers@[j].0 == before[j].0
                        &&& now.alarm == was.alarm
                        &&& (now.finished <==> was.current + delta >= was.alarm)
                        &&& (now.finished ==> now.current == 0)
                        &&& (!now.finished ==> now.current == was.current + delta)
                        &&& timer_wf(now)
                    },
            decreases before.len() - k,
        {
            let (id, mut timer) = self.timers[k];
            timer.update(delta);
            self.timers.set(k, (id, timer));
            k = k + 1;
        }
    }

    /// Advance the redraw clock by a measured redraw delta: snap it and grow
    /// the fixed-step accumulator.
    pub fn update_redraw(&mut self, raw_delta: i64)
        requires
            0 <= raw_delta <= SCALE,
            0 <= old(self).redraw_accumulator,
            old(self).redraw_accumulator + SCALE <= i64::MAX - SCALE,
        ensures
            final(self).redraw_delta == snapped_delta(raw_delta as int),
            final(self).redraw_accumulator == old(self).redraw_accumulator + snapped_delta(
                raw_delta as int,
            ),
            final(self).delta == old(self).delta,
            final(self).duration == old(self).duration,
            final(self).delta_target == old(self).delta_target,
            final(self).timers == old(self).timers,
    {
        let delta = snap_delta(raw_delta);
        self.redraw_delta = delta;
        self.redraw_accumulator = self.redraw_accumulator + delta;
    }

    /// Register a timer under a caller-supplied resource id.
    pub fn add_timer(&mut self, id: u64, tick: i64)
        requires
            timers_wf(old(self).timers@),
            tick <= SCALE as int * SCALE as int,
        ensures
            final(self).timers@ == old(self).timers@.push((id, Timer { alarm: tick, current: 0, finished: false })),
            timers_wf(final(self).timers@),
            final(self).delta == old(self).delta,
            final(self).duration == old(self).duration,
    {
        let timer = Timer::new(tick);
        self.timers.push((id, timer));
    }
}

} // verus!
