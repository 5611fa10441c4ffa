//! Beep duty-cycle coordinator.
//!
//! While a speech request waits on its network fetch, a call-scoped worker
//! produces an audible "in progress" cue by toggling its output gain on a
//! fixed duty cycle: on for one tick, off for the rest of the period. The
//! owning request sends a one-shot stop signal when the fetch settles —
//! success or failure — and the coordinator exits on observing it, with no
//! further side effects. The coordinator is scoped to its request and runs
//! independently of the generation registry.

use vstd::prelude::*;

verus! {

/// Ticks per duty period: the gain is on for the first tick of each period
/// and off for the remaining four.
pub const DUTY_PERIOD: u64 = 5;

/// Whether the cue is audible on a given tick.
pub open spec fn duty_on(tick: u64) -> bool {
    tick % DUTY_PERIOD == 0
}

/// What the coordinator does on one tick.
pub enum BeepStep {
    /// Keep looping; set the output gain audible or silent for this tick.
    Gain { on: bool },
    /// The stop signal arrived: exit without further side effects.
    Stop,
}

/// The per-request coordinator state: how many ticks have elapsed, and
/// whether the one-shot stop signal has been observed.
pub struct BeepCoordinator {
    tick: u64,
    stopped: bool,
}

impl BeepCoordinator {
    pub closed spec fn tick(self) -> u64 {
        self.tick
    }

    pub closed spec fn stopped(self) -> bool {
        self.stopped
    }

    pub fn new() -> (c: BeepCoordinator)
        ensures
            c.tick() == 0,
            !c.stopped(),
    {
        BeepCoordinator { tick: 0, stopped: false }
    }

    /// One loop iteration: the caller reports whether the one-shot signal
    /// has arrived. If it has, the coordinator stops — permanently, so no
    /// gain change can follow; otherwise it dictates this tick's gain by
    /// the duty cycle and advances.
    pub fn step(&mut self, signal_received: bool) -> (action: BeepStep)
        requires
            !old(self).stopped(),
            old(self).tick() < u64::MAX,
        ensures
            signal_received ==> action is Stop && final(self).stopped() && final(self).tick()
                == old(self).tick(),
            !signal_received ==> action == (BeepStep::Gain { on: duty_on(old(self).tick()) })
                && !final(self).stopped() && final(self).tick() == old(self).tick() + 1,
    {
        if signal_received {
            self.stopped = true;
            BeepStep::Stop
        } else {
            let on = self.tick % DUTY_PERIOD == 0;
            self.tick = self.tick + 1;
            BeepStep::Gain { on }
        }
    }
}

} // verus!
