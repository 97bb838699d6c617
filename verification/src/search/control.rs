//! Search control — stop flag and time management.

use vstd::prelude::*;

use core::sync::atomic::{AtomicBool, AtomicI32, Ordering};
use std::sync::{Arc, Mutex};
use std::time::Instant;

use crate::search::clock::{millis_since, now, read_start, set_start, start_cell};
use crate::time::{hard_limit_reached, hard_stop, soft_limit_reached, soft_stop};

verus! {

/// Controls when a search should stop.
///
/// Checked periodically by the search (every 2048 nodes) to decide
/// whether to abort. Supports three modes:
/// - **Infinite**: no time pressure, only responds to external stop flag
/// - **Timed**: clock starts immediately (normal `go wtime/btime`)
/// - **Ponder**: clock inactive until [`activate()`](SearchControl::activate) is called (`go ponder` -> `ponderhit`)
///
/// Limits are in milliseconds.
pub struct SearchControl {
    stopped: Arc<AtomicBool>,
    clock_active: AtomicBool,
    start: Mutex<Option<Instant>>,
    soft_limit: Option<u64>,
    hard_limit: Option<u64>,
    soft_scale: AtomicI32,
}

impl SearchControl {
    /// The soft limit (milliseconds), if any.
    pub closed spec fn soft(&self) -> Option<u64> {
        self.soft_limit
    }

    /// The hard limit (milliseconds), if any.
    pub closed spec fn hard(&self) -> Option<u64> {
        self.hard_limit
    }

    /// The shared stop flag.
    pub closed spec fn flag(&self) -> Arc<AtomicBool> {
        self.stopped
    }

    /// Create control for `go infinite` or `go ponder` without time limits.
    pub fn new_infinite(stopped: Arc<AtomicBool>) -> (r: SearchControl)
        ensures
            r.soft() is None,
            r.hard() is None,
            r.flag() == stopped,
    {
        SearchControl {
            stopped,
            clock_active: AtomicBool::new(false),
            start: start_cell(None),
            soft_limit: None,
            hard_limit: None,
            soft_scale: AtomicI32::new(100),
        }
    }

    /// Create control with time limits; clock starts immediately.
    pub fn new_timed(stopped: Arc<AtomicBool>, soft: u64, hard: u64) -> (r: SearchControl)
        ensures
            r.soft() == Some(soft),
            r.hard() == Some(hard),
            r.flag() == stopped,
    {
        SearchControl {
            stopped,
            clock_active: AtomicBool::new(true),
            start: start_cell(Some(now())),
            soft_limit: Some(soft),
            hard_limit: Some(hard),
            soft_scale: AtomicI32::new(100),
        }
    }

    /// Create control for pondering — time limits exist but clock is inactive.
    ///
    /// Call [`activate()`](Self::activate) on `ponderhit` to start the clock.
    pub fn new_ponder(stopped: Arc<AtomicBool>, soft: u64, hard: u64) -> (r: SearchControl)
        ensures
            r.soft() == Some(soft),
            r.hard() == Some(hard),
            r.flag() == stopped,
    {
        SearchControl {
            stopped,
            clock_active: AtomicBool::new(false),
            start: start_cell(None),
            soft_limit: Some(soft),
            hard_limit: Some(hard),
            soft_scale: AtomicI32::new(100),
        }
    }

    /// Activate the clock (called on `ponderhit`).
    ///
    /// Records the current instant as the start time and enables time checks.
    pub fn activate(&self) {
        set_start(&self.start, now());
        self.clock_active.store(true, Ordering::Release);
    }

    /// Check whether the search should abort immediately.
    ///
    /// Returns `true` if:
    /// - The external stop flag was set, OR
    /// - The clock is active and the hard limit has been exceeded
    ///   (checked only every 2048 nodes for performance)
    ///
    /// When the hard limit fires, the stop flag is set so subsequent
    /// calls return immediately without re-checking the clock. The decision
    /// itself is [`hard_limit_reached`] on the observed flag and clock.
    pub fn should_stop(&self, nodes: u64) -> (r: bool)
        ensures
            exists|stopped: bool, active: bool, elapsed: u64| r == #[trigger] hard_stop(stopped, nodes, active, self.hard(), elapsed),
    {
        let stopped = self.stopped.load(Ordering::Relaxed);
        let active = if stopped || nodes & 2047 != 0 {
            false
        } else {
            self.clock_active.load(Ordering::Acquire)
        };
        let elapsed = if active && self.hard_limit.is_some() {
            self.elapsed()
        } else {
            0
        };
        let stop = hard_limit_reached(stopped, nodes, active, self.hard_limit, elapsed);
        assert(stop == hard_stop(stopped, nodes, active, self.hard(), elapsed));
        if stop && !stopped {
            self.stopped.store(true, Ordering::Release);
        }
        stop
    }

    /// Update the soft limit scaling factor (in hundredths).
    ///
    /// 100 = neutral (1.0x), 60 = play faster (0.6x), 180 = think longer (1.8x).
    pub fn update_soft_scale(&self, scale_hundredths: i32) {
        self.soft_scale.store(scale_hundredths, Ordering::Relaxed);
    }

    /// Check whether iterative deepening should start a new iteration.
    ///
    /// Called between ID iterations. Returns `true` if the soft limit
    /// has been exceeded (meaning we likely don't have time for another
    /// full iteration). The decision itself is [`soft_limit_reached`] on the
    /// observed flag, clock and scale.
    pub fn should_stop_iterating(&self) -> (r: bool)
        ensures
            exists|stopped: bool, active: bool, scale: i32, elapsed: u64| r == #[trigger] soft_stop(stopped, active, self.soft(), scale, elapsed),
    {
        let stopped = self.stopped.load(Ordering::Relaxed);
        let active = if stopped {
            false
        } else {
            self.clock_active.load(Ordering::Acquire)
        };
        let scale = self.soft_scale.load(Ordering::Relaxed);
        let elapsed = if active && self.soft_limit.is_some() {
            self.elapsed()
        } else {
            0
        };
        let stop = soft_limit_reached(stopped, active, self.soft_limit, scale, elapsed);
        assert(stop == soft_stop(stopped, active, self.soft(), scale, elapsed));
        stop
    }

    /// Elapsed time since the clock was activated, in milliseconds.
    ///
    /// Returns 0 if the clock has not been activated.
    pub fn elapsed(&self) -> (r: u64) {
        match read_start(&self.start) {
            Some(s) => millis_since(s),
            None => 0,
        }
    }

    /// Reference to the shared stop flag.
    pub fn stop_flag(&self) -> (r: &Arc<AtomicBool>)
        ensures
            *r == self.flag(),
    {
        &self.stopped
    }
}

} // verus!
