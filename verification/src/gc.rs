//! The ticks of the garbage collection worker: one refreshes the safe point
//! below which old versions may go, the other collects one region and moves
//! on. The worker keeps no timer itself: each step tells the timer that
//! is to be set next.

use vstd::prelude::*;
use vstd::string::*;
use crate::keys::copy_bytes;
use crate::request::IsolationLevel;
use crate::response::{Error, ErrorView};
use crate::text::{parse_u64, spec_parse_u64};

verus! {

/// The key under which the safe point is kept.
pub const GC_SAFEPOINT: &'static str = "transaction/gc/safepoint";

/// The message of the error for a safe point that is no number.
pub const INVALID_SAFEPOINT_MSG: &'static str = "invalid safe point";

/// The first byte of every key of data.
pub const DATA_PREFIX: u8 = 122;

/// Milliseconds between two refreshes of the safe point.
pub const REFRESH_SAFEPOINT_TICK_INTERVAL: u64 = 600000;

/// Milliseconds between the collection of two regions.
pub const GC_ONE_REGION_TICK_INTERVAL: u64 = 1000;

/// The rules of the worker: the safe point and the two intervals, in
/// milliseconds.
#[allow(non_camel_case_types)]
#[derive(Clone, Copy, Debug, PartialEq, Eq, Structural)]
pub struct gc_worker {
    pub safepoint: u64,
    pub refresh_safepoint_tick_interval: u64,
    pub gc_one_region_tick_interval: u64,
}

/// What a timer of the worker stands for.
#[allow(non_camel_case_types)]
#[derive(Debug)]
pub enum Tick {
    refresh_safepoint,
    gc_one_region { scan_key: Vec<u8> },
}

/// The kind of a tick, and the key from which a collection goes on.
pub enum TickView {
    RefreshSafepoint,
    GcOneRegion(Seq<u8>),
}

impl View for Tick {
    type V = TickView;

    open spec fn view(&self) -> TickView {
        match self {
            Tick::refresh_safepoint => TickView::RefreshSafepoint,
            Tick::gc_one_region { scan_key } => TickView::GcOneRegion(scan_key@),
        }
    }
}

/// A timer to set: `tick` is due after `delay` milliseconds.
#[derive(Debug)]
pub struct Timer {
    pub tick: Tick,
    pub delay: u64,
}

/// The tick and the delay of a `Timer`.
pub struct TimerView {
    pub tick: TickView,
    pub delay: u64,
}

impl View for Timer {
    type V = TimerView;

    open spec fn view(&self) -> TimerView {
        TimerView { tick: self.tick@, delay: self.delay }
    }
}

/// The view of a timer that may be none.
pub open spec fn spec_timer_view(timer: Option<Timer>) -> Option<TimerView> {
    match timer {
        Some(t) => Some(t@),
        None => None,
    }
}

/// The timer that is set for `tick`: none while the loop does not run, and
/// none for a delay of zero, which turns the tick off.
pub open spec fn spec_register(running: bool, tick: TickView, delay: u64) -> Option<TimerView> {
    if !running || delay == 0 {
        None
    } else {
        Some(TimerView { tick, delay })
    }
}

/// What a tick comes to: whether it went well, and the timer to set next.
#[derive(Debug)]
pub struct TickOutcome {
    pub result: Result<(), Error>,
    pub timer: Option<Timer>,
}

/// A collection that is to be made: of the versions below `safe_point`,
/// from `start_key` on, as the snapshot shows them to a forward scan under
/// the isolation level given.
#[derive(Debug)]
pub struct GcPlan {
    pub snapshot: u64,
    pub start_key: Vec<u8>,
    pub safe_point: u64,
    pub isolation_level: IsolationLevel,
    pub fill_cache: bool,
}

/// What the tick for one region comes to.
#[derive(Debug)]
pub struct GcOutcome {
    pub result: Result<(), Error>,
    /// The collection to make, if one is to be made.
    pub gc: Option<GcPlan>,
    pub timer: Option<Timer>,
}

/// The key from which the first collection starts: the least key of data.
pub fn data_min_key() -> (key: Vec<u8>)
    ensures
        key@ == seq![DATA_PREFIX],
{
    let mut key: Vec<u8> = Vec::new();
    key.push(DATA_PREFIX);
    key
}

/// Whether a region is to be collected. At the start of a range the
/// collection is made only if it is `worthwhile`, as the density of old
/// versions tells; further on it is always made.
pub open spec fn spec_need_gc(range_start: bool, worthwhile: bool) -> bool {
    if range_start {
        worthwhile
    } else {
        true
    }
}

/// The safe point after the value `fetched` was read for it: the number
/// that the value writes in base 10, if it writes one above zero.
pub open spec fn spec_refreshed(safepoint: u64, fetched: Seq<char>) -> u64 {
    match spec_parse_u64(fetched) {
        Some(v) => if v != 0 {
            v
        } else {
            safepoint
        },
        None => safepoint,
    }
}

impl gc_worker {
    /// A worker with no safe point yet, which refreshes it every ten
    /// minutes and collects a region every second.
    pub fn new() -> (worker: gc_worker)
        ensures
            worker == (gc_worker {
                safepoint: 0,
                refresh_safepoint_tick_interval: REFRESH_SAFEPOINT_TICK_INTERVAL,
                gc_one_region_tick_interval: GC_ONE_REGION_TICK_INTERVAL,
            }),
    {
        gc_worker {
            safepoint: 0,
            refresh_safepoint_tick_interval: REFRESH_SAFEPOINT_TICK_INTERVAL,
            gc_one_region_tick_interval: GC_ONE_REGION_TICK_INTERVAL,
        }
    }

    /// The timers to set when the worker starts: the refresh of the safe
    /// point, and the collection from the least key of data on.
    pub fn run(&self, running: bool) -> (timers: (Option<Timer>, Option<Timer>))
        ensures
            spec_timer_view(timers.0) == spec_register(
                running,
                TickView::RefreshSafepoint,
                self.refresh_safepoint_tick_interval,
            ),
            spec_timer_view(timers.1) == spec_register(
                running,
                TickView::GcOneRegion(seq![DATA_PREFIX]),
                self.gc_one_region_tick_interval,
            ),
    {
        let refresh = self.register_refresh_safepoint_tick(running);
        let gc = self.register_gc_one_region_tick(running, data_min_key());
        (refresh, gc)
    }

    /// The timer for the next refresh of the safe point.
    pub fn register_refresh_safepoint_tick(&self, running: bool) -> (timer: Option<Timer>)
        ensures
            spec_timer_view(timer) == spec_register(
                running,
                TickView::RefreshSafepoint,
                self.refresh_safepoint_tick_interval,
            ),
    {
        self.register_time(running, Tick::refresh_safepoint, self.refresh_safepoint_tick_interval)
    }

    /// The timer for the next collection, which goes on from `scan_key`.
    pub fn register_gc_one_region_tick(&self, running: bool, scan_key: Vec<u8>) -> (timer: Option<
        Timer,
    >)
        ensures
            spec_timer_view(timer) == spec_register(
                running,
                TickView::GcOneRegion(scan_key@),
                self.gc_one_region_tick_interval,
            ),
    {
        self.register_time(
            running,
            Tick::gc_one_region { scan_key },
            self.gc_one_region_tick_interval,
        )
    }

    /// The timer to set for `tick` after `delay` milliseconds, if one is to
    /// be set: none while the loop does not run, and none for a delay of
    /// zero.
    pub fn register_time(&self, running: bool, tick: Tick, delay: u64) -> (timer: Option<Timer>)
        ensures
            spec_timer_view(timer) == spec_register(running, tick@, delay),
    {
        if !running || delay == 0 {
            return None;
        }
        Some(Timer { tick, delay })
    }

    /// Takes what was read under the key of the safe point, or why nothing
    /// could be read. The safe point becomes the number read if that is
    /// above zero. A value that is no number is an error and leaves the safe
    /// point as it is. The next refresh is set whatever happened.
    pub fn on_refresh_safepoint_tick(&mut self, fetched: Result<String, Error>, running: bool) -> (outcome:
        TickOutcome)
        ensures
            final(self).refresh_safepoint_tick_interval == old(self).refresh_safepoint_tick_interval,
            final(self).gc_one_region_tick_interval == old(self).gc_one_region_tick_interval,
            spec_timer_view(outcome.timer) == spec_register(
                running,
                TickView::RefreshSafepoint,
                old(self).refresh_safepoint_tick_interval,
            ),
            fetched matches Err(e) ==> {
                &&& outcome.result == Err::<(), Error>(e)
                &&& final(self).safepoint == old(self).safepoint
            },
            fetched matches Ok(value) ==> {
                &&& final(self).safepoint == spec_refreshed(old(self).safepoint, value@)
                &&& outcome.result is Ok <==> spec_parse_u64(value@) is Some
                &&& outcome.result matches Err(e) ==> e@ == ErrorView::Other(
                    INVALID_SAFEPOINT_MSG@,
                )
            },
    {
        let result = match fetched {
            Err(e) => Err(e),
            Ok(value) => match parse_u64(value.as_str()) {
                Some(safepoint) => {
                    if safepoint != 0 {
                        self.safepoint = safepoint;
                    }
                    Ok(())
                },
                None => Err(Error::Other(INVALID_SAFEPOINT_MSG.to_owned())),
            },
        };
        let timer = self.register_refresh_safepoint_tick(running);
        TickOutcome { result, timer }
    }

    /// Takes the snapshot for the collection that goes on from `scan_key`,
    /// or why there is none. With a snapshot the region is collected below
    /// the safe point, unless `scan_key` is empty, which is the start of a
    /// range, and the collection is not `worthwhile`. The next collection is
    /// set to go on from `scan_key`, whatever happened.
    pub fn on_gc_one_region_tick(
        &mut self,
        scan_key: Vec<u8>,
        snapshot: Result<u64, Error>,
        worthwhile: bool,
        running: bool,
    ) -> (outcome: GcOutcome)
        ensures
            *final(self) == *old(self),
            spec_timer_view(outcome.timer) == spec_register(
                running,
                TickView::GcOneRegion(scan_key@),
                old(self).gc_one_region_tick_interval,
            ),
            snapshot matches Err(e) ==> {
                &&& outcome.result == Err::<(), Error>(e)
                &&& outcome.gc is None
            },
            snapshot matches Ok(snap) ==> {
                &&& outcome.result is Ok
                &&& outcome.gc is Some <==> spec_need_gc(scan_key@.len() == 0, worthwhile)
                &&& outcome.gc matches Some(plan) ==> {
                    &&& plan.snapshot == snap
                    &&& plan.start_key@ == scan_key@
                    &&& plan.safe_point == old(self).safepoint
                    &&& plan.isolation_level == IsolationLevel::SI
                    &&& plan.fill_cache
                }
            },
    {
        let (result, gc) = match snapshot {
            Err(e) => (Err(e), None),
            Ok(snap) => {
                let is_range_start_gc = scan_key.len() == 0;
                let need_gc = if is_range_start_gc {
                    worthwhile
                } else {
                    true
                };
                let gc = if need_gc {
                    Some(
                        GcPlan {
                            snapshot: snap,
                            start_key: copy_bytes(&scan_key),
                            safe_point: self.safepoint,
                            isolation_level: IsolationLevel::SI,
                            fill_cache: true,
                        },
                    )
                } else {
                    None
                };
                (Ok(()), gc)
            },
        };
        let timer = self.register_gc_one_region_tick(running, scan_key);
        GcOutcome { result, gc, timer }
    }
}

} // verus!
