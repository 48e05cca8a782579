//! The tracker of one request: it times the waits and the handling of the
//! request, gathers what its executors counted, and at the end leaves the
//! samples with the worker that ran it.
//!
//! A tracker is queued or being handled. `record_wait` ends a wait and
//! `record_handle` ends a handling; they alternate for as long as the request
//! yields responses. `finish` ends the tracker in either state.

use vstd::prelude::*;
use crate::keys::KeyRange;
use crate::metrics::{saturating_diff, saturating_sum, CopContext, CopContextView};
use crate::metrics::{ExecSample, ExecutorMetrics};
use crate::metrics::{spec_flushed_view, Flushed, Sample, ScanDetail, ScanTag};
use crate::request::CommandPri;
use crate::response::{ExecDetails, HandleTime, Response, ResponseView};

verus! {

/// A request handled for longer than this, in nanoseconds, is slow: one
/// second.
pub const SLOW_QUERY_LOWER_BOUND: u64 = 1_000_000_000;

/// Nanoseconds in a millisecond.
pub const NANOS_PER_MILLI: u64 = 1_000_000;

/// The tracker of one request. Times are in nanoseconds.
#[derive(Debug)]
pub struct RequestTracker {
    /// Whether the request holds a slot of the running-task count.
    pub running_task_count: bool,
    /// The pool whose worker the request is bound to, once one is chosen.
    pub ctx_pool: Option<CommandPri>,
    pub record_handle_time: bool,
    pub record_scan_detail: bool,
    pub exec_metrics: ExecutorMetrics,
    /// When the request started.
    pub start: u64,
    /// Nanoseconds of handling so far; saturates.
    pub total_handle_time: u64,
    pub wait_start: Option<u64>,
    pub handle_start: Option<u64>,
    /// Nanoseconds of the last wait that ended.
    pub wait_time: Option<u64>,
    /// Nanoseconds of the last handling that ended.
    pub handle_time: Option<u64>,
    pub region_id: u64,
    pub txn_start_ts: u64,
    pub ranges_len: usize,
    pub first_range: Option<KeyRange>,
    pub scan_tag: ScanTag,
    pub pri: CommandPri,
}

/// What is logged of a request that was handled for more than a second.
#[derive(Debug)]
pub struct SlowQuery {
    pub region_id: u64,
    pub txn_start_ts: u64,
    pub scan_tag: ScanTag,
    pub total_handle_time: u64,
    pub total_op_count: u64,
    pub total_processed: u64,
    pub ranges_len: usize,
    pub first_range: Option<KeyRange>,
}

/// What is left to do for a tracker that has finished.
#[derive(Debug)]
pub struct TrackerReport {
    /// The running-task count is to go down by one.
    pub release_task: bool,
    /// The slow-query entry to log, if the request was slow.
    pub slow_query: Option<SlowQuery>,
    /// The request never reached a worker: the gauge of pending requests is
    /// to go down by one.
    pub pending_dec: bool,
    /// The wait of a request that never reached a worker, to be observed
    /// apart from any worker's samples.
    pub wait_sample: Option<Sample>,
    /// What the worker's context handed over, if its flush was due.
    pub flushed: Option<Flushed>,
}

/// Whole milliseconds of `nanos`.
pub open spec fn spec_millis(nanos: u64) -> i64 {
    (nanos / NANOS_PER_MILLI) as i64
}

/// The execution details of a response after a handling of `handle_time`
/// nanoseconds that followed a wait of `wait_time`: the times and the scan
/// detail are attached where the request asked for them, and both where the
/// handling was slow.
pub open spec fn spec_exec_details(
    before: Option<ExecDetails>,
    record_handle_time: bool,
    record_scan_detail: bool,
    handle_time: u64,
    wait_time: u64,
    detail: ScanDetail,
) -> Option<ExecDetails> {
    let slow = handle_time > SLOW_QUERY_LOWER_BOUND;
    let with_time = record_handle_time || slow;
    let with_detail = record_scan_detail || slow;
    if !with_time && !with_detail {
        before
    } else {
        let base = match before {
            Some(d) => d,
            None => ExecDetails { handle_time: None, scan_detail: None },
        };
        Some(
            ExecDetails {
                handle_time: if with_time {
                    Some(
                        HandleTime {
                            process_ms: spec_millis(handle_time),
                            wait_ms: spec_millis(wait_time),
                        },
                    )
                } else {
                    base.handle_time
                },
                scan_detail: if with_detail {
                    Some(detail)
                } else {
                    base.scan_detail
                },
            },
        )
    }
}

fn millis(nanos: u64) -> (ms: i64)
    ensures
        ms == spec_millis(nanos),
{
    (nanos / NANOS_PER_MILLI) as i64
}

impl RequestTracker {
    /// The request waits for a worker.
    pub open spec fn queued(&self) -> bool {
        self.wait_start is Some && self.handle_start is None
    }

    /// A worker handles the request.
    pub open spec fn handling(&self) -> bool {
        self.handle_start is Some && self.wait_start is None
    }

    /// The tracker is queued or being handled; a wait has ended before any
    /// handling, and only after a pool was chosen.
    pub open spec fn wf(&self) -> bool {
        &&& self.queued() || self.handling()
        &&& self.handling() ==> self.wait_time is Some
        &&& self.handle_time is Some ==> self.wait_time is Some
        &&& self.wait_time is Some ==> self.ctx_pool is Some
    }

    /// Whether the tracker holds a slot of the running-task count, which it
    /// gives back when it ends.
    pub open spec fn holds_slot(&self) -> bool {
        self.running_task_count
    }

    /// Whether the request still counts as pending: it has not reached a
    /// worker yet. The gauge of pending requests goes down by one when the
    /// first wait of the request ends, or when the tracker ends before that.
    pub open spec fn pending(&self) -> bool {
        self.wait_time is None
    }

    /// The tracker with a slot of the running-task count.
    pub open spec fn with_slot(self) -> RequestTracker {
        RequestTracker { running_task_count: true, ..self }
    }

    /// The tracker bound to the workers of `pool`.
    pub open spec fn bound_to(self, pool: CommandPri) -> RequestTracker {
        RequestTracker { ctx_pool: Some(pool), ..self }
    }

    /// The time that the wait which ends at `now` took.
    pub open spec fn wait_until(&self, now: u64) -> u64 {
        saturating_diff(now, self.wait_start->0)
    }

    /// The time that the handling which ends at `now` took.
    pub open spec fn handle_until(&self, now: u64) -> u64 {
        saturating_diff(now, self.handle_start->0)
    }

    /// The tracker after its wait ended at `now`.
    pub open spec fn waited(self, now: u64) -> RequestTracker {
        RequestTracker {
            wait_start: None,
            wait_time: Some(self.wait_until(now)),
            handle_start: Some(now),
            ..self
        }
    }

    /// The tracker after its handling ended at `now`, with what the
    /// executors counted meanwhile.
    pub open spec fn handled(self, exec_metrics: ExecutorMetrics, now: u64) -> RequestTracker {
        RequestTracker {
            handle_start: None,
            handle_time: Some(self.handle_until(now)),
            wait_start: Some(now),
            total_handle_time: saturating_sum(self.total_handle_time, self.handle_until(now)),
            exec_metrics: self.exec_metrics.spec_merge(exec_metrics),
            ..self
        }
    }

    /// The tracker of a request that arrives at `now`: queued, bound to no
    /// pool, holding no slot.
    pub fn new(
        record_handle_time: bool,
        record_scan_detail: bool,
        region_id: u64,
        txn_start_ts: u64,
        ranges_len: usize,
        first_range: Option<KeyRange>,
        scan_tag: ScanTag,
        pri: CommandPri,
        now: u64,
    ) -> (tracker: RequestTracker)
        ensures
            tracker == (RequestTracker {
                running_task_count: false,
                ctx_pool: None,
                record_handle_time,
                record_scan_detail,
                exec_metrics: ExecutorMetrics::spec_default(),
                start: now,
                total_handle_time: 0,
                wait_start: Some(now),
                handle_start: None,
                wait_time: None,
                handle_time: None,
                region_id,
                txn_start_ts,
                ranges_len,
                first_range,
                scan_tag,
                pri,
            }),
            tracker.wf(),
            tracker.queued(),
    {
        RequestTracker {
            running_task_count: false,
            ctx_pool: None,
            record_handle_time,
            record_scan_detail,
            exec_metrics: ExecutorMetrics::new(),
            start: now,
            total_handle_time: 0,
            wait_start: Some(now),
            handle_start: None,
            wait_time: None,
            handle_time: None,
            region_id,
            txn_start_ts,
            ranges_len,
            first_range,
            scan_tag,
            pri,
        }
    }

    /// Gives the tracker a slot of the running-task count. The caller raises
    /// the count by one; `finish` tells when to lower it again.
    pub fn task_count(&mut self)
        ensures
            *final(self) == old(self).with_slot(),
    {
        self.running_task_count = true;
    }

    /// Binds the tracker to the workers of `pool`.
    pub fn ctx_pool(&mut self, pool: CommandPri)
        ensures
            *final(self) == old(self).bound_to(pool),
    {
        self.ctx_pool = Some(pool);
    }

    /// Ends a wait at `now` and starts the handling. Returns whether this
    /// was the first wait of the request: the caller then lowers the gauge of
    /// pending requests by one, and the wait is sampled in `ctx`, the context
    /// of the worker that took the request.
    pub fn record_wait(&mut self, ctx: &mut CopContext, now: u64) -> (first: bool)
        requires
            old(self).wf(),
            old(self).queued(),
            old(self).ctx_pool is Some,
        ensures
            first == old(self).pending(),
            *final(self) == old(self).waited(now),
            final(self).wf(),
            final(self).handling(),
            first ==> final(ctx)@ == (CopContextView {
                basic_local_metrics: old(ctx)@.basic_local_metrics.with_wait(
                    old(self).scan_tag,
                    old(self).wait_until(now),
                ),
                ..old(ctx)@
            }),
            !first ==> final(ctx)@ == old(ctx)@,
    {
        let stop_first_wait = self.wait_time.is_none();
        let wait_start = match self.wait_start {
            Some(t) => t,
            None => now,
        };
        self.wait_start = None;
        let wait_time = now.saturating_sub(wait_start);
        self.wait_time = Some(wait_time);
        self.handle_start = Some(now);
        if stop_first_wait {
            ctx.basic_local_metrics.wait_time.push(Sample { tag: self.scan_tag, value: wait_time });
        }
        stop_first_wait
    }

    /// Ends a handling at `now` and starts the next wait. The time is added
    /// to the total, `exec_metrics` to what the request has counted, and the
    /// response, if there is one, gets its execution details.
    pub fn record_handle(
        &mut self,
        resp: Option<Response>,
        exec_metrics: ExecutorMetrics,
        now: u64,
    ) -> (out: Option<Response>)
        requires
            old(self).wf(),
            old(self).handling(),
        ensures
            *final(self) == old(self).handled(exec_metrics, now),
            final(self).wf(),
            final(self).queued(),
            resp is None ==> out is None,
            resp matches Some(r) ==> {
                &&& out matches Some(o)
                &&& o@ == (ResponseView {
                    exec_details: spec_exec_details(
                        r@.exec_details,
                        old(self).record_handle_time,
                        old(self).record_scan_detail,
                        old(self).handle_until(now),
                        old(self).wait_time->0,
                        old(self).exec_metrics.spec_merge(exec_metrics).spec_scan_detail(),
                    ),
                    ..r@
                })
            },
    {
        let handle_start = match self.handle_start {
            Some(t) => t,
            None => now,
        };
        self.handle_start = None;
        let handle_time = now.saturating_sub(handle_start);
        self.handle_time = Some(handle_time);
        self.wait_start = Some(now);
        self.total_handle_time = self.total_handle_time.saturating_add(handle_time);
        self.exec_metrics.merge(&exec_metrics);

        let mut record_handle_time = self.record_handle_time;
        let mut record_scan_detail = self.record_scan_detail;
        if handle_time > SLOW_QUERY_LOWER_BOUND {
            record_handle_time = true;
            record_scan_detail = true;
        }
        match resp {
            None => None,
            Some(mut resp) => {
                if record_handle_time || record_scan_detail {
                    let mut details = match resp.exec_details {
                        Some(d) => d,
                        None => ExecDetails { handle_time: None, scan_detail: None },
                    };
                    if record_handle_time {
                        let wait_time = match self.wait_time {
                            Some(t) => t,
                            None => 0,
                        };
                        details.handle_time = Some(
                            HandleTime {
                                process_ms: millis(handle_time),
                                wait_ms: millis(wait_time),
                            },
                        );
                    }
                    if record_scan_detail {
                        details.scan_detail = Some(self.exec_metrics.scan_detail());
                    }
                    resp.exec_details = Some(details);
                }
                Some(resp)
            },
        }
    }

    /// What is logged of the request if it is slow at the end.
    pub open spec fn spec_slow_query(&self) -> Option<SlowQuery> {
        if self.total_handle_time > SLOW_QUERY_LOWER_BOUND {
            Some(
                SlowQuery {
                    region_id: self.region_id,
                    txn_start_ts: self.txn_start_ts,
                    scan_tag: self.scan_tag,
                    total_handle_time: self.total_handle_time,
                    total_op_count: self.exec_metrics.spec_total_op_count(),
                    total_processed: self.exec_metrics.spec_total_processed(),
                    ranges_len: self.ranges_len,
                    first_range: self.first_range,
                },
            )
        } else {
            None
        }
    }

    /// The executor sample that the request leaves with its worker.
    pub open spec fn spec_exec_sample(&self) -> ExecSample {
        ExecSample { tag: self.scan_tag, region_id: self.region_id, metrics: self.exec_metrics }
    }

    /// Ends the tracker at `now`. A request that never reached a worker
    /// leaves `ctx` as it is and reports its wait apart. Any other leaves its
    /// three samples and its executor metrics with `ctx`, the context of the
    /// worker that ran it, which may thereupon flush.
    pub fn finish(self, ctx: &mut CopContext, now: u64) -> (report: TrackerReport)
        requires
            self.wf(),
        ensures
            report.release_task == self.holds_slot(),
            report.slow_query == self.spec_slow_query(),
            report.pending_dec == self.pending(),
            self.wait_time is None ==> {
                &&& report.wait_sample == Some(
                    Sample { tag: self.scan_tag, value: self.wait_until(now) },
                )
                &&& report.flushed is None
                &&& final(ctx)@ == old(ctx)@
            },
            self.wait_time is Some ==> {
                let recorded = CopContextView {
                    basic_local_metrics: old(ctx)@.basic_local_metrics.with_request(
                        self.scan_tag,
                        saturating_diff(now, self.start),
                        self.total_handle_time,
                        self.exec_metrics.spec_total_op_count(),
                    ),
                    ..old(ctx)@
                };
                &&& report.wait_sample is None
                &&& spec_flushed_view(report.flushed) == recorded.flushed(
                    self.spec_exec_sample(),
                    now,
                )
                &&& final(ctx)@ == recorded.collected(self.spec_exec_sample(), now)
            },
    {
        let release_task = self.running_task_count;
        let slow_query = if self.total_handle_time > SLOW_QUERY_LOWER_BOUND {
            Some(
                SlowQuery {
                    region_id: self.region_id,
                    txn_start_ts: self.txn_start_ts,
                    scan_tag: self.scan_tag,
                    total_handle_time: self.total_handle_time,
                    total_op_count: self.exec_metrics.total_op_count(),
                    total_processed: self.exec_metrics.total_processed(),
                    ranges_len: self.ranges_len,
                    first_range: self.first_range,
                },
            )
        } else {
            None
        };
        if self.wait_time.is_none() {
            let wait_start = match self.wait_start {
                Some(t) => t,
                None => now,
            };
            let wait_time = now.saturating_sub(wait_start);
            return TrackerReport {
                release_task,
                slow_query,
                pending_dec: true,
                wait_sample: Some(Sample { tag: self.scan_tag, value: wait_time }),
                flushed: None,
            };
        }
        let tag = self.scan_tag;
        ctx.basic_local_metrics.req_time.push(
            Sample { tag, value: now.saturating_sub(self.start) },
        );
        ctx.basic_local_metrics.handle_time.push(Sample { tag, value: self.total_handle_time });
        ctx.basic_local_metrics.scan_keys.push(
            Sample { tag, value: self.exec_metrics.total_op_count() },
        );
        let flushed = ctx.collect(self.region_id, tag, self.exec_metrics, now);
        TrackerReport { release_task, slow_query, pending_dec: false, wait_sample: None, flushed }
    }
}

/// A tracker that was given a slot of the running-task count holds it
/// through its pool being chosen and through every wait and handling, so
/// that it gives the slot back when it ends, and only then.
pub proof fn lemma_slot_is_held_to_the_end(
    tracker: RequestTracker,
    pool: CommandPri,
    wait_end: u64,
    exec_metrics: ExecutorMetrics,
    handle_end: u64,
)
    ensures
        tracker.with_slot().holds_slot(),
        tracker.with_slot().bound_to(pool).holds_slot(),
        tracker.with_slot().bound_to(pool).waited(wait_end).holds_slot(),
        tracker.with_slot().bound_to(pool).waited(wait_end).handled(
            exec_metrics,
            handle_end,
        ).holds_slot(),
{
}

/// The gauge of pending requests goes down once for a request: a tracker
/// counts as pending until its first wait ends, and never again after it.
pub proof fn lemma_pending_ends_with_first_wait(
    tracker: RequestTracker,
    pool: CommandPri,
    wait_end: u64,
    exec_metrics: ExecutorMetrics,
    handle_end: u64,
    next_wait_end: u64,
)
    ensures
        tracker.with_slot().pending() == tracker.pending(),
        tracker.bound_to(pool).pending() == tracker.pending(),
        !tracker.waited(wait_end).pending(),
        !tracker.waited(wait_end).handled(exec_metrics, handle_end).pending(),
        !tracker.waited(wait_end).handled(exec_metrics, handle_end).waited(
            next_wait_end,
        ).pending(),
{
}

/// A tracker that was given no slot has none to give back, whatever
/// happens to it.
pub proof fn lemma_no_slot_is_given_back(
    tracker: RequestTracker,
    pool: CommandPri,
    wait_end: u64,
    exec_metrics: ExecutorMetrics,
    handle_end: u64,
)
    requires
        !tracker.holds_slot(),
    ensures
        !tracker.bound_to(pool).holds_slot(),
        !tracker.bound_to(pool).waited(wait_end).holds_slot(),
        !tracker.bound_to(pool).waited(wait_end).handled(exec_metrics, handle_end).holds_slot(),
{
}

} // verus!
