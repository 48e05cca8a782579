//! The part of a request that its execution reads: when it started, when it
//! must be done, and how it reads.

use vstd::prelude::*;
use crate::metrics::{saturating_diff, saturating_sum, spec_scan_tag, ScanTag};
use crate::metrics::{spec_scan_tag_str, STR_REQ_TYPE_INDEX, STR_REQ_TYPE_SELECT};
use crate::request::IsolationLevel;
use crate::response::{Error, ErrorView};

verus! {

/// The time after which a request that is still being handled is given up,
/// in seconds, where nothing else is configured.
pub const DEFAULT_REQUEST_MAX_HANDLE_SECS: u64 = 60;

/// Times are in nanoseconds on a clock that never goes back.
#[derive(Clone, Copy, Debug, PartialEq, Eq, Structural)]
pub struct ReqContext {
    pub start_time: u64,
    pub deadline: u64,
    pub isolation_level: IsolationLevel,
    pub fill_cache: bool,
    /// Whether the request scans a table by row handle.
    pub table_scan: bool,
}

impl ReqContext {
    /// The deadline is not before the start.
    pub open spec fn wf(&self) -> bool {
        self.deadline >= self.start_time
    }

    /// The deadline has passed at `now`.
    pub open spec fn outdated_at(&self, now: u64) -> bool {
        self.deadline <= now
    }

    /// The error that an outdated request fails with at `now`.
    pub open spec fn outdated_error(&self, now: u64) -> ErrorView {
        ErrorView::Outdated(saturating_diff(now, self.start_time), spec_scan_tag(self.table_scan))
    }

    /// The context of a request that starts at `now`; its deadline is `now`
    /// until the time it may take is known.
    pub fn new(now: u64, isolation_level: IsolationLevel, fill_cache: bool, table_scan: bool) -> (ctx:
        ReqContext)
        ensures
            ctx == (ReqContext {
                start_time: now,
                deadline: now,
                isolation_level,
                fill_cache,
                table_scan,
            }),
            ctx.wf(),
    {
        ReqContext { start_time: now, deadline: now, isolation_level, fill_cache, table_scan }
    }

    pub fn scan_tag(&self) -> (tag: ScanTag)
        ensures
            tag == spec_scan_tag(self.table_scan),
    {
        ScanTag::of(self.table_scan)
    }

    /// The label of the request for metrics: `select` for a table scan,
    /// `index` otherwise.
    pub fn get_scan_tag(&self) -> (tag: &'static str)
        ensures
            tag@ == spec_scan_tag_str(spec_scan_tag(self.table_scan)),
            self.table_scan ==> tag@ == STR_REQ_TYPE_SELECT@,
            !self.table_scan ==> tag@ == STR_REQ_TYPE_INDEX@,
    {
        self.scan_tag().as_str()
    }

    /// Fails with `Outdated` when the deadline is at or before `now`, with
    /// the time since the start and the scan tag.
    pub fn check_if_outdated(&self, now: u64) -> (res: Result<(), Error>)
        ensures
            res is Err <==> self.outdated_at(now),
            res matches Err(e) ==> e@ == self.outdated_error(now),
    {
        if self.deadline <= now {
            let elapsed = now.saturating_sub(self.start_time);
            return Err(Error::Outdated(elapsed, self.scan_tag()));
        }
        Ok(())
    }

    /// Sets the deadline to the start plus `request_max_handle_duration`
    /// nanoseconds, or to the last instant of the clock if that is earlier.
    pub fn set_max_handle_duration(&mut self, request_max_handle_duration: u64)
        ensures
            *final(self) == (ReqContext {
                deadline: saturating_sum(old(self).start_time, request_max_handle_duration),
                ..*old(self)
            }),
            final(self).wf(),
    {
        self.deadline = self.start_time.saturating_add(request_max_handle_duration);
    }
}

/// A request that may take no time at all is outdated from its start on.
pub proof fn lemma_zero_duration_outdated(ctx: ReqContext, now: u64)
    requires
        ctx.deadline == saturating_sum(ctx.start_time, 0),
        now >= ctx.start_time,
    ensures
        ctx.outdated_at(now),
{
}

} // verus!
