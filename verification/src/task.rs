//! A request made ready to run: the envelope, its decoded payload, its
//! context and tracker, and the sink that its responses go to.

use vstd::prelude::*;
use vstd::string::*;
use crate::context::ReqContext;
use crate::keys::{KeyRange, KeyRangeView};
use crate::metrics::{saturating_sum, spec_scan_tag, ExecutorMetrics};
use crate::request::{CommandPri, Request, REQ_TYPE_ANALYZE, REQ_TYPE_CHECKSUM, REQ_TYPE_DAG};
use crate::response::{Error, ErrorView};
use crate::text::{decimal, push_signed_decimal};
use crate::tracker::RequestTracker;

verus! {

/// The message for a type tag that is not served, up to the tag.
pub const UNSUPPORTED_TP_MSG: &'static str = "unsupported tp ";

/// The kind of one executor of a plan.
#[derive(Clone, Copy, Debug, PartialEq, Eq, Structural)]
pub enum ExecType {
    TypeTableScan,
    TypeIndexScan,
    TypeSelection,
    TypeAggregation,
    TypeTopN,
    TypeLimit,
    TypeStreamAgg,
}

/// What the endpoint reads of a decoded plan: the kinds of its executors in
/// the order of the plan, and the offsets of the columns to put out.
#[derive(Debug)]
pub struct DagRequest {
    pub start_ts: u64,
    pub executors: Vec<ExecType>,
    pub output_offsets: Vec<u32>,
    pub time_zone_offset: i64,
    pub flags: u64,
}

/// What a request for statistics is on.
#[derive(Clone, Copy, Debug, PartialEq, Eq, Structural)]
pub enum AnalyzeType {
    TypeIndex,
    TypeColumn,
}

/// What the endpoint reads of a decoded request for statistics.
#[derive(Clone, Copy, Debug, PartialEq, Eq, Structural)]
pub struct AnalyzeReq {
    pub tp: AnalyzeType,
    pub start_ts: u64,
}

/// What a request for a checksum scans.
#[derive(Clone, Copy, Debug, PartialEq, Eq, Structural)]
pub enum ChecksumScanOn {
    Table,
    Index,
}

/// What the endpoint reads of a decoded request for a checksum.
#[derive(Clone, Copy, Debug, PartialEq, Eq, Structural)]
pub struct ChecksumRequest {
    pub start_ts: u64,
    pub scan_on: ChecksumScanOn,
}

/// The decoded payload of a request.
#[derive(Debug)]
pub enum CopRequest {
    DAG(DagRequest),
    Analyze(AnalyzeReq),
    Checksum(ChecksumRequest),
}

/// Where the responses of a request go: a sink that takes one response, or
/// one that takes a sequence of them. The number names the sink to the
/// caller, who owns it.
#[derive(Clone, Copy, Debug, PartialEq, Eq, Structural)]
pub enum OnResponse {
    Unary(u64),
    Streaming(u64),
}

impl OnResponse {
    pub open spec fn spec_is_streaming(self) -> bool {
        self is Streaming
    }

    pub fn is_streaming(&self) -> (res: bool)
        ensures
            res == self.spec_is_streaming(),
    {
        match self {
            OnResponse::Unary(_) => false,
            OnResponse::Streaming(_) => true,
        }
    }
}

/// The kind of payload that a request carries.
#[derive(Clone, Copy, Debug, PartialEq, Eq, Structural)]
pub enum PayloadKind {
    DAG,
    Analyze,
    Checksum,
}

/// The kind of payload that travels under the type tag `tp`, if the
/// endpoint serves the tag.
pub open spec fn spec_payload_kind(tp: i64) -> Option<PayloadKind> {
    if tp == REQ_TYPE_DAG {
        Some(PayloadKind::DAG)
    } else if tp == REQ_TYPE_ANALYZE {
        Some(PayloadKind::Analyze)
    } else if tp == REQ_TYPE_CHECKSUM {
        Some(PayloadKind::Checksum)
    } else {
        None
    }
}

/// The type tag is one of the three that the endpoint serves.
pub open spec fn spec_supported_tp(tp: i64) -> bool {
    spec_payload_kind(tp) is Some
}

/// The message of the error that an unknown type tag fails with.
pub open spec fn spec_unsupported_tp_msg(tp: i64) -> Seq<char> {
    UNSUPPORTED_TP_MSG@ + decimal(tp as int)
}

impl CopRequest {
    pub open spec fn spec_kind(&self) -> PayloadKind {
        match self {
            CopRequest::DAG(_) => PayloadKind::DAG,
            CopRequest::Analyze(_) => PayloadKind::Analyze,
            CopRequest::Checksum(_) => PayloadKind::Checksum,
        }
    }

    /// The type tag under which a payload of this kind travels.
    pub open spec fn spec_tp(&self) -> i64 {
        match self {
            CopRequest::DAG(_) => REQ_TYPE_DAG,
            CopRequest::Analyze(_) => REQ_TYPE_ANALYZE,
            CopRequest::Checksum(_) => REQ_TYPE_CHECKSUM,
        }
    }

    pub fn kind(&self) -> (kind: PayloadKind)
        ensures
            kind == self.spec_kind(),
            spec_payload_kind(self.spec_tp()) == Some(kind),
    {
        match self {
            CopRequest::DAG(_) => PayloadKind::DAG,
            CopRequest::Analyze(_) => PayloadKind::Analyze,
            CopRequest::Checksum(_) => PayloadKind::Checksum,
        }
    }

    /// Whether the request scans a table by row handle: a plan does if its
    /// first executor is a table scan, a request for statistics if it is on
    /// columns, a request for a checksum if it is on a table.
    pub open spec fn spec_table_scan(&self) -> bool {
        match self {
            CopRequest::DAG(dag) => dag.executors@.len() > 0 && dag.executors@[0]
                == ExecType::TypeTableScan,
            CopRequest::Analyze(analyze) => analyze.tp == AnalyzeType::TypeColumn,
            CopRequest::Checksum(checksum) => checksum.scan_on == ChecksumScanOn::Table,
        }
    }

    /// The start timestamp of the transaction that reads.
    pub open spec fn spec_start_ts(&self) -> u64 {
        match self {
            CopRequest::DAG(dag) => dag.start_ts,
            CopRequest::Analyze(analyze) => analyze.start_ts,
            CopRequest::Checksum(checksum) => checksum.start_ts,
        }
    }

    pub fn tp(&self) -> (tp: i64)
        ensures
            tp == self.spec_tp(),
    {
        match self {
            CopRequest::DAG(_) => REQ_TYPE_DAG,
            CopRequest::Analyze(_) => REQ_TYPE_ANALYZE,
            CopRequest::Checksum(_) => REQ_TYPE_CHECKSUM,
        }
    }

    pub fn table_scan(&self) -> (res: bool)
        ensures
            res == self.spec_table_scan(),
    {
        match self {
            CopRequest::DAG(dag) => {
                if dag.executors.len() > 0 {
                    match dag.executors[0] {
                        ExecType::TypeTableScan => true,
                        _ => false,
                    }
                } else {
                    false
                }
            },
            CopRequest::Analyze(analyze) => match analyze.tp {
                AnalyzeType::TypeColumn => true,
                AnalyzeType::TypeIndex => false,
            },
            CopRequest::Checksum(checksum) => match checksum.scan_on {
                ChecksumScanOn::Table => true,
                ChecksumScanOn::Index => false,
            },
        }
    }

    pub fn start_ts(&self) -> (ts: u64)
        ensures
            ts == self.spec_start_ts(),
    {
        match self {
            CopRequest::DAG(dag) => dag.start_ts,
            CopRequest::Analyze(analyze) => analyze.start_ts,
            CopRequest::Checksum(checksum) => checksum.start_ts,
        }
    }
}

/// The view of a range that may be none.
pub open spec fn spec_range_view(range: Option<KeyRange>) -> Option<KeyRangeView> {
    match range {
        Some(r) => Some(r@),
        None => None,
    }
}

/// The first of `ranges`, if there is one.
pub open spec fn spec_first_range(ranges: Seq<KeyRange>) -> Option<KeyRangeView> {
    if ranges.len() > 0 {
        Some(ranges[0]@)
    } else {
        None
    }
}

/// A request made ready: the envelope, the decoded payload, the context,
/// the sink of the responses, and the tracker.
#[derive(Debug)]
pub struct RequestTask {
    pub req: Request,
    pub cop_req: CopRequest,
    pub ctx: ReqContext,
    pub on_resp: OnResponse,
    pub tracker: RequestTracker,
}

/// Tells which kind of payload to decode for a type tag, or fails for a tag
/// that the endpoint does not serve.
pub fn payload_kind(tp: i64) -> (res: Result<PayloadKind, Error>)
    ensures
        match spec_payload_kind(tp) {
            Some(kind) => res == Ok::<PayloadKind, Error>(kind),
            None => res matches Err(e) && e@ == ErrorView::Other(spec_unsupported_tp_msg(tp)),
        },
{
    if tp == REQ_TYPE_DAG {
        Ok(PayloadKind::DAG)
    } else if tp == REQ_TYPE_ANALYZE {
        Ok(PayloadKind::Analyze)
    } else if tp == REQ_TYPE_CHECKSUM {
        Ok(PayloadKind::Checksum)
    } else {
        let mut msg = UNSUPPORTED_TP_MSG.to_owned();
        push_signed_decimal(&mut msg, tp);
        Err(Error::Other(msg))
    }
}

impl RequestTask {
    /// The context and the tracker are sound, and the tracker waits.
    pub open spec fn wf(&self) -> bool {
        &&& self.ctx.wf()
        &&& self.tracker.wf()
        &&& self.tracker.queued()
    }

    /// The context that `new` gives a request that arrives at `now`.
    pub open spec fn spec_new_ctx(req: Request, cop_req: CopRequest, now: u64) -> ReqContext {
        ReqContext {
            start_time: now,
            deadline: now,
            isolation_level: req.context.isolation_level,
            fill_cache: !req.context.not_fill_cache,
            table_scan: cop_req.spec_table_scan(),
        }
    }

    /// The tracker that `new` gives a request that arrives at `now`, but for
    /// its first range.
    pub open spec fn spec_new_tracker(
        req: Request,
        cop_req: CopRequest,
        now: u64,
        first_range: Option<KeyRange>,
    ) -> RequestTracker {
        RequestTracker {
            running_task_count: false,
            ctx_pool: None,
            record_handle_time: req.context.handle_time,
            record_scan_detail: req.context.scan_detail,
            exec_metrics: ExecutorMetrics::spec_default(),
            start: now,
            total_handle_time: 0,
            wait_start: Some(now),
            handle_start: None,
            wait_time: None,
            handle_time: None,
            region_id: req.context.region_id,
            txn_start_ts: cop_req.spec_start_ts(),
            ranges_len: req.ranges@.len() as usize,
            first_range,
            scan_tag: spec_scan_tag(cop_req.spec_table_scan()),
            pri: req.context.priority,
        }
    }

    /// Makes a task of a request that arrives at `now`. `decoded` is the
    /// payload, decoded as the type tag says, or the message of the failure
    /// to decode it. A tag that the endpoint does not serve fails whatever
    /// `decoded` holds; a failure to decode fails with its message. On
    /// success the caller raises the gauge of pending requests by one.
    pub fn new(
        req: Request,
        on_resp: OnResponse,
        decoded: Result<CopRequest, String>,
        now: u64,
    ) -> (res: Result<RequestTask, Error>)
        requires
            spec_supported_tp(req.tp) ==> (decoded matches Ok(cop_req) ==> cop_req.spec_tp()
                == req.tp),
        ensures
            res is Ok <==> spec_supported_tp(req.tp) && decoded is Ok,
            !spec_supported_tp(req.tp) ==> (res matches Err(e) && e@ == ErrorView::Other(
                spec_unsupported_tp_msg(req.tp),
            )),
            spec_supported_tp(req.tp) ==> (decoded matches Err(msg) ==> (res matches Err(e) && e@
                == ErrorView::Other(msg@))),
            res matches Ok(task) ==> {
                &&& decoded matches Ok(cop_req)
                &&& task.req == req
                &&& task.cop_req == cop_req
                &&& task.on_resp == on_resp
                &&& task.ctx == Self::spec_new_ctx(req, cop_req, now)
                &&& task.tracker == Self::spec_new_tracker(
                    req,
                    cop_req,
                    now,
                    task.tracker.first_range,
                )
                &&& spec_range_view(task.tracker.first_range) == spec_first_range(req.ranges@)
                &&& task.wf()
            },
    {
        match payload_kind(req.tp) {
            Err(e) => {
                return Err(e);
            },
            Ok(_) => {},
        }
        let cop_req = match decoded {
            Ok(cop_req) => cop_req,
            Err(msg) => {
                return Err(Error::Other(msg));
            },
        };
        let table_scan = cop_req.table_scan();
        let start_ts = cop_req.start_ts();
        let req_ctx = ReqContext::new(
            now,
            req.context.isolation_level,
            !req.context.not_fill_cache,
            table_scan,
        );
        let first_range = if req.ranges.len() > 0 {
            Some(req.ranges[0].clone())
        } else {
            None
        };
        let tracker = RequestTracker::new(
            req.context.handle_time,
            req.context.scan_detail,
            req.context.region_id,
            start_ts,
            req.ranges.len(),
            first_range,
            req_ctx.scan_tag(),
            req.context.priority,
            now,
        );
        Ok(RequestTask { req, cop_req, ctx: req_ctx, on_resp, tracker })
    }

    /// Fails with `Outdated` when the deadline of the request is at or
    /// before `now`.
    pub fn check_outdated(&self, now: u64) -> (res: Result<(), Error>)
        ensures
            res is Err <==> self.ctx.outdated_at(now),
            res matches Err(e) ==> e@ == self.ctx.outdated_error(now),
    {
        self.ctx.check_if_outdated(now)
    }

    pub fn priority(&self) -> (pri: CommandPri)
        ensures
            pri == self.req.context.priority,
    {
        self.req.context.priority
    }

    /// Sets the deadline to the start plus `request_max_handle_duration`
    /// nanoseconds, or to the last instant of the clock if that is earlier.
    pub fn set_max_handle_duration(&mut self, request_max_handle_duration: u64)
        ensures
            *final(self) == (RequestTask {
                ctx: ReqContext {
                    deadline: saturating_sum(
                        old(self).ctx.start_time,
                        request_max_handle_duration,
                    ),
                    ..old(self).ctx
                },
                ..*old(self)
            }),
    {
        self.ctx.set_max_handle_duration(request_max_handle_duration);
    }

    /// The key under which requests are batched: the region, the version of
    /// its epoch, and the peer.
    pub open spec fn spec_request_key(&self) -> (u64, u64, u64) {
        (
            self.req.context.region_id,
            self.req.context.region_epoch_version,
            self.req.context.peer_id,
        )
    }

    pub fn get_request_key(&self) -> (key: (u64, u64, u64))
        ensures
            key == self.spec_request_key(),
    {
        let ctx = &self.req.context;
        (ctx.region_id, ctx.region_epoch_version, ctx.peer_id)
    }
}

} // verus!
