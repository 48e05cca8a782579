//! The response envelope and the mapping from errors to responses.

use vstd::prelude::*;
use vstd::string::*;
use crate::keys::{copy_bytes, KeyRange, KeyRangeView};
use crate::metrics::{BasicLocalMetrics, BasicLocalMetricsView, ErrorCount, ErrorKind};
use crate::metrics::{Sample, ScanDetail, ScanTag};
use crate::text::{decimal_nat, push_decimal};

verus! {

/// The message that tells a client of an outdated request.
pub const OUTDATED_ERROR_MSG: &'static str = "request outdated.";

/// The reason that a full endpoint gives.
pub const ENDPOINT_IS_BUSY: &'static str = "endpoint is busy";

/// The message of a full endpoint, up to the limit.
pub const RUNNING_LIMIT_MSG: &'static str = "running batches reach limit ";

/// Nanoseconds in a second.
pub const NANOS_PER_SEC: u64 = 1_000_000_000;

/// The server cannot take the request now.
#[derive(Debug)]
pub struct ServerIsBusy {
    pub reason: String,
}

/// A failure that concerns the region of the request.
#[derive(Debug)]
pub struct RegionError {
    pub message: String,
    pub server_is_busy: Option<ServerIsBusy>,
}

/// The message of a `RegionError`, and the reason of its busy server.
pub struct RegionErrorView {
    pub message: Seq<char>,
    pub server_is_busy: Option<Seq<char>>,
}

impl View for RegionError {
    type V = RegionErrorView;

    open spec fn view(&self) -> RegionErrorView {
        RegionErrorView {
            message: self.message@,
            server_is_busy: match self.server_is_busy {
                Some(busy) => Some(busy.reason@),
                None => None,
            },
        }
    }
}

impl Clone for RegionError {
    fn clone(&self) -> (res: RegionError)
        ensures
            res@ == self@,
    {
        RegionError {
            message: self.message.clone(),
            server_is_busy: match &self.server_is_busy {
                Some(busy) => Some(ServerIsBusy { reason: busy.reason.clone() }),
                None => None,
            },
        }
    }
}

/// The lock that a read ran into.
#[derive(Debug)]
pub struct LockInfo {
    pub primary_lock: Vec<u8>,
    pub lock_version: u64,
    pub key: Vec<u8>,
    pub lock_ttl: u64,
}

/// The fields of a `LockInfo`.
pub struct LockInfoView {
    pub primary_lock: Seq<u8>,
    pub lock_version: u64,
    pub key: Seq<u8>,
    pub lock_ttl: u64,
}

impl View for LockInfo {
    type V = LockInfoView;

    open spec fn view(&self) -> LockInfoView {
        LockInfoView {
            primary_lock: self.primary_lock@,
            lock_version: self.lock_version,
            key: self.key@,
            lock_ttl: self.lock_ttl,
        }
    }
}

impl Clone for LockInfo {
    fn clone(&self) -> (res: LockInfo)
        ensures
            res@ == self@,
    {
        LockInfo {
            primary_lock: copy_bytes(&self.primary_lock),
            lock_version: self.lock_version,
            key: copy_bytes(&self.key),
            lock_ttl: self.lock_ttl,
        }
    }
}

/// Why a request was not answered with data.
#[derive(Debug)]
pub enum Error {
    /// The region cannot serve the request.
    Region(RegionError),
    /// A key in the range is locked.
    Locked(LockInfo),
    /// The deadline passed; with the nanoseconds since the request started
    /// and its scan tag.
    Outdated(u64, ScanTag),
    /// Too many tasks are running; with the limit.
    Full(usize),
    /// Anything else, with its message.
    Other(String),
}

/// An `Error` with the views of what it holds.
pub enum ErrorView {
    Region(RegionErrorView),
    Locked(LockInfoView),
    Outdated(u64, ScanTag),
    Full(usize),
    Other(Seq<char>),
}

impl View for Error {
    type V = ErrorView;

    open spec fn view(&self) -> ErrorView {
        match self {
            Error::Region(e) => ErrorView::Region(e@),
            Error::Locked(info) => ErrorView::Locked(info@),
            Error::Outdated(elapsed, tag) => ErrorView::Outdated(*elapsed, *tag),
            Error::Full(allow) => ErrorView::Full(*allow),
            Error::Other(msg) => ErrorView::Other(msg@),
        }
    }
}

impl Clone for Error {
    fn clone(&self) -> (res: Error)
        ensures
            res@ == self@,
    {
        match self {
            Error::Region(e) => Error::Region(e.clone()),
            Error::Locked(info) => Error::Locked(info.clone()),
            Error::Outdated(elapsed, tag) => Error::Outdated(*elapsed, *tag),
            Error::Full(allow) => Error::Full(*allow),
            Error::Other(msg) => Error::Other(msg.clone()),
        }
    }
}

/// How long a request waited and was handled, in milliseconds.
#[derive(Clone, Copy, Debug, PartialEq, Eq, Structural)]
pub struct HandleTime {
    pub wait_ms: i64,
    pub process_ms: i64,
}

/// What a response may tell of its own execution.
#[derive(Clone, Copy, Debug, PartialEq, Eq, Structural)]
pub struct ExecDetails {
    pub handle_time: Option<HandleTime>,
    pub scan_detail: Option<ScanDetail>,
}

/// The envelope in which every result leaves. `other_error` is unset when it
/// is empty.
#[derive(Debug)]
pub struct Response {
    pub data: Vec<u8>,
    pub region_error: Option<RegionError>,
    pub locked: Option<LockInfo>,
    pub other_error: String,
    pub range: Option<KeyRange>,
    pub exec_details: Option<ExecDetails>,
}

/// The fields of a `Response`.
pub struct ResponseView {
    pub data: Seq<u8>,
    pub region_error: Option<RegionErrorView>,
    pub locked: Option<LockInfoView>,
    pub other_error: Seq<char>,
    pub range: Option<KeyRangeView>,
    pub exec_details: Option<ExecDetails>,
}

impl View for Response {
    type V = ResponseView;

    open spec fn view(&self) -> ResponseView {
        ResponseView {
            data: self.data@,
            region_error: match self.region_error {
                Some(e) => Some(e@),
                None => None,
            },
            locked: match self.locked {
                Some(info) => Some(info@),
                None => None,
            },
            other_error: self.other_error@,
            range: match self.range {
                Some(range) => Some(range@),
                None => None,
            },
            exec_details: self.exec_details,
        }
    }
}

impl ResponseView {
    /// The response with nothing set.
    pub open spec fn empty() -> ResponseView {
        ResponseView {
            data: Seq::empty(),
            region_error: None,
            locked: None,
            other_error: Seq::empty(),
            range: None,
            exec_details: None,
        }
    }

    /// How many of region error, lock and other error are set.
    pub open spec fn errors_set(self) -> nat {
        let region: nat = if self.region_error is Some {
            1
        } else {
            0
        };
        let locked: nat = if self.locked is Some {
            1
        } else {
            0
        };
        let other: nat = if self.other_error.len() > 0 {
            1
        } else {
            0
        };
        region + locked + other
    }

    /// The response tells of a failure.
    pub open spec fn is_error(self) -> bool {
        self.errors_set() > 0
    }

    /// At most one of region error, lock and other error is set, and a
    /// response that tells of a failure carries no data.
    pub open spec fn exclusive(self) -> bool {
        &&& self.errors_set() <= 1
        &&& self.is_error() ==> self.data.len() == 0
    }
}

impl Clone for Response {
    fn clone(&self) -> (res: Response)
        ensures
            res@ == self@,
    {
        Response {
            data: copy_bytes(&self.data),
            region_error: match &self.region_error {
                Some(e) => Some(e.clone()),
                None => None,
            },
            locked: match &self.locked {
                Some(info) => Some(info.clone()),
                None => None,
            },
            other_error: self.other_error.clone(),
            range: match &self.range {
                Some(range) => Some(range.clone()),
                None => None,
            },
            exec_details: self.exec_details,
        }
    }
}

impl Response {
    /// The response with nothing set.
    pub fn new() -> (resp: Response)
        ensures
            resp@ == ResponseView::empty(),
    {
        Response {
            data: Vec::new(),
            region_error: None,
            locked: None,
            other_error: String::new(),
            range: None,
            exec_details: None,
        }
    }

    /// A successful response that carries `data`.
    pub fn with_data(data: Vec<u8>) -> (resp: Response)
        ensures
            resp@ == (ResponseView { data: data@, ..ResponseView::empty() }),
            !resp@.is_error(),
            resp@.exclusive(),
    {
        Response {
            data,
            region_error: None,
            locked: None,
            other_error: String::new(),
            range: None,
            exec_details: None,
        }
    }

    /// A successful response that carries `data`, one chunk of a stream, and
    /// the range that is left to scan after it, where that is known.
    pub fn with_range(data: Vec<u8>, range: Option<KeyRange>) -> (resp: Response)
        ensures
            resp@ == (ResponseView {
                data: data@,
                range: match range {
                    Some(r) => Some(r@),
                    None => None,
                },
                ..ResponseView::empty()
            }),
            !resp@.is_error(),
            resp@.exclusive(),
    {
        Response {
            data,
            region_error: None,
            locked: None,
            other_error: String::new(),
            range,
            exec_details: None,
        }
    }

    pub fn has_region_error(&self) -> (res: bool)
        ensures
            res == (self@.region_error is Some),
    {
        self.region_error.is_some()
    }

    pub fn has_locked(&self) -> (res: bool)
        ensures
            res == (self@.locked is Some),
    {
        self.locked.is_some()
    }

    pub fn get_other_error(&self) -> (msg: &str)
        ensures
            msg@ == self@.other_error,
    {
        self.other_error.as_str()
    }
}

impl RegionError {
    pub fn has_server_is_busy(&self) -> (res: bool)
        ensures
            res == (self@.server_is_busy is Some),
    {
        self.server_is_busy.is_some()
    }
}

/// The label under which an error is counted.
pub open spec fn spec_error_kind(e: ErrorView) -> ErrorKind {
    match e {
        ErrorView::Region(_) => ErrorKind::Region,
        ErrorView::Locked(_) => ErrorKind::Lock,
        ErrorView::Outdated(_, _) => ErrorKind::Outdated,
        ErrorView::Full(_) => ErrorKind::Full,
        ErrorView::Other(_) => ErrorKind::Other,
    }
}

/// The message of the region error that a full endpoint answers with.
pub open spec fn spec_full_message(allow: usize) -> Seq<char> {
    RUNNING_LIMIT_MSG@ + decimal_nat(allow as nat)
}

/// The response that tells a client of `e`: a region error or a full
/// endpoint as a region error, a lock as lock information, an outdated
/// request and any other error as a message.
pub open spec fn spec_err_response(e: ErrorView) -> ResponseView {
    match e {
        ErrorView::Region(err) => ResponseView {
            region_error: Some(err),
            ..ResponseView::empty()
        },
        ErrorView::Locked(info) => ResponseView { locked: Some(info), ..ResponseView::empty() },
        ErrorView::Outdated(_, _) => ResponseView {
            other_error: OUTDATED_ERROR_MSG@,
            ..ResponseView::empty()
        },
        ErrorView::Full(allow) => ResponseView {
            region_error: Some(
                RegionErrorView {
                    message: spec_full_message(allow),
                    server_is_busy: Some(ENDPOINT_IS_BUSY@),
                },
            ),
            ..ResponseView::empty()
        },
        ErrorView::Other(msg) => ResponseView { other_error: msg, ..ResponseView::empty() },
    }
}

/// The samples held after `count` requests failed by `e` were answered:
/// the failures counted under the error's kind and, for an outdated request,
/// one more outdate time, in whole seconds.
pub open spec fn spec_err_metrics(
    before: BasicLocalMetricsView,
    e: ErrorView,
    count: usize,
) -> BasicLocalMetricsView {
    BasicLocalMetricsView {
        outdate_time: match e {
            ErrorView::Outdated(elapsed, tag) => before.outdate_time.push(
                Sample { tag, value: elapsed / NANOS_PER_SEC },
            ),
            _ => before.outdate_time,
        },
        error_cnt: before.error_cnt.push(
            ErrorCount { kind: spec_error_kind(e), count: count as u64 },
        ),
        ..before
    }
}

/// Builds the one response that answers `count` requests failed by `e`, and
/// counts the failures in `metrics` under the error's kind.
pub fn err_multi_resp(e: Error, count: usize, metrics: &mut BasicLocalMetrics) -> (resp: Response)
    ensures
        resp@ == spec_err_response(e@),
        final(metrics)@ == spec_err_metrics(old(metrics)@, e@, count),
{
    let mut resp = Response::new();
    let kind = match e {
        Error::Region(err) => {
            resp.region_error = Some(err);
            ErrorKind::Region
        },
        Error::Locked(info) => {
            resp.locked = Some(info);
            ErrorKind::Lock
        },
        Error::Outdated(elapsed, scan_tag) => {
            metrics.outdate_time.push(Sample { tag: scan_tag, value: elapsed / NANOS_PER_SEC });
            resp.other_error = OUTDATED_ERROR_MSG.to_owned();
            ErrorKind::Outdated
        },
        Error::Full(allow) => {
            let mut message = RUNNING_LIMIT_MSG.to_owned();
            push_decimal(&mut message, allow as u64);
            let busy = ServerIsBusy { reason: ENDPOINT_IS_BUSY.to_owned() };
            resp.region_error = Some(RegionError { message, server_is_busy: Some(busy) });
            ErrorKind::Full
        },
        Error::Other(msg) => {
            resp.other_error = msg;
            ErrorKind::Other
        },
    };
    metrics.error_cnt.push(ErrorCount { kind, count: count as u64 });
    resp
}

/// Builds the response that answers one request failed by `e`.
pub fn err_resp(e: Error, metrics: &mut BasicLocalMetrics) -> (resp: Response)
    ensures
        resp@ == spec_err_response(e@),
        final(metrics)@ == spec_err_metrics(old(metrics)@, e@, 1),
{
    err_multi_resp(e, 1, metrics)
}

/// The response to an error sets exactly one of region error, lock and
/// other error and carries no data. The one exception is an error of the
/// other kind whose message is empty: its response sets nothing.
pub proof fn lemma_err_response_exclusive(e: ErrorView)
    ensures
        spec_err_response(e).exclusive(),
        spec_err_response(e).data.len() == 0,
        !(e matches ErrorView::Other(msg) && msg.len() == 0) ==> spec_err_response(
            e,
        ).errors_set() == 1,
{
    reveal_strlit("request outdated.");
}

} // verus!
