//! Local metric aggregators. A worker records samples into buffers of its
//! own and hands them over in one piece when they are flushed, so that the
//! shared collectors are touched once per flush and not once per request.

use vstd::prelude::*;

verus! {

/// The label of a scan by row handle.
pub const STR_REQ_TYPE_SELECT: &'static str = "select";

/// The label of a scan by index.
pub const STR_REQ_TYPE_INDEX: &'static str = "index";

/// How long a worker keeps samples before it flushes them: one second, in
/// nanoseconds.
pub const FLUSH_TIMEOUT_NANOS: u64 = 1_000_000_000;

/// The label that classifies a read: a scan by row handle or by index.
#[derive(Clone, Copy, Debug, PartialEq, Eq, Structural)]
pub enum ScanTag {
    Select,
    Index,
}

/// The label under which a failed request is counted.
#[derive(Clone, Copy, Debug, PartialEq, Eq, Structural)]
pub enum ErrorKind {
    Region,
    Lock,
    Outdated,
    Full,
    Other,
}

/// The tag of a request: `Select` for a table scan, `Index` otherwise.
pub open spec fn spec_scan_tag(table_scan: bool) -> ScanTag {
    if table_scan {
        ScanTag::Select
    } else {
        ScanTag::Index
    }
}

/// The label of a scan tag.
pub open spec fn spec_scan_tag_str(tag: ScanTag) -> Seq<char> {
    match tag {
        ScanTag::Select => STR_REQ_TYPE_SELECT@,
        ScanTag::Index => STR_REQ_TYPE_INDEX@,
    }
}

/// The label of a kind of error.
pub open spec fn spec_error_kind_str(kind: ErrorKind) -> Seq<char> {
    match kind {
        ErrorKind::Region => "region"@,
        ErrorKind::Lock => "lock"@,
        ErrorKind::Outdated => "outdated"@,
        ErrorKind::Full => "full"@,
        ErrorKind::Other => "other"@,
    }
}

impl ScanTag {
    /// The tag of a request: `Select` for a table scan, `Index` otherwise.
    pub fn of(table_scan: bool) -> (tag: ScanTag)
        ensures
            tag == spec_scan_tag(table_scan),
    {
        if table_scan {
            ScanTag::Select
        } else {
            ScanTag::Index
        }
    }

    pub fn as_str(self) -> (s: &'static str)
        ensures
            s@ == spec_scan_tag_str(self),
    {
        match self {
            ScanTag::Select => STR_REQ_TYPE_SELECT,
            ScanTag::Index => STR_REQ_TYPE_INDEX,
        }
    }
}

impl ErrorKind {
    pub fn as_str(self) -> (s: &'static str)
        ensures
            s@ == spec_error_kind_str(self),
    {
        match self {
            ErrorKind::Region => "region",
            ErrorKind::Lock => "lock",
            ErrorKind::Outdated => "outdated",
            ErrorKind::Full => "full",
            ErrorKind::Other => "other",
        }
    }
}

/// One observation of a histogram, under the tag of the request it is about.
#[derive(Clone, Copy, Debug, PartialEq, Eq, Structural)]
pub struct Sample {
    pub tag: ScanTag,
    pub value: u64,
}

/// An increase of the error counter of one kind.
#[derive(Clone, Copy, Debug, PartialEq, Eq, Structural)]
pub struct ErrorCount {
    pub kind: ErrorKind,
    pub count: u64,
}

/// The samples that one thread has recorded since its last flush. Times are
/// in nanoseconds, but for `outdate_time`, which is in whole seconds;
/// `scan_keys` counts storage operations.
#[derive(Debug)]
pub struct BasicLocalMetrics {
    pub req_time: Vec<Sample>,
    pub outdate_time: Vec<Sample>,
    pub handle_time: Vec<Sample>,
    pub wait_time: Vec<Sample>,
    pub scan_keys: Vec<Sample>,
    pub error_cnt: Vec<ErrorCount>,
}

/// The samples of a `BasicLocalMetrics`, buffer by buffer.
pub struct BasicLocalMetricsView {
    pub req_time: Seq<Sample>,
    pub outdate_time: Seq<Sample>,
    pub handle_time: Seq<Sample>,
    pub wait_time: Seq<Sample>,
    pub scan_keys: Seq<Sample>,
    pub error_cnt: Seq<ErrorCount>,
}

impl View for BasicLocalMetrics {
    type V = BasicLocalMetricsView;

    open spec fn view(&self) -> BasicLocalMetricsView {
        BasicLocalMetricsView {
            req_time: self.req_time@,
            outdate_time: self.outdate_time@,
            handle_time: self.handle_time@,
            wait_time: self.wait_time@,
            scan_keys: self.scan_keys@,
            error_cnt: self.error_cnt@,
        }
    }
}

impl BasicLocalMetricsView {
    /// No sample is held.
    pub open spec fn empty() -> BasicLocalMetricsView {
        BasicLocalMetricsView {
            req_time: Seq::empty(),
            outdate_time: Seq::empty(),
            handle_time: Seq::empty(),
            wait_time: Seq::empty(),
            scan_keys: Seq::empty(),
            error_cnt: Seq::empty(),
        }
    }

    /// With the three samples that a request leaves when it is done: its
    /// total time, the time it was handled, and the storage operations it
    /// made.
    pub open spec fn with_request(
        self,
        tag: ScanTag,
        req_time: u64,
        handle_time: u64,
        scan_keys: u64,
    ) -> BasicLocalMetricsView {
        BasicLocalMetricsView {
            req_time: self.req_time.push(Sample { tag, value: req_time }),
            handle_time: self.handle_time.push(Sample { tag, value: handle_time }),
            scan_keys: self.scan_keys.push(Sample { tag, value: scan_keys }),
            ..self
        }
    }

    /// With one more sample of the time a request waited.
    pub open spec fn with_wait(self, tag: ScanTag, wait_time: u64) -> BasicLocalMetricsView {
        BasicLocalMetricsView {
            wait_time: self.wait_time.push(Sample { tag, value: wait_time }),
            ..self
        }
    }
}

impl BasicLocalMetrics {
    pub fn new() -> (metrics: BasicLocalMetrics)
        ensures
            metrics@ == BasicLocalMetricsView::empty(),
    {
        BasicLocalMetrics {
            req_time: Vec::new(),
            outdate_time: Vec::new(),
            handle_time: Vec::new(),
            wait_time: Vec::new(),
            scan_keys: Vec::new(),
            error_cnt: Vec::new(),
        }
    }

    /// Hands over every sample held and leaves the buffers empty.
    pub fn flush(&mut self) -> (flushed: BasicLocalMetrics)
        ensures
            flushed@ == old(self)@,
            final(self)@ == BasicLocalMetricsView::empty(),
    {
        let mut taken = BasicLocalMetrics::new();
        std::mem::swap(self, &mut taken);
        taken
    }
}

/// Storage operations of one kind of record.
#[derive(Clone, Copy, Debug, PartialEq, Eq, Structural)]
pub struct ScanInfo {
    pub total: u64,
    pub processed: u64,
}

/// Storage operations by kind of record, as reported to the client.
#[derive(Clone, Copy, Debug, PartialEq, Eq, Structural)]
pub struct ScanDetail {
    pub write: ScanInfo,
    pub lock: ScanInfo,
    pub data: ScanInfo,
}

/// `a + b`, or the largest number if that is less.
pub open spec fn saturating_sum(a: u64, b: u64) -> u64 {
    if a + b > u64::MAX {
        u64::MAX
    } else {
        (a + b) as u64
    }
}

/// `a - b`, or zero if that is more.
pub open spec fn saturating_diff(a: u64, b: u64) -> u64 {
    if a < b {
        0
    } else {
        (a - b) as u64
    }
}

/// The counts of `a` and `b` added up.
pub open spec fn spec_scan_info_sum(a: ScanInfo, b: ScanInfo) -> ScanInfo {
    ScanInfo {
        total: saturating_sum(a.total, b.total),
        processed: saturating_sum(a.processed, b.processed),
    }
}

/// What an executor has counted while it ran. Counters saturate.
#[derive(Clone, Copy, Debug, PartialEq, Eq, Structural)]
pub struct ExecutorMetrics {
    pub write: ScanInfo,
    pub lock: ScanInfo,
    pub data: ScanInfo,
}

impl ExecutorMetrics {
    pub open spec fn spec_default() -> ExecutorMetrics {
        let none = ScanInfo { total: 0, processed: 0 };
        ExecutorMetrics { write: none, lock: none, data: none }
    }

    pub open spec fn spec_merge(self, other: ExecutorMetrics) -> ExecutorMetrics {
        ExecutorMetrics {
            write: spec_scan_info_sum(self.write, other.write),
            lock: spec_scan_info_sum(self.lock, other.lock),
            data: spec_scan_info_sum(self.data, other.data),
        }
    }

    pub open spec fn spec_total_op_count(self) -> u64 {
        saturating_sum(saturating_sum(self.write.total, self.lock.total), self.data.total)
    }

    pub open spec fn spec_total_processed(self) -> u64 {
        saturating_sum(
            saturating_sum(self.write.processed, self.lock.processed),
            self.data.processed,
        )
    }

    pub open spec fn spec_scan_detail(self) -> ScanDetail {
        ScanDetail { write: self.write, lock: self.lock, data: self.data }
    }

    pub fn new() -> (metrics: ExecutorMetrics)
        ensures
            metrics == Self::spec_default(),
    {
        let none = ScanInfo { total: 0, processed: 0 };
        ExecutorMetrics { write: none, lock: none, data: none }
    }

    /// Adds the counts of `other` to these.
    pub fn merge(&mut self, other: &ExecutorMetrics)
        ensures
            *final(self) == old(self).spec_merge(*other),
    {
        self.write = scan_info_sum(self.write, other.write);
        self.lock = scan_info_sum(self.lock, other.lock);
        self.data = scan_info_sum(self.data, other.data);
    }

    /// The number of storage operations over all kinds of record.
    pub fn total_op_count(&self) -> (n: u64)
        ensures
            n == self.spec_total_op_count(),
    {
        self.write.total.saturating_add(self.lock.total).saturating_add(self.data.total)
    }

    /// The number of records read over all kinds.
    pub fn total_processed(&self) -> (n: u64)
        ensures
            n == self.spec_total_processed(),
    {
        self.write.processed.saturating_add(self.lock.processed).saturating_add(
            self.data.processed,
        )
    }

    pub fn scan_detail(&self) -> (detail: ScanDetail)
        ensures
            detail == self.spec_scan_detail(),
    {
        ScanDetail { write: self.write, lock: self.lock, data: self.data }
    }
}

fn scan_info_sum(a: ScanInfo, b: ScanInfo) -> (sum: ScanInfo)
    ensures
        sum == spec_scan_info_sum(a, b),
{
    ScanInfo {
        total: a.total.saturating_add(b.total),
        processed: a.processed.saturating_add(b.processed),
    }
}

/// The executor metrics of one finished request, with its tag and region.
#[derive(Clone, Copy, Debug, PartialEq, Eq, Structural)]
pub struct ExecSample {
    pub tag: ScanTag,
    pub region_id: u64,
    pub metrics: ExecutorMetrics,
}

/// The executor metrics that one thread has collected since its last flush.
#[derive(Debug)]
pub struct ExecLocalMetrics {
    pub collected: Vec<ExecSample>,
}

impl View for ExecLocalMetrics {
    type V = Seq<ExecSample>;

    open spec fn view(&self) -> Seq<ExecSample> {
        self.collected@
    }
}

impl ExecLocalMetrics {
    pub fn new() -> (metrics: ExecLocalMetrics)
        ensures
            metrics@ == Seq::<ExecSample>::empty(),
    {
        ExecLocalMetrics { collected: Vec::new() }
    }

    pub fn collect(&mut self, scan_tag: ScanTag, region_id: u64, metrics: ExecutorMetrics)
        ensures
            final(self)@ == old(self)@.push(ExecSample { tag: scan_tag, region_id, metrics }),
    {
        self.collected.push(ExecSample { tag: scan_tag, region_id, metrics });
    }

    /// Hands over what was collected and leaves the buffer empty.
    pub fn flush(&mut self) -> (flushed: ExecLocalMetrics)
        ensures
            flushed@ == old(self)@,
            final(self)@ == Seq::<ExecSample>::empty(),
    {
        let mut taken = ExecLocalMetrics::new();
        std::mem::swap(self, &mut taken);
        taken
    }
}

/// What a worker hands to the shared collectors at a flush.
#[derive(Debug)]
pub struct Flushed {
    pub executor: ExecLocalMetrics,
    pub basic: BasicLocalMetrics,
}

/// What was handed over at a flush, as samples.
pub struct FlushedView {
    pub executor: Seq<ExecSample>,
    pub basic: BasicLocalMetricsView,
}

impl View for Flushed {
    type V = FlushedView;

    open spec fn view(&self) -> FlushedView {
        FlushedView { executor: self.executor@, basic: self.basic@ }
    }
}

/// The metric state of one worker thread: its two aggregators, the time of
/// its last flush and the time it lets pass between flushes.
#[derive(Debug)]
pub struct CopContext {
    pub exec_local_metrics: ExecLocalMetrics,
    pub basic_local_metrics: BasicLocalMetrics,
    pub timer: u64,
    pub timeout: u64,
}

/// The samples, the timer and the timeout of a `CopContext`.
pub struct CopContextView {
    pub exec_local_metrics: Seq<ExecSample>,
    pub basic_local_metrics: BasicLocalMetricsView,
    pub timer: u64,
    pub timeout: u64,
}

impl View for CopContext {
    type V = CopContextView;

    open spec fn view(&self) -> CopContextView {
        CopContextView {
            exec_local_metrics: self.exec_local_metrics@,
            basic_local_metrics: self.basic_local_metrics@,
            timer: self.timer,
            timeout: self.timeout,
        }
    }
}

impl CopContextView {
    /// Whether a flush is due at `now`.
    pub open spec fn flush_due(self, now: u64) -> bool {
        saturating_diff(now, self.timer) >= self.timeout
    }

    /// The context after it has taken in `sample` at `now`: emptied, with the
    /// timer at `now`, when a flush is due, and one sample longer otherwise.
    pub open spec fn collected(self, sample: ExecSample, now: u64) -> CopContextView {
        if self.flush_due(now) {
            CopContextView {
                exec_local_metrics: Seq::empty(),
                basic_local_metrics: BasicLocalMetricsView::empty(),
                timer: now,
                timeout: self.timeout,
            }
        } else {
            CopContextView { exec_local_metrics: self.exec_local_metrics.push(sample), ..self }
        }
    }

    /// What the context hands over when it takes in `sample` at `now`.
    pub open spec fn flushed(self, sample: ExecSample, now: u64) -> Option<FlushedView> {
        if self.flush_due(now) {
            Some(
                FlushedView {
                    executor: self.exec_local_metrics.push(sample),
                    basic: self.basic_local_metrics,
                },
            )
        } else {
            None
        }
    }
}

/// The view of what a flush handed over, if there was a flush.
pub open spec fn spec_flushed_view(flushed: Option<Flushed>) -> Option<FlushedView> {
    match flushed {
        Some(f) => Some(f@),
        None => None,
    }
}

impl CopContext {
    /// The context of a worker that starts at `now`.
    pub fn new(now: u64) -> (ctx: CopContext)
        ensures
            ctx@ == (CopContextView {
                exec_local_metrics: Seq::empty(),
                basic_local_metrics: BasicLocalMetricsView::empty(),
                timer: now,
                timeout: FLUSH_TIMEOUT_NANOS,
            }),
    {
        CopContext {
            exec_local_metrics: ExecLocalMetrics::new(),
            basic_local_metrics: BasicLocalMetrics::new(),
            timer: now,
            timeout: FLUSH_TIMEOUT_NANOS,
        }
    }

    /// Takes in the executor metrics of a finished request. When the flush
    /// timeout has passed since the last flush, everything held, this
    /// request's metrics included, is handed over and the timer starts anew.
    pub fn collect(
        &mut self,
        region_id: u64,
        scan_tag: ScanTag,
        metrics: ExecutorMetrics,
        now: u64,
    ) -> (flushed: Option<Flushed>)
        ensures
            final(self)@ == old(self)@.collected(
                ExecSample { tag: scan_tag, region_id, metrics },
                now,
            ),
            spec_flushed_view(flushed) == old(self)@.flushed(
                ExecSample { tag: scan_tag, region_id, metrics },
                now,
            ),
    {
        self.exec_local_metrics.collect(scan_tag, region_id, metrics);
        if now.saturating_sub(self.timer) >= self.timeout {
            let executor = self.exec_local_metrics.flush();
            let basic = self.basic_local_metrics.flush();
            self.timer = now;
            Some(Flushed { executor, basic })
        } else {
            None
        }
    }
}

} // verus!
