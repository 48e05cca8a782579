use copr_endpoint::keys::KeyRange;
use copr_endpoint::metrics::{
    BasicLocalMetrics, CopContext, ExecLocalMetrics, ExecutorMetrics, Sample, ScanInfo, ScanTag,
    FLUSH_TIMEOUT_NANOS,
};
use copr_endpoint::pool::CopContextPool;
use copr_endpoint::request::CommandPri;
use copr_endpoint::response::{ExecDetails, HandleTime, Response};
use copr_endpoint::tracker::{RequestTracker, SLOW_QUERY_LOWER_BOUND};

const MILLI: u64 = 1_000_000;

fn fresh_tracker(now: u64, details: bool) -> RequestTracker {
    RequestTracker::new(
        details,
        details,
        3,
        99,
        2,
        Some(KeyRange { start: vec![1], end: vec![2] }),
        ScanTag::Select,
        CommandPri::Normal,
        now,
    )
}

fn counted(write: u64, lock: u64, data: u64) -> ExecutorMetrics {
    ExecutorMetrics {
        write: ScanInfo { total: write, processed: write / 2 },
        lock: ScanInfo { total: lock, processed: lock / 2 },
        data: ScanInfo { total: data, processed: data / 2 },
    }
}

#[test]
fn test_tracker_wait_then_handle() {
    let mut ctx = CopContext::new(0);
    let mut tracker = fresh_tracker(100, false);
    tracker.ctx_pool(CommandPri::Low);
    assert_eq!(tracker.ctx_pool, Some(CommandPri::Low));
    assert!(tracker.record_wait(&mut ctx, 100 + 7 * MILLI));
    assert_eq!(tracker.wait_time, Some(7 * MILLI));
    assert_eq!(tracker.handle_start, Some(100 + 7 * MILLI));
    assert_eq!(tracker.wait_start, None);
    assert_eq!(ctx.basic_local_metrics.wait_time, vec![Sample { tag: ScanTag::Select, value: 7 * MILLI }]);

    let resp = tracker.record_handle(Some(Response::new()), counted(4, 0, 2), 100 + 10 * MILLI);
    let resp = resp.unwrap();
    assert_eq!(resp.exec_details, None);
    assert_eq!(tracker.handle_time, Some(3 * MILLI));
    assert_eq!(tracker.total_handle_time, 3 * MILLI);
    assert_eq!(tracker.wait_start, Some(100 + 10 * MILLI));
    assert_eq!(tracker.handle_start, None);
    assert_eq!(tracker.exec_metrics, counted(4, 0, 2));

    // A second wait is no longer the first: nothing is sampled.
    assert!(!tracker.record_wait(&mut ctx, 100 + 12 * MILLI));
    assert_eq!(tracker.wait_time, Some(2 * MILLI));
    assert_eq!(ctx.basic_local_metrics.wait_time.len(), 1);
    assert!(tracker.record_handle(None, counted(1, 1, 1), 100 + 13 * MILLI).is_none());
    assert_eq!(tracker.total_handle_time, 4 * MILLI);
    assert_eq!(tracker.exec_metrics, counted(5, 1, 3));
}

#[test]
fn test_tracker_attaches_details_on_request() {
    let mut ctx = CopContext::new(0);
    let mut tracker = fresh_tracker(0, true);
    tracker.ctx_pool(CommandPri::Normal);
    tracker.record_wait(&mut ctx, 2_500_000);
    let resp = tracker
        .record_handle(Some(Response::with_data(vec![1])), counted(6, 2, 0), 2_500_000 + 41_999_999)
        .unwrap();
    let details = resp.exec_details.unwrap();
    assert_eq!(details.handle_time, Some(HandleTime { wait_ms: 2, process_ms: 41 }));
    let scan = details.scan_detail.unwrap();
    assert_eq!(scan.write, ScanInfo { total: 6, processed: 3 });
    assert_eq!(scan.lock, ScanInfo { total: 2, processed: 1 });
    assert_eq!(scan.data, ScanInfo { total: 0, processed: 0 });
    assert_eq!(resp.data, vec![1]);
}

#[test]
fn test_tracker_forces_details_when_slow() {
    let mut ctx = CopContext::new(0);
    let mut tracker = fresh_tracker(0, false);
    tracker.ctx_pool(CommandPri::Normal);
    tracker.record_wait(&mut ctx, 0);
    // Exactly one second is not slow.
    let resp = tracker.record_handle(Some(Response::new()), counted(0, 0, 0), SLOW_QUERY_LOWER_BOUND);
    assert_eq!(resp.unwrap().exec_details, None);
    tracker.record_wait(&mut ctx, SLOW_QUERY_LOWER_BOUND + 5 * MILLI);
    let mut before = Response::new();
    before.exec_details = Some(ExecDetails { handle_time: None, scan_detail: None });
    let resp = tracker
        .record_handle(Some(before), counted(1, 0, 0), 2 * SLOW_QUERY_LOWER_BOUND + 5 * MILLI + 1)
        .unwrap();
    let details = resp.exec_details.unwrap();
    assert_eq!(details.handle_time, Some(HandleTime { wait_ms: 5, process_ms: 1000 }));
    assert_eq!(details.scan_detail.unwrap().write.total, 1);
    assert_eq!(SLOW_QUERY_LOWER_BOUND, 1_000_000_000);
}

#[test]
fn test_finish_before_any_worker() {
    let mut ctx = CopContext::new(0);
    let tracker = fresh_tracker(1000, false);
    let report = tracker.finish(&mut ctx, 1500);
    assert!(!report.release_task);
    assert!(report.pending_dec);
    assert!(report.slow_query.is_none());
    assert_eq!(report.wait_sample, Some(Sample { tag: ScanTag::Select, value: 500 }));
    assert!(report.flushed.is_none());
    assert!(ctx.basic_local_metrics.req_time.is_empty());
    assert!(ctx.exec_local_metrics.collected.is_empty());
}

#[test]
fn test_finish_gives_slot_back() {
    let mut ctx = CopContext::new(0);
    let mut tracker = fresh_tracker(0, false);
    tracker.task_count();
    assert!(tracker.running_task_count);
    let report = tracker.finish(&mut ctx, 10);
    assert!(report.release_task);
    assert!(report.pending_dec);

    let mut tracker = fresh_tracker(0, false);
    tracker.task_count();
    tracker.ctx_pool(CommandPri::High);
    tracker.record_wait(&mut ctx, 5);
    tracker.record_handle(None, counted(0, 0, 0), 9);
    let report = tracker.finish(&mut ctx, 10);
    assert!(report.release_task);
    assert!(!report.pending_dec);
}

#[test]
fn test_finish_leaves_samples_with_worker() {
    let mut ctx = CopContext::new(0);
    let mut tracker = fresh_tracker(100, false);
    tracker.ctx_pool(CommandPri::Normal);
    tracker.record_wait(&mut ctx, 200);
    tracker.record_handle(None, counted(3, 4, 5), 260);
    let report = tracker.finish(&mut ctx, 300);
    assert!(!report.pending_dec);
    assert!(report.wait_sample.is_none());
    assert!(report.slow_query.is_none());
    assert!(report.flushed.is_none());
    let tag = ScanTag::Select;
    assert_eq!(ctx.basic_local_metrics.req_time, vec![Sample { tag, value: 200 }]);
    assert_eq!(ctx.basic_local_metrics.handle_time, vec![Sample { tag, value: 60 }]);
    assert_eq!(ctx.basic_local_metrics.scan_keys, vec![Sample { tag, value: 12 }]);
    assert_eq!(ctx.basic_local_metrics.wait_time, vec![Sample { tag, value: 100 }]);
    assert_eq!(ctx.exec_local_metrics.collected.len(), 1);
    assert_eq!(ctx.exec_local_metrics.collected[0].region_id, 3);
    assert_eq!(ctx.exec_local_metrics.collected[0].metrics, counted(3, 4, 5));
    assert_eq!(ctx.timer, 0);
}

#[test]
fn test_finish_flushes_after_timeout() {
    let mut ctx = CopContext::new(50);
    let mut tracker = fresh_tracker(100, false);
    tracker.ctx_pool(CommandPri::Normal);
    tracker.record_wait(&mut ctx, 200);
    tracker.record_handle(None, counted(1, 0, 0), 260);
    let now = 50 + FLUSH_TIMEOUT_NANOS;
    let report = tracker.finish(&mut ctx, now);
    let flushed = report.flushed.unwrap();
    assert_eq!(flushed.basic.req_time.len(), 1);
    assert_eq!(flushed.basic.wait_time.len(), 1);
    assert_eq!(flushed.executor.collected.len(), 1);
    assert!(ctx.basic_local_metrics.req_time.is_empty());
    assert!(ctx.basic_local_metrics.wait_time.is_empty());
    assert!(ctx.exec_local_metrics.collected.is_empty());
    assert_eq!(ctx.timer, now);
    assert_eq!(ctx.timeout, 1_000_000_000);
}

#[test]
fn test_slow_query_is_logged() {
    let mut ctx = CopContext::new(0);
    let mut tracker = fresh_tracker(0, false);
    tracker.ctx_pool(CommandPri::Normal);
    tracker.record_wait(&mut ctx, 10);
    tracker.record_handle(None, counted(10, 20, 30), 10 + SLOW_QUERY_LOWER_BOUND + 1);
    let report = tracker.finish(&mut ctx, 10 + SLOW_QUERY_LOWER_BOUND + 2);
    let slow = report.slow_query.unwrap();
    assert_eq!(slow.region_id, 3);
    assert_eq!(slow.txn_start_ts, 99);
    assert_eq!(slow.scan_tag, ScanTag::Select);
    assert_eq!(slow.total_handle_time, SLOW_QUERY_LOWER_BOUND + 1);
    assert_eq!(slow.total_op_count, 60);
    assert_eq!(slow.total_processed, 30);
    assert_eq!(slow.ranges_len, 2);
    assert_eq!(slow.first_range.unwrap().start, vec![1]);
}

#[test]
fn test_cop_context_collects_and_flushes() {
    let mut ctx = CopContext::new(1000);
    assert!(ctx.collect(1, ScanTag::Index, counted(1, 1, 1), 1000 + FLUSH_TIMEOUT_NANOS - 1).is_none());
    assert_eq!(ctx.exec_local_metrics.collected.len(), 1);
    ctx.basic_local_metrics.scan_keys.push(Sample { tag: ScanTag::Index, value: 3 });
    let flushed = ctx.collect(2, ScanTag::Select, counted(2, 2, 2), 1000 + FLUSH_TIMEOUT_NANOS).unwrap();
    assert_eq!(flushed.executor.collected.len(), 2);
    assert_eq!(flushed.executor.collected[1].region_id, 2);
    assert_eq!(flushed.executor.collected[1].tag, ScanTag::Select);
    assert_eq!(flushed.basic.scan_keys.len(), 1);
    assert!(ctx.exec_local_metrics.collected.is_empty());
    assert!(ctx.basic_local_metrics.scan_keys.is_empty());
    assert_eq!(ctx.timer, 1000 + FLUSH_TIMEOUT_NANOS);
    // A clock that reads earlier than the last flush lets no time pass.
    assert!(ctx.collect(3, ScanTag::Select, counted(0, 0, 0), 5).is_none());
}

#[test]
fn test_local_metrics_flush() {
    let mut metrics = BasicLocalMetrics::new();
    metrics.req_time.push(Sample { tag: ScanTag::Select, value: 1 });
    metrics.handle_time.push(Sample { tag: ScanTag::Index, value: 2 });
    let flushed = metrics.flush();
    assert_eq!(flushed.req_time.len(), 1);
    assert_eq!(flushed.handle_time[0].value, 2);
    assert!(metrics.req_time.is_empty());
    assert!(metrics.handle_time.is_empty());
    let mut executor = ExecLocalMetrics::new();
    executor.collect(ScanTag::Select, 4, counted(1, 2, 3));
    let flushed = executor.flush();
    assert_eq!(flushed.collected[0].region_id, 4);
    assert!(executor.collected.is_empty());
}

#[test]
fn test_executor_metrics_saturate() {
    let mut metrics = counted(u64::MAX - 1, 0, 0);
    metrics.merge(&counted(5, 3, 0));
    assert_eq!(metrics.write.total, u64::MAX);
    assert_eq!(metrics.lock.total, 3);
    assert_eq!(metrics.total_op_count(), u64::MAX);
    assert_eq!(ExecutorMetrics::new().total_op_count(), 0);
    assert_eq!(counted(2, 4, 6).total_processed(), 6);
    assert_eq!(counted(2, 4, 6).scan_detail().data.total, 6);
}

#[test]
fn test_scan_tag_labels() {
    assert_eq!(ScanTag::of(true), ScanTag::Select);
    assert_eq!(ScanTag::of(false), ScanTag::Index);
    assert_eq!(ScanTag::Select.as_str(), "select");
    assert_eq!(ScanTag::Index.as_str(), "index");
}

#[test]
fn test_context_pool_by_worker() {
    let started = vec![(7, CopContext::new(1)), (9, CopContext::new(2)), (7, CopContext::new(3))];
    let pool = CopContextPool::from_iter(started);
    assert_eq!(pool.len(), 2);
    assert_eq!(pool.get_context(7).timer, 3);
    assert_eq!(pool.get_context(9).timer, 2);
}
