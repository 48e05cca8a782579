use copr_endpoint::context::DEFAULT_REQUEST_MAX_HANDLE_SECS;
use copr_endpoint::host::{Config, Host, Task};
use copr_endpoint::metrics::{CopContext, ErrorKind, ExecutorMetrics, ScanInfo, ScanTag};
use copr_endpoint::request::{CommandPri, Request, REQ_TYPE_DAG};
use copr_endpoint::response::{Error, HandleTime, Response};
use copr_endpoint::task::{CopRequest, DagRequest, OnResponse, RequestTask};
use copr_endpoint::tracker::RequestTracker;
use copr_endpoint::worker::{finish_request, finish_stream_step, StreamItem};

fn handled_tracker(ctx: &mut CopContext, details: bool) -> RequestTracker {
    let mut tracker = RequestTracker::new(
        details,
        false,
        1,
        2,
        0,
        None,
        ScanTag::Index,
        CommandPri::Normal,
        0,
    );
    tracker.ctx_pool(CommandPri::Normal);
    tracker.record_wait(ctx, 3_000_000);
    tracker
}

fn some_metrics() -> ExecutorMetrics {
    let info = ScanInfo { total: 2, processed: 1 };
    ExecutorMetrics { write: info, lock: info, data: info }
}

#[test]
fn test_finish_request_with_response() {
    let mut ctx = CopContext::new(0);
    let mut tracker = handled_tracker(&mut ctx, true);
    let resp = finish_request(
        &mut tracker,
        &mut ctx,
        Ok(Response::with_data(vec![7])),
        some_metrics(),
        8_000_000,
    );
    assert_eq!(resp.data, vec![7]);
    assert!(resp.other_error.is_empty());
    let details = resp.exec_details.unwrap();
    assert_eq!(details.handle_time, Some(HandleTime { wait_ms: 3, process_ms: 5 }));
    assert!(details.scan_detail.is_none());
    assert!(ctx.basic_local_metrics.error_cnt.is_empty());
    assert_eq!(tracker.total_handle_time, 5_000_000);
    assert_eq!(tracker.wait_start, Some(8_000_000));
}

#[test]
fn test_finish_request_with_failure() {
    let mut ctx = CopContext::new(0);
    let mut tracker = handled_tracker(&mut ctx, false);
    let resp = finish_request(
        &mut tracker,
        &mut ctx,
        Err(Error::Other(String::from("bad row"))),
        some_metrics(),
        8_000_000,
    );
    assert_eq!(resp.other_error, "bad row");
    assert!(resp.data.is_empty());
    assert!(resp.exec_details.is_none());
    assert_eq!(ctx.basic_local_metrics.error_cnt.len(), 1);
    assert_eq!(ctx.basic_local_metrics.error_cnt[0].kind, ErrorKind::Other);
    assert_eq!(tracker.exec_metrics, some_metrics());
}

#[test]
fn test_finish_stream_step() {
    let mut ctx = CopContext::new(0);
    let mut tracker = handled_tracker(&mut ctx, true);
    let item = StreamItem { resp: Some(Response::with_data(vec![1])), finished: false };
    let item = finish_stream_step(&mut tracker, &mut ctx, Ok(item), some_metrics(), 4_000_000);
    assert!(!item.finished);
    let resp = item.resp.unwrap();
    assert_eq!(resp.data, vec![1]);
    assert_eq!(
        resp.exec_details.unwrap().handle_time,
        Some(HandleTime { wait_ms: 3, process_ms: 1 })
    );

    tracker.record_wait(&mut ctx, 4_500_000);
    let item = StreamItem { resp: None, finished: true };
    let item = finish_stream_step(&mut tracker, &mut ctx, Ok(item), some_metrics(), 5_000_000);
    assert!(item.finished);
    assert!(item.resp.is_none());
    assert_eq!(tracker.total_handle_time, 1_500_000);
}

#[test]
fn test_finish_stream_step_failure_ends_stream() {
    let mut ctx = CopContext::new(0);
    let mut tracker = handled_tracker(&mut ctx, false);
    let item = finish_stream_step(
        &mut tracker,
        &mut ctx,
        Err(Error::Outdated(9_000_000_000, ScanTag::Index)),
        some_metrics(),
        4_000_000,
    );
    assert!(item.finished);
    assert_eq!(item.resp.unwrap().other_error, "request outdated.");
    assert_eq!(ctx.basic_local_metrics.error_cnt[0].kind, ErrorKind::Outdated);
    assert_eq!(ctx.basic_local_metrics.outdate_time[0].value, 9);
}

#[test]
fn test_running_count_returns() {
    let cfg = Config {
        end_point_concurrency: 1,
        end_point_stack_size: 1 << 20,
        end_point_max_tasks: 10,
        end_point_batch_row_limit: 64,
        end_point_stream_batch_row_limit: 128,
        end_point_request_max_handle_duration: DEFAULT_REQUEST_MAX_HANDLE_SECS * 1_000_000_000,
    };
    let mut host = Host::new(&cfg);
    let mut running: usize = 4;
    let before = running;
    let mut tasks = Vec::new();
    for sink in 0..3u64 {
        let mut req = Request::new();
        req.tp = REQ_TYPE_DAG;
        req.context.region_id = sink % 2;
        let dag = CopRequest::DAG(DagRequest {
            start_ts: 1,
            executors: vec![],
            output_offsets: vec![],
            time_zone_offset: 0,
            flags: 0,
        });
        let task = RequestTask::new(req, OnResponse::Unary(sink), Ok(dag), 0).unwrap();
        tasks.push(Task::Request(task));
    }
    let outcome = host.run_batch(&mut tasks, 1, running);
    running += outcome.admitted;
    assert_eq!(running, before + 3);

    // One region gets its snapshot, the other fails: every request ends once.
    let mut results = vec![
        Task::SnapRes(1, Ok(11)),
        Task::SnapRes(2, Err(Error::Other(String::from("stale")))),
    ];
    let outcome = host.run_batch(&mut results, 2, running);
    running += outcome.admitted;
    let mut ended = 0;
    let mut ctx = CopContext::new(0);
    for reply in outcome.outbox.replies {
        if reply.tracker.finish(&mut ctx, 3).release_task {
            running -= 1;
        }
        ended += 1;
    }
    for job in outcome.outbox.jobs {
        let mut tracker = job.task.tracker;
        tracker.record_wait(&mut ctx, 3);
        tracker.record_handle(None, ExecutorMetrics::new(), 4);
        if tracker.finish(&mut ctx, 5).release_task {
            running -= 1;
        }
        ended += 1;
    }
    assert_eq!(ended, 3);
    assert_eq!(running, before);
}
