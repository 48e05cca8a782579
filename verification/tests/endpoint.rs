use copr_endpoint::context::{ReqContext, DEFAULT_REQUEST_MAX_HANDLE_SECS};
use copr_endpoint::host::{on_batch_finished, BatchOutcome, Config, Host, JobKind, Outbox, Task};
use copr_endpoint::keys::KeyRange;
use copr_endpoint::metrics::{ErrorKind, ScanTag, STR_REQ_TYPE_INDEX, STR_REQ_TYPE_SELECT};
use copr_endpoint::request::{
    get_req_pri_str, CommandPri, IsolationLevel, Request, REQ_TYPE_ANALYZE, REQ_TYPE_CHECKSUM,
    REQ_TYPE_DAG, STR_REQ_PRI_HIGH, STR_REQ_PRI_LOW, STR_REQ_PRI_NORMAL,
};
use copr_endpoint::response::{Error, ENDPOINT_IS_BUSY, OUTDATED_ERROR_MSG};
use copr_endpoint::task::{
    payload_kind, AnalyzeReq, AnalyzeType, ChecksumRequest, ChecksumScanOn, CopRequest,
    DagRequest, ExecType, OnResponse, PayloadKind, RequestTask,
};
use protobuf::descriptor::DescriptorProto;
use protobuf::{CodedInputStream, Message};

const SECOND: u64 = 1_000_000_000;

fn endpoint_config() -> Config {
    Config {
        end_point_concurrency: 1,
        end_point_stack_size: 10 * 1024 * 1024,
        end_point_max_tasks: 2000,
        end_point_batch_row_limit: 64,
        end_point_stream_batch_row_limit: 128,
        end_point_request_max_handle_duration: DEFAULT_REQUEST_MAX_HANDLE_SECS * SECOND,
    }
}

fn empty_dag() -> CopRequest {
    CopRequest::DAG(DagRequest {
        start_ts: 0,
        executors: vec![],
        output_offsets: vec![],
        time_zone_offset: 0,
        flags: 0,
    })
}

fn dag_task(sink: u64, region_id: u64, pri: CommandPri, now: u64) -> RequestTask {
    let mut req = Request::new();
    req.tp = REQ_TYPE_DAG;
    req.context.region_id = region_id;
    req.context.priority = pri;
    RequestTask::new(req, OnResponse::Unary(sink), Ok(empty_dag()), now).unwrap()
}

fn run(host: &mut Host, tasks: Vec<Task>, now: u64, running: usize) -> BatchOutcome {
    let mut tasks = tasks;
    let outcome = host.run_batch(&mut tasks, now, running);
    assert!(tasks.is_empty());
    outcome
}

#[test]
fn test_get_reg_scan_tag() {
    let mut ctx = ReqContext {
        start_time: 5,
        deadline: 5,
        isolation_level: IsolationLevel::RC,
        fill_cache: true,
        table_scan: true,
    };
    assert_eq!(ctx.get_scan_tag(), STR_REQ_TYPE_SELECT);
    ctx.table_scan = false;
    assert_eq!(ctx.get_scan_tag(), STR_REQ_TYPE_INDEX);
}

#[test]
fn test_req_outdated() {
    let mut cfg = endpoint_config();
    cfg.end_point_request_max_handle_duration = 0;
    cfg.end_point_concurrency = 1;
    let mut end_point = Host::new(&cfg);

    let mut req = Request::new();
    req.tp = REQ_TYPE_DAG;
    let on_resp = OnResponse::Unary(1);
    let task = RequestTask::new(req, on_resp, Ok(empty_dag()), 1000).unwrap();

    let outcome = run(&mut end_point, vec![Task::Request(task)], 1000, 0);
    assert_eq!(outcome.outbox.replies.len(), 1);
    let reply = &outcome.outbox.replies[0];
    assert_eq!(reply.on_resp, OnResponse::Unary(1));
    let resp = &reply.resp;
    assert!(!resp.get_other_error().is_empty());
    assert_eq!(resp.get_other_error(), OUTDATED_ERROR_MSG);
    assert_eq!(resp.get_other_error(), "request outdated.");
    assert!(resp.data.is_empty());
    assert!(!resp.has_region_error());
    assert!(!resp.has_locked());
    assert!(outcome.outbox.jobs.is_empty());
    assert!(outcome.batch_snapshot.is_none());
    assert_eq!(outcome.admitted, 0);
    assert_eq!(outcome.flushed.error_cnt.len(), 1);
    assert_eq!(outcome.flushed.error_cnt[0].kind, ErrorKind::Outdated);
    assert_eq!(outcome.flushed.error_cnt[0].count, 1);
    assert_eq!(outcome.flushed.outdate_time.len(), 1);
    assert_eq!(outcome.flushed.outdate_time[0].tag, ScanTag::Index);
    assert_eq!(outcome.flushed.outdate_time[0].value, 0);
    assert!(end_point.basic_local_metrics.error_cnt.is_empty());
}

#[test]
fn test_too_many_reqs() {
    let mut cfg = endpoint_config();
    cfg.end_point_concurrency = 1;
    let mut end_point = Host::new(&cfg);
    end_point.max_running_task_count = 1;
    let mut running: usize = 0;
    let mut responses = Vec::new();
    let mut pending = Vec::new();
    for pos in 0..30 * 4 {
        let pri = if pos % 3 == 0 {
            CommandPri::Low
        } else if pos % 3 == 1 {
            CommandPri::Normal
        } else {
            CommandPri::High
        };
        pending.push(Task::Request(dag_task(pos, pos, pri, 0)));
        if pending.len() == 5 {
            let tasks = std::mem::take(&mut pending);
            let outcome = run(&mut end_point, tasks, 100, running);
            running += outcome.admitted;
            for reply in outcome.outbox.replies {
                responses.push(reply.resp);
            }
        }
    }
    assert_eq!(running, 1);
    assert_eq!(responses.len(), 119);
    for resp in responses {
        if !resp.has_region_error() {
            continue;
        }
        let region_error = resp.region_error.as_ref().unwrap();
        assert!(region_error.has_server_is_busy());
        assert_eq!(region_error.server_is_busy.as_ref().unwrap().reason, ENDPOINT_IS_BUSY);
        assert_eq!(region_error.server_is_busy.as_ref().unwrap().reason, "endpoint is busy");
        assert_eq!(region_error.message, "running batches reach limit 1");
        return;
    }
    panic!("suppose to get ServerIsBusy error.");
}

#[test]
fn test_stack_guard() {
    let mut nested = DescriptorProto::new();
    for _ in 0..10 {
        let mut outer = DescriptorProto::new();
        outer.mut_nested_type().push(nested);
        nested = outer;
    }
    let data = nested.write_to_bytes().unwrap();
    let mut is = CodedInputStream::from_bytes(&data);
    is.set_recursion_limit(5);
    let mut parsed = DescriptorProto::new();
    let decoded = match parsed.merge_from(&mut is) {
        Ok(()) => Ok(empty_dag()),
        Err(e) => Err(format!("{:?}", e)),
    };

    let mut req = Request::new();
    req.tp = REQ_TYPE_DAG;
    req.data = data.clone();
    let err = RequestTask::new(req, OnResponse::Unary(0), decoded, 0).unwrap_err();
    let s = format!("{:?}", err);
    assert!(s.contains("Recursion"), "parse should fail due to recursion limit {}", s);

    let mut is = CodedInputStream::from_bytes(&data);
    is.set_recursion_limit(1000);
    let mut parsed = DescriptorProto::new();
    assert!(parsed.merge_from(&mut is).is_ok());
}

#[test]
fn test_unsupported_tp() {
    let mut req = Request::new();
    req.tp = 102;
    let err = RequestTask::new(req, OnResponse::Unary(0), Ok(empty_dag()), 0).unwrap_err();
    match err {
        Error::Other(msg) => assert_eq!(msg, "unsupported tp 102"),
        other => panic!("unexpected error {:?}", other),
    }
    let mut req = Request::new();
    req.tp = -7;
    let err = RequestTask::new(req, OnResponse::Unary(0), Err(String::from("ignored")), 0)
        .unwrap_err();
    match err {
        Error::Other(msg) => assert_eq!(msg, "unsupported tp -7"),
        other => panic!("unexpected error {:?}", other),
    }
    assert!(matches!(payload_kind(REQ_TYPE_DAG), Ok(PayloadKind::DAG)));
    assert!(matches!(payload_kind(REQ_TYPE_ANALYZE), Ok(PayloadKind::Analyze)));
    assert!(matches!(payload_kind(REQ_TYPE_CHECKSUM), Ok(PayloadKind::Checksum)));
    assert!(payload_kind(0).is_err());
    assert_eq!(empty_dag().kind(), PayloadKind::DAG);
    assert_eq!(REQ_TYPE_DAG, 103);
    assert_eq!(REQ_TYPE_ANALYZE, 104);
    assert_eq!(REQ_TYPE_CHECKSUM, 105);
}

#[test]
fn test_decode_failure_is_passed_on() {
    let mut req = Request::new();
    req.tp = REQ_TYPE_ANALYZE;
    let err = RequestTask::new(req, OnResponse::Unary(0), Err(String::from("truncated")), 0)
        .unwrap_err();
    match err {
        Error::Other(msg) => assert_eq!(msg, "truncated"),
        other => panic!("unexpected error {:?}", other),
    }
}

#[test]
fn test_new_task_reads_payload() {
    let mut req = Request::new();
    req.tp = REQ_TYPE_DAG;
    req.context.region_id = 9;
    req.context.priority = CommandPri::High;
    req.context.isolation_level = IsolationLevel::RC;
    req.context.not_fill_cache = true;
    req.context.handle_time = true;
    req.ranges.push(KeyRange { start: vec![1], end: vec![2] });
    req.ranges.push(KeyRange { start: vec![3], end: vec![4] });
    let dag = CopRequest::DAG(DagRequest {
        start_ts: 77,
        executors: vec![ExecType::TypeTableScan, ExecType::TypeSelection],
        output_offsets: vec![0],
        time_zone_offset: 0,
        flags: 0,
    });
    let task = RequestTask::new(req, OnResponse::Streaming(4), Ok(dag), 500).unwrap();
    assert!(task.ctx.table_scan);
    assert_eq!(task.ctx.start_time, 500);
    assert_eq!(task.ctx.deadline, 500);
    assert_eq!(task.ctx.isolation_level, IsolationLevel::RC);
    assert!(!task.ctx.fill_cache);
    assert_eq!(task.priority(), CommandPri::High);
    assert_eq!(task.get_request_key(), (9, 0, 0));
    assert_eq!(task.tracker.txn_start_ts, 77);
    assert_eq!(task.tracker.region_id, 9);
    assert_eq!(task.tracker.ranges_len, 2);
    assert_eq!(task.tracker.first_range.as_ref().unwrap().start, vec![1]);
    assert_eq!(task.tracker.first_range.as_ref().unwrap().end, vec![2]);
    assert_eq!(task.tracker.scan_tag, ScanTag::Select);
    assert_eq!(task.tracker.pri, CommandPri::High);
    assert!(task.tracker.record_handle_time);
    assert!(!task.tracker.record_scan_detail);
    assert!(!task.tracker.running_task_count);
    assert_eq!(task.tracker.wait_start, Some(500));
    assert!(task.on_resp.is_streaming());
}

#[test]
fn test_table_scan_of_each_payload() {
    let index_dag = CopRequest::DAG(DagRequest {
        start_ts: 1,
        executors: vec![ExecType::TypeIndexScan, ExecType::TypeTableScan],
        output_offsets: vec![],
        time_zone_offset: 0,
        flags: 0,
    });
    assert!(!index_dag.table_scan());
    assert!(!empty_dag().table_scan());
    let columns = CopRequest::Analyze(AnalyzeReq { tp: AnalyzeType::TypeColumn, start_ts: 3 });
    assert!(columns.table_scan());
    assert_eq!(columns.start_ts(), 3);
    assert_eq!(columns.tp(), 104);
    let index = CopRequest::Analyze(AnalyzeReq { tp: AnalyzeType::TypeIndex, start_ts: 3 });
    assert!(!index.table_scan());
    let table = CopRequest::Checksum(ChecksumRequest { start_ts: 4, scan_on: ChecksumScanOn::Table });
    assert!(table.table_scan());
    assert_eq!(table.tp(), 105);
    let on_index =
        CopRequest::Checksum(ChecksumRequest { start_ts: 4, scan_on: ChecksumScanOn::Index });
    assert!(!on_index.table_scan());
}

#[test]
fn test_priority_labels() {
    assert_eq!(get_req_pri_str(CommandPri::Low), STR_REQ_PRI_LOW);
    assert_eq!(get_req_pri_str(CommandPri::Normal), STR_REQ_PRI_NORMAL);
    assert_eq!(get_req_pri_str(CommandPri::High), STR_REQ_PRI_HIGH);
    assert_eq!(get_req_pri_str(CommandPri::Low), "low");
    assert_eq!(get_req_pri_str(CommandPri::Normal), "normal");
    assert_eq!(get_req_pri_str(CommandPri::High), "high");
}

#[test]
fn test_deadline_is_start_plus_duration() {
    let mut task = dag_task(1, 1, CommandPri::Normal, 40);
    task.set_max_handle_duration(60);
    assert_eq!(task.ctx.deadline, 100);
    assert!(task.check_outdated(99).is_ok());
    match task.check_outdated(100) {
        Err(Error::Outdated(elapsed, tag)) => {
            assert_eq!(elapsed, 60);
            assert_eq!(tag, ScanTag::Index);
        }
        other => panic!("unexpected {:?}", other),
    }
    let mut ctx = task.ctx;
    ctx.set_max_handle_duration(u64::MAX);
    assert_eq!(ctx.deadline, u64::MAX);
    assert!(ctx.check_if_outdated(u64::MAX - 1).is_ok());
    assert_eq!(DEFAULT_REQUEST_MAX_HANDLE_SECS, 60);
}

#[test]
fn test_host_new_reads_config() {
    let cfg = Config {
        end_point_concurrency: 3,
        end_point_stack_size: 4096,
        end_point_max_tasks: 7,
        end_point_batch_row_limit: 11,
        end_point_stream_batch_row_limit: 13,
        end_point_request_max_handle_duration: 17,
    };
    let host = Host::new(&cfg);
    assert_eq!(host.last_req_id, 0);
    assert!(host.reqs.is_empty());
    assert_eq!(host.max_running_task_count, 7);
    assert_eq!(host.batch_row_limit, 11);
    assert_eq!(host.stream_batch_row_limit, 13);
    assert_eq!(host.request_max_handle_duration, 17);
    assert_eq!(host.pool.name_prefix, "endpoint-normal-pool");
    assert_eq!(host.low_priority_pool.name_prefix, "endpoint-low-pool");
    assert_eq!(host.high_priority_pool.name_prefix, "endpoint-high-pool");
    for pool in [&host.pool, &host.low_priority_pool, &host.high_priority_pool] {
        assert_eq!(pool.pool_size, 3);
        assert_eq!(pool.stack_size, 4096);
    }
    assert_eq!(host.pool_of(CommandPri::Low).name_prefix, "endpoint-low-pool");
    assert_eq!(host.pool_of(CommandPri::Normal).name_prefix, "endpoint-normal-pool");
    assert_eq!(host.pool_of(CommandPri::High).name_prefix, "endpoint-high-pool");
}

#[test]
fn test_requests_are_grouped_by_region() {
    let mut host = Host::new(&endpoint_config());
    let mut other_epoch = dag_task(4, 1, CommandPri::Normal, 0);
    other_epoch.req.context.region_epoch_version = 2;
    let tasks = vec![
        Task::Request(dag_task(1, 1, CommandPri::Normal, 0)),
        Task::Request(dag_task(2, 2, CommandPri::Normal, 0)),
        Task::Request(dag_task(3, 1, CommandPri::High, 0)),
        Task::Request(other_epoch),
    ];
    let outcome = run(&mut host, tasks, 10, 0);
    assert!(outcome.outbox.replies.is_empty());
    assert_eq!(outcome.admitted, 4);
    let batch = outcome.batch_snapshot.unwrap();
    assert_eq!(batch.start_id, 1);
    assert_eq!(batch.contexts.len(), 3);
    assert_eq!(batch.contexts[0].region_id, 1);
    assert_eq!(batch.contexts[1].region_id, 2);
    assert_eq!(batch.contexts[2].region_id, 1);
    assert_eq!(batch.contexts[2].region_epoch_version, 2);
    assert_eq!(host.last_req_id, 3);
    assert_eq!(host.reqs.len(), 3);
    let first = &host.reqs[&1];
    assert_eq!(first.len(), 2);
    assert_eq!(first[0].on_resp, OnResponse::Unary(1));
    assert_eq!(first[1].on_resp, OnResponse::Unary(3));
    assert!(first.iter().all(|t| t.tracker.running_task_count));
    assert_eq!(first[0].ctx.deadline, 60 * SECOND);
    assert_eq!(host.reqs[&2].len(), 1);
    assert_eq!(host.reqs[&3][0].on_resp, OnResponse::Unary(4));
}

#[test]
fn test_full_endpoint_fails_whole_group() {
    let mut cfg = endpoint_config();
    cfg.end_point_max_tasks = 3;
    let mut host = Host::new(&cfg);
    let tasks = vec![
        Task::Request(dag_task(1, 1, CommandPri::Normal, 0)),
        Task::Request(dag_task(2, 1, CommandPri::Normal, 0)),
        Task::Request(dag_task(3, 2, CommandPri::Normal, 0)),
        Task::Request(dag_task(4, 3, CommandPri::Normal, 0)),
        Task::Request(dag_task(5, 3, CommandPri::Normal, 0)),
    ];
    let outcome = run(&mut host, tasks, 10, 1);
    // One task ran already; the first group takes the count to three.
    assert_eq!(outcome.admitted, 2);
    assert_eq!(outcome.outbox.replies.len(), 3);
    let sinks: Vec<OnResponse> = outcome.outbox.replies.iter().map(|r| r.on_resp).collect();
    assert_eq!(sinks, vec![OnResponse::Unary(3), OnResponse::Unary(4), OnResponse::Unary(5)]);
    for reply in &outcome.outbox.replies {
        let err = reply.resp.region_error.as_ref().unwrap();
        assert_eq!(err.message, "running batches reach limit 3");
        assert_eq!(err.server_is_busy.as_ref().unwrap().reason, "endpoint is busy");
        assert!(reply.resp.other_error.is_empty());
        assert!(reply.resp.data.is_empty());
        assert!(!reply.tracker.running_task_count);
    }
    let batch = outcome.batch_snapshot.unwrap();
    assert_eq!(batch.start_id, 1);
    assert_eq!(batch.contexts.len(), 1);
    assert_eq!(host.last_req_id, 1);
    let counts = &outcome.flushed.error_cnt;
    assert_eq!(counts.len(), 2);
    assert_eq!((counts[0].kind, counts[0].count), (ErrorKind::Full, 1));
    assert_eq!((counts[1].kind, counts[1].count), (ErrorKind::Full, 2));
}

#[test]
fn test_full_endpoint_at_limit_zero() {
    let mut cfg = endpoint_config();
    cfg.end_point_max_tasks = 0;
    let mut host = Host::new(&cfg);
    let outcome = run(&mut host, vec![Task::Request(dag_task(1, 1, CommandPri::Low, 0))], 1, 0);
    assert_eq!(outcome.admitted, 0);
    assert_eq!(outcome.outbox.replies.len(), 1);
    assert_eq!(
        outcome.outbox.replies[0].resp.region_error.as_ref().unwrap().message,
        "running batches reach limit 0"
    );
    let batch = outcome.batch_snapshot.unwrap();
    assert!(batch.contexts.is_empty());
    assert_eq!(host.last_req_id, 0);
}

#[test]
fn test_batch_snapshot_retry() {
    let mut host = Host::new(&endpoint_config());
    let tasks = vec![
        Task::Request(dag_task(1, 10, CommandPri::Normal, 0)),
        Task::Request(dag_task(2, 20, CommandPri::Low, 0)),
        Task::Request(dag_task(3, 10, CommandPri::High, 0)),
    ];
    let outcome = run(&mut host, tasks, 5, 0);
    let batch = outcome.batch_snapshot.unwrap();
    assert_eq!(batch.start_id, 1);
    assert_eq!(batch.contexts.len(), 2);
    assert_eq!(batch.contexts[0].region_id, 10);
    assert_eq!(batch.contexts[1].region_id, 20);
    assert_eq!(outcome.admitted, 3);

    // The engine has a snapshot for the first region and none yet for the second.
    let sorted = on_batch_finished(batch.start_id, batch.contexts.len(), vec![Some(Ok(70)), None]);
    let ready = sorted.ready.unwrap();
    let retry = sorted.retry.unwrap();
    assert_eq!(ready.len(), 1);
    assert_eq!(ready[0].0, 1);
    assert!(matches!(ready[0].1, Ok(70)));
    assert_eq!(retry, vec![2]);
    let ready = Task::BatchSnapRes(ready);
    let retry = Task::RetryRequests(retry);

    let outcome = run(&mut host, vec![ready, retry], 6, 3);
    assert!(outcome.outbox.replies.is_empty());
    assert!(outcome.batch_snapshot.is_none());
    assert_eq!(outcome.admitted, 0);
    assert_eq!(outcome.outbox.jobs.len(), 2);
    let first = &outcome.outbox.jobs[0];
    assert_eq!(first.task.on_resp, OnResponse::Unary(1));
    assert_eq!(first.pool, CommandPri::Normal);
    assert_eq!(first.snapshot, 70);
    assert_eq!(first.kind, JobKind::DagUnary(64));
    assert_eq!(first.task.tracker.ctx_pool, Some(CommandPri::Normal));
    assert!(first.task.tracker.running_task_count);
    let second = &outcome.outbox.jobs[1];
    assert_eq!(second.task.on_resp, OnResponse::Unary(3));
    assert_eq!(second.pool, CommandPri::High);
    assert_eq!(outcome.outbox.retries.len(), 1);
    assert_eq!(outcome.outbox.retries[0].0, 2);
    assert_eq!(outcome.outbox.retries[0].1.region_id, 20);
    assert!(!host.reqs.contains_key(&1));
    assert!(host.reqs.contains_key(&2));

    // The second ask gives the snapshot for the second region.
    let outcome = run(&mut host, vec![Task::SnapRes(2, Ok(71))], 7, 3);
    assert_eq!(outcome.outbox.jobs.len(), 1);
    assert_eq!(outcome.outbox.jobs[0].task.on_resp, OnResponse::Unary(2));
    assert_eq!(outcome.outbox.jobs[0].pool, CommandPri::Low);
    assert_eq!(outcome.outbox.jobs[0].snapshot, 71);
    assert!(host.reqs.is_empty());
}

#[test]
fn test_retry_that_fails_answers_every_request() {
    let mut host = Host::new(&endpoint_config());
    let tasks = vec![
        Task::Request(dag_task(1, 10, CommandPri::Normal, 0)),
        Task::Request(dag_task(2, 10, CommandPri::Normal, 0)),
    ];
    run(&mut host, tasks, 5, 0);
    let outcome = run(
        &mut host,
        vec![Task::SnapRes(1, Err(Error::Other(String::from("engine is gone"))))],
        6,
        2,
    );
    assert_eq!(outcome.outbox.replies.len(), 2);
    for (reply, sink) in outcome.outbox.replies.iter().zip([1u64, 2]) {
        assert_eq!(reply.on_resp, OnResponse::Unary(sink));
        assert_eq!(reply.resp.other_error, "engine is gone");
        assert!(reply.tracker.running_task_count);
    }
    assert_eq!(outcome.flushed.error_cnt.len(), 1);
    assert_eq!(outcome.flushed.error_cnt[0].kind, ErrorKind::Other);
    assert_eq!(outcome.flushed.error_cnt[0].count, 2);
    assert!(host.reqs.is_empty());
    // A result for an id that nothing waits under changes nothing.
    let outcome = run(&mut host, vec![Task::SnapRes(1, Ok(3)), Task::RetryRequests(vec![1, 9])], 7, 0);
    assert!(outcome.outbox.replies.is_empty());
    assert!(outcome.outbox.jobs.is_empty());
    assert!(outcome.outbox.retries.is_empty());
}

#[test]
fn test_snapshot_after_deadline_is_outdated() {
    let mut cfg = endpoint_config();
    cfg.end_point_request_max_handle_duration = 50;
    let mut host = Host::new(&cfg);
    run(&mut host, vec![Task::Request(dag_task(1, 10, CommandPri::Normal, 0))], 5, 0);
    let outcome = run(&mut host, vec![Task::SnapRes(1, Ok(1))], 50, 1);
    assert!(outcome.outbox.jobs.is_empty());
    assert_eq!(outcome.outbox.replies.len(), 1);
    assert_eq!(outcome.outbox.replies[0].resp.other_error, "request outdated.");
    assert!(outcome.outbox.replies[0].tracker.running_task_count);
}

#[test]
fn test_job_kinds() {
    let mut host = Host::new(&endpoint_config());
    let mut out = Outbox::new();
    let mut streaming = dag_task(1, 1, CommandPri::Normal, 0);
    streaming.on_resp = OnResponse::Streaming(1);
    streaming.ctx.set_max_handle_duration(100);
    host.handle_request(5, streaming, 1, &mut out);
    let mut req = Request::new();
    req.tp = REQ_TYPE_ANALYZE;
    let analyze = CopRequest::Analyze(AnalyzeReq { tp: AnalyzeType::TypeIndex, start_ts: 1 });
    let mut task = RequestTask::new(req, OnResponse::Streaming(2), Ok(analyze), 0).unwrap();
    task.ctx.set_max_handle_duration(100);
    host.handle_request(5, task, 1, &mut out);
    let mut req = Request::new();
    req.tp = REQ_TYPE_CHECKSUM;
    let checksum =
        CopRequest::Checksum(ChecksumRequest { start_ts: 1, scan_on: ChecksumScanOn::Table });
    let mut task = RequestTask::new(req, OnResponse::Unary(3), Ok(checksum), 0).unwrap();
    task.ctx.set_max_handle_duration(100);
    host.handle_request(5, task, 1, &mut out);
    let kinds: Vec<JobKind> = out.jobs.iter().map(|j| j.kind).collect();
    assert_eq!(kinds, vec![JobKind::DagStream(128), JobKind::Analyze, JobKind::Checksum]);
}

#[test]
fn test_batch_callback_partition() {
    let results: Vec<Option<Result<u64, Error>>> =
        vec![None, Some(Ok(1)), None, Some(Err(Error::Full(3))), Some(Ok(2)), None];
    let sorted = on_batch_finished(10, 6, results);
    let ready = sorted.ready.unwrap();
    let ids: Vec<u64> = ready.iter().map(|r| r.0).collect();
    assert_eq!(ids, vec![11, 13, 14]);
    assert!(matches!(ready[1].1, Err(Error::Full(3))));
    assert_eq!(sorted.retry.unwrap(), vec![10, 12, 15]);

    // Results beyond the ids that were asked for are left aside.
    let sorted = on_batch_finished(1, 2, vec![Some('a'), Some('b'), None]);
    assert!(sorted.retry.is_none());
    assert_eq!(sorted.ready.unwrap(), vec![(1, 'a'), (2, 'b')]);
    let sorted = on_batch_finished(1, 3, vec![Some('a')]);
    assert!(sorted.retry.is_none());
    assert_eq!(sorted.ready.unwrap(), vec![(1, 'a')]);
    let sorted = on_batch_finished::<u8>(1, 0, vec![]);
    assert!(sorted.ready.is_none());
    assert!(sorted.retry.is_none());
    let sorted = on_batch_finished::<u8>(u64::MAX, 1, vec![None]);
    assert!(sorted.ready.is_none());
    assert_eq!(sorted.retry.unwrap(), vec![u64::MAX]);
}

#[test]
fn test_failed_batch_ask_fails_every_group() {
    let mut host = Host::new(&endpoint_config());
    let tasks = vec![
        Task::Request(dag_task(1, 10, CommandPri::Normal, 0)),
        Task::Request(dag_task(2, 20, CommandPri::Normal, 0)),
    ];
    let outcome = run(&mut host, tasks, 5, 0);
    let batch = outcome.batch_snapshot.unwrap();
    let mut out = Outbox::new();
    let e = Error::Other(String::from("not leader"));
    host.fail_batch_snapshot(&e, batch.start_id, batch.contexts.len(), &mut out);
    assert_eq!(out.replies.len(), 2);
    assert_eq!(out.replies[0].on_resp, OnResponse::Unary(1));
    assert_eq!(out.replies[1].on_resp, OnResponse::Unary(2));
    assert_eq!(out.replies[0].resp.other_error, "not leader");
    assert!(host.reqs.is_empty());
    assert_eq!(host.basic_local_metrics.error_cnt.len(), 2);
}
