//! The dispatcher. It takes requests and snapshot results in batches, gives
//! up requests whose deadline has passed, groups fresh requests by region,
//! admits the groups while tasks may still be started, and sends requests
//! with a snapshot on to the worker pools.
//!
//! The dispatcher does not act by itself. Each step leaves in an `Outbox`
//! what is to be done: responses to send, jobs to run on a pool, snapshots
//! to ask the engine for.

use std::collections::HashMap;
use vstd::prelude::*;
use crate::context::ReqContext;
use crate::metrics::{saturating_sum, BasicLocalMetrics, BasicLocalMetricsView};
use crate::request::{CommandPri, Context};
use crate::response::{err_multi_resp, err_resp, spec_err_metrics, spec_err_response};
use crate::response::{Error, ErrorView, Response, ResponseView};
use crate::task::{CopRequest, OnResponse, RequestTask};
use crate::tracker::RequestTracker;

verus! {

broadcast use vstd::std_specs::hash::group_hash_axioms;

/// What the endpoint is set up with. The time a request may take is in
/// nanoseconds.
#[derive(Clone, Copy, Debug, PartialEq, Eq, Structural)]
pub struct Config {
    pub end_point_concurrency: usize,
    pub end_point_stack_size: usize,
    pub end_point_max_tasks: usize,
    pub end_point_batch_row_limit: usize,
    pub end_point_stream_batch_row_limit: usize,
    pub end_point_request_max_handle_duration: u64,
}

/// How one of the worker pools is to be made.
#[derive(Clone, Copy, Debug)]
pub struct PoolConfig {
    pub name_prefix: &'static str,
    pub pool_size: usize,
    pub stack_size: usize,
}

/// A response on its way to the sink of its request, with the tracker of
/// the request, which ends once the response is sent.
#[derive(Debug)]
pub struct Reply {
    pub on_resp: OnResponse,
    pub resp: Response,
    pub tracker: RequestTracker,
}

/// A `Reply` with the view of its response.
pub struct ReplyView {
    pub on_resp: OnResponse,
    pub resp: ResponseView,
    pub tracker: RequestTracker,
}

impl View for Reply {
    type V = ReplyView;

    open spec fn view(&self) -> ReplyView {
        ReplyView { on_resp: self.on_resp, resp: self.resp@, tracker: self.tracker }
    }
}

/// How a job is to run, with the most rows that a chunk may hold where the
/// job runs a plan.
#[derive(Clone, Copy, Debug, PartialEq, Eq, Structural)]
pub enum JobKind {
    /// A plan answered in one response.
    DagUnary(usize),
    /// A plan answered in a stream of chunks.
    DagStream(usize),
    Analyze,
    Checksum,
}

/// A request with its snapshot, to be run on the pool of its priority.
#[derive(Debug)]
pub struct Job {
    pub pool: CommandPri,
    /// The name of the snapshot, as the caller gave it.
    pub snapshot: u64,
    pub kind: JobKind,
    pub task: RequestTask,
}

/// What a step of the dispatcher leaves to be done.
#[derive(Debug)]
pub struct Outbox {
    pub replies: Vec<Reply>,
    pub jobs: Vec<Job>,
    /// Batch ids for which the engine is to be asked for a snapshot again,
    /// each with the context to ask with.
    pub retries: Vec<(u64, Context)>,
}

/// An `Outbox` with the views of its replies.
pub struct OutboxView {
    pub replies: Seq<ReplyView>,
    pub jobs: Seq<Job>,
    pub retries: Seq<(u64, Context)>,
}

/// The views of `replies`, in order.
pub open spec fn spec_replies(replies: Seq<Reply>) -> Seq<ReplyView> {
    Seq::new(replies.len(), |i: int| replies[i]@)
}

impl View for Outbox {
    type V = OutboxView;

    open spec fn view(&self) -> OutboxView {
        OutboxView {
            replies: spec_replies(self.replies@),
            jobs: self.jobs@,
            retries: self.retries@,
        }
    }
}

impl Outbox {
    pub fn new() -> (out: Outbox)
        ensures
            out@ == (OutboxView {
                replies: Seq::empty(),
                jobs: Seq::empty(),
                retries: Seq::empty(),
            }),
    {
        let out = Outbox { replies: Vec::new(), jobs: Vec::new(), retries: Vec::new() };
        assert(out@.replies =~= Seq::empty());
        out
    }
}

/// The result of asking the engine for a snapshot: the name that the
/// caller gave the snapshot, or why there is none.
pub type SnapshotResult = Result<u64, Error>;

/// What a batch of the dispatcher is made of.
#[derive(Debug)]
pub enum Task {
    /// A fresh request.
    Request(RequestTask),
    /// The snapshot for the requests under a batch id.
    SnapRes(u64, SnapshotResult),
    /// Snapshots for several batch ids.
    BatchSnapRes(Vec<(u64, SnapshotResult)>),
    /// Batch ids whose snapshot is to be asked for again.
    RetryRequests(Vec<u64>),
}

/// Requests of one batch that are for the same region, epoch version and
/// peer, in the order in which they came.
#[derive(Debug)]
pub struct Group {
    pub key: (u64, u64, u64),
    pub reqs: Vec<RequestTask>,
}

/// The key and the requests of a `Group`.
pub struct GroupView {
    pub key: (u64, u64, u64),
    pub reqs: Seq<RequestTask>,
}

impl View for Group {
    type V = GroupView;

    open spec fn view(&self) -> GroupView {
        GroupView { key: self.key, reqs: self.reqs@ }
    }
}

/// The views of `groups`, in order.
pub open spec fn spec_groups(groups: Seq<Group>) -> Seq<GroupView> {
    Seq::new(groups.len(), |i: int| groups[i]@)
}

/// The ask for the snapshots of the groups that a batch admitted: the
/// group with the context `contexts[i]` has the batch id `start_id + i`.
#[derive(Debug)]
pub struct BatchSnapshot {
    pub start_id: u64,
    pub contexts: Vec<Context>,
}

/// The first id and the contexts of a `BatchSnapshot`.
pub struct BatchSnapshotView {
    pub start_id: u64,
    pub contexts: Seq<Context>,
}

impl View for BatchSnapshot {
    type V = BatchSnapshotView;

    open spec fn view(&self) -> BatchSnapshotView {
        BatchSnapshotView { start_id: self.start_id, contexts: self.contexts@ }
    }
}

/// What `run_batch` leaves to be done.
#[derive(Debug)]
pub struct BatchOutcome {
    pub outbox: Outbox,
    /// The ask for snapshots, if any fresh request was still in time.
    pub batch_snapshot: Option<BatchSnapshot>,
    /// By how much the caller is to raise the running-task count.
    pub admitted: usize,
    /// The samples of the dispatcher, to be handed to the collectors.
    pub flushed: BasicLocalMetrics,
}

/// A `BatchOutcome` with the views of its parts.
pub struct BatchOutcomeView {
    pub outbox: OutboxView,
    pub batch_snapshot: Option<BatchSnapshotView>,
    pub admitted: usize,
    pub flushed: BasicLocalMetricsView,
}

impl View for BatchOutcome {
    type V = BatchOutcomeView;

    open spec fn view(&self) -> BatchOutcomeView {
        BatchOutcomeView {
            outbox: self.outbox@,
            batch_snapshot: match self.batch_snapshot {
                Some(batch) => Some(batch@),
                None => None,
            },
            admitted: self.admitted,
            flushed: self.flushed@,
        }
    }
}

/// The dispatcher: the requests that wait for a snapshot, the last batch
/// id given out, how the pools are to be made, the samples of the
/// dispatcher, and the limits it is set up with.
#[derive(Debug)]
pub struct Host {
    /// The requests that wait for a snapshot, by batch id.
    pub reqs: HashMap<u64, Vec<RequestTask>>,
    pub last_req_id: u64,
    pub pool: PoolConfig,
    pub low_priority_pool: PoolConfig,
    pub high_priority_pool: PoolConfig,
    pub basic_local_metrics: BasicLocalMetrics,
    pub max_running_task_count: usize,
    pub batch_row_limit: usize,
    pub stream_batch_row_limit: usize,
    pub request_max_handle_duration: u64,
}

/// What the steps of the dispatcher read and change of it.
pub struct HostView {
    pub reqs: Map<u64, Seq<RequestTask>>,
    pub last_req_id: u64,
    pub metrics: BasicLocalMetricsView,
    pub max_running_task_count: usize,
    pub batch_row_limit: usize,
    pub stream_batch_row_limit: usize,
    pub request_max_handle_duration: u64,
}

/// The dispatcher and what it has left to be done.
pub struct Step {
    pub host: HostView,
    pub out: OutboxView,
}

impl View for Host {
    type V = HostView;

    open spec fn view(&self) -> HostView {
        HostView {
            reqs: Map::new(
                |id: u64| self.reqs@.contains_key(id),
                |id: u64| self.reqs@[id]@,
            ),
            last_req_id: self.last_req_id,
            metrics: self.basic_local_metrics@,
            max_running_task_count: self.max_running_task_count,
            batch_row_limit: self.batch_row_limit,
            stream_batch_row_limit: self.stream_batch_row_limit,
            request_max_handle_duration: self.request_max_handle_duration,
        }
    }
}

/// The batch id of the group at place `i` of an ask for snapshots that
/// begins with the id `start_id`.
pub open spec fn spec_batch_id(start_id: int, i: int) -> u64 {
    (start_id + i) as u64
}

/// The task with its deadline set for a request that may take `duration`.
pub open spec fn spec_with_deadline(task: RequestTask, duration: u64) -> RequestTask {
    RequestTask {
        ctx: ReqContext { deadline: saturating_sum(task.ctx.start_time, duration), ..task.ctx },
        ..task
    }
}

/// The task with a slot of the running-task count.
pub open spec fn spec_admitted(task: RequestTask) -> RequestTask {
    RequestTask { tracker: task.tracker.with_slot(), ..task }
}

/// The answer to a request that `e` failed.
pub open spec fn spec_failed_reply(task: RequestTask, e: ErrorView) -> ReplyView {
    ReplyView { on_resp: task.on_resp, resp: spec_err_response(e), tracker: task.tracker }
}

/// The answers to requests that `e` failed together, in their order.
pub open spec fn spec_failed_replies(tasks: Seq<RequestTask>, e: ErrorView) -> Seq<ReplyView> {
    Seq::new(tasks.len(), |i: int| spec_failed_reply(tasks[i], e))
}

impl HostView {
    /// How a request with a snapshot is to run: a plan in one response or in
    /// a stream as its sink asks, each with the row limit set up for it.
    pub open spec fn job_kind(self, task: RequestTask) -> JobKind {
        match task.cop_req {
            CopRequest::DAG(_) => if task.on_resp.spec_is_streaming() {
                JobKind::DagStream(self.stream_batch_row_limit)
            } else {
                JobKind::DagUnary(self.batch_row_limit)
            },
            CopRequest::Analyze(_) => JobKind::Analyze,
            CopRequest::Checksum(_) => JobKind::Checksum,
        }
    }

    /// The job for a request with the snapshot `snap`: it runs on the pool
    /// of its priority, and its tracker is bound to that pool.
    pub open spec fn job(self, snap: u64, task: RequestTask) -> Job {
        Job {
            pool: task.req.context.priority,
            snapshot: snap,
            kind: self.job_kind(task),
            task: RequestTask {
                tracker: task.tracker.bound_to(task.req.context.priority),
                ..task
            },
        }
    }
}

impl Step {
    /// After `tasks` were failed together by `e`: each is answered with the
    /// response for `e`, and the failures are counted once.
    pub open spec fn notify_failed(self, e: ErrorView, tasks: Seq<RequestTask>) -> Step {
        Step {
            host: HostView {
                metrics: spec_err_metrics(self.host.metrics, e, tasks.len() as usize),
                ..self.host
            },
            out: OutboxView {
                replies: self.out.replies + spec_failed_replies(tasks, e),
                ..self.out
            },
        }
    }

    /// After the requests under `batch_id`, if there are any, were failed by
    /// `e` and forgotten.
    pub open spec fn notify_batch_failed(self, e: ErrorView, batch_id: u64) -> Step {
        if self.host.reqs.contains_key(batch_id) {
            Step {
                host: HostView { reqs: self.host.reqs.remove(batch_id), ..self.host },
                ..self
            }.notify_failed(e, self.host.reqs[batch_id])
        } else {
            self
        }
    }

    /// After a request got the snapshot `snap` at `now`: it is answered as
    /// outdated if its deadline has passed, and is else left as a job.
    pub open spec fn handle_request(self, snap: u64, task: RequestTask, now: u64) -> Step {
        if task.ctx.outdated_at(now) {
            Step {
                host: HostView {
                    metrics: spec_err_metrics(self.host.metrics, task.ctx.outdated_error(now), 1),
                    ..self.host
                },
                out: OutboxView {
                    replies: self.out.replies.push(
                        spec_failed_reply(task, task.ctx.outdated_error(now)),
                    ),
                    ..self.out
                },
            }
        } else {
            Step {
                out: OutboxView { jobs: self.out.jobs.push(self.host.job(snap, task)), ..self.out },
                ..self
            }
        }
    }

    /// After each of `tasks` got the snapshot `snap` at `now`, in order.
    pub open spec fn handle_requests(self, snap: u64, tasks: Seq<RequestTask>, now: u64) -> Step
        decreases tasks.len(),
    {
        if tasks.len() == 0 {
            self
        } else {
            self.handle_requests(snap, tasks.drop_last(), now).handle_request(
                snap,
                tasks.last(),
                now,
            )
        }
    }

    /// After the engine answered for `id` at `now`: the requests under the
    /// id, if there are any, are forgotten, and are failed together where
    /// there is no snapshot, and else handled each with the snapshot.
    pub open spec fn handle_snapshot_result(
        self,
        id: u64,
        snapshot: Result<u64, Error>,
        now: u64,
    ) -> Step {
        match snapshot {
            Err(e) => self.notify_batch_failed(e@, id),
            Ok(snap) => if self.host.reqs.contains_key(id) {
                Step {
                    host: HostView { reqs: self.host.reqs.remove(id), ..self.host },
                    ..self
                }.handle_requests(snap, self.host.reqs[id], now)
            } else {
                self
            },
        }
    }

    /// After the engine answered for each id of `batch` at `now`, in order.
    pub open spec fn handle_snapshot_results(
        self,
        batch: Seq<(u64, Result<u64, Error>)>,
        now: u64,
    ) -> Step
        decreases batch.len(),
    {
        if batch.len() == 0 {
            self
        } else {
            self.handle_snapshot_results(batch.drop_last(), now).handle_snapshot_result(
                batch.last().0,
                batch.last().1,
                now,
            )
        }
    }

    /// After the requests under each of the `count` batch ids from
    /// `start_id` on were failed by `e`.
    pub open spec fn fail_batches(self, e: ErrorView, start_id: u64, count: nat) -> Step
        decreases count,
    {
        if count == 0 {
            self
        } else {
            self.fail_batches(e, start_id, (count - 1) as nat).notify_batch_failed(
                e,
                (start_id + count - 1) as u64,
            )
        }
    }

    /// After a snapshot was to be asked for again for `id`: the ask is left
    /// to be done, with the context of the first request under the id, if
    /// there are requests under it.
    pub open spec fn retry(self, id: u64) -> Step {
        if self.host.reqs.contains_key(id) && self.host.reqs[id].len() > 0 {
            Step {
                out: OutboxView {
                    retries: self.out.retries.push((id, self.host.reqs[id][0].req.context)),
                    ..self.out
                },
                ..self
            }
        } else {
            self
        }
    }

    /// After snapshots were to be asked for again for each of `ids`.
    pub open spec fn retry_all(self, ids: Seq<u64>) -> Step
        decreases ids.len(),
    {
        if ids.len() == 0 {
            self
        } else {
            self.retry_all(ids.drop_last()).retry(ids.last())
        }
    }
}

/// The index of the first group with `key`, if there is one.
pub open spec fn spec_group_index(groups: Seq<GroupView>, key: (u64, u64, u64)) -> Option<int>
    decreases groups.len(),
{
    if groups.len() == 0 {
        None
    } else {
        match spec_group_index(groups.drop_last(), key) {
            Some(i) => Some(i),
            None => if groups.last().key == key {
                Some(groups.len() - 1)
            } else {
                None
            },
        }
    }
}

/// The groups with one more request: at the end of the group of its key,
/// or in a new last group if there is none of its key.
pub open spec fn spec_group_add(groups: Seq<GroupView>, task: RequestTask) -> Seq<GroupView> {
    match spec_group_index(groups, task.spec_request_key()) {
        Some(i) => groups.update(
            i,
            GroupView { key: groups[i].key, reqs: groups[i].reqs.push(task) },
        ),
        None => groups.push(GroupView { key: task.spec_request_key(), reqs: seq![task] }),
    }
}

/// Each of `tasks` with a slot of the running-task count.
pub open spec fn spec_all_admitted(tasks: Seq<RequestTask>) -> Seq<RequestTask> {
    Seq::new(tasks.len(), |i: int| spec_admitted(tasks[i]))
}

/// The dispatcher while it takes in the tasks of a batch: what it has done
/// and left to be done, and the fresh requests grouped so far.
pub struct Drain {
    pub step: Step,
    pub groups: Seq<GroupView>,
}

impl Drain {
    /// After a fresh request was taken in at `now`: its deadline is set; if
    /// that has passed already the request is answered as outdated, else it
    /// joins the group of its key.
    pub open spec fn take_request(self, task: RequestTask, now: u64) -> Drain {
        let task = spec_with_deadline(task, self.step.host.request_max_handle_duration);
        if task.ctx.outdated_at(now) {
            Drain {
                step: Step {
                    host: HostView {
                        metrics: spec_err_metrics(
                            self.step.host.metrics,
                            task.ctx.outdated_error(now),
                            1,
                        ),
                        ..self.step.host
                    },
                    out: OutboxView {
                        replies: self.step.out.replies.push(
                            spec_failed_reply(task, task.ctx.outdated_error(now)),
                        ),
                        ..self.step.out
                    },
                },
                ..self
            }
        } else {
            Drain { groups: spec_group_add(self.groups, task), ..self }
        }
    }

    /// After one task of the batch was taken in at `now`.
    pub open spec fn take(self, task: Task, now: u64) -> Drain {
        match task {
            Task::Request(req) => self.take_request(req, now),
            Task::SnapRes(id, snapshot) => Drain {
                step: self.step.handle_snapshot_result(id, snapshot, now),
                ..self
            },
            Task::BatchSnapRes(batch) => Drain {
                step: self.step.handle_snapshot_results(batch@, now),
                ..self
            },
            Task::RetryRequests(ids) => Drain { step: self.step.retry_all(ids@), ..self },
        }
    }

    /// After all of `tasks` were taken in at `now`, in order.
    pub open spec fn take_all(self, tasks: Seq<Task>, now: u64) -> Drain
        decreases tasks.len(),
    {
        if tasks.len() == 0 {
            self
        } else {
            self.take_all(tasks.drop_last(), now).take(tasks.last(), now)
        }
    }
}

/// The dispatcher while it admits the groups of a batch: what it has done
/// and left to be done, the number of requests admitted so far, and the
/// contexts of the groups admitted so far.
pub struct Admission {
    pub step: Step,
    pub admitted: usize,
    pub contexts: Seq<Context>,
}

impl Admission {
    /// Whether a group is turned away, where `running` tasks ran when the
    /// batch began: the tasks that ran then and those admitted since are as
    /// many as may run, or more.
    pub open spec fn full(self, running: usize) -> bool {
        running + self.admitted >= self.step.host.max_running_task_count
    }

    /// After a group came up for admission. A group that is turned away is
    /// failed together as the endpoint being full. Any other gets the next
    /// batch id: its requests get a slot each and wait under the id for
    /// their snapshot, which is asked for with the context of the first.
    pub open spec fn admit_one(self, group: GroupView, running: usize) -> Admission {
        if group.reqs.len() == 0 {
            self
        } else if self.full(running) {
            Admission {
                step: self.step.notify_failed(
                    ErrorView::Full(self.step.host.max_running_task_count),
                    group.reqs,
                ),
                ..self
            }
        } else {
            let id = (self.step.host.last_req_id + 1) as u64;
            Admission {
                step: Step {
                    host: HostView {
                        last_req_id: id,
                        reqs: self.step.host.reqs.insert(id, spec_all_admitted(group.reqs)),
                        ..self.step.host
                    },
                    ..self.step
                },
                admitted: if self.admitted + group.reqs.len() > usize::MAX {
                    usize::MAX
                } else {
                    (self.admitted + group.reqs.len()) as usize
                },
                contexts: self.contexts.push(group.reqs[0].req.context),
            }
        }
    }

    /// After each of `groups` came up for admission, in order.
    pub open spec fn admit_all(self, groups: Seq<GroupView>, running: usize) -> Admission
        decreases groups.len(),
    {
        if groups.len() == 0 {
            self
        } else {
            self.admit_all(groups.drop_last(), running).admit_one(groups.last(), running)
        }
    }
}

/// The dispatcher after a batch, and what the batch leaves to be done.
pub struct BatchResult {
    pub host: HostView,
    pub outcome: BatchOutcomeView,
}

impl HostView {
    /// What `run_batch` comes to at `now`, where `running` tasks run when
    /// the batch begins. The tasks are taken in one by one. Then the groups
    /// of fresh requests come up for admission, and the snapshots for those
    /// admitted are asked for in one ask. At the end the samples of the
    /// dispatcher are handed over.
    pub open spec fn run_batch(self, tasks: Seq<Task>, now: u64, running: usize) -> BatchResult {
        let empty = OutboxView { replies: Seq::empty(), jobs: Seq::empty(), retries: Seq::empty() };
        let drained = (Drain { step: Step { host: self, out: empty }, groups: Seq::empty() }).take_all(
            tasks,
            now,
        );
        let done = (Admission {
            step: drained.step,
            admitted: 0,
            contexts: Seq::empty(),
        }).admit_all(drained.groups, running);
        BatchResult {
            host: HostView { metrics: BasicLocalMetricsView::empty(), ..done.step.host },
            outcome: BatchOutcomeView {
                outbox: done.step.out,
                batch_snapshot: if drained.groups.len() > 0 {
                    Some(
                        BatchSnapshotView {
                            start_id: (self.last_req_id + 1) as u64,
                            contexts: done.contexts,
                        },
                    )
                } else {
                    None
                },
                admitted: done.admitted,
                flushed: done.step.host.metrics,
            },
        }
    }
}

impl Host {
    /// A dispatcher set up by `cfg`, with no request waiting.
    pub fn new(cfg: &Config) -> (host: Host)
        ensures
            host@ == (HostView {
                reqs: Map::empty(),
                last_req_id: 0,
                metrics: BasicLocalMetricsView::empty(),
                max_running_task_count: cfg.end_point_max_tasks,
                batch_row_limit: cfg.end_point_batch_row_limit,
                stream_batch_row_limit: cfg.end_point_stream_batch_row_limit,
                request_max_handle_duration: cfg.end_point_request_max_handle_duration,
            }),
            host@.wf(),
            host.pool.name_prefix@ == "endpoint-normal-pool"@,
            host.low_priority_pool.name_prefix@ == "endpoint-low-pool"@,
            host.high_priority_pool.name_prefix@ == "endpoint-high-pool"@,
            host.pool.pool_size == cfg.end_point_concurrency,
            host.low_priority_pool.pool_size == cfg.end_point_concurrency,
            host.high_priority_pool.pool_size == cfg.end_point_concurrency,
            host.pool.stack_size == cfg.end_point_stack_size,
            host.low_priority_pool.stack_size == cfg.end_point_stack_size,
            host.high_priority_pool.stack_size == cfg.end_point_stack_size,
    {
        let host = Host {
            reqs: HashMap::new(),
            last_req_id: 0,
            pool: Host::create_executor_pool(
                "endpoint-normal-pool",
                cfg.end_point_concurrency,
                cfg.end_point_stack_size,
            ),
            low_priority_pool: Host::create_executor_pool(
                "endpoint-low-pool",
                cfg.end_point_concurrency,
                cfg.end_point_stack_size,
            ),
            high_priority_pool: Host::create_executor_pool(
                "endpoint-high-pool",
                cfg.end_point_concurrency,
                cfg.end_point_stack_size,
            ),
            basic_local_metrics: BasicLocalMetrics::new(),
            max_running_task_count: cfg.end_point_max_tasks,
            batch_row_limit: cfg.end_point_batch_row_limit,
            stream_batch_row_limit: cfg.end_point_stream_batch_row_limit,
            request_max_handle_duration: cfg.end_point_request_max_handle_duration,
        };
        assert(host@.reqs =~= Map::empty());
        host
    }

    /// How a pool of `pool_size` workers is to be made, with the name that
    /// its threads begin with and the size of their stacks.
    pub fn create_executor_pool(
        name_prefix: &'static str,
        pool_size: usize,
        thread_stack_size: usize,
    ) -> (pool: PoolConfig)
        ensures
            pool.name_prefix == name_prefix,
            pool.pool_size == pool_size,
            pool.stack_size == thread_stack_size,
    {
        PoolConfig { name_prefix, pool_size, stack_size: thread_stack_size }
    }

    /// The pool that runs requests of the priority `pri`.
    pub fn pool_of(&self, pri: CommandPri) -> (pool: &PoolConfig)
        ensures
            *pool == match pri {
                CommandPri::Low => self.low_priority_pool,
                CommandPri::High => self.high_priority_pool,
                CommandPri::Normal => self.pool,
            },
    {
        match pri {
            CommandPri::Low => &self.low_priority_pool,
            CommandPri::High => &self.high_priority_pool,
            CommandPri::Normal => &self.pool,
        }
    }

    /// The pools are the same.
    pub open spec fn same_pools(&self, other: &Host) -> bool {
        &&& self.pool == other.pool
        &&& self.low_priority_pool == other.low_priority_pool
        &&& self.high_priority_pool == other.high_priority_pool
    }

    /// The pools and the last batch id are the same.
    pub open spec fn same_ids(&self, other: &Host) -> bool {
        &&& self.same_pools(other)
        &&& self.last_req_id == other.last_req_id
    }

    /// Fails `reqs` together by `e`: one response is built and each request
    /// is answered with it.
    pub fn notify_failed(&mut self, e: Error, reqs: Vec<RequestTask>, out: &mut Outbox)
        ensures
            (Step { host: final(self)@, out: final(out)@ }) == (Step {
                host: old(self)@,
                out: old(out)@,
            }).notify_failed(e@, reqs@),
            final(self).reqs == old(self).reqs,
            final(self).same_ids(old(self)),
    {
        let count = reqs.len();
        let resp = err_multi_resp(e, count, &mut self.basic_local_metrics);
        let ghost tasks = reqs@;
        let ghost host = self@;
        let mut rest = reversed(reqs);
        let mut i: usize = 0;
        while i < count
            invariant
                i <= count,
                count == tasks.len(),
                rest@ == tasks.subrange(i as int, count as int).reverse(),
                resp@ == spec_err_response(e@),
                self@ == host,
                self.reqs == old(self).reqs,
                self.same_ids(old(self)),
                out@ == (OutboxView {
                    replies: old(out)@.replies + spec_failed_replies(
                        tasks.subrange(0, i as int),
                        e@,
                    ),
                    ..old(out)@
                }),
            decreases count - i,
        {
            let t = rest.pop().unwrap();
            let ghost before = out@.replies;
            out.replies.push(Reply { on_resp: t.on_resp, resp: resp.clone(), tracker: t.tracker });
            proof {
                assert(out@.replies =~= before.push(spec_failed_reply(t, e@)));
                assert(out@.replies =~= old(out)@.replies + spec_failed_replies(
                    tasks.subrange(0, i + 1),
                    e@,
                ));
            }
            i += 1;
        }
        assert(tasks.subrange(0, count as int) =~= tasks);
    }

    /// Fails the requests under `batch_id` by `e` and forgets them. Nothing
    /// happens if there are none.
    pub fn notify_batch_failed(&mut self, e: Error, batch_id: u64, out: &mut Outbox)
        ensures
            (Step { host: final(self)@, out: final(out)@ }) == (Step {
                host: old(self)@,
                out: old(out)@,
            }).notify_batch_failed(e@, batch_id),
            final(self).same_ids(old(self)),
    {
        match self.reqs.remove(&batch_id) {
            Some(reqs) => {
                proof {
                    assert(self@.reqs =~= old(self)@.reqs.remove(batch_id));
                }
                self.notify_failed(e, reqs, out);
            },
            None => {
                proof {
                    assert(self@.reqs =~= old(self)@.reqs);
                }
            },
        }
    }

    /// Takes a request that has the snapshot `snap`. If its deadline has
    /// passed at `now` it is answered as outdated. Else it is left as a job
    /// for the pool of its priority, with its tracker bound to that pool.
    pub fn handle_request(&mut self, snap: u64, t: RequestTask, now: u64, out: &mut Outbox)
        ensures
            (Step { host: final(self)@, out: final(out)@ }) == (Step {
                host: old(self)@,
                out: old(out)@,
            }).handle_request(snap, t, now),
            final(self).reqs == old(self).reqs,
            final(self).same_ids(old(self)),
    {
        match t.check_outdated(now) {
            Err(e) => {
                let resp = err_resp(e, &mut self.basic_local_metrics);
                let ghost before = out@.replies;
                out.replies.push(Reply { on_resp: t.on_resp, resp, tracker: t.tracker });
                proof {
                    assert(out@.replies =~= before.push(
                        spec_failed_reply(t, t.ctx.outdated_error(now)),
                    ));
                }
                return ;
            },
            Ok(()) => {},
        }
        let pool = t.req.context.priority;
        let kind = match &t.cop_req {
            CopRequest::DAG(_) => {
                if t.on_resp.is_streaming() {
                    JobKind::DagStream(self.stream_batch_row_limit)
                } else {
                    JobKind::DagUnary(self.batch_row_limit)
                }
            },
            CopRequest::Analyze(_) => JobKind::Analyze,
            CopRequest::Checksum(_) => JobKind::Checksum,
        };
        let mut task = t;
        task.tracker.ctx_pool(pool);
        out.jobs.push(Job { pool, snapshot: snap, kind, task });
    }

    /// Takes the engine's answer for the requests under `id`. They are
    /// forgotten; without a snapshot they are failed together, with one
    /// they are handled each. Nothing happens if there are none.
    pub fn handle_snapshot_result(
        &mut self,
        id: u64,
        snapshot: Result<u64, Error>,
        now: u64,
        out: &mut Outbox,
    )
        ensures
            (Step { host: final(self)@, out: final(out)@ }) == (Step {
                host: old(self)@,
                out: old(out)@,
            }).handle_snapshot_result(id, snapshot, now),
            final(self).same_ids(old(self)),
    {
        let snap = match snapshot {
            Ok(s) => s,
            Err(e) => {
                self.notify_batch_failed(e, id, out);
                return ;
            },
        };
        let reqs = match self.reqs.remove(&id) {
            Some(reqs) => reqs,
            None => {
                proof {
                    assert(self@.reqs =~= old(self)@.reqs);
                }
                return ;
            },
        };
        proof {
            assert(self@.reqs =~= old(self)@.reqs.remove(id));
        }
        let ghost tasks = reqs@;
        let ghost start = Step { host: self@, out: out@ };
        let count = reqs.len();
        let mut rest = reversed(reqs);
        let mut i: usize = 0;
        while i < count
            invariant
                i <= count,
                count == tasks.len(),
                rest@ == tasks.subrange(i as int, count as int).reverse(),
                (Step { host: self@, out: out@ }) == start.handle_requests(
                    snap,
                    tasks.subrange(0, i as int),
                    now,
                ),
                self.same_ids(old(self)),
            decreases count - i,
        {
            let t = rest.pop().unwrap();
            proof {
                assert(tasks.subrange(0, i + 1).drop_last() =~= tasks.subrange(0, i as int));
            }
            self.handle_request(snap, t, now, out);
            i += 1;
        }
        assert(tasks.subrange(0, count as int) =~= tasks);
    }

    /// Takes the engine's answers for several batch ids, in order.
    pub fn handle_snapshot_results(
        &mut self,
        batch: Vec<(u64, Result<u64, Error>)>,
        now: u64,
        out: &mut Outbox,
    )
        ensures
            (Step { host: final(self)@, out: final(out)@ }) == (Step {
                host: old(self)@,
                out: old(out)@,
            }).handle_snapshot_results(batch@, now),
            final(self).same_ids(old(self)),
    {
        let ghost all = batch@;
        let ghost start = Step { host: self@, out: out@ };
        let count = batch.len();
        let mut rest = reversed(batch);
        let mut i: usize = 0;
        while i < count
            invariant
                i <= count,
                count == all.len(),
                rest@ == all.subrange(i as int, count as int).reverse(),
                (Step { host: self@, out: out@ }) == start.handle_snapshot_results(
                    all.subrange(0, i as int),
                    now,
                ),
                self.same_ids(old(self)),
            decreases count - i,
        {
            let (id, snapshot) = rest.pop().unwrap();
            proof {
                assert(all.subrange(0, i + 1).drop_last() =~= all.subrange(0, i as int));
            }
            self.handle_snapshot_result(id, snapshot, now, out);
            i += 1;
        }
        assert(all.subrange(0, count as int) =~= all);
    }

    /// Leaves to be done the asks for a snapshot for each of `ids` under
    /// which requests wait, each with the context of the first request.
    pub fn retry_requests(&self, ids: &Vec<u64>, out: &mut Outbox)
        ensures
            (Step { host: self@, out: final(out)@ }) == (Step {
                host: self@,
                out: old(out)@,
            }).retry_all(ids@),
    {
        let ghost start = Step { host: self@, out: out@ };
        let mut i: usize = 0;
        while i < ids.len()
            invariant
                i <= ids.len(),
                (Step { host: self@, out: out@ }) == start.retry_all(ids@.subrange(0, i as int)),
            decreases ids.len() - i,
        {
            let id = ids[i];
            proof {
                assert(ids@.subrange(0, i + 1).drop_last() =~= ids@.subrange(0, i as int));
            }
            match self.reqs.get(&id) {
                Some(reqs) => {
                    if reqs.len() > 0 {
                        out.retries.push((id, reqs[0].req.context));
                    }
                },
                None => {},
            }
            i += 1;
        }
        assert(ids@.subrange(0, ids.len() as int) =~= ids@);
    }

    /// Fails the requests under each of the `count` batch ids from
    /// `start_id` on by `e`: the engine took none of the asks of a batch.
    pub fn fail_batch_snapshot(&mut self, e: &Error, start_id: u64, count: usize, out: &mut Outbox)
        requires
            start_id + count <= u64::MAX + 1,
        ensures
            (Step { host: final(self)@, out: final(out)@ }) == (Step {
                host: old(self)@,
                out: old(out)@,
            }).fail_batches(e@, start_id, count as nat),
            final(self).same_ids(old(self)),
    {
        let ghost start = Step { host: self@, out: out@ };
        let mut i: usize = 0;
        while i < count
            invariant
                i <= count,
                start_id + count <= u64::MAX + 1,
                (Step { host: self@, out: out@ }) == start.fail_batches(e@, start_id, i as nat),
                self.same_ids(old(self)),
            decreases count - i,
        {
            let id = start_id + i as u64;
            self.notify_batch_failed(e.clone(), id, out);
            i += 1;
        }
    }

    /// Takes in a fresh request at `now`.
    fn take_request(&mut self, req: RequestTask, now: u64, out: &mut Outbox, groups: &mut Vec<Group>)
        ensures
            (Drain {
                step: Step { host: final(self)@, out: final(out)@ },
                groups: spec_groups(final(groups)@),
            }) == (Drain {
                step: Step { host: old(self)@, out: old(out)@ },
                groups: spec_groups(old(groups)@),
            }).take_request(req, now),
            final(self).same_ids(old(self)),
            final(groups)@.len() <= old(groups)@.len() + 1,
    {
        let mut req = req;
        req.set_max_handle_duration(self.request_max_handle_duration);
        match req.check_outdated(now) {
            Err(e) => {
                let resp = err_resp(e, &mut self.basic_local_metrics);
                let ghost before = out@.replies;
                out.replies.push(Reply { on_resp: req.on_resp, resp, tracker: req.tracker });
                proof {
                    assert(out@.replies =~= before.push(
                        spec_failed_reply(req, req.ctx.outdated_error(now)),
                    ));
                }
                return ;
            },
            Ok(()) => {},
        }
        let key = req.get_request_key();
        let ghost before = spec_groups(groups@);
        let mut i: usize = 0;
        while i < groups.len() && !same_key(groups[i].key, key)
            invariant
                i <= groups.len(),
                groups@ == old(groups)@,
                forall|j: int| 0 <= j < i ==> groups@[j].key != key,
            decreases groups.len() - i,
        {
            i += 1;
        }
        proof {
            lemma_group_index(before, key);
            assert forall|j: int| 0 <= j < groups@.len() implies before[j].key
                == groups@[j].key by {}
            if i < groups@.len() {
                assert(before[i as int].key == key);
            } else {
            }
        }
        if i < groups.len() {
            let mut group = groups.remove(i);
            group.reqs.push(req);
            groups.insert(i, group);
            proof {
                assert(spec_groups(groups@) =~= spec_group_add(before, req));
            }
        } else {
            let mut reqs: Vec<RequestTask> = Vec::new();
            reqs.push(req);
            groups.push(Group { key, reqs });
            proof {
                assert(spec_groups(groups@) =~= spec_group_add(before, req));
            }
        }
    }

    /// Lets a group come up for admission, where `running` tasks ran when
    /// the batch began and `admitted` were admitted since.
    fn admit_group(
        &mut self,
        group: Group,
        running: usize,
        admitted: &mut usize,
        contexts: &mut Vec<Context>,
        out: &mut Outbox,
    )
        requires
            old(self).last_req_id < u64::MAX,
        ensures
            (Admission {
                step: Step { host: final(self)@, out: final(out)@ },
                admitted: *final(admitted),
                contexts: final(contexts)@,
            }) == (Admission {
                step: Step { host: old(self)@, out: old(out)@ },
                admitted: *old(admitted),
                contexts: old(contexts)@,
            }).admit_one(group@, running),
            final(self).same_pools(old(self)),
            final(self).last_req_id <= old(self).last_req_id + 1,
    {
        let count = group.reqs.len();
        if count == 0 {
            return ;
        }
        let max_running_task_count = self.max_running_task_count;
        let full = match running.checked_add(*admitted) {
            Some(n) => n >= max_running_task_count,
            None => true,
        };
        if full {
            self.notify_failed(Error::Full(max_running_task_count), group.reqs, out);
            return ;
        }
        let ghost tasks = group.reqs@;
        let context = group.reqs[0].req.context;
        let mut rest = reversed(group.reqs);
        let mut reqs: Vec<RequestTask> = Vec::new();
        let mut i: usize = 0;
        while i < count
            invariant
                i <= count,
                count == tasks.len(),
                rest@ == tasks.subrange(i as int, count as int).reverse(),
                reqs@ == spec_all_admitted(tasks.subrange(0, i as int)),
            decreases count - i,
        {
            let mut req = rest.pop().unwrap();
            req.tracker.task_count();
            reqs.push(req);
            i += 1;
        }
        proof {
            assert(tasks.subrange(0, count as int) =~= tasks);
        }
        self.last_req_id = self.last_req_id + 1;
        contexts.push(context);
        *admitted = admitted.saturating_add(count);
        self.reqs.insert(self.last_req_id, reqs);
        proof {
            assert(self@.reqs =~= old(self)@.reqs.insert(
                self.last_req_id,
                spec_all_admitted(tasks),
            ));
        }
    }

    /// Runs one batch of tasks at `now`, where `running` tasks run when the
    /// batch begins, and leaves `tasks` empty. Fresh requests get their
    /// deadline; those that are
    /// already outdated are answered so, the others are grouped by region,
    /// epoch version and peer. Snapshot results and retries are handled as
    /// they come. Then each group is admitted, unless the tasks that run
    /// are as many as may run, in which case the group is failed as the
    /// endpoint being full. An admitted group waits under the next batch
    /// id for its snapshot. At the end the samples of the dispatcher are
    /// handed over.
    pub fn run_batch(&mut self, tasks: &mut Vec<Task>, now: u64, running: usize) -> (outcome:
        BatchOutcome)
        requires
            old(self).last_req_id + old(tasks)@.len() <= u64::MAX,
        ensures
            final(tasks)@.len() == 0,
            final(self)@ == old(self)@.run_batch(old(tasks)@, now, running).host,
            outcome@ == old(self)@.run_batch(old(tasks)@, now, running).outcome,
            final(self).same_pools(old(self)),
            final(self).last_req_id <= old(self).last_req_id + old(tasks)@.len(),
            outcome.batch_snapshot matches Some(batch) ==> batch.start_id + batch.contexts@.len()
                <= u64::MAX + 1,
            old(self)@.wf() ==> final(self)@.wf(),
    {
        proof {
            if old(self)@.wf() {
                lemma_run_batch_keeps_host_sound(old(self)@, old(tasks)@, now, running);
            }
        }
        let mut out = Outbox::new();
        let mut groups: Vec<Group> = Vec::new();
        let ghost all = tasks@;
        let ghost start = Drain { step: Step { host: self@, out: out@ }, groups: Seq::empty() };
        let count = tasks.len();
        let mut taken: Vec<Task> = Vec::new();
        std::mem::swap(tasks, &mut taken);
        let mut rest = reversed(taken);
        let mut i: usize = 0;
        proof {
            assert(spec_groups(groups@) =~= Seq::empty());
        }
        while i < count
            invariant
                i <= count,
                count == all.len(),
                rest@ == all.subrange(i as int, count as int).reverse(),
                (Drain { step: Step { host: self@, out: out@ }, groups: spec_groups(groups@) })
                    == start.take_all(all.subrange(0, i as int), now),
                self.same_ids(old(self)),
                groups@.len() <= i,
            decreases count - i,
        {
            let task = rest.pop().unwrap();
            proof {
                assert(all.subrange(0, i + 1).drop_last() =~= all.subrange(0, i as int));
            }
            match task {
                Task::Request(req) => {
                    self.take_request(req, now, &mut out, &mut groups);
                },
                Task::SnapRes(q_id, snap_res) => {
                    self.handle_snapshot_result(q_id, snap_res, now, &mut out);
                },
                Task::BatchSnapRes(batch) => {
                    self.handle_snapshot_results(batch, now, &mut out);
                },
                Task::RetryRequests(retry) => {
                    self.retry_requests(&retry, &mut out);
                },
            }
            i += 1;
        }
        proof {
            assert(all.subrange(0, count as int) =~= all);
        }
        let ghost drained = start.take_all(all, now);
        let grouped = groups.len() > 0;
        let start_id = if grouped {
            self.last_req_id + 1
        } else {
            0
        };
        let mut admitted: usize = 0;
        let mut contexts: Vec<Context> = Vec::new();
        let ghost begin = Admission {
            step: drained.step,
            admitted: 0,
            contexts: Seq::empty(),
        };
        let ghost group_views = spec_groups(groups@);
        let group_count = groups.len();
        let mut rest = reversed(groups);
        let ghost all_groups = groups@;
        let mut k: usize = 0;
        while k < group_count
            invariant
                k <= group_count,
                group_count == all_groups.len(),
                group_count <= count,
                group_views == spec_groups(all_groups),
                rest@ == all_groups.subrange(k as int, group_count as int).reverse(),
                (Admission {
                    step: Step { host: self@, out: out@ },
                    admitted,
                    contexts: contexts@,
                }) == begin.admit_all(group_views.subrange(0, k as int), running),
                self.same_pools(old(self)),
                self.last_req_id <= old(self).last_req_id + k,
                old(self).last_req_id + count <= u64::MAX,
                contexts@.len() <= k,
                self.last_req_id - old(self).last_req_id == contexts@.len(),
            decreases group_count - k,
        {
            let group = rest.pop().unwrap();
            proof {
                assert(group_views.subrange(0, k + 1).drop_last() =~= group_views.subrange(
                    0,
                    k as int,
                ));
            }
            self.admit_group(group, running, &mut admitted, &mut contexts, &mut out);
            k += 1;
        }
        proof {
            assert(group_views.subrange(0, group_count as int) =~= group_views);
        }
        let batch_snapshot = if grouped {
            Some(BatchSnapshot { start_id, contexts })
        } else {
            None
        };
        let flushed = self.basic_local_metrics.flush();
        BatchOutcome { outbox: out, batch_snapshot, admitted, flushed }
    }
}

fn same_key(a: (u64, u64, u64), b: (u64, u64, u64)) -> (res: bool)
    ensures
        res == (a == b),
{
    a.0 == b.0 && a.1 == b.1 && a.2 == b.2
}

proof fn lemma_group_index(groups: Seq<GroupView>, key: (u64, u64, u64))
    ensures
        match spec_group_index(groups, key) {
            Some(i) => 0 <= i < groups.len() && groups[i].key == key && forall|j: int|
                0 <= j < i ==> groups[j].key != key,
            None => forall|j: int| 0 <= j < groups.len() ==> groups[j].key != key,
        },
    decreases groups.len(),
{
    if groups.len() > 0 {
        let head = groups.drop_last();
        lemma_group_index(head, key);
        assert forall|j: int| 0 <= j < head.len() implies head[j] == groups[j] by {}
        match spec_group_index(head, key) {
            Some(i) => {
                assert(groups[i] == head[i]);
            },
            None => {
                assert forall|j: int| 0 <= j < groups.len() - 1 implies groups[j].key != key by {
                    assert(head[j].key != key);
                }
            },
        }
    }
}

/// The results that the engine gave for one ask, each with its batch id,
/// where the first of `results` is for `start_id` and each next for the
/// next id. A place without a result is left out.
pub open spec fn spec_ready<R>(start_id: u64, results: Seq<Option<R>>) -> Seq<(u64, R)>
    decreases results.len(),
{
    if results.len() == 0 {
        Seq::empty()
    } else {
        let head = spec_ready(start_id, results.drop_last());
        match results.last() {
            Some(res) => head.push((spec_batch_id(start_id as int, results.len() - 1), res)),
            None => head,
        }
    }
}

/// The batch ids for which the engine gave nothing.
pub open spec fn spec_retry<R>(start_id: u64, results: Seq<Option<R>>) -> Seq<u64>
    decreases results.len(),
{
    if results.len() == 0 {
        Seq::empty()
    } else {
        let head = spec_retry(start_id, results.drop_last());
        match results.last() {
            Some(_) => head,
            None => head.push(spec_batch_id(start_id as int, results.len() - 1)),
        }
    }
}

/// For how many of the asks the engine gave nothing.
pub open spec fn spec_missing<R>(results: Seq<Option<R>>) -> nat
    decreases results.len(),
{
    if results.len() == 0 {
        0
    } else {
        spec_missing(results.drop_last()) + if results.last() is None {
            1nat
        } else {
            0nat
        }
    }
}

/// The results that count where `count` ids were asked for: as many as
/// there are ids, from the first.
pub open spec fn spec_taken<R>(count: usize, results: Seq<Option<R>>) -> Seq<Option<R>> {
    if results.len() <= count {
        results
    } else {
        results.subrange(0, count as int)
    }
}

/// What comes back to the dispatcher when the engine has answered one ask
/// for snapshots. Each part becomes a task of its own.
#[derive(Debug)]
pub struct Sorted<R> {
    /// The results with their batch ids, if there is any.
    pub ready: Option<Vec<(u64, R)>>,
    /// The batch ids to ask for again, if there is any.
    pub retry: Option<Vec<u64>>,
}

/// Sorts what the engine gave for the `count` batch ids from `start_id` on
/// into results and ids to ask for again. `results` holds, in the order of
/// the ask, a result or nothing; what it holds beyond `count` is left
/// aside.
pub fn on_batch_finished<R>(start_id: u64, count: usize, results: Vec<Option<R>>) -> (sorted:
    Sorted<R>)
    requires
        start_id + count <= u64::MAX + 1,
    ensures
        spec_ready(start_id, spec_taken(count, results@)).len() == 0 ==> sorted.ready is None,
        spec_ready(start_id, spec_taken(count, results@)).len() > 0 ==> (sorted.ready matches Some(
            ready,
        ) && ready@ == spec_ready(start_id, spec_taken(count, results@))),
        spec_retry(start_id, spec_taken(count, results@)).len() == 0 ==> sorted.retry is None,
        spec_retry(start_id, spec_taken(count, results@)).len() > 0 ==> (sorted.retry matches Some(
            retry,
        ) && retry@ == spec_retry(start_id, spec_taken(count, results@))),
{
    let ghost all = results@;
    let total = results.len();
    let n = if total <= count {
        total
    } else {
        count
    };
    let ghost taken = spec_taken(count, all);
    let mut rest = reversed(results);
    let mut ready: Vec<(u64, R)> = Vec::new();
    let mut retry: Vec<u64> = Vec::new();
    let mut i: usize = 0;
    while i < n
        invariant
            i <= n,
            n == taken.len(),
            n <= count,
            n <= total,
            total == all.len(),
            start_id + count <= u64::MAX + 1,
            taken == all.subrange(0, n as int),
            rest@ == all.subrange(i as int, total as int).reverse(),
            ready@ == spec_ready(start_id, taken.subrange(0, i as int)),
            retry@ == spec_retry(start_id, taken.subrange(0, i as int)),
        decreases n - i,
    {
        let res = rest.pop().unwrap();
        proof {
            assert(taken.subrange(0, i + 1).drop_last() =~= taken.subrange(0, i as int));
        }
        let id = start_id + i as u64;
        match res {
            Some(res) => {
                ready.push((id, res));
            },
            None => {
                retry.push(id);
            },
        }
        i += 1;
    }
    proof {
        assert(taken.subrange(0, n as int) =~= taken);
    }
    Sorted {
        ready: if ready.len() > 0 {
            Some(ready)
        } else {
            None
        },
        retry: if retry.len() > 0 {
            Some(retry)
        } else {
            None
        },
    }
}

/// Of the results of one ask, those that the engine gave and those to ask
/// for again are as many as the results; those to ask for again are as many
/// as the engine gave nothing for; and each result is found under its id
/// on the side that it belongs to.
pub proof fn lemma_batch_results_partition<R>(start_id: u64, results: Seq<Option<R>>)
    requires
        start_id + results.len() <= u64::MAX + 1,
    ensures
        spec_retry(start_id, results).len() == spec_missing(results),
        spec_ready(start_id, results).len() == results.len() - spec_missing(results),
        forall|i: int|
            0 <= i < results.len() && results[i] is None ==> spec_retry(
                start_id,
                results,
            ).contains(#[trigger] spec_batch_id(start_id as int, i)),
        forall|i: int|
            0 <= i < results.len() && results[i] is Some ==> spec_ready(
                start_id,
                results,
            ).contains((#[trigger] spec_batch_id(start_id as int, i), results[i]->0)),
    decreases results.len(),
{
    if results.len() > 0 {
        let head = results.drop_last();
        lemma_batch_results_partition(start_id, head);
        let last = results.len() - 1;
        let retry = spec_retry(start_id, results);
        let ready = spec_ready(start_id, results);
        assert forall|i: int| 0 <= i < results.len() && results[i] is None implies retry.contains(
            #[trigger] spec_batch_id(start_id as int, i),
        ) by {
            let id = spec_batch_id(start_id as int, i);
            if i < last {
                assert(head[i] == results[i]);
                let j = choose|j: int|
                    0 <= j < spec_retry(start_id, head).len() && spec_retry(start_id, head)[j]
                        == id;
                assert(retry[j] == id);
            } else {
                assert(retry[retry.len() - 1] == id);
            }
        }
        assert forall|i: int| 0 <= i < results.len() && results[i] is Some implies ready.contains(
            (#[trigger] spec_batch_id(start_id as int, i), results[i]->0),
        ) by {
            let id = spec_batch_id(start_id as int, i);
            if i < last {
                assert(head[i] == results[i]);
                let j = choose|j: int|
                    0 <= j < spec_ready(start_id, head).len() && spec_ready(start_id, head)[j] == (
                        id,
                        results[i]->0,
                    );
                assert(ready[j] == (id, results[i]->0));
            } else {
                assert(ready[ready.len() - 1] == (id, results[i]->0));
            }
        }
    }
}

/// Where a request may take no time at all, a fresh request that is taken
/// in at or after its start is answered as outdated, with the message of an
/// outdated request, and joins no group.
pub proof fn lemma_zero_duration_is_outdated(drain: Drain, task: RequestTask, now: u64)
    requires
        drain.step.host.request_max_handle_duration == 0,
        now >= task.ctx.start_time,
    ensures
        drain.take_request(task, now).groups == drain.groups,
        drain.take_request(task, now).step.out.jobs == drain.step.out.jobs,
        drain.take_request(task, now).step.out.replies.len() == drain.step.out.replies.len() + 1,
        drain.take_request(task, now).step.out.replies.last().on_resp == task.on_resp,
        drain.take_request(task, now).step.out.replies.last().resp == (ResponseView {
            other_error: crate::response::OUTDATED_ERROR_MSG@,
            ..ResponseView::empty()
        }),
{
}

/// Every group holds a request, every request is in the group of its key,
/// and no two groups have the same key.
pub open spec fn spec_groups_keyed(groups: Seq<GroupView>) -> bool {
    &&& forall|i: int| 0 <= i < groups.len() ==> (#[trigger] groups[i]).reqs.len() > 0
    &&& forall|i: int, j: int|
        0 <= i < groups.len() && 0 <= j < groups[i].reqs.len() ==> (#[trigger] groups[i].reqs[j]).spec_request_key()
            == groups[i].key
    &&& forall|i: int, j: int|
        0 <= i < j < groups.len() ==> (#[trigger] groups[i]).key != (#[trigger] groups[j]).key
}

/// A request that joins the groups goes to the one group of its key, after
/// the requests that came before it, and the other groups stay as they are.
pub proof fn lemma_group_add_keeps_groups_keyed(groups: Seq<GroupView>, task: RequestTask)
    requires
        spec_groups_keyed(groups),
    ensures
        spec_groups_keyed(spec_group_add(groups, task)),
        groups.len() <= spec_group_add(groups, task).len() <= groups.len() + 1,
        exists|i: int|
            0 <= i < spec_group_add(groups, task).len() && (#[trigger] spec_group_add(
                groups,
                task,
            )[i]).key == task.spec_request_key() && spec_group_add(groups, task)[i].reqs.last()
                == task,
{
    lemma_group_index(groups, task.spec_request_key());
    let after = spec_group_add(groups, task);
    match spec_group_index(groups, task.spec_request_key()) {
        Some(i) => {
            assert(after[i].reqs.last() == task);
            assert forall|a: int, b: int|
                0 <= a < after.len() && 0 <= b < after[a].reqs.len() implies (#[trigger] after[a].reqs[b]).spec_request_key()
                == after[a].key by {
                if a == i && b < groups[i].reqs.len() {
                    assert(groups[i].reqs[b].spec_request_key() == groups[i].key);
                } else if a != i {
                    assert(groups[a].reqs[b].spec_request_key() == groups[a].key);
                }
            }
            assert forall|a: int, b: int| 0 <= a < b < after.len() implies (#[trigger] after[a]).key
                != (#[trigger] after[b]).key by {
                assert(groups[a].key != groups[b].key);
            }
            assert forall|a: int| 0 <= a < after.len() implies (#[trigger] after[a]).reqs.len()
                > 0 by {
                assert(groups[a].reqs.len() > 0);
            }
        },
        None => {
            let last = after.len() - 1;
            assert(after[last].reqs.last() == task);
            assert forall|a: int, b: int|
                0 <= a < after.len() && 0 <= b < after[a].reqs.len() implies (#[trigger] after[a].reqs[b]).spec_request_key()
                == after[a].key by {
                if a < last {
                    assert(groups[a].reqs[b].spec_request_key() == groups[a].key);
                }
            }
            assert forall|a: int, b: int| 0 <= a < b < after.len() implies (#[trigger] after[a]).key
                != (#[trigger] after[b]).key by {
                if b < last {
                    assert(groups[a].key != groups[b].key);
                }
            }
            assert forall|a: int| 0 <= a < after.len() implies (#[trigger] after[a]).reqs.len()
                > 0 by {
                if a < last {
                    assert(groups[a].reqs.len() > 0);
                }
            }
        },
    }
}

/// However many tasks a batch takes in, its groups stay sorted by key:
/// every group holds a request, every request is in the group of its key,
/// and no two groups have the same key. There are no more groups than
/// tasks.
pub proof fn lemma_drained_groups_are_keyed(drain: Drain, tasks: Seq<Task>, now: u64)
    requires
        spec_groups_keyed(drain.groups),
    ensures
        spec_groups_keyed(drain.take_all(tasks, now).groups),
        drain.take_all(tasks, now).groups.len() <= drain.groups.len() + tasks.len(),
    decreases tasks.len(),
{
    if tasks.len() > 0 {
        lemma_drained_groups_are_keyed(drain, tasks.drop_last(), now);
        let before = drain.take_all(tasks.drop_last(), now);
        match tasks.last() {
            Task::Request(req) => {
                let task = spec_with_deadline(req, before.step.host.request_max_handle_duration);
                lemma_group_add_keeps_groups_keyed(before.groups, task);
            },
            _ => {},
        }
    }
}

impl HostView {
    /// Requests wait under batch ids that were given out, none under an id
    /// without a request, and each that waits holds a slot of the
    /// running-task count.
    pub open spec fn wf(self) -> bool {
        forall|id: u64| #[trigger]
            self.reqs.contains_key(id) ==> {
                &&& 1 <= id <= self.last_req_id
                &&& self.reqs[id].len() > 0
                &&& forall|j: int|
                    0 <= j < self.reqs[id].len() ==> (#[trigger] self.reqs[id][j]).tracker.holds_slot()
            }
    }

    /// `self` is `before` after some requests left it: no batch id was
    /// given out, the set-up is the same, and what waits under an id did so
    /// before.
    pub open spec fn follows(self, before: HostView) -> bool {
        &&& self.last_req_id == before.last_req_id
        &&& self.max_running_task_count == before.max_running_task_count
        &&& self.batch_row_limit == before.batch_row_limit
        &&& self.stream_batch_row_limit == before.stream_batch_row_limit
        &&& self.request_max_handle_duration == before.request_max_handle_duration
        &&& forall|id: u64| #[trigger]
            self.reqs.contains_key(id) ==> before.reqs.contains_key(id) && self.reqs[id]
                == before.reqs[id]
    }
}

proof fn lemma_handle_requests_follow(step: Step, snap: u64, tasks: Seq<RequestTask>, now: u64)
    ensures
        step.handle_requests(snap, tasks, now).host.follows(step.host),
        step.handle_requests(snap, tasks, now).host.reqs == step.host.reqs,
    decreases tasks.len(),
{
    if tasks.len() > 0 {
        lemma_handle_requests_follow(step, snap, tasks.drop_last(), now);
    }
}

proof fn lemma_snapshot_result_follows(step: Step, id: u64, snapshot: Result<u64, Error>, now: u64)
    ensures
        step.handle_snapshot_result(id, snapshot, now).host.follows(step.host),
{
    if snapshot is Ok && step.host.reqs.contains_key(id) {
        let removed = Step {
            host: HostView { reqs: step.host.reqs.remove(id), ..step.host },
            ..step
        };
        lemma_handle_requests_follow(removed, snapshot->Ok_0, step.host.reqs[id], now);
    }
}

proof fn lemma_snapshot_results_follow(
    step: Step,
    batch: Seq<(u64, Result<u64, Error>)>,
    now: u64,
)
    ensures
        step.handle_snapshot_results(batch, now).host.follows(step.host),
    decreases batch.len(),
{
    if batch.len() > 0 {
        lemma_snapshot_results_follow(step, batch.drop_last(), now);
        let before = step.handle_snapshot_results(batch.drop_last(), now);
        lemma_snapshot_result_follows(before, batch.last().0, batch.last().1, now);
    }
}

proof fn lemma_retry_all_follows(step: Step, ids: Seq<u64>)
    ensures
        step.retry_all(ids).host == step.host,
    decreases ids.len(),
{
    if ids.len() > 0 {
        lemma_retry_all_follows(step, ids.drop_last());
    }
}

proof fn lemma_drain_follows(drain: Drain, tasks: Seq<Task>, now: u64)
    ensures
        drain.take_all(tasks, now).step.host.follows(drain.step.host),
    decreases tasks.len(),
{
    if tasks.len() > 0 {
        lemma_drain_follows(drain, tasks.drop_last(), now);
        let before = drain.take_all(tasks.drop_last(), now);
        match tasks.last() {
            Task::Request(_) => {},
            Task::SnapRes(id, snapshot) => {
                lemma_snapshot_result_follows(before.step, id, snapshot, now);
            },
            Task::BatchSnapRes(batch) => {
                lemma_snapshot_results_follow(before.step, batch@, now);
            },
            Task::RetryRequests(ids) => {
                lemma_retry_all_follows(before.step, ids@);
            },
        }
    }
}

/// The groups of a batch that are let in get the batch ids that follow
/// the last one given out, one each and in their order: under each of these
/// ids the requests of one group wait, and its snapshot is asked for with
/// the context of the first of them. What waited before still waits.
pub proof fn lemma_admitted_ids_are_dense(
    admission: Admission,
    groups: Seq<GroupView>,
    running: usize,
)
    requires
        admission.step.host.wf(),
        admission.step.host.last_req_id + groups.len() <= u64::MAX,
    ensures
        admission.admit_all(groups, running).step.host.wf(),
        admission.admit_all(groups, running).contexts.len() >= admission.contexts.len(),
        admission.admit_all(groups, running).contexts.len() - admission.contexts.len()
            <= groups.len(),
        admission.admit_all(groups, running).contexts.subrange(
            0,
            admission.contexts.len() as int,
        ) == admission.contexts,
        admission.admit_all(groups, running).step.host.last_req_id
            == admission.step.host.last_req_id + (admission.admit_all(
            groups,
            running,
        ).contexts.len() - admission.contexts.len()),
        forall|id: u64| #[trigger]
            admission.step.host.reqs.contains_key(id) ==> admission.admit_all(
                groups,
                running,
            ).step.host.reqs.contains_key(id) && admission.admit_all(
                groups,
                running,
            ).step.host.reqs[id] == admission.step.host.reqs[id],
        forall|i: int|
            0 <= i < admission.admit_all(groups, running).contexts.len()
                - admission.contexts.len() ==> {
                let id = #[trigger] spec_batch_id(admission.step.host.last_req_id + 1, i);
                &&& admission.admit_all(groups, running).step.host.reqs.contains_key(id)
                &&& admission.admit_all(groups, running).step.host.reqs[id][0].req.context
                    == admission.admit_all(groups, running).contexts[admission.contexts.len() + i]
            },
    decreases groups.len(),
{
    let kept = admission.contexts.len();
    if groups.len() == 0 {
        assert(admission.contexts.subrange(0, kept as int) =~= admission.contexts);
    } else {
        lemma_admitted_ids_are_dense(admission, groups.drop_last(), running);
        let before = admission.admit_all(groups.drop_last(), running);
        let group = groups.last();
        let after = before.admit_one(group, running);
        assert(after == admission.admit_all(groups, running));
        let first = admission.step.host.last_req_id + 1;
        assert forall|id: u64| #[trigger]
            admission.step.host.reqs.contains_key(id) implies after.step.host.reqs.contains_key(id)
            && after.step.host.reqs[id] == admission.step.host.reqs[id] by {
            assert(before.step.host.reqs.contains_key(id));
            assert(id <= admission.step.host.last_req_id);
        }
        if group.reqs.len() == 0 || before.full(running) {
            assert(after.contexts == before.contexts);
            assert(after.step.host.reqs == before.step.host.reqs);
            assert(after.step.host.last_req_id == before.step.host.last_req_id);
            assert(after.step.host.wf()) by {
                assert forall|other: u64| #[trigger]
                    after.step.host.reqs.contains_key(other) implies {
                    &&& 1 <= other <= after.step.host.last_req_id
                    &&& after.step.host.reqs[other].len() > 0
                    &&& forall|j: int|
                        0 <= j < after.step.host.reqs[other].len() ==> (#[trigger] after.step.host.reqs[other][j]).tracker.holds_slot()
                } by {
                    assert(before.step.host.reqs.contains_key(other));
                }
            }
            assert forall|i: int| 0 <= i < after.contexts.len() - kept implies {
                let id = #[trigger] spec_batch_id(first, i);
                &&& after.step.host.reqs.contains_key(id)
                &&& after.step.host.reqs[id][0].req.context == after.contexts[kept + i]
            } by {
                assert(before.step.host.reqs.contains_key(spec_batch_id(first, i)));
            }
        } else {
            let id = (before.step.host.last_req_id + 1) as u64;
            assert(after.contexts.subrange(0, kept as int) =~= before.contexts.subrange(
                0,
                kept as int,
            ));
            assert(!before.step.host.reqs.contains_key(id));
            assert(after.contexts.len() == before.contexts.len() + 1);
            assert(after.step.host.last_req_id == id);
            assert forall|i: int| 0 <= i < after.contexts.len() - kept implies {
                let at = #[trigger] spec_batch_id(first, i);
                &&& after.step.host.reqs.contains_key(at)
                &&& after.step.host.reqs[at][0].req.context == after.contexts[kept + i]
            } by {
                let at = spec_batch_id(first, i);
                if i < before.contexts.len() - kept {
                    assert(before.step.host.reqs.contains_key(at));
                    assert(at != id);
                } else {
                    assert(at == id);
                    assert(after.step.host.reqs[id] == spec_all_admitted(group.reqs));
                    assert(spec_all_admitted(group.reqs)[0] == spec_admitted(group.reqs[0]));
                }
            }
            assert(after.step.host.wf()) by {
                assert forall|other: u64| #[trigger]
                    after.step.host.reqs.contains_key(other) implies {
                    &&& 1 <= other <= after.step.host.last_req_id
                    &&& after.step.host.reqs[other].len() > 0
                    &&& forall|j: int|
                        0 <= j < after.step.host.reqs[other].len() ==> (#[trigger] after.step.host.reqs[other][j]).tracker.holds_slot()
                } by {
                    if other != id {
                        assert(before.step.host.reqs.contains_key(other));
                    } else {
                        assert(after.step.host.reqs[id] == spec_all_admitted(group.reqs));
                    }
                }
            }
        }
    }
}

/// A batch leaves the dispatcher sound: requests wait only under batch
/// ids that were given out, and each that waits holds a slot. The ids that
/// the batch gives out follow the last one given out before, one for each
/// context of its ask for snapshots.
pub proof fn lemma_run_batch_keeps_host_sound(
    host: HostView,
    tasks: Seq<Task>,
    now: u64,
    running: usize,
)
    requires
        host.wf(),
        host.last_req_id + tasks.len() <= u64::MAX,
    ensures
        host.run_batch(tasks, now, running).host.wf(),
        host.run_batch(tasks, now, running).host.metrics == BasicLocalMetricsView::empty(),
        match host.run_batch(tasks, now, running).outcome.batch_snapshot {
            Some(batch) => {
                &&& batch.start_id == host.last_req_id + 1
                &&& host.run_batch(tasks, now, running).host.last_req_id == host.last_req_id
                    + batch.contexts.len()
                &&& forall|i: int|
                    0 <= i < batch.contexts.len() ==> {
                        let id = #[trigger] spec_batch_id(batch.start_id as int, i);
                        &&& host.run_batch(tasks, now, running).host.reqs.contains_key(id)
                        &&& host.run_batch(tasks, now, running).host.reqs[id][0].req.context
                            == batch.contexts[i]
                    }
            },
            None => host.run_batch(tasks, now, running).host.last_req_id == host.last_req_id,
        },
{
    let empty = OutboxView { replies: Seq::empty(), jobs: Seq::empty(), retries: Seq::empty() };
    let start = Drain { step: Step { host, out: empty }, groups: Seq::empty() };
    lemma_drain_follows(start, tasks, now);
    lemma_drained_groups_are_keyed(start, tasks, now);
    let drained = start.take_all(tasks, now);
    let begin = Admission { step: drained.step, admitted: 0, contexts: Seq::empty() };
    assert(drained.step.host.wf()) by {
        assert forall|id: u64| #[trigger]
            drained.step.host.reqs.contains_key(id) implies host.reqs.contains_key(id) by {}
    }
    lemma_admitted_ids_are_dense(begin, drained.groups, running);
    let done = begin.admit_all(drained.groups, running);
    let after = host.run_batch(tasks, now, running).host;
    assert(after.reqs == done.step.host.reqs);
    assert(after.wf());
}

/// The number of requests in all of `groups`.
pub open spec fn spec_grouped(groups: Seq<GroupView>) -> nat
    decreases groups.len(),
{
    if groups.len() == 0 {
        0
    } else {
        spec_grouped(groups.drop_last()) + groups.last().reqs.len()
    }
}

proof fn lemma_group_add_counts(groups: Seq<GroupView>, task: RequestTask)
    ensures
        spec_grouped(spec_group_add(groups, task)) == spec_grouped(groups) + 1,
    decreases groups.len(),
{
    let key = task.spec_request_key();
    lemma_group_index(groups, key);
    match spec_group_index(groups, key) {
        None => {
            let after = spec_group_add(groups, task);
            assert(after.drop_last() =~= groups);
        },
        Some(i) => {
            let after = spec_group_add(groups, task);
            let head = groups.drop_last();
            if i == groups.len() - 1 {
                assert(after.drop_last() =~= head);
            } else {
                lemma_group_index(head, key);
                assert(spec_group_index(head, key) == Some(i)) by {
                    assert forall|j: int| 0 <= j < head.len() implies head[j] == groups[j] by {}
                    assert(head[i].key == key);
                }
                lemma_group_add_counts(head, task);
                assert(after.drop_last() =~= spec_group_add(head, task));
                assert(after.last() == groups.last());
            }
        },
    }
}

/// Every task of `tasks` is a fresh request.
pub open spec fn spec_all_fresh(tasks: Seq<Task>) -> bool {
    forall|i: int| 0 <= i < tasks.len() ==> (#[trigger] tasks[i]) is Request
}

proof fn lemma_drain_loses_no_request(drain: Drain, tasks: Seq<Task>, now: u64)
    requires
        spec_all_fresh(tasks),
    ensures
        drain.take_all(tasks, now).step.out.replies.len() + spec_grouped(
            drain.take_all(tasks, now).groups,
        ) == drain.step.out.replies.len() + spec_grouped(drain.groups) + tasks.len(),
        drain.take_all(tasks, now).step.out.jobs == drain.step.out.jobs,
        drain.take_all(tasks, now).step.out.retries == drain.step.out.retries,
        drain.take_all(tasks, now).step.host.reqs == drain.step.host.reqs,
    decreases tasks.len(),
{
    if tasks.len() > 0 {
        let head = tasks.drop_last();
        assert(spec_all_fresh(head)) by {
            assert forall|i: int| 0 <= i < head.len() implies (#[trigger] head[i]) is Request by {
                assert(tasks[i] is Request);
            }
        }
        lemma_drain_loses_no_request(drain, head, now);
        let before = drain.take_all(head, now);
        assert(tasks[tasks.len() - 1] is Request);
        match tasks.last() {
            Task::Request(req) => {
                let task = spec_with_deadline(req, before.step.host.request_max_handle_duration);
                lemma_group_add_counts(before.groups, task);
            },
            _ => {},
        }
    }
}

proof fn lemma_admission_loses_no_request(
    admission: Admission,
    groups: Seq<GroupView>,
    running: usize,
)
    requires
        admission.admitted + spec_grouped(groups) <= usize::MAX,
    ensures
        admission.admit_all(groups, running).step.out.replies.len() + admission.admit_all(
            groups,
            running,
        ).admitted == admission.step.out.replies.len() + admission.admitted + spec_grouped(groups),
        admission.admit_all(groups, running).step.out.replies.len()
            >= admission.step.out.replies.len(),
        admission.admit_all(groups, running).step.out.jobs == admission.step.out.jobs,
        admission.admit_all(groups, running).step.out.retries == admission.step.out.retries,
    decreases groups.len(),
{
    if groups.len() > 0 {
        lemma_admission_loses_no_request(admission, groups.drop_last(), running);
        let before = admission.admit_all(groups.drop_last(), running);
        let group = groups.last();
        let after = before.admit_one(group, running);
        assert(before.admitted <= admission.admitted + spec_grouped(groups.drop_last()));
        if group.reqs.len() > 0 && before.full(running) {
            let failed = spec_failed_replies(
                group.reqs,
                ErrorView::Full(before.step.host.max_running_task_count),
            );
            assert(after.step.out.replies == before.step.out.replies + failed);
            assert(failed.len() == group.reqs.len());
        }
    }
}

/// No fresh request is lost: of a batch that holds fresh requests only,
/// every request is answered at once or let in, so that the responses and
/// the slots given are together as many as the requests. Nothing else is
/// left to be done but to ask for the snapshots.
pub proof fn lemma_fresh_requests_are_answered_or_admitted(
    host: HostView,
    tasks: Seq<Task>,
    now: u64,
    running: usize,
)
    requires
        spec_all_fresh(tasks),
        tasks.len() <= usize::MAX,
    ensures
        host.run_batch(tasks, now, running).outcome.outbox.replies.len() + host.run_batch(
            tasks,
            now,
            running,
        ).outcome.admitted == tasks.len(),
        host.run_batch(tasks, now, running).outcome.outbox.jobs.len() == 0,
        host.run_batch(tasks, now, running).outcome.outbox.retries.len() == 0,
{
    let empty = OutboxView { replies: Seq::empty(), jobs: Seq::empty(), retries: Seq::empty() };
    let start = Drain { step: Step { host, out: empty }, groups: Seq::empty() };
    lemma_drain_loses_no_request(start, tasks, now);
    let drained = start.take_all(tasks, now);
    let begin = Admission { step: drained.step, admitted: 0, contexts: Seq::empty() };
    lemma_admission_loses_no_request(begin, drained.groups, running);
}

proof fn lemma_handle_requests_lose_none(step: Step, snap: u64, tasks: Seq<RequestTask>, now: u64)
    ensures
        step.handle_requests(snap, tasks, now).out.replies.len() + step.handle_requests(
            snap,
            tasks,
            now,
        ).out.jobs.len() == step.out.replies.len() + step.out.jobs.len() + tasks.len(),
        step.handle_requests(snap, tasks, now).out.retries == step.out.retries,
    decreases tasks.len(),
{
    if tasks.len() > 0 {
        lemma_handle_requests_lose_none(step, snap, tasks.drop_last(), now);
    }
}

/// When the engine has answered for a batch id, every request that waited
/// under the id is answered or left as a job, and none waits under the id
/// any longer.
pub proof fn lemma_snapshot_result_loses_no_request(
    step: Step,
    id: u64,
    snapshot: Result<u64, Error>,
    now: u64,
)
    requires
        step.host.reqs.contains_key(id),
    ensures
        !step.handle_snapshot_result(id, snapshot, now).host.reqs.contains_key(id),
        step.handle_snapshot_result(id, snapshot, now).out.replies.len()
            + step.handle_snapshot_result(id, snapshot, now).out.jobs.len()
            == step.out.replies.len() + step.out.jobs.len() + step.host.reqs[id].len(),
        snapshot is Err ==> step.handle_snapshot_result(id, snapshot, now).out.jobs
            == step.out.jobs,
{
    let removed = Step { host: HostView { reqs: step.host.reqs.remove(id), ..step.host }, ..step };
    match snapshot {
        Ok(snap) => {
            lemma_handle_requests_lose_none(removed, snap, step.host.reqs[id], now);
            lemma_handle_requests_follow(removed, snap, step.host.reqs[id], now);
        },
        Err(e) => {
            let failed = spec_failed_replies(step.host.reqs[id], e@);
            assert(failed.len() == step.host.reqs[id].len());
        },
    }
}

/// The job of a sound request has a tracker that is sound, waits, and is
/// bound to the pool of the job: it is ready for a worker to end its wait.
pub proof fn lemma_job_is_ready(host: HostView, snap: u64, task: RequestTask)
    requires
        task.wf(),
    ensures
        host.job(snap, task).task.wf(),
        host.job(snap, task).task.tracker.ctx_pool == Some(host.job(snap, task).pool),
        host.job(snap, task).task.tracker.holds_slot() == task.tracker.holds_slot(),
{
}

/// A sound request stays sound when it gets its deadline and its slot.
pub proof fn lemma_admission_keeps_requests_sound(task: RequestTask, duration: u64)
    requires
        task.wf(),
    ensures
        spec_with_deadline(task, duration).wf(),
        spec_admitted(task).wf(),
{
}

/// Where tasks may still be started, a group that comes up for admission
/// is let in: it waits under the next batch id, each of its requests holds
/// a slot of the running-task count, and the slots are counted, one for
/// each request.
pub proof fn lemma_admitted_group_holds_slots(admission: Admission, group: GroupView, running: usize)
    requires
        !admission.full(running),
        group.reqs.len() > 0,
        admission.admitted + group.reqs.len() <= usize::MAX,
        admission.step.host.last_req_id < u64::MAX,
    ensures
        ({
            let after = admission.admit_one(group, running);
            let id = (admission.step.host.last_req_id + 1) as u64;
            &&& after.admitted == admission.admitted + group.reqs.len()
            &&& after.step.out == admission.step.out
            &&& after.step.host.last_req_id == id
            &&& after.step.host.reqs.contains_key(id)
            &&& after.step.host.reqs[id].len() == group.reqs.len()
            &&& forall|i: int|
                0 <= i < group.reqs.len() ==> {
                    let task = #[trigger] after.step.host.reqs[id][i];
                    &&& task.tracker.holds_slot()
                    &&& task.on_resp == group.reqs[i].on_resp
                    &&& task.req == group.reqs[i].req
                }
        }),
{
}

/// Where the tasks that run are as many as may run, or more, a group that
/// comes up for admission is turned away: every request of it is answered
/// with the region error of a busy server, none gets a slot, and none waits
/// for a snapshot.
pub proof fn lemma_full_turns_group_away(admission: Admission, group: GroupView, running: usize)
    requires
        admission.full(running),
    ensures
        admission.admit_one(group, running).admitted == admission.admitted,
        admission.admit_one(group, running).contexts == admission.contexts,
        admission.admit_one(group, running).step.host.reqs == admission.step.host.reqs,
        admission.admit_one(group, running).step.host.last_req_id
            == admission.step.host.last_req_id,
        admission.admit_one(group, running).step.out.jobs == admission.step.out.jobs,
        admission.admit_one(group, running).step.out.replies.len()
            == admission.step.out.replies.len() + group.reqs.len(),
        forall|i: int|
            0 <= i < group.reqs.len() ==> {
                let reply = #[trigger] admission.admit_one(group, running).step.out.replies[
                    admission.step.out.replies.len() + i
                ];
                &&& reply.on_resp == group.reqs[i].on_resp
                &&& reply.tracker == group.reqs[i].tracker
                &&& reply.resp.region_error is Some
                &&& reply.resp.region_error->0.server_is_busy == Some(
                    crate::response::ENDPOINT_IS_BUSY@,
                )
            },
{
}

/// The same items from the last to the first.
pub(crate) fn reversed<T>(items: Vec<T>) -> (res: Vec<T>)
    ensures
        res@ == items@.reverse(),
{
    let mut items = items;
    let ghost all = items@;
    let mut res: Vec<T> = Vec::new();
    while items.len() > 0
        invariant
            items@.len() <= all.len(),
            items@ == all.subrange(0, items@.len() as int),
            res@ == all.subrange(items@.len() as int, all.len() as int).reverse(),
        decreases items.len(),
    {
        match items.pop() {
            Some(item) => {
                res.push(item);
            },
            None => {},
        }
    }
    res
}

} // verus!
