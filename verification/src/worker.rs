//! What a worker does with a job before and after it runs the executors: it
//! ends the wait of the request, turns a failure into the response that
//! tells of it, and ends the handling, which gives the response its details.

use vstd::prelude::*;
use crate::metrics::{CopContext, CopContextView, ExecutorMetrics};
use crate::response::{err_resp, spec_err_metrics, spec_err_response, Error, Response};
use crate::response::ResponseView;
use crate::tracker::{spec_exec_details, RequestTracker};

verus! {

/// The response of a run that ended with `outcome`, before it gets its
/// details: the response of the run, or the one that tells of its failure.
pub open spec fn spec_outcome_response(outcome: Result<Response, Error>) -> ResponseView {
    match outcome {
        Ok(resp) => resp@,
        Err(e) => spec_err_response(e@),
    }
}

/// The context of the worker after a run ended with `outcome`: a failure is
/// counted in the samples of the worker.
pub open spec fn spec_outcome_context(
    ctx: CopContextView,
    outcome: Result<Response, Error>,
) -> CopContextView {
    match outcome {
        Ok(_) => ctx,
        Err(e) => CopContextView {
            basic_local_metrics: spec_err_metrics(ctx.basic_local_metrics, e@, 1),
            ..ctx
        },
    }
}

/// `resp` with the details that the handling which `tracker` ends at `now`
/// gives it.
pub open spec fn spec_with_details(
    tracker: RequestTracker,
    resp: ResponseView,
    exec_metrics: ExecutorMetrics,
    now: u64,
) -> ResponseView {
    ResponseView {
        exec_details: spec_exec_details(
            resp.exec_details,
            tracker.record_handle_time,
            tracker.record_scan_detail,
            tracker.handle_until(now),
            tracker.wait_time->0,
            tracker.exec_metrics.spec_merge(exec_metrics).spec_scan_detail(),
        ),
        ..resp
    }
}

/// One step of a stream: the response to send, if there is one, and whether
/// the stream ends with it.
pub struct StreamItem {
    pub resp: Option<Response>,
    pub finished: bool,
}

/// Ends the run of a job that is answered with one response. A failure of
/// the run becomes the response that tells of it and is counted with the
/// worker. The handling ends at `now` and the response gets its details.
pub fn finish_request(
    tracker: &mut RequestTracker,
    ctx: &mut CopContext,
    outcome: Result<Response, Error>,
    exec_metrics: ExecutorMetrics,
    now: u64,
) -> (resp: Response)
    requires
        old(tracker).wf(),
        old(tracker).handling(),
    ensures
        *final(tracker) == old(tracker).handled(exec_metrics, now),
        final(tracker).wf(),
        final(tracker).queued(),
        final(ctx)@ == spec_outcome_context(old(ctx)@, outcome),
        resp@ == spec_with_details(
            *old(tracker),
            spec_outcome_response(outcome),
            exec_metrics,
            now,
        ),
{
    let resp = match outcome {
        Ok(resp) => resp,
        Err(e) => err_resp(e, &mut ctx.basic_local_metrics),
    };
    match tracker.record_handle(Some(resp), exec_metrics, now) {
        Some(resp) => resp,
        None => Response::new(),
    }
}

/// Ends one step of a job that is answered with a stream. A failure of the
/// step becomes the last response of the stream. The handling ends at `now`
/// and the response, if there is one, gets its details. The stream goes on
/// after the step if there is a response and the step did not finish.
pub fn finish_stream_step(
    tracker: &mut RequestTracker,
    ctx: &mut CopContext,
    outcome: Result<StreamItem, Error>,
    exec_metrics: ExecutorMetrics,
    now: u64,
) -> (item: StreamItem)
    requires
        old(tracker).wf(),
        old(tracker).handling(),
    ensures
        *final(tracker) == old(tracker).handled(exec_metrics, now),
        final(tracker).wf(),
        final(tracker).queued(),
        outcome matches Err(e) ==> {
            &&& final(ctx)@ == (CopContextView {
                basic_local_metrics: spec_err_metrics(old(ctx)@.basic_local_metrics, e@, 1),
                ..old(ctx)@
            })
            &&& item.finished
            &&& item.resp matches Some(resp)
            &&& resp@ == spec_with_details(
                *old(tracker),
                spec_err_response(e@),
                exec_metrics,
                now,
            )
        },
        outcome matches Ok(step) ==> {
            &&& final(ctx)@ == old(ctx)@
            &&& item.finished == step.finished
            &&& item.resp is Some <==> step.resp is Some
            &&& (step.resp matches Some(before) ==> item.resp matches Some(resp) && resp@
                == spec_with_details(*old(tracker), before@, exec_metrics, now))
        },
{
    let (resp, finished) = match outcome {
        Ok(step) => (step.resp, step.finished),
        Err(e) => (Some(err_resp(e, &mut ctx.basic_local_metrics)), true),
    };
    let resp = tracker.record_handle(resp, exec_metrics, now);
    StreamItem { resp, finished }
}

/// The details that the end of a handling gives a response change neither
/// its data nor what it tells of a failure.
pub proof fn lemma_details_keep_response_exclusive(
    tracker: RequestTracker,
    resp: ResponseView,
    exec_metrics: ExecutorMetrics,
    now: u64,
)
    requires
        resp.exclusive(),
    ensures
        spec_with_details(tracker, resp, exec_metrics, now).exclusive(),
        spec_with_details(tracker, resp, exec_metrics, now).errors_set() == resp.errors_set(),
        spec_with_details(tracker, resp, exec_metrics, now).data == resp.data,
{
}

} // verus!
