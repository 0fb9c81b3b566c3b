//! How a step is submitted: reserved, launched, marked or undone.
use crate::engine::completion::StepFault;
use crate::engine::decisions::{BatchPlan, Launch, StepRoute};
use crate::engine::submission::{
    submission_begun, SubmissionCallModel, SubmissionModel, SubmissionReply,
};
use crate::engine::types::EngineError;
use vstd::prelude::*;

verus! {

/// A step begins by reserving where its route reserves; otherwise it is launched at once.
/// A route that is refused fails with its reason, and nothing was done.
pub proof fn submissions_begin_by_their_route(
    plan: BatchPlan,
    route: Result<StepRoute, EngineError>,
)
    ensures
        ({
            let (m, call) = submission_begun(plan, route);
            &&& route matches Err(error) ==> call == (SubmissionCallModel::Failed {
                fault: (StepFault::Engine { error }),
            }) && m.stage is Ended
            &&& route matches Ok(r) ==> {
                &&& m.route == r
                &&& !m.launched
                &&& call is Reserve <==> r.reserve
                &&& !r.reserve && (r.launch is Prefill || r.launch is Rollout) ==> call == (
                SubmissionCallModel::Launch { launch: r.launch })
                &&& !r.reserve && (r.launch is Unaccelerated || r.launch is Idle) ==> call
                    is MarkInFlight
                &&& !r.reserve ==> (r.launch matches Launch::MissingBackend { error } ==> call == (
                SubmissionCallModel::Failed { fault: (StepFault::Engine { error }) }))
            }
        }),
{
}

/// A step that is reserved is launched as its route says; one whose reservation was
/// refused fails with the refusal. What was launched is marked, what failed to launch is
/// undone where it had been reserved, and what was undone fails with its reason.
pub proof fn submissions_go_on_by_the_reply(m: SubmissionModel, reply: SubmissionReply)
    requires
        m.expects(reply),
    ensures
        ({
            let (next, call) = m.resumed(reply);
            &&& next.req_ids == m.req_ids && next.route == m.route
            &&& call matches SubmissionCallModel::MarkInFlight { req_ids } ==> req_ids == m.req_ids
            &&& call matches SubmissionCallModel::Launch { launch } ==> launch == m.route.launch
                && m.stage is Reserving
            &&& m.stage is Reserving ==> match reply->refusal {
                Some(error) => call == (SubmissionCallModel::Failed {
                    fault: (StepFault::Engine { error }),
                }),
                None => match m.route.launch {
                    Launch::Prefill { .. } | Launch::Rollout { .. } => call is Launch,
                    Launch::MissingBackend { error } => next.fault == (StepFault::Engine { error })
                        && (call is RollBack <==> m.route.reserve),
                    _ => call is MarkInFlight,
                },
            }
            &&& m.stage is Launching && reply->success ==> call is MarkInFlight && next.launched
            &&& m.stage is Launching && !reply->success && m.route.reserve ==> call is RollBack
                && next.fault is Backend
            &&& m.stage is Launching && !reply->success && !m.route.reserve ==> call == (
            SubmissionCallModel::Failed { fault: StepFault::Backend })
            &&& m.stage is Marking ==> call == (SubmissionCallModel::Submitted {
                launched: m.launched,
            })
            &&& m.stage is RollingBack ==> call == (SubmissionCallModel::Failed { fault: m.fault })
            &&& !(m.stage is Launching) ==> next.launched == m.launched
            &&& call is Submitted || call is Failed <==> next.stage is Ended
        }),
{
}

} // verus!
