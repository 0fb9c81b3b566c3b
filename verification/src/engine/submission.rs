//! The submission of a step, as a conversation with the allocator, the backend and
//! the scheduler: what is reserved, launched and marked as in flight, and what a
//! failed launch gives back.
use crate::engine::completion::StepFault;
use crate::engine::decisions::{
    plan_requests, step_route, BatchPlan, Engine, Launch, Platform, StepRoute,
};
use crate::engine::types::EngineError;
use vstd::prelude::*;

verus! {

/// What a submission waits for.
#[derive(Clone, Copy, Debug, PartialEq, Eq, Structural)]
pub enum SubmissionStage {
    Reserving,
    Launching,
    Marking,
    RollingBack,
    Ended,
}

/// What the host does for a submission.
#[derive(Debug)]
pub enum SubmissionCall {
    /// Reserve the step's KV.
    Reserve,
    /// Launch the step on the backend.
    Launch { launch: Launch },
    /// Mark the step's requests as in flight.
    MarkInFlight { req_ids: Vec<u64> },
    /// Undo the reservation.
    RollBack,
    /// The step is submitted; only what was launched is collected from the backend.
    Submitted { launched: bool },
    Failed { fault: StepFault },
}

pub enum SubmissionCallModel {
    Reserve,
    Launch { launch: Launch },
    MarkInFlight { req_ids: Seq<u64> },
    RollBack,
    Submitted { launched: bool },
    Failed { fault: StepFault },
}

impl View for SubmissionCall {
    type V = SubmissionCallModel;

    open spec fn view(&self) -> SubmissionCallModel {
        match *self {
            SubmissionCall::Reserve => SubmissionCallModel::Reserve,
            SubmissionCall::Launch { launch } => SubmissionCallModel::Launch { launch },
            SubmissionCall::MarkInFlight { req_ids } => SubmissionCallModel::MarkInFlight {
                req_ids: req_ids@,
            },
            SubmissionCall::RollBack => SubmissionCallModel::RollBack,
            SubmissionCall::Submitted { launched } => SubmissionCallModel::Submitted { launched },
            SubmissionCall::Failed { fault } => SubmissionCallModel::Failed { fault },
        }
    }
}

/// What the host answers.
#[derive(Clone, Copy, Debug, PartialEq, Eq, Structural)]
pub enum SubmissionReply {
    /// The reservation is complete, or was refused and undone.
    Reserved { refusal: Option<EngineError> },
    Launched { success: bool },
    Done,
}

/// A submission in progress.
#[derive(Debug)]
pub struct Submission {
    req_ids: Vec<u64>,
    route: StepRoute,
    launched: bool,
    fault: StepFault,
    stage: SubmissionStage,
}

pub struct SubmissionModel {
    pub req_ids: Seq<u64>,
    pub route: StepRoute,
    pub launched: bool,
    /// Why the step is given up, once it is.
    pub fault: StepFault,
    pub stage: SubmissionStage,
}

impl View for Submission {
    type V = SubmissionModel;

    closed spec fn view(&self) -> SubmissionModel {
        SubmissionModel {
            req_ids: self.req_ids@,
            route: self.route,
            launched: self.launched,
            fault: self.fault,
            stage: self.stage,
        }
    }
}

impl SubmissionModel {
    pub open spec fn expects(self, reply: SubmissionReply) -> bool {
        match self.stage {
            SubmissionStage::Reserving => reply is Reserved,
            SubmissionStage::Launching => reply is Launched,
            SubmissionStage::Marking | SubmissionStage::RollingBack => reply is Done,
            SubmissionStage::Ended => false,
        }
    }

    pub open spec fn failed(self, fault: StepFault) -> (SubmissionModel, SubmissionCallModel) {
        (
            SubmissionModel { stage: SubmissionStage::Ended, fault, ..self },
            SubmissionCallModel::Failed { fault },
        )
    }

    /// A step that is given up gives its reservation back first.
    pub open spec fn given_up(self, fault: StepFault) -> (SubmissionModel, SubmissionCallModel) {
        if self.route.reserve {
            (
                SubmissionModel { stage: SubmissionStage::RollingBack, fault, ..self },
                SubmissionCallModel::RollBack,
            )
        } else {
            self.failed(fault)
        }
    }

    pub open spec fn marked(self) -> (SubmissionModel, SubmissionCallModel) {
        (
            SubmissionModel { stage: SubmissionStage::Marking, ..self },
            SubmissionCallModel::MarkInFlight { req_ids: self.req_ids },
        )
    }

    /// Launches what there is to launch. A step without an accelerator is in flight
    /// all the same.
    pub open spec fn launching(self) -> (SubmissionModel, SubmissionCallModel) {
        match self.route.launch {
            Launch::Unaccelerated | Launch::Idle => self.marked(),
            Launch::MissingBackend { error } => self.given_up(StepFault::Engine { error }),
            Launch::Prefill { .. } | Launch::Rollout { .. } => (
                SubmissionModel { stage: SubmissionStage::Launching, ..self },
                SubmissionCallModel::Launch { launch: self.route.launch },
            ),
        }
    }

    pub open spec fn resumed(self, reply: SubmissionReply) -> (
        SubmissionModel,
        SubmissionCallModel,
    ) {
        match (self.stage, reply) {
            (SubmissionStage::Reserving, SubmissionReply::Reserved { refusal }) => match refusal {
                None => self.launching(),
                Some(error) => self.failed(StepFault::Engine { error }),
            },
            (SubmissionStage::Launching, SubmissionReply::Launched { success }) => if success {
                SubmissionModel { launched: true, ..self }.marked()
            } else {
                self.given_up(StepFault::Backend)
            },
            (SubmissionStage::Marking, _) => (
                SubmissionModel { stage: SubmissionStage::Ended, ..self },
                SubmissionCallModel::Submitted { launched: self.launched },
            ),
            _ => self.failed(self.fault),
        }
    }
}

/// A submission before its first call.
pub open spec fn planned(plan: BatchPlan, route: StepRoute) -> SubmissionModel {
    SubmissionModel {
        req_ids: plan_requests(plan),
        route,
        launched: false,
        fault: StepFault::Backend,
        stage: SubmissionStage::Ended,
    }
}

/// How the submission of a plan starts.
pub open spec fn submission_begun(plan: BatchPlan, route: Result<StepRoute, EngineError>) -> (
    SubmissionModel,
    SubmissionCallModel,
) {
    match route {
        Err(error) => planned(
            plan,
            StepRoute { reserve: false, launch: Launch::Idle },
        ).failed(StepFault::Engine { error }),
        Ok(route) => if route.reserve {
            (
                SubmissionModel { stage: SubmissionStage::Reserving, ..planned(plan, route) },
                SubmissionCallModel::Reserve,
            )
        } else {
            planned(plan, route).launching()
        },
    }
}

impl Submission {
    /// Starts the submission of a scheduled plan.
    pub fn begin(engine: &Engine, plan: &BatchPlan, platform: Platform) -> (r: (
        Submission,
        SubmissionCall,
    ))
        ensures
            (r.0@, r.1@) == submission_begun(
                *plan,
                step_route(
                    *plan,
                    engine.apple_runtime_plan,
                    engine.paged_kv,
                    engine.apple_backend,
                    platform,
                ),
            ),
    {
        let req_ids = plan.req_ids();
        match engine.step_submit(plan, platform) {
            Err(error) => {
                let mut submission = Submission {
                    req_ids,
                    route: StepRoute { reserve: false, launch: Launch::Idle },
                    launched: false,
                    fault: StepFault::Backend,
                    stage: SubmissionStage::Ended,
                };
                let call = submission.fail(StepFault::Engine { error });
                (submission, call)
            },
            Ok(route) => {
                let mut submission = Submission {
                    req_ids,
                    route,
                    launched: false,
                    fault: StepFault::Backend,
                    stage: SubmissionStage::Ended,
                };
                if route.reserve {
                    submission.stage = SubmissionStage::Reserving;
                    return (submission, SubmissionCall::Reserve);
                }
                let call = submission.launch();
                (submission, call)
            },
        }
    }

    fn fail(&mut self, fault: StepFault) -> (call: SubmissionCall)
        ensures
            (final(self)@, call@) == old(self)@.failed(fault),
    {
        self.stage = SubmissionStage::Ended;
        self.fault = fault;
        SubmissionCall::Failed { fault }
    }

    fn give_up(&mut self, fault: StepFault) -> (call: SubmissionCall)
        ensures
            (final(self)@, call@) == old(self)@.given_up(fault),
    {
        if self.route.reserve {
            self.stage = SubmissionStage::RollingBack;
            self.fault = fault;
            return SubmissionCall::RollBack;
        }
        self.fail(fault)
    }

    fn mark(&mut self) -> (call: SubmissionCall)
        ensures
            (final(self)@, call@) == old(self)@.marked(),
    {
        self.stage = SubmissionStage::Marking;
        let mut req_ids: Vec<u64> = Vec::new();
        let mut i: usize = 0;
        while i < self.req_ids.len()
            invariant
                i <= self.req_ids@.len(),
                req_ids@ =~= self.req_ids@.take(i as int),
            decreases self.req_ids@.len() - i,
        {
            req_ids.push(self.req_ids[i]);
            i = i + 1;
        }
        assert(req_ids@ =~= self.req_ids@);
        SubmissionCall::MarkInFlight { req_ids }
    }

    fn launch(&mut self) -> (call: SubmissionCall)
        ensures
            (final(self)@, call@) == old(self)@.launching(),
    {
        let launch = self.route.launch;
        match launch {
            Launch::Unaccelerated | Launch::Idle => self.mark(),
            Launch::MissingBackend { error } => self.give_up(StepFault::Engine { error }),
            Launch::Prefill { .. } | Launch::Rollout { .. } => {
                self.stage = SubmissionStage::Launching;
                SubmissionCall::Launch { launch }
            },
        }
    }

    /// Takes the host's answer to the last call.
    pub fn resume(&mut self, reply: SubmissionReply) -> (call: SubmissionCall)
        requires
            old(self)@.expects(reply),
        ensures
            (final(self)@, call@) == old(self)@.resumed(reply),
    {
        let fault = self.fault;
        match (self.stage, reply) {
            (SubmissionStage::Reserving, SubmissionReply::Reserved { refusal }) => match refusal {
                None => self.launch(),
                Some(error) => self.fail(StepFault::Engine { error }),
            },
            (SubmissionStage::Launching, SubmissionReply::Launched { success }) => {
                if success {
                    self.launched = true;
                    self.mark()
                } else {
                    self.give_up(StepFault::Backend)
                }
            },
            (SubmissionStage::Marking, _) => {
                self.stage = SubmissionStage::Ended;
                SubmissionCall::Submitted { launched: self.launched }
            },
            _ => self.fail(fault),
        }
    }
}

// ---------------------------------------------------------------------------
// Laws
// ---------------------------------------------------------------------------

/// Whether the replies, in order, answer a submission's calls.
pub open spec fn answered(
    start: (SubmissionModel, SubmissionCallModel),
    replies: Seq<SubmissionReply>,
) -> bool
    decreases replies.len(),
{
    replies.len() == 0 || (answered(start, replies.drop_last()) && conversed(
        start,
        replies.drop_last(),
    ).0.expects(replies.last()))
}

/// The submission, and the calls it has made, after some replies.
pub open spec fn conversed(
    start: (SubmissionModel, SubmissionCallModel),
    replies: Seq<SubmissionReply>,
) -> (SubmissionModel, Seq<SubmissionCallModel>)
    decreases replies.len(),
{
    if replies.len() == 0 {
        (start.0, seq![start.1])
    } else {
        let (m, calls) = conversed(start, replies.drop_last());
        (m.resumed(replies.last()).0, calls.push(m.resumed(replies.last()).1))
    }
}

proof fn conversation(
    plan: BatchPlan,
    route: Result<StepRoute, EngineError>,
    replies: Seq<SubmissionReply>,
)
    requires
        answered(submission_begun(plan, route), replies),
    ensures
        ({
            let (m, calls) = conversed(submission_begun(plan, route), replies);
            let marking = SubmissionCallModel::MarkInFlight { req_ids: plan_requests(plan) };
            &&& calls.len() > 0
            &&& m.req_ids == plan_requests(plan)
            &&& route is Ok ==> m.route == route->Ok_0
            &&& m.stage is Marking ==> calls.contains(marking)
            &&& calls.last() is Submitted ==> calls.contains(marking)
            &&& m.stage is Launching ==> calls.last() is Launch
            &&& m.stage is RollingBack ==> calls.last() is RollBack
            &&& forall|i: int|
                0 <= i < calls.len() - 1 ==> !((#[trigger] calls[i]) is Submitted) && !(
                calls[i] is Failed)
            &&& (exists|i: int| 0 <= i < calls.len() && #[trigger] calls[i] is Launch)
                && m.route.reserve && calls.last() is Failed ==> exists|i: int|
                0 <= i < calls.len() && #[trigger] calls[i] is RollBack
            &&& calls.last() is Submitted || calls.last() is Failed ==> m.stage is Ended
        }),
    decreases replies.len(),
{
    let start = submission_begun(plan, route);
    if replies.len() == 0 {
        assert(seq![start.1].last() == start.1);
        assert(seq![start.1][0] == start.1);
    } else {
        let before = replies.drop_last();
        conversation(plan, route, before);
        let (m, calls) = conversed(start, before);
        let (n, all) = conversed(start, replies);
        let marking = SubmissionCallModel::MarkInFlight { req_ids: plan_requests(plan) };
        assert(all[calls.len() as int] == all.last());
        if calls.contains(marking) {
            let k = choose|k: int| 0 <= k < calls.len() && calls[k] == marking;
            assert(all[k] == marking);
        }
        if n.stage is Marking {
            assert(all.last() == marking);
            assert(all.contains(marking));
        }
        assert forall|i: int| 0 <= i < all.len() - 1 implies !((#[trigger] all[i]) is Submitted)
            && !(all[i] is Failed) by {
            assert(all[i] == calls[i]);
        }
        if (exists|i: int| 0 <= i < all.len() && #[trigger] all[i] is Launch) && n.route.reserve
            && all.last() is Failed {
            let k = choose|k: int| 0 <= k < all.len() && #[trigger] all[k] is Launch;
            assert(all[k] == calls[k]);
            if m.stage is RollingBack {
                assert(all[calls.len() - 1] is RollBack);
            } else {
                assert(m.stage is Reserving);
                reserving_made_one_call(plan, route, before);
                assert(calls[k] == calls[0]);
            }
        }
    }
}

/// A submission that waits for its reservation has made no other call.
proof fn reserving_made_one_call(
    plan: BatchPlan,
    route: Result<StepRoute, EngineError>,
    replies: Seq<SubmissionReply>,
)
    requires
        answered(submission_begun(plan, route), replies),
        conversed(submission_begun(plan, route), replies).0.stage is Reserving,
    ensures
        replies.len() == 0,
        conversed(submission_begun(plan, route), replies).1 == seq![SubmissionCallModel::Reserve],
{
    if replies.len() > 0 {
        let m = conversed(submission_begun(plan, route), replies.drop_last()).0;
        assert(!(m.resumed(replies.last()).0.stage is Reserving));
    }
}

/// Every step that is submitted was marked as in flight, with all of its requests,
/// whether or not an accelerator takes part.
pub proof fn submitted_steps_are_in_flight(
    plan: BatchPlan,
    route: Result<StepRoute, EngineError>,
    replies: Seq<SubmissionReply>,
)
    requires
        answered(submission_begun(plan, route), replies),
        conversed(submission_begun(plan, route), replies).1.last() is Submitted,
    ensures
        conversed(submission_begun(plan, route), replies).1.contains(
            SubmissionCallModel::MarkInFlight { req_ids: plan_requests(plan) },
        ),
{
    conversation(plan, route, replies);
}

/// A launch that failed gave its reservation back.
pub proof fn failed_launches_are_rolled_back(
    plan: BatchPlan,
    route: StepRoute,
    replies: Seq<SubmissionReply>,
    i: int,
)
    requires
        answered(submission_begun(plan, Ok(route)), replies),
        route.reserve,
        ({
            let calls = conversed(submission_begun(plan, Ok(route)), replies).1;
            0 <= i < calls.len() && calls[i] is Launch && calls.last() is Failed
        }),
    ensures
        conversed(submission_begun(plan, Ok(route)), replies).1.contains(
            SubmissionCallModel::RollBack,
        ),
{
    conversation(plan, Ok(route), replies);
    let calls = conversed(submission_begun(plan, Ok(route)), replies).1;
    let k = choose|k: int| 0 <= k < calls.len() && #[trigger] calls[k] is RollBack;
    assert(calls[k] == SubmissionCallModel::RollBack);
}

} // verus!
