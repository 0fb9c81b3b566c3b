//! The completion of a submitted step, as a conversation with the backend, the
//! scheduler and the allocator: what is committed, surfaced and released, in
//! which order, and how a failure is undone.
use crate::engine::decisions::{
    completed_spans, output_of, plan_requests, span_count, spans_ascend, surfaced, BatchPlan,
    Engine, StepOutput, StepToken,
};
use crate::engine::laws::{ended, held_back};
use crate::engine::types::{
    kv_error, paged_kv_error, refused, scheduler_transition_error, EngineError, PagedKvError,
    Refusal,
};
use std::collections::HashSet;
use vstd::prelude::*;

verus! {

/// Why a step does not complete.
#[derive(Clone, Copy, Debug, PartialEq, Eq, Structural)]
pub enum StepFault {
    /// The backend failed; the host holds its error.
    Backend,
    Engine { error: EngineError },
}

/// What a completion waits for.
#[derive(Clone, Copy, Debug, PartialEq, Eq, Structural)]
pub enum CompletionStage {
    Collecting,
    SurfacingTokens,
    CommittingDecode,
    Finishing,
    SpanningPrefill,
    CommittingPrefill,
    ClearingFlight,
    RollingBack,
    FindingCancelled,
    ReleasingCancelled,
    FindingTerminal,
    ReleasingTerminal,
    Ended,
}

/// A call that the host performs for a completion.
#[derive(Debug)]
pub enum CompletionCall {
    /// Collect the backend's tokens.
    Collect,
    /// Ask the scheduler which requests are alive.
    QueryAlive,
    CommitDecode { decoded: Vec<(u64, u32)> },
    FinishRequest { req_id: u64 },
    CommitPrefill { completed: Vec<(u64, u32)> },
    /// The accelerator no longer uses the step's requests.
    ClearInFlight,
    /// Undo the step's reservation.
    RollBack,
    /// Release a request's pages.
    Release { req_id: u64 },
    Completed { outputs: Vec<StepOutput> },
    Failed { fault: StepFault },
}

pub enum CompletionCallModel {
    Collect,
    QueryAlive,
    CommitDecode { decoded: Seq<(u64, u32)> },
    FinishRequest { req_id: u64 },
    CommitPrefill { completed: Seq<(u64, u32)> },
    ClearInFlight,
    RollBack,
    Release { req_id: u64 },
    Completed { outputs: Seq<StepOutput> },
    Failed { fault: StepFault },
}

impl View for CompletionCall {
    type V = CompletionCallModel;

    open spec fn view(&self) -> CompletionCallModel {
        match *self {
            CompletionCall::Collect => CompletionCallModel::Collect,
            CompletionCall::QueryAlive => CompletionCallModel::QueryAlive,
            CompletionCall::CommitDecode { decoded } => CompletionCallModel::CommitDecode {
                decoded: decoded@,
            },
            CompletionCall::FinishRequest { req_id } => CompletionCallModel::FinishRequest {
                req_id,
            },
            CompletionCall::CommitPrefill { completed } => CompletionCallModel::CommitPrefill {
                completed: completed@,
            },
            CompletionCall::ClearInFlight => CompletionCallModel::ClearInFlight,
            CompletionCall::RollBack => CompletionCallModel::RollBack,
            CompletionCall::Release { req_id } => CompletionCallModel::Release { req_id },
            CompletionCall::Completed { outputs } => CompletionCallModel::Completed {
                outputs: outputs@,
            },
            CompletionCall::Failed { fault } => CompletionCallModel::Failed { fault },
        }
    }
}

/// What the host answers.
pub enum CompletionReply {
    Tokens { tokens: Vec<StepToken> },
    BackendFailed,
    Alive { alive: HashSet<u64> },
    /// The scheduler committed the prefill, or names the request it refused.
    Prefill { outcome: Result<(), Option<u64>> },
    Released { outcome: Result<(), PagedKvError> },
    Done,
}

/// A completion in progress.
#[derive(Debug)]
pub struct Completion {
    req_ids: Vec<u64>,
    /// The spans of a prefill.
    spans: Option<Vec<u32>>,
    tokens: Vec<StepToken>,
    outputs: Vec<StepOutput>,
    /// The requests that are finished or released, one after the other.
    queue: Vec<u64>,
    index: usize,
    fault: Option<StepFault>,
    stage: CompletionStage,
}

pub struct CompletionModel {
    pub req_ids: Seq<u64>,
    pub spans: Option<Seq<u32>>,
    pub tokens: Seq<StepToken>,
    pub outputs: Seq<StepOutput>,
    pub queue: Seq<u64>,
    pub index: int,
    pub fault: Option<StepFault>,
    pub stage: CompletionStage,
}

impl View for Completion {
    type V = CompletionModel;

    closed spec fn view(&self) -> CompletionModel {
        CompletionModel {
            req_ids: self.req_ids@,
            spans: match self.spans {
                Some(spans) => Some(spans@),
                None => None,
            },
            tokens: self.tokens@,
            outputs: self.outputs@,
            queue: self.queue@,
            index: self.index as int,
            fault: self.fault,
            stage: self.stage,
        }
    }
}

impl CompletionModel {
    pub open spec fn well_formed(self) -> bool {
        &&& self.index >= 0
        &&& self.spans is Some ==> spans_ascend(self.spans->0)
        &&& self.stage == CompletionStage::SpanningPrefill ==> self.spans is Some
        &&& match self.stage {
            CompletionStage::Finishing
            | CompletionStage::ReleasingCancelled
            | CompletionStage::ReleasingTerminal => 0 <= self.index < self.queue.len(),
            _ => true,
        }
    }

    pub open spec fn expects(self, reply: CompletionReply) -> bool {
        match self.stage {
            CompletionStage::Collecting => reply is Tokens || reply is BackendFailed,
            CompletionStage::SurfacingTokens
            | CompletionStage::SpanningPrefill
            | CompletionStage::FindingCancelled
            | CompletionStage::FindingTerminal => reply is Alive,
            CompletionStage::CommittingPrefill => reply is Prefill,
            CompletionStage::ReleasingCancelled | CompletionStage::ReleasingTerminal =>
                reply is Released,
            CompletionStage::Ended => false,
            _ => reply is Done,
        }
    }

    pub open spec fn at(self, stage: CompletionStage) -> CompletionModel {
        CompletionModel { stage, ..self }
    }

    pub open spec fn asks(self, stage: CompletionStage) -> (CompletionModel, CompletionCallModel) {
        (self.at(stage), CompletionCallModel::QueryAlive)
    }

    pub open spec fn clear(self) -> (CompletionModel, CompletionCallModel) {
        (self.at(CompletionStage::ClearingFlight), CompletionCallModel::ClearInFlight)
    }

    pub open spec fn failed(self, fault: StepFault) -> (CompletionModel, CompletionCallModel) {
        (self.at(CompletionStage::Ended), CompletionCallModel::Failed { fault })
    }

    /// A prefill commits its spans; a decode has none.
    pub open spec fn commit_prefill(self) -> (CompletionModel, CompletionCallModel) {
        if self.spans is Some {
            self.asks(CompletionStage::SpanningPrefill)
        } else {
            self.clear()
        }
    }

    /// The next request to finish, then the prefill.
    pub open spec fn finish_next(self) -> (CompletionModel, CompletionCallModel) {
        if self.index < self.queue.len() {
            (
                self.at(CompletionStage::Finishing),
                CompletionCallModel::FinishRequest { req_id: self.queue[self.index] },
            )
        } else {
            self.commit_prefill()
        }
    }

    /// The next cancelled request to release, then the fault or the terminal
    /// requests.
    pub open spec fn release_cancelled(self) -> (CompletionModel, CompletionCallModel) {
        if self.index < self.queue.len() {
            (
                self.at(CompletionStage::ReleasingCancelled),
                CompletionCallModel::Release { req_id: self.queue[self.index] },
            )
        } else if self.fault is Some {
            self.failed(self.fault->0)
        } else {
            self.asks(CompletionStage::FindingTerminal)
        }
    }

    /// The next terminal request to release, then the outputs.
    pub open spec fn release_terminal(self) -> (CompletionModel, CompletionCallModel) {
        if self.index < self.queue.len() {
            (
                self.at(CompletionStage::ReleasingTerminal),
                CompletionCallModel::Release { req_id: self.queue[self.index] },
            )
        } else {
            (
                self.at(CompletionStage::Ended),
                CompletionCallModel::Completed { outputs: self.outputs },
            )
        }
    }

    /// What the tokens of live requests commit and surface.
    pub open spec fn surfacing(self, alive: Set<u64>) -> (CompletionModel, CompletionCallModel) {
        let live = surfaced(self.tokens, alive);
        let m = CompletionModel {
            outputs: live.map_values(|t: StepToken| output_of(t)),
            queue: live.filter(|t: StepToken| t.finished).map_values(|t: StepToken| t.req_id),
            index: 0,
            ..self
        };
        if live.len() > 0 {
            (
                m.at(CompletionStage::CommittingDecode),
                CompletionCallModel::CommitDecode {
                    decoded: live.map_values(|t: StepToken| (t.req_id, t.token_id)),
                },
            )
        } else {
            m.commit_prefill()
        }
    }

    /// A pool's answer to a release: the next one, or the error.
    pub open spec fn released(self, outcome: Result<(), PagedKvError>) -> (
        CompletionModel,
        CompletionCallModel,
    ) {
        match outcome {
            Err(e) => self.failed(
                StepFault::Engine { error: kv_error(e, Some(self.queue[self.index])) },
            ),
            Ok(_) => {
                let m = CompletionModel { index: self.index + 1, ..self };
                if self.stage == CompletionStage::ReleasingCancelled {
                    m.release_cancelled()
                } else {
                    m.release_terminal()
                }
            },
        }
    }

    /// The completion and its call after a reply. `managed` are the requests whose
    /// pages cache attachments own.
    pub open spec fn resumed(self, reply: CompletionReply, managed: Set<u64>, paged_kv: bool) -> (
        CompletionModel,
        CompletionCallModel,
    ) {
        match (self.stage, reply) {
            (CompletionStage::Collecting, CompletionReply::Tokens { tokens }) => CompletionModel {
                tokens: tokens@,
                ..self
            }.asks(CompletionStage::SurfacingTokens),
            (CompletionStage::Collecting, CompletionReply::BackendFailed) => CompletionModel {
                fault: Some(StepFault::Backend),
                ..self
            }.clear(),
            (CompletionStage::SurfacingTokens, CompletionReply::Alive { alive }) =>
                self.surfacing(alive@),
            (CompletionStage::CommittingDecode, CompletionReply::Done) => self.finish_next(),
            (CompletionStage::Finishing, CompletionReply::Done) => CompletionModel {
                index: self.index + 1,
                ..self
            }.finish_next(),
            (CompletionStage::SpanningPrefill, CompletionReply::Alive { alive }) => (
                self.at(CompletionStage::CommittingPrefill),
                CompletionCallModel::CommitPrefill {
                    completed: completed_spans(
                        self.req_ids,
                        self.spans->0,
                        alive@,
                        span_count(self.req_ids, self.spans->0),
                    ),
                },
            ),
            (CompletionStage::CommittingPrefill, CompletionReply::Prefill { outcome }) =>
                match outcome {
                    Ok(_) => self.clear(),
                    Err(req_id) => CompletionModel {
                        fault: Some(
                            StepFault::Engine {
                                error: refused(req_id, Refusal::PrefillNotCommitted),
                            },
                        ),
                        ..self
                    }.clear(),
                },
            (CompletionStage::ClearingFlight, CompletionReply::Done) => if self.fault is Some {
                (self.at(CompletionStage::RollingBack), CompletionCallModel::RollBack)
            } else {
                self.asks(CompletionStage::FindingCancelled)
            },
            (CompletionStage::RollingBack, CompletionReply::Done) => self.asks(
                CompletionStage::FindingCancelled,
            ),
            (CompletionStage::FindingCancelled, CompletionReply::Alive { alive }) =>
                CompletionModel {
                    queue: held_back(self.req_ids, alive@, managed, paged_kv),
                    index: 0,
                    ..self
                }.release_cancelled(),
            (CompletionStage::ReleasingCancelled, CompletionReply::Released { outcome }) =>
                self.released(outcome),
            (CompletionStage::FindingTerminal, CompletionReply::Alive { alive }) =>
                CompletionModel {
                    queue: ended(self.outputs, alive@, managed, paged_kv).map_values(
                        |o: StepOutput| o.req_id,
                    ),
                    index: 0,
                    ..self
                }.release_terminal(),
            (CompletionStage::ReleasingTerminal, CompletionReply::Released { outcome }) =>
                self.released(outcome),
            _ => (self, CompletionCallModel::QueryAlive),
        }
    }
}

/// A completion before its first reply.
pub open spec fn opened(plan: BatchPlan) -> CompletionModel {
    CompletionModel {
        req_ids: plan_requests(plan),
        spans: match plan {
            BatchPlan::Prefill { cu_seqlens_q, .. } => Some(cu_seqlens_q@),
            _ => None,
        },
        tokens: Seq::empty(),
        outputs: Seq::empty(),
        queue: Seq::empty(),
        index: 0,
        fault: None,
        stage: CompletionStage::Collecting,
    }
}

/// The spans of a prefill ascend.
pub open spec fn plan_ascends(plan: BatchPlan) -> bool {
    match plan {
        BatchPlan::Prefill { cu_seqlens_q, .. } => spans_ascend(cu_seqlens_q@),
        _ => true,
    }
}

impl Completion {
    /// Starts the completion of a submitted plan. A step that launched nothing
    /// has nothing to collect.
    pub fn begin(plan: BatchPlan, launched: bool) -> (r: (Completion, CompletionCall))
        requires
            plan_ascends(plan),
        ensures
            (r.0@, r.1@) == if launched {
                (opened(plan), CompletionCallModel::Collect)
            } else {
                opened(plan).commit_prefill()
            },
            r.0@.well_formed(),
    {
        let req_ids = plan.req_ids();
        let spans = match plan {
            BatchPlan::Prefill { cu_seqlens_q, .. } => Some(cu_seqlens_q),
            _ => None,
        };
        let mut completion = Completion {
            req_ids,
            spans,
            tokens: Vec::new(),
            outputs: Vec::new(),
            queue: Vec::new(),
            index: 0,
            fault: None,
            stage: CompletionStage::Collecting,
        };
        assert(completion@.tokens =~= Seq::empty());
        assert(completion@.outputs =~= Seq::empty());
        assert(completion@.queue =~= Seq::empty());
        if launched {
            return (completion, CompletionCall::Collect);
        }
        let call = completion.commit_prefill();
        (completion, call)
    }

    fn ask(&mut self, stage: CompletionStage) -> (call: CompletionCall)
        ensures
            (final(self)@, call@) == old(self)@.asks(stage),
    {
        self.stage = stage;
        CompletionCall::QueryAlive
    }

    fn clear(&mut self) -> (call: CompletionCall)
        ensures
            (final(self)@, call@) == old(self)@.clear(),
    {
        self.stage = CompletionStage::ClearingFlight;
        CompletionCall::ClearInFlight
    }

    fn commit_prefill(&mut self) -> (call: CompletionCall)
        ensures
            (final(self)@, call@) == old(self)@.commit_prefill(),
    {
        if self.spans.is_some() {
            self.ask(CompletionStage::SpanningPrefill)
        } else {
            self.clear()
        }
    }

    fn finish_next(&mut self) -> (call: CompletionCall)
        ensures
            (final(self)@, call@) == old(self)@.finish_next(),
    {
        if self.index < self.queue.len() {
            self.stage = CompletionStage::Finishing;
            CompletionCall::FinishRequest { req_id: self.queue[self.index] }
        } else {
            self.commit_prefill()
        }
    }

    fn release_cancelled(&mut self) -> (call: CompletionCall)
        ensures
            (final(self)@, call@) == old(self)@.release_cancelled(),
    {
        if self.index < self.queue.len() {
            self.stage = CompletionStage::ReleasingCancelled;
            return CompletionCall::Release { req_id: self.queue[self.index] };
        }
        match self.fault {
            Some(fault) => {
                self.stage = CompletionStage::Ended;
                CompletionCall::Failed { fault }
            },
            None => self.ask(CompletionStage::FindingTerminal),
        }
    }

    fn release_terminal(&mut self) -> (call: CompletionCall)
        ensures
            (final(self)@, call@) == old(self)@.release_terminal(),
    {
        if self.index < self.queue.len() {
            self.stage = CompletionStage::ReleasingTerminal;
            return CompletionCall::Release { req_id: self.queue[self.index] };
        }
        self.stage = CompletionStage::Ended;
        CompletionCall::Completed { outputs: self.outputs.clone() }
    }

    fn surface(&mut self, engine: &Engine, alive: &HashSet<u64>) -> (call: CompletionCall)
        ensures
            (final(self)@, call@) == old(self)@.surfacing(alive@),
    {
        let collected = engine.collect_submitted(&self.tokens, alive);
        self.outputs = collected.outputs;
        self.queue = collected.finished;
        self.index = 0;
        if collected.decoded.len() > 0 {
            self.stage = CompletionStage::CommittingDecode;
            return CompletionCall::CommitDecode { decoded: collected.decoded };
        }
        self.commit_prefill()
    }

    fn span(&mut self, engine: &Engine, alive: &HashSet<u64>) -> (call: CompletionCall)
        requires
            old(self)@.well_formed(),
            old(self)@.spans is Some,
        ensures
            final(self)@ == old(self)@.at(CompletionStage::CommittingPrefill),
            call@ == (CompletionCallModel::CommitPrefill {
                completed: completed_spans(
                    old(self)@.req_ids,
                    old(self)@.spans->0,
                    alive@,
                    span_count(old(self)@.req_ids, old(self)@.spans->0),
                ),
            }),
    {
        let completed = match &self.spans {
            Some(spans) => engine.completed_prefills(&self.req_ids, spans, alive),
            None => Vec::new(),
        };
        self.stage = CompletionStage::CommittingPrefill;
        CompletionCall::CommitPrefill { completed }
    }

    fn take_release(&mut self, outcome: Result<(), PagedKvError>) -> (call: CompletionCall)
        requires
            old(self)@.well_formed(),
            old(self)@.stage == CompletionStage::ReleasingCancelled || old(self)@.stage
                == CompletionStage::ReleasingTerminal,
        ensures
            (final(self)@, call@) == old(self)@.released(outcome),
    {
        match outcome {
            Err(e) => {
                let error = paged_kv_error(e, Some(self.queue[self.index]));
                self.stage = CompletionStage::Ended;
                CompletionCall::Failed { fault: StepFault::Engine { error } }
            },
            Ok(_) => {
                let total: usize = self.queue.len();
                assert(self.index < total);
                self.index = self.index + 1;
                if matches!(self.stage, CompletionStage::ReleasingCancelled) {
                    self.release_cancelled()
                } else {
                    self.release_terminal()
                }
            },
        }
    }

    /// Takes the reply to the last call, and makes the next one.
    pub fn resume(&mut self, engine: &Engine, reply: CompletionReply) -> (call: CompletionCall)
        requires
            old(self)@.well_formed(),
            old(self)@.expects(reply),
        ensures
            final(self)@.well_formed(),
            (final(self)@, call@) == old(self)@.resumed(reply, engine.managed(), engine.paged_kv),
    {
        match self.stage {
            CompletionStage::Collecting => match reply {
                CompletionReply::Tokens { tokens } => {
                    self.tokens = tokens;
                    self.ask(CompletionStage::SurfacingTokens)
                },
                _ => {
                    self.fault = Some(StepFault::Backend);
                    self.clear()
                },
            },
            CompletionStage::SurfacingTokens => match reply {
                CompletionReply::Alive { alive } => self.surface(engine, &alive),
                _ => CompletionCall::QueryAlive,
            },
            CompletionStage::CommittingDecode => self.finish_next(),
            CompletionStage::Finishing => {
                let total: usize = self.queue.len();
                assert(self.index < total);
                self.index = self.index + 1;
                self.finish_next()
            },
            CompletionStage::SpanningPrefill => match reply {
                CompletionReply::Alive { alive } => self.span(engine, &alive),
                _ => CompletionCall::QueryAlive,
            },
            CompletionStage::CommittingPrefill => match reply {
                CompletionReply::Prefill { outcome: Err(req_id) } => {
                    self.fault = Some(
                        StepFault::Engine {
                            error: scheduler_transition_error(req_id, Refusal::PrefillNotCommitted),
                        },
                    );
                    self.clear()
                },
                _ => self.clear(),
            },
            CompletionStage::ClearingFlight => {
                if self.fault.is_some() {
                    self.stage = CompletionStage::RollingBack;
                    CompletionCall::RollBack
                } else {
                    self.ask(CompletionStage::FindingCancelled)
                }
            },
            CompletionStage::RollingBack => self.ask(CompletionStage::FindingCancelled),
            CompletionStage::FindingCancelled => match reply {
                CompletionReply::Alive { alive } => {
                    self.queue = engine.release_cancelled_step_kv(&self.req_ids, &alive);
                    self.index = 0;
                    self.release_cancelled()
                },
                _ => CompletionCall::QueryAlive,
            },
            CompletionStage::FindingTerminal => match reply {
                CompletionReply::Alive { alive } => {
                    self.queue = engine.release_terminal_kv(&self.outputs, &alive);
                    self.index = 0;
                    self.release_terminal()
                },
                _ => CompletionCall::QueryAlive,
            },
            CompletionStage::ReleasingCancelled | CompletionStage::ReleasingTerminal => match reply {
                CompletionReply::Released { outcome } => self.take_release(outcome),
                _ => CompletionCall::QueryAlive,
            },
            CompletionStage::Ended => CompletionCall::QueryAlive,
        }
    }
}

// ---------------------------------------------------------------------------
// Laws
// ---------------------------------------------------------------------------

/// The completion and its call after some replies.
pub open spec fn after(
    plan: BatchPlan,
    launched: bool,
    managed: Set<u64>,
    paged_kv: bool,
    replies: Seq<CompletionReply>,
) -> (CompletionModel, CompletionCallModel)
    decreases replies.len(),
{
    if replies.len() == 0 {
        if launched {
            (opened(plan), CompletionCallModel::Collect)
        } else {
            opened(plan).commit_prefill()
        }
    } else {
        after(plan, launched, managed, paged_kv, replies.drop_last()).0.resumed(
            replies.last(),
            managed,
            paged_kv,
        )
    }
}

/// Whether every reply answers the call before it.
pub open spec fn answering(
    plan: BatchPlan,
    launched: bool,
    managed: Set<u64>,
    paged_kv: bool,
    replies: Seq<CompletionReply>,
) -> bool
    decreases replies.len(),
{
    replies.len() > 0 ==> answering(plan, launched, managed, paged_kv, replies.drop_last())
        && after(plan, launched, managed, paged_kv, replies.drop_last()).0.expects(replies.last())
}

/// The calls made so far, in order.
pub open spec fn calls(
    plan: BatchPlan,
    launched: bool,
    managed: Set<u64>,
    paged_kv: bool,
    replies: Seq<CompletionReply>,
) -> Seq<CompletionCallModel>
    decreases replies.len(),
{
    let last = after(plan, launched, managed, paged_kv, replies).1;
    if replies.len() == 0 {
        seq![last]
    } else {
        calls(plan, launched, managed, paged_kv, replies.drop_last()).push(last)
    }
}

pub open spec fn cleared(stage: CompletionStage) -> bool {
    match stage {
        CompletionStage::RollingBack
        | CompletionStage::FindingCancelled
        | CompletionStage::ReleasingCancelled
        | CompletionStage::FindingTerminal
        | CompletionStage::ReleasingTerminal
        | CompletionStage::Ended => true,
        _ => false,
    }
}

pub open spec fn orderly(m: CompletionModel) -> bool {
    &&& m.well_formed()
    &&& m.fault is Some && !cleared(m.stage) ==> m.stage == CompletionStage::ClearingFlight
    &&& m.stage == CompletionStage::FindingTerminal || m.stage
        == CompletionStage::ReleasingTerminal ==> m.fault is None
}

proof fn completion_step(
    m: CompletionModel,
    reply: CompletionReply,
    managed: Set<u64>,
    paged_kv: bool,
)
    requires
        orderly(m),
        m.expects(reply),
    ensures
        ({
            let (next, call) = m.resumed(reply, managed, paged_kv);
            &&& orderly(next)
            &&& next.stage == CompletionStage::ClearingFlight ==> call is ClearInFlight
            &&& cleared(next.stage) ==> cleared(m.stage) || m.stage
                == CompletionStage::ClearingFlight
            &&& next.fault is Some && cleared(next.stage) ==> call is RollBack || (m.fault is Some
                && cleared(m.stage))
            &&& call is Completed ==> next.fault is None
            &&& call is Completed || call is Failed ==> next.stage == CompletionStage::Ended
            &&& call is RollBack || m.fault is Some ==> next.fault is Some
        }),
{
}

proof fn completion_trace(
    plan: BatchPlan,
    launched: bool,
    managed: Set<u64>,
    paged_kv: bool,
    replies: Seq<CompletionReply>,
)
    requires
        plan_ascends(plan),
        answering(plan, launched, managed, paged_kv, replies),
    ensures
        ({
            let (m, call) = after(plan, launched, managed, paged_kv, replies);
            let made = calls(plan, launched, managed, paged_kv, replies);
            &&& orderly(m)
            &&& made.len() == replies.len() + 1
            &&& made.last() == call
            &&& m.stage == CompletionStage::ClearingFlight || cleared(m.stage) ==> made.contains(
                CompletionCallModel::ClearInFlight,
            )
            &&& m.fault is Some && cleared(m.stage) ==> made.contains(CompletionCallModel::RollBack)
            &&& call is Completed ==> m.fault is None
            &&& call is Completed || call is Failed ==> m.stage == CompletionStage::Ended
            &&& made.contains(CompletionCallModel::RollBack) ==> m.fault is Some
        }),
    decreases replies.len(),
{
    let made = calls(plan, launched, managed, paged_kv, replies);
    let (m, call) = after(plan, launched, managed, paged_kv, replies);
    if replies.len() > 0 {
        let before = replies.drop_last();
        completion_trace(plan, launched, managed, paged_kv, before);
        completion_step(
            after(plan, launched, managed, paged_kv, before).0,
            replies.last(),
            managed,
            paged_kv,
        );
        let old_made = calls(plan, launched, managed, paged_kv, before);
        assert(made == old_made.push(call));
        assert(made[made.len() - 1] == call);
        if old_made.contains(CompletionCallModel::ClearInFlight) {
            let i = choose|i: int|
                0 <= i < old_made.len() && old_made[i] == CompletionCallModel::ClearInFlight;
            assert(made[i] == CompletionCallModel::ClearInFlight);
        }
        if old_made.contains(CompletionCallModel::RollBack) {
            let i = choose|i: int|
                0 <= i < old_made.len() && old_made[i] == CompletionCallModel::RollBack;
            assert(made[i] == CompletionCallModel::RollBack);
        }
        if made.contains(CompletionCallModel::RollBack) && !(call is RollBack) {
            let i = choose|i: int|
                0 <= i < made.len() && made[i] == CompletionCallModel::RollBack;
            assert(old_made[i] == CompletionCallModel::RollBack);
        }
    } else {
        assert(made[0] == call);
    }
}

/// However a step completes, its requests are no longer marked as in flight.
pub proof fn completions_clear_the_flight(
    plan: BatchPlan,
    launched: bool,
    managed: Set<u64>,
    paged_kv: bool,
    replies: Seq<CompletionReply>,
)
    requires
        plan_ascends(plan),
        answering(plan, launched, managed, paged_kv, replies),
        after(plan, launched, managed, paged_kv, replies).1 is Completed || after(
            plan,
            launched,
            managed,
            paged_kv,
            replies,
        ).1 is Failed,
    ensures
        calls(plan, launched, managed, paged_kv, replies).contains(
            CompletionCallModel::ClearInFlight,
        ),
{
    completion_trace(plan, launched, managed, paged_kv, replies);
}

/// A reservation is undone exactly where the backend or the prefill's commit
/// failed, and a step that was undone surfaces nothing.
pub proof fn failed_steps_are_rolled_back(
    plan: BatchPlan,
    launched: bool,
    managed: Set<u64>,
    paged_kv: bool,
    replies: Seq<CompletionReply>,
)
    requires
        plan_ascends(plan),
        answering(plan, launched, managed, paged_kv, replies),
    ensures
        ({
            let (m, call) = after(plan, launched, managed, paged_kv, replies);
            let made = calls(plan, launched, managed, paged_kv, replies);
            &&& call is Completed ==> !made.contains(CompletionCallModel::RollBack)
            &&& call is Failed && m.fault is Some ==> made.contains(CompletionCallModel::RollBack)
        }),
{
    completion_trace(plan, launched, managed, paged_kv, replies);
}

} // verus!
