//! A session that shares one engine: every case is enqueued, the engine steps
//! while work is pending, and each output goes to its case.
use crate::metal_infer::generation::{check_case_timeout, timeout_outcome};
use crate::metal_infer::session::{token_lists, SharedOutputs};
use crate::text::{cat2, cat4, decimal, decimal_text, texts};
use vstd::prelude::*;

verus! {

/// What a session waits for.
#[derive(Clone, Copy, Debug, PartialEq, Eq, Structural)]
pub enum EngineSessionStage {
    Enqueuing,
    AskingPending,
    Stepping,
    Finishing,
    Timing,
    Ended,
}

/// What the host does for a session. Requests are numbered from one in the order
/// of their cases.
#[derive(Debug)]
pub enum EngineSessionCall {
    Enqueue { case: usize, max_new_tokens: u32 },
    HasPendingWork,
    /// Launch a step and collect it.
    Step,
    FinishRequest { req_id: u64 },
    /// Report the time since the cases started.
    ReadClock,
    Completed,
    Failed { error: String },
}

pub enum EngineSessionCallModel {
    Enqueue { case: int, max_new_tokens: u32 },
    HasPendingWork,
    Step,
    FinishRequest { req_id: u64 },
    ReadClock,
    Completed,
    Failed { error: Seq<char> },
}

impl View for EngineSessionCall {
    type V = EngineSessionCallModel;

    open spec fn view(&self) -> EngineSessionCallModel {
        match *self {
            EngineSessionCall::Enqueue { case, max_new_tokens } =>
                EngineSessionCallModel::Enqueue { case: case as int, max_new_tokens },
            EngineSessionCall::HasPendingWork => EngineSessionCallModel::HasPendingWork,
            EngineSessionCall::Step => EngineSessionCallModel::Step,
            EngineSessionCall::FinishRequest { req_id } => EngineSessionCallModel::FinishRequest {
                req_id,
            },
            EngineSessionCall::ReadClock => EngineSessionCallModel::ReadClock,
            EngineSessionCall::Completed => EngineSessionCallModel::Completed,
            EngineSessionCall::Failed { error } => EngineSessionCallModel::Failed {
                error: error@,
            },
        }
    }
}

/// What the host answers.
#[derive(Debug)]
pub enum EngineSessionReply {
    Done,
    Pending { pending: bool },
    /// The outputs of a step: requests and their new tokens.
    Stepped { outputs: Vec<(u64, u32)> },
    LaunchFailed { error: String },
    CollectFailed { error: String },
    Elapsed { seconds: u64, nanos: u32 },
}

/// A session in progress.
#[derive(Debug)]
pub struct EngineSession {
    names: Vec<String>,
    limits: Vec<usize>,
    eos_token_ids: Vec<u32>,
    timeout_seconds: Option<u64>,
    outputs: SharedOutputs,
    /// The outputs of the last step, and how many of them were recorded.
    queue: Vec<(u64, u32)>,
    index: usize,
    stage: EngineSessionStage,
}

pub struct EngineSessionModel {
    pub names: Seq<Seq<char>>,
    pub limits: Seq<usize>,
    pub eos: Seq<u32>,
    pub timeout_seconds: Option<u64>,
    pub generated: Seq<Seq<u32>>,
    pub queue: Seq<(u64, u32)>,
    pub index: int,
    pub stage: EngineSessionStage,
}

impl View for EngineSession {
    type V = EngineSessionModel;

    closed spec fn view(&self) -> EngineSessionModel {
        EngineSessionModel {
            names: texts(self.names@),
            limits: self.limits@,
            eos: self.eos_token_ids@,
            timeout_seconds: self.timeout_seconds,
            generated: self.outputs@,
            queue: self.queue@,
            index: self.index as int,
            stage: self.stage,
        }
    }
}

impl EngineSessionModel {
    /// One limit and one list of tokens for each case.
    pub open spec fn well_formed(self) -> bool {
        &&& self.limits.len() == self.names.len()
        &&& self.generated.len() == self.names.len()
        &&& self.index >= 0
        &&& self.stage == EngineSessionStage::Enqueuing ==> self.index < self.names.len()
        &&& self.stage == EngineSessionStage::Finishing ==> self.index <= self.queue.len()
    }

    pub open spec fn expects(self, reply: EngineSessionReply) -> bool {
        match self.stage {
            EngineSessionStage::Enqueuing | EngineSessionStage::Finishing => reply is Done,
            EngineSessionStage::AskingPending => reply is Pending,
            EngineSessionStage::Stepping => reply is Stepped || reply is LaunchFailed
                || reply is CollectFailed,
            EngineSessionStage::Timing => reply is Elapsed,
            EngineSessionStage::Ended => false,
        }
    }

    pub open spec fn at(self, stage: EngineSessionStage) -> EngineSessionModel {
        EngineSessionModel { stage, ..self }
    }

    pub open spec fn failed(self, error: Seq<char>) -> (EngineSessionModel, EngineSessionCallModel) {
        (self.at(EngineSessionStage::Ended), EngineSessionCallModel::Failed { error })
    }

    pub open spec fn ask_pending(self) -> (EngineSessionModel, EngineSessionCallModel) {
        (self.at(EngineSessionStage::AskingPending), EngineSessionCallModel::HasPendingWork)
    }

    /// Enqueues the next case, and asks for work after the last.
    pub open spec fn enqueue_next(self) -> (EngineSessionModel, EngineSessionCallModel) {
        if self.index >= self.names.len() {
            self.ask_pending()
        } else if self.limits[self.index] > u32::MAX {
            self.failed(
                "session case "@ + self.names[self.index] + " max_new_tokens must be at most "@
                    + decimal(u32::MAX as nat),
            )
        } else {
            (
                self.at(EngineSessionStage::Enqueuing),
                EngineSessionCallModel::Enqueue {
                    case: self.index,
                    max_new_tokens: self.limits[self.index] as u32,
                },
            )
        }
    }

    /// Records the outputs that are left: one that ends its sequence finishes its
    /// request first.
    pub open spec fn record_rest(self) -> (EngineSessionModel, EngineSessionCallModel)
        decreases self.queue.len() - self.index,
    {
        if self.index >= self.queue.len() {
            (self.at(EngineSessionStage::Timing), EngineSessionCallModel::ReadClock)
        } else {
            let (req_id, token) = self.queue[self.index];
            if !(1 <= req_id <= self.generated.len()) {
                self.failed(
                    "Engine session returned unknown request id "@ + decimal(req_id as nat),
                )
            } else {
                let m = EngineSessionModel {
                    generated: self.generated.update(
                        req_id - 1,
                        self.generated[req_id - 1].push(token),
                    ),
                    index: self.index + 1,
                    ..self
                };
                if self.eos.contains(token) {
                    (
                        m.at(EngineSessionStage::Finishing),
                        EngineSessionCallModel::FinishRequest { req_id },
                    )
                } else {
                    m.record_rest()
                }
            }
        }
    }

    pub open spec fn resumed(self, reply: EngineSessionReply) -> (
        EngineSessionModel,
        EngineSessionCallModel,
    ) {
        match (self.stage, reply) {
            (EngineSessionStage::Enqueuing, _) => EngineSessionModel {
                index: self.index + 1,
                ..self
            }.enqueue_next(),
            (EngineSessionStage::AskingPending, EngineSessionReply::Pending { pending }) =>
                if pending {
                    (self.at(EngineSessionStage::Stepping), EngineSessionCallModel::Step)
                } else {
                    (self.at(EngineSessionStage::Ended), EngineSessionCallModel::Completed)
                },
            (EngineSessionStage::Stepping, EngineSessionReply::Stepped { outputs }) =>
                EngineSessionModel { queue: outputs@, index: 0, ..self }.record_rest(),
            (EngineSessionStage::Stepping, EngineSessionReply::LaunchFailed { error }) =>
                self.failed("launch Engine session step: "@ + error@),
            (EngineSessionStage::Stepping, EngineSessionReply::CollectFailed { error }) =>
                self.failed("collect Engine session step: "@ + error@),
            (EngineSessionStage::Finishing, _) => self.record_rest(),
            (EngineSessionStage::Timing, EngineSessionReply::Elapsed { seconds, nanos }) =>
                if self.names.len() > 0 && timeout_outcome(
                    self.timeout_seconds,
                    self.names[0],
                    seconds,
                    nanos,
                ) is Err {
                    self.failed(
                        timeout_outcome(
                            self.timeout_seconds,
                            self.names[0],
                            seconds,
                            nanos,
                        )->Err_0,
                    )
                } else {
                    self.ask_pending()
                },
            _ => self.ask_pending(),
        }
    }
}

/// A session before its first case is enqueued.
pub open spec fn opened(
    names: Seq<Seq<char>>,
    limits: Seq<usize>,
    eos: Seq<u32>,
    timeout_seconds: Option<u64>,
) -> EngineSessionModel {
    EngineSessionModel {
        names,
        limits,
        eos,
        timeout_seconds,
        generated: Seq::new(names.len(), |i: int| Seq::<u32>::empty()),
        queue: Seq::empty(),
        index: 0,
        stage: EngineSessionStage::Enqueuing,
    }
}

impl EngineSession {
    /// The tokens generated so far, case by case.
    pub fn into_generated(self) -> (r: Vec<Vec<u32>>)
        ensures
            token_lists(r@) == self@.generated,
    {
        self.outputs.generated
    }

    /// Starts a session of cases, given by their names and output limits.
    pub fn begin(
        names: Vec<String>,
        limits: Vec<usize>,
        eos_token_ids: Vec<u32>,
        timeout_seconds: Option<u64>,
    ) -> (r: (EngineSession, EngineSessionCall))
        requires
            limits@.len() == names@.len(),
        ensures
            (r.0@, r.1@) == opened(
                texts(names@),
                limits@,
                eos_token_ids@,
                timeout_seconds,
            ).enqueue_next(),
            r.0@.well_formed(),
    {
        let outputs = SharedOutputs::new(names.len());
        let mut session = EngineSession {
            names,
            limits,
            eos_token_ids,
            timeout_seconds,
            outputs,
            queue: Vec::new(),
            index: 0,
            stage: EngineSessionStage::Enqueuing,
        };
        assert(session@.queue =~= Seq::empty());
        assert(session@.generated =~= Seq::new(
            session@.names.len(),
            |i: int| Seq::<u32>::empty(),
        ));
        let call = session.enqueue_next();
        (session, call)
    }

    fn fail(&mut self, error: String) -> (call: EngineSessionCall)
        ensures
            (final(self)@, call@) == old(self)@.failed(error@),
    {
        self.stage = EngineSessionStage::Ended;
        EngineSessionCall::Failed { error }
    }

    fn ask_pending(&mut self) -> (call: EngineSessionCall)
        ensures
            (final(self)@, call@) == old(self)@.ask_pending(),
    {
        self.stage = EngineSessionStage::AskingPending;
        EngineSessionCall::HasPendingWork
    }

    fn enqueue_next(&mut self) -> (call: EngineSessionCall)
        requires
            old(self)@.limits.len() == old(self)@.names.len(),
        ensures
            (final(self)@, call@) == old(self)@.enqueue_next(),
    {
        assert(self@.names.len() == self.names@.len());
        if self.index >= self.names.len() {
            return self.ask_pending();
        }
        let limit: usize = self.limits[self.index];
        if limit > u32::MAX as usize {
            let most = decimal_text(u32::MAX as u64);
            let error = cat4(
                "session case ",
                self.names[self.index].as_str(),
                " max_new_tokens must be at most ",
                most.as_str(),
            );
            return self.fail(error);
        }
        self.stage = EngineSessionStage::Enqueuing;
        EngineSessionCall::Enqueue { case: self.index, max_new_tokens: limit as u32 }
    }

    fn record_rest(&mut self) -> (call: EngineSessionCall)
        requires
            old(self)@.index <= old(self)@.queue.len(),
            old(self)@.limits.len() == old(self)@.names.len(),
            old(self)@.generated.len() == old(self)@.names.len(),
        ensures
            (final(self)@, call@) == old(self)@.record_rest(),
            final(self)@.well_formed(),
    {
        while self.index < self.queue.len()
            invariant
                self@.index <= self@.queue.len(),
                self@.limits.len() == self@.names.len(),
                self@.generated.len() == self@.names.len(),
                self@.record_rest() == old(self)@.record_rest(),
            decreases self@.queue.len() - self@.index,
        {
            let (req_id, token) = self.queue[self.index];
            match self.outputs.record(req_id, token, &self.eos_token_ids) {
                Err(message) => {
                    return self.fail(message);
                },
                Ok(ends) => {
                    self.index = self.index + 1;
                    if ends {
                        self.stage = EngineSessionStage::Finishing;
                        return EngineSessionCall::FinishRequest { req_id };
                    }
                },
            }
        }
        self.stage = EngineSessionStage::Timing;
        EngineSessionCall::ReadClock
    }

    fn check_clock(&mut self, seconds: u64, nanos: u32) -> (call: EngineSessionCall)
        requires
            old(self)@.well_formed(),
            old(self)@.stage == EngineSessionStage::Timing,
        ensures
            (final(self)@, call@) == old(self)@.resumed(
                EngineSessionReply::Elapsed { seconds, nanos },
            ),
            final(self)@.well_formed(),
    {
        assert(self@.names.len() == self.names@.len());
        if self.names.len() > 0 {
            assert(self@.names[0] == self.names@[0]@);
            match check_case_timeout(
                self.timeout_seconds,
                self.names[0].as_str(),
                seconds,
                nanos,
            ) {
                Err(message) => {
                    return self.fail(message);
                },
                Ok(_) => {},
            }
        }
        self.ask_pending()
    }

    /// Takes the reply to the last call, and makes the next one.
    pub fn resume(&mut self, reply: EngineSessionReply) -> (call: EngineSessionCall)
        requires
            old(self)@.well_formed(),
            old(self)@.expects(reply),
        ensures
            final(self)@.well_formed(),
            (final(self)@, call@) == old(self)@.resumed(reply),
    {
        match self.stage {
            EngineSessionStage::Enqueuing => {
                let total: usize = self.names.len();
                assert(self.index < total);
                self.index = self.index + 1;
                self.enqueue_next()
            },
            EngineSessionStage::AskingPending => match reply {
                EngineSessionReply::Pending { pending: true } => {
                    self.stage = EngineSessionStage::Stepping;
                    EngineSessionCall::Step
                },
                _ => {
                    self.stage = EngineSessionStage::Ended;
                    EngineSessionCall::Completed
                },
            },
            EngineSessionStage::Stepping => match reply {
                EngineSessionReply::Stepped { outputs } => {
                    self.queue = outputs;
                    self.index = 0;
                    self.record_rest()
                },
                EngineSessionReply::LaunchFailed { error } => {
                    let message = cat2("launch Engine session step: ", error.as_str());
                    self.fail(message)
                },
                EngineSessionReply::CollectFailed { error } => {
                    let message = cat2("collect Engine session step: ", error.as_str());
                    self.fail(message)
                },
                _ => self.ask_pending(),
            },
            EngineSessionStage::Finishing => self.record_rest(),
            EngineSessionStage::Timing => match reply {
                EngineSessionReply::Elapsed { seconds, nanos } => self.check_clock(seconds, nanos),
                _ => self.ask_pending(),
            },
            EngineSessionStage::Ended => self.ask_pending(),
        }
    }
}

// ---------------------------------------------------------------------------
// Laws
// ---------------------------------------------------------------------------

/// How many tokens all cases hold.
pub open spec fn total(lists: Seq<Seq<u32>>) -> nat
    decreases lists.len(),
{
    if lists.len() == 0 {
        0
    } else {
        total(lists.drop_last()) + lists.last().len()
    }
}

proof fn total_of_update(lists: Seq<Seq<u32>>, i: int, token: u32)
    requires
        0 <= i < lists.len(),
    ensures
        total(lists.update(i, lists[i].push(token))) == total(lists) + 1,
    decreases lists.len(),
{
    let next = lists.update(i, lists[i].push(token));
    if i == lists.len() - 1 {
        assert(next.drop_last() =~= lists.drop_last());
    } else {
        assert(next.drop_last() =~= lists.drop_last().update(i, lists.drop_last()[i].push(token)));
        total_of_update(lists.drop_last(), i, token);
    }
}

/// Each output is recorded once: the tokens that the cases gain are the outputs
/// that were consumed.
pub proof fn outputs_are_recorded_once(m: EngineSessionModel)
    requires
        m.well_formed(),
        m.stage != EngineSessionStage::Enqueuing,
        m.index <= m.queue.len(),
    ensures
        ({
            let next = m.record_rest().0;
            total(next.generated) - total(m.generated) == next.index - m.index
        }),
        !(m.record_rest().1 is Failed) && !(m.record_rest().1 is FinishRequest)
            ==> m.record_rest().0.index == m.queue.len(),
    decreases m.queue.len() - m.index,
{
    if m.index < m.queue.len() {
        let (req_id, token) = m.queue[m.index];
        if 1 <= req_id <= m.generated.len() {
            total_of_update(m.generated, req_id - 1, token);
            let next = EngineSessionModel {
                generated: m.generated.update(req_id - 1, m.generated[req_id - 1].push(token)),
                index: m.index + 1,
                ..m
            };
            if !m.eos.contains(token) {
                outputs_are_recorded_once(next);
            }
        }
    }
}

} // verus!
