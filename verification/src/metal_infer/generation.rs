//! Greedy generation of one case on a backend: a prefill, then one decode at a
//! time until an end-of-sequence token, the length limit, a timeout or an
//! error. The host performs the calls; every reply yields the next one.
use crate::metal_infer::args::FinishReason;
use crate::text::{cat2, cat3, cat4, cat5, decimal, decimal_text, told};
use vstd::prelude::*;

verus! {

/// What a launch hands to the backend for one request.
#[derive(Debug)]
pub struct Handoff {
    pub req_id: u64,
    pub tokens: Vec<u32>,
    pub cu_seqlens: Vec<u32>,
    pub positions: Vec<u32>,
    pub context_lens: Vec<u32>,
}

pub struct HandoffModel {
    pub req_id: u64,
    pub tokens: Seq<u32>,
    pub cu_seqlens: Seq<u32>,
    pub positions: Seq<u32>,
    pub context_lens: Seq<u32>,
}

impl View for Handoff {
    type V = HandoffModel;

    open spec fn view(&self) -> HandoffModel {
        HandoffModel {
            req_id: self.req_id,
            tokens: self.tokens@,
            cu_seqlens: self.cu_seqlens@,
            positions: self.positions@,
            context_lens: self.context_lens@,
        }
    }
}

/// The whole prompt at once; its last token's position is the one that counts.
pub open spec fn prefill_of(req_id: u64, prompt: Seq<u32>) -> HandoffModel {
    HandoffModel {
        req_id,
        tokens: prompt,
        cu_seqlens: seq![0u32, prompt.len() as u32],
        positions: seq![(prompt.len() - 1) as u32],
        context_lens: seq![prompt.len() as u32],
    }
}

/// One token after `step` decoded ones. The first decode takes the prompt's
/// last token at its own position.
pub open spec fn decode_of(req_id: u64, token: u32, prompt_len: int, step: int) -> HandoffModel {
    HandoffModel {
        req_id,
        tokens: seq![token],
        cu_seqlens: seq![0u32, 1u32],
        positions: seq![(prompt_len - 1 + step) as u32],
        context_lens: seq![(prompt_len + step) as u32],
    }
}

/// Where a generation reads the clock.
#[derive(Clone, Copy, Debug, PartialEq, Eq, Structural)]
pub enum ClockPoint {
    Step,
    End(FinishReason),
}

/// What a generation waits for.
#[derive(Clone, Copy, Debug, PartialEq, Eq, Structural)]
pub enum GenerationStage {
    Prefilling,
    Decoding,
    Timing(ClockPoint),
    Finished,
}

/// What the host does for a generation.
#[derive(Debug)]
pub enum GenerationCall {
    Prefill { handoff: Handoff },
    Decode { handoff: Handoff },
    /// Report the time since the case started.
    ReadClock,
    Finished { reason: FinishReason },
    Failed { error: String },
}

pub enum GenerationCallModel {
    Prefill { handoff: HandoffModel },
    Decode { handoff: HandoffModel },
    ReadClock,
    Finished { reason: FinishReason },
    Failed { error: Seq<char> },
}

impl View for GenerationCall {
    type V = GenerationCallModel;

    open spec fn view(&self) -> GenerationCallModel {
        match self {
            GenerationCall::Prefill { handoff } => GenerationCallModel::Prefill {
                handoff: handoff@,
            },
            GenerationCall::Decode { handoff } => GenerationCallModel::Decode {
                handoff: handoff@,
            },
            GenerationCall::ReadClock => GenerationCallModel::ReadClock,
            GenerationCall::Finished { reason } => GenerationCallModel::Finished {
                reason: *reason,
            },
            GenerationCall::Failed { error } => GenerationCallModel::Failed { error: error@ },
        }
    }
}

/// What the host answers.
#[derive(Debug)]
pub enum GenerationReply {
    LaunchFailed(String),
    CollectFailed(String),
    Sampled(Vec<u32>),
    Elapsed { seconds: u64, nanos: u32 },
}

/// A generation in progress.
#[derive(Debug)]
pub struct Generation {
    /// What precedes its error messages.
    label: String,
    case_name: String,
    req_id: u64,
    prompt: Vec<u32>,
    max_new_tokens: usize,
    eos_token_ids: Vec<u32>,
    timeout_seconds: Option<u64>,
    generated: Vec<u32>,
    stage: GenerationStage,
}

pub struct GenerationModel {
    pub label: Seq<char>,
    pub case_name: Seq<char>,
    pub req_id: u64,
    pub prompt: Seq<u32>,
    pub max_new_tokens: usize,
    pub eos_token_ids: Seq<u32>,
    pub timeout_seconds: Option<u64>,
    pub generated: Seq<u32>,
    pub stage: GenerationStage,
}

impl View for Generation {
    type V = GenerationModel;

    closed spec fn view(&self) -> GenerationModel {
        GenerationModel {
            label: self.label@,
            case_name: self.case_name@,
            req_id: self.req_id,
            prompt: self.prompt@,
            max_new_tokens: self.max_new_tokens,
            eos_token_ids: self.eos_token_ids@,
            timeout_seconds: self.timeout_seconds,
            generated: self.generated@,
            stage: self.stage,
        }
    }
}

/// Whether more than the allowed seconds have passed.
pub open spec fn expired(timeout_seconds: u64, seconds: u64, nanos: u32) -> bool {
    seconds > timeout_seconds || (seconds == timeout_seconds && nanos > 0)
}

pub open spec fn timeout_outcome(
    timeout_seconds: Option<u64>,
    case_name: Seq<char>,
    seconds: u64,
    nanos: u32,
) -> Result<(), Seq<char>> {
    match timeout_seconds {
        Some(limit) => if expired(limit, seconds, nanos) {
            Err("session case "@ + case_name + " timed out after "@ + decimal(limit as nat) + "s"@)
        } else {
            Ok(())
        },
        None => Ok(()),
    }
}

/// Whether a case that has run this long may go on.
pub fn check_case_timeout(
    timeout_seconds: Option<u64>,
    case_name: &str,
    seconds: u64,
    nanos: u32,
) -> (r: Result<(), String>)
    ensures
        told(r) == timeout_outcome(timeout_seconds, case_name@, seconds, nanos),
{
    match timeout_seconds {
        Some(limit) => {
            if seconds > limit || (seconds == limit && nanos > 0) {
                let number = decimal_text(limit);
                return Err(
                    cat5("session case ", case_name, " timed out after ", number.as_str(), "s"),
                );
            }
            Ok(())
        },
        None => Ok(()),
    }
}

impl GenerationModel {
    /// Counts fit the backend's 32-bit metadata, and no more tokens were
    /// generated than asked for.
    pub open spec fn well_formed(self) -> bool {
        &&& self.prompt.len() > 0
        &&& self.prompt.len() + self.max_new_tokens <= u32::MAX
        &&& self.generated.len() <= self.max_new_tokens
        &&& self.stage is Decoding ==> self.generated.len() < self.max_new_tokens
        &&& self.stage is Prefilling ==> self.generated.len() == 0
    }

    pub open spec fn expects(self, reply: GenerationReply) -> bool {
        match self.stage {
            GenerationStage::Prefilling | GenerationStage::Decoding => !(reply is Elapsed),
            GenerationStage::Timing(_) => reply is Elapsed,
            GenerationStage::Finished => false,
        }
    }

    pub open spec fn at_stage(self, stage: GenerationStage) -> GenerationModel {
        GenerationModel { stage, ..self }
    }

    pub open spec fn failed(self, error: Seq<char>) -> (GenerationModel, GenerationCallModel) {
        (self.at_stage(GenerationStage::Finished), GenerationCallModel::Failed { error })
    }

    /// The token that the next decode takes.
    pub open spec fn current(self) -> u32 {
        if self.generated.len() > 0 {
            self.generated.last()
        } else {
            self.prompt.last()
        }
    }

    /// Past a reading of the clock.
    pub open spec fn past(self, point: ClockPoint) -> (GenerationModel, GenerationCallModel) {
        match point {
            ClockPoint::End(reason) => (
                self.at_stage(GenerationStage::Finished),
                GenerationCallModel::Finished { reason },
            ),
            ClockPoint::Step => if self.generated.len() < self.max_new_tokens {
                (
                    self.at_stage(GenerationStage::Decoding),
                    GenerationCallModel::Decode {
                        handoff: decode_of(
                            self.req_id,
                            self.current(),
                            self.prompt.len() as int,
                            self.generated.len() as int,
                        ),
                    },
                )
            } else if self.timeout_seconds is Some {
                (
                    self.at_stage(
                        GenerationStage::Timing(ClockPoint::End(FinishReason::Length)),
                    ),
                    GenerationCallModel::ReadClock,
                )
            } else {
                (
                    self.at_stage(GenerationStage::Finished),
                    GenerationCallModel::Finished { reason: FinishReason::Length },
                )
            },
        }
    }

    /// Reads the clock where a timeout is set.
    pub open spec fn timed(self, point: ClockPoint) -> (GenerationModel, GenerationCallModel) {
        if self.timeout_seconds is Some {
            (self.at_stage(GenerationStage::Timing(point)), GenerationCallModel::ReadClock)
        } else {
            self.past(point)
        }
    }

    /// The operation in progress, for its error messages.
    pub open spec fn operation(self) -> Seq<char> {
        if self.stage is Prefilling {
            "prefill"@
        } else {
            "decode step "@ + decimal(self.generated.len())
        }
    }

    /// After a prefill, which samples nothing.
    pub open spec fn prefilled(self, tokens: Seq<u32>) -> (GenerationModel, GenerationCallModel) {
        if tokens.len() != 0 {
            self.failed(
                self.label + "prefill unexpectedly returned "@ + decimal(tokens.len())
                    + " sampled tokens"@,
            )
        } else {
            self.timed(ClockPoint::Step)
        }
    }

    /// After a decode, which samples one token.
    pub open spec fn decoded(self, tokens: Seq<u32>) -> (GenerationModel, GenerationCallModel) {
        if tokens.len() != 1 {
            self.failed(
                self.label + self.operation() + " returned "@ + decimal(tokens.len())
                    + " sampled tokens, expected 1"@,
            )
        } else {
            let next = GenerationModel { generated: self.generated.push(tokens[0]), ..self };
            if self.eos_token_ids.contains(tokens[0]) {
                next.timed(ClockPoint::End(FinishReason::Eos))
            } else {
                next.timed(ClockPoint::Step)
            }
        }
    }

    /// The generation and the call that follow a reply.
    pub open spec fn resumed(self, reply: GenerationReply) -> (
        GenerationModel,
        GenerationCallModel,
    ) {
        match (self.stage, reply) {
            (GenerationStage::Timing(point), GenerationReply::Elapsed { seconds, nanos }) => {
                match timeout_outcome(self.timeout_seconds, self.case_name, seconds, nanos) {
                    Err(message) => self.failed(message),
                    Ok(_) => self.past(point),
                }
            },
            (_, GenerationReply::LaunchFailed(e)) => self.failed(
                self.label + "launch "@ + self.operation() + ": "@ + e@,
            ),
            (_, GenerationReply::CollectFailed(e)) => self.failed(
                self.label + "collect "@ + self.operation() + ": "@ + e@,
            ),
            (GenerationStage::Prefilling, GenerationReply::Sampled(tokens)) => self.prefilled(
                tokens@,
            ),
            (GenerationStage::Decoding, GenerationReply::Sampled(tokens)) => self.decoded(tokens@),
            _ => (self, GenerationCallModel::ReadClock),
        }
    }
}

/// Whether a token ends a sequence.
pub fn is_eos(eos_token_ids: &Vec<u32>, token: u32) -> (r: bool)
    ensures
        r == eos_token_ids@.contains(token),
{
    let mut i: usize = 0;
    while i < eos_token_ids.len()
        invariant
            i <= eos_token_ids@.len(),
            forall|j: int| 0 <= j < i ==> eos_token_ids@[j] != token,
        decreases eos_token_ids@.len() - i,
    {
        if eos_token_ids[i] == token {
            return true;
        }
        i = i + 1;
    }
    false
}

fn copy_tokens(tokens: &Vec<u32>) -> (r: Vec<u32>)
    ensures
        r@ == tokens@,
{
    let mut out: Vec<u32> = Vec::new();
    let mut i: usize = 0;
    while i < tokens.len()
        invariant
            i <= tokens@.len(),
            out@ =~= tokens@.take(i as int),
        decreases tokens@.len() - i,
    {
        out.push(tokens[i]);
        i = i + 1;
    }
    assert(tokens@.take(tokens@.len() as int) =~= tokens@);
    out
}

/// The handoff of a prompt's prefill.
pub fn prefill_handoff(req_id: u64, prompt: &Vec<u32>) -> (r: Handoff)
    requires
        0 < prompt@.len() <= u32::MAX,
    ensures
        r@ == prefill_of(req_id, prompt@),
{
    let len: u32 = prompt.len() as u32;
    let mut cu_seqlens: Vec<u32> = Vec::new();
    cu_seqlens.push(0);
    cu_seqlens.push(len);
    let mut positions: Vec<u32> = Vec::new();
    positions.push(len - 1);
    let mut context_lens: Vec<u32> = Vec::new();
    context_lens.push(len);
    let handoff = Handoff {
        req_id,
        tokens: copy_tokens(prompt),
        cu_seqlens,
        positions,
        context_lens,
    };
    proof {
        let wanted = prefill_of(req_id, prompt@);
        assert(handoff@.cu_seqlens =~= wanted.cu_seqlens);
        assert(handoff@.positions =~= wanted.positions);
        assert(handoff@.context_lens =~= wanted.context_lens);
    }
    handoff
}

/// The handoff of one decode.
pub fn decode_handoff(req_id: u64, token: u32, prompt_len: usize, step: usize) -> (r: Handoff)
    requires
        0 < prompt_len,
        prompt_len + step <= u32::MAX,
    ensures
        r@ == decode_of(req_id, token, prompt_len as int, step as int),
{
    let mut tokens: Vec<u32> = Vec::new();
    tokens.push(token);
    let mut cu_seqlens: Vec<u32> = Vec::new();
    cu_seqlens.push(0);
    cu_seqlens.push(1);
    let mut positions: Vec<u32> = Vec::new();
    positions.push((prompt_len - 1 + step) as u32);
    let mut context_lens: Vec<u32> = Vec::new();
    context_lens.push((prompt_len + step) as u32);
    let handoff = Handoff { req_id, tokens, cu_seqlens, positions, context_lens };
    proof {
        let wanted = decode_of(req_id, token, prompt_len as int, step as int);
        assert(handoff@.tokens =~= wanted.tokens);
        assert(handoff@.cu_seqlens =~= wanted.cu_seqlens);
        assert(handoff@.positions =~= wanted.positions);
        assert(handoff@.context_lens =~= wanted.context_lens);
    }
    handoff
}

impl Generation {
    /// The tokens generated so far.
    pub fn into_generated(self) -> (r: Vec<u32>)
        ensures
            r@ == self@.generated,
    {
        self.generated
    }

    /// Starts the generation of a single prompt, which has no timeout.
    pub fn single(prompt: Vec<u32>, max_new_tokens: usize, eos_token_ids: Vec<u32>) -> (r: (
        Generation,
        GenerationCall,
    ))
        requires
            prompt@.len() > 0,
            prompt@.len() + max_new_tokens <= u32::MAX,
        ensures
            r.0@.well_formed(),
            r.0@ == (GenerationModel {
                label: Seq::empty(),
                case_name: Seq::empty(),
                req_id: 1,
                prompt: prompt@,
                max_new_tokens,
                eos_token_ids: eos_token_ids@,
                timeout_seconds: None,
                generated: Seq::empty(),
                stage: GenerationStage::Prefilling,
            }),
            r.1@ == (GenerationCallModel::Prefill { handoff: prefill_of(1, prompt@) }),
    {
        let handoff = prefill_handoff(1, &prompt);
        (
            Generation {
                label: String::new(),
                case_name: String::new(),
                req_id: 1,
                prompt,
                max_new_tokens,
                eos_token_ids,
                timeout_seconds: None,
                generated: Vec::new(),
                stage: GenerationStage::Prefilling,
            },
            GenerationCall::Prefill { handoff },
        )
    }

    /// Starts the generation of a session's case.
    pub fn session_case(
        case_name: &str,
        req_id: u64,
        prompt: Vec<u32>,
        max_new_tokens: usize,
        eos_token_ids: Vec<u32>,
        timeout_seconds: Option<u64>,
    ) -> (r: (Generation, GenerationCall))
        requires
            prompt@.len() > 0,
            prompt@.len() + max_new_tokens <= u32::MAX,
        ensures
            r.0@.well_formed(),
            r.0@ == (GenerationModel {
                label: "session case "@ + case_name@ + " "@,
                case_name: case_name@,
                req_id,
                prompt: prompt@,
                max_new_tokens,
                eos_token_ids: eos_token_ids@,
                timeout_seconds,
                generated: Seq::empty(),
                stage: GenerationStage::Prefilling,
            }),
            r.1@ == (GenerationCallModel::Prefill { handoff: prefill_of(req_id, prompt@) }),
    {
        let handoff = prefill_handoff(req_id, &prompt);
        (
            Generation {
                label: cat3("session case ", case_name, " "),
                case_name: case_name.to_owned(),
                req_id,
                prompt,
                max_new_tokens,
                eos_token_ids,
                timeout_seconds,
                generated: Vec::new(),
                stage: GenerationStage::Prefilling,
            },
            GenerationCall::Prefill { handoff },
        )
    }

    fn pass(&mut self, point: ClockPoint) -> (call: GenerationCall)
        requires
            old(self)@.at_stage(GenerationStage::Timing(point)).well_formed(),
        ensures
            final(self)@.well_formed(),
            (final(self)@, call@) == old(self)@.past(point),
    {
        match point {
            ClockPoint::End(reason) => {
                self.stage = GenerationStage::Finished;
                GenerationCall::Finished { reason }
            },
            ClockPoint::Step => {
                let step: usize = self.generated.len();
                if step < self.max_new_tokens {
                    let token: u32 = if step > 0 {
                        self.generated[step - 1]
                    } else {
                        self.prompt[self.prompt.len() - 1]
                    };
                    self.stage = GenerationStage::Decoding;
                    let handoff = decode_handoff(self.req_id, token, self.prompt.len(), step);
                    GenerationCall::Decode { handoff }
                } else if self.timeout_seconds.is_some() {
                    self.stage = GenerationStage::Timing(ClockPoint::End(FinishReason::Length));
                    GenerationCall::ReadClock
                } else {
                    self.stage = GenerationStage::Finished;
                    GenerationCall::Finished { reason: FinishReason::Length }
                }
            },
        }
    }

    fn time(&mut self, point: ClockPoint) -> (call: GenerationCall)
        requires
            old(self)@.at_stage(GenerationStage::Timing(point)).well_formed(),
        ensures
            final(self)@.well_formed(),
            (final(self)@, call@) == old(self)@.timed(point),
    {
        if self.timeout_seconds.is_some() {
            self.stage = GenerationStage::Timing(point);
            GenerationCall::ReadClock
        } else {
            self.pass(point)
        }
    }

    fn operation_text(&self) -> (r: String)
        ensures
            r@ == self@.operation(),
    {
        match self.stage {
            GenerationStage::Prefilling => "prefill".to_owned(),
            _ => {
                let step = decimal_text(self.generated.len() as u64);
                cat2("decode step ", step.as_str())
            },
        }
    }

    /// Takes the host's reply and returns its next call.
    pub fn resume(&mut self, reply: GenerationReply) -> (call: GenerationCall)
        requires
            old(self)@.well_formed(),
            old(self)@.expects(reply),
        ensures
            final(self)@.well_formed(),
            (final(self)@, call@) == old(self)@.resumed(reply),
    {
        let ghost before = self@;
        match reply {
            GenerationReply::Elapsed { seconds, nanos } => {
                match self.stage {
                    GenerationStage::Timing(point) => {
                        match check_case_timeout(
                            self.timeout_seconds,
                            self.case_name.as_str(),
                            seconds,
                            nanos,
                        ) {
                            Ok(_) => self.pass(point),
                            Err(error) => {
                                self.stage = GenerationStage::Finished;
                                GenerationCall::Failed { error }
                            },
                        }
                    },
                    _ => GenerationCall::ReadClock,
                }
            },
            GenerationReply::LaunchFailed(e) => {
                let operation = self.operation_text();
                let error = cat5(
                    self.label.as_str(),
                    "launch ",
                    operation.as_str(),
                    ": ",
                    e.as_str(),
                );
                self.stage = GenerationStage::Finished;
                GenerationCall::Failed { error }
            },
            GenerationReply::CollectFailed(e) => {
                let operation = self.operation_text();
                let error = cat5(
                    self.label.as_str(),
                    "collect ",
                    operation.as_str(),
                    ": ",
                    e.as_str(),
                );
                self.stage = GenerationStage::Finished;
                GenerationCall::Failed { error }
            },
            GenerationReply::Sampled(tokens) => {
                match self.stage {
                    GenerationStage::Prefilling => {
                        if tokens.len() != 0 {
                            let count = decimal_text(tokens.len() as u64);
                            let error = cat4(
                                self.label.as_str(),
                                "prefill unexpectedly returned ",
                                count.as_str(),
                                " sampled tokens",
                            );
                            self.stage = GenerationStage::Finished;
                            return GenerationCall::Failed { error };
                        }
                        self.time(ClockPoint::Step)
                    },
                    _ => {
                        if tokens.len() != 1 {
                            let count = decimal_text(tokens.len() as u64);
                            let operation = self.operation_text();
                            let error = cat5(
                                self.label.as_str(),
                                operation.as_str(),
                                " returned ",
                                count.as_str(),
                                " sampled tokens, expected 1",
                            );
                            self.stage = GenerationStage::Finished;
                            return GenerationCall::Failed { error };
                        }
                        let sampled: u32 = tokens[0];
                        self.generated.push(sampled);
                        if is_eos(&self.eos_token_ids, sampled) {
                            self.time(ClockPoint::End(FinishReason::Eos))
                        } else {
                            self.time(ClockPoint::Step)
                        }
                    },
                }
            },
        }
    }

    /// The prompt followed by what was generated.
    pub fn output_token_ids(&self) -> (r: Vec<u32>)
        ensures
            r@ == self@.prompt + self@.generated,
    {
        let mut out = copy_tokens(&self.prompt);
        let mut i: usize = 0;
        while i < self.generated.len()
            invariant
                i <= self.generated@.len(),
                out@ =~= self@.prompt + self@.generated.take(i as int),
            decreases self.generated@.len() - i,
        {
            out.push(self.generated[i]);
            i = i + 1;
        }
        assert(self@.generated.take(self@.generated.len() as int) =~= self@.generated);
        out
    }
}

// ---------------------------------------------------------------------------
// Laws
// ---------------------------------------------------------------------------

/// Only the last generated token may end the sequence, and it does exactly when
/// the generation ends by it; one that ends by length has all its tokens.
pub open spec fn stops_at_eos(m: GenerationModel, call: GenerationCallModel) -> bool {
    let g = m.generated;
    let ended = call == (GenerationCallModel::Finished { reason: FinishReason::Eos }) || m.stage
        == GenerationStage::Timing(ClockPoint::End(FinishReason::Eos));
    &&& forall|i: int| 0 <= i < g.len() - 1 ==> !m.eos_token_ids.contains(#[trigger] g[i])
    &&& ended ==> g.len() > 0 && m.eos_token_ids.contains(g.last())
    &&& !ended && !(call is Failed) ==> (g.len() > 0 ==> !m.eos_token_ids.contains(g.last()))
    &&& call == (GenerationCallModel::Finished { reason: FinishReason::Length }) || m.stage
        == GenerationStage::Timing(ClockPoint::End(FinishReason::Length)) ==> g.len()
        == m.max_new_tokens
}

/// Replies that fit the calls, one after the other.
pub open spec fn replies_fit(m: GenerationModel, replies: Seq<GenerationReply>) -> bool
    decreases replies.len(),
{
    replies.len() == 0 || (m.expects(replies[0]) && replies_fit(
        m.resumed(replies[0]).0,
        replies.drop_first(),
    ))
}

pub open spec fn generated_after(
    m: GenerationModel,
    call: GenerationCallModel,
    replies: Seq<GenerationReply>,
) -> (GenerationModel, GenerationCallModel)
    decreases replies.len(),
{
    if replies.len() == 0 {
        (m, call)
    } else {
        generated_after(
            m.resumed(replies[0]).0,
            m.resumed(replies[0]).1,
            replies.drop_first(),
        )
    }
}

proof fn resumed_stops_at_eos(m: GenerationModel, call: GenerationCallModel, reply: GenerationReply)
    requires
        m.well_formed(),
        m.expects(reply),
        stops_at_eos(m, call),
        !(call is Failed) && !(call is Finished),
    ensures
        m.resumed(reply).0.well_formed(),
        stops_at_eos(m.resumed(reply).0, m.resumed(reply).1),
        m.resumed(reply).1 is Failed || m.resumed(reply).1 is Finished ==> m.resumed(reply).0.stage
            is Finished,
        m.resumed(reply).0.eos_token_ids == m.eos_token_ids,
        m.resumed(reply).0.max_new_tokens == m.max_new_tokens,
{
    match reply {
        GenerationReply::Sampled(tokens) => {
            if m.stage is Decoding && tokens@.len() == 1 {
                let next = m.resumed(reply).0;
                assert(next.generated == m.generated.push(tokens@[0]));
                assert forall|i: int| 0 <= i < next.generated.len() - 1 implies
                    !next.eos_token_ids.contains(#[trigger] next.generated[i]) by {
                    assert(next.generated[i] == m.generated[i]);
                    if i == m.generated.len() - 1 {
                        assert(m.generated.last() == m.generated[i]);
                    }
                }
            }
        },
        _ => {},
    }
}

/// Whatever the backend samples, a generation that finishes stops at the first
/// end-of-sequence token or at its length limit, and never beyond.
pub proof fn generation_stops_at_eos(
    m: GenerationModel,
    call: GenerationCallModel,
    replies: Seq<GenerationReply>,
)
    requires
        m.well_formed(),
        m.stage is Prefilling,
        !(call is Failed) && !(call is Finished),
        replies_fit(m, replies),
    ensures
        ({
            let (n, c) = generated_after(m, call, replies);
            &&& n.generated.len() <= m.max_new_tokens
            &&& stops_at_eos(n, c)
        }),
{
    run_stops_at_eos(m, call, replies);
}

proof fn run_stops_at_eos(
    m: GenerationModel,
    call: GenerationCallModel,
    replies: Seq<GenerationReply>,
)
    requires
        m.well_formed(),
        stops_at_eos(m, call),
        call is Failed || call is Finished ==> m.stage is Finished,
        replies_fit(m, replies),
    ensures
        ({
            let (n, c) = generated_after(m, call, replies);
            &&& n.generated.len() <= m.max_new_tokens
            &&& stops_at_eos(n, c)
        }),
    decreases replies.len(),
{
    if replies.len() > 0 {
        resumed_stops_at_eos(m, call, replies[0]);
        run_stops_at_eos(m.resumed(replies[0]).0, m.resumed(replies[0]).1, replies.drop_first());
    }
}

/// What the backend sampled, reply after reply.
pub open spec fn samples(replies: Seq<GenerationReply>) -> Seq<u32>
    decreases replies.len(),
{
    if replies.len() == 0 {
        Seq::empty()
    } else {
        (match replies[0] {
            GenerationReply::Sampled(tokens) => tokens@,
            _ => Seq::empty(),
        }) + samples(replies.drop_first())
    }
}

/// Whether a call asks for the next token of a text that is known up to its last
/// one: that token alone is fed, at its own place, and the whole text is attended to.
pub open spec fn feeds_last(call: GenerationCallModel, req_id: u64, text: Seq<u32>) -> bool {
    call matches GenerationCallModel::Decode { handoff } ==> {
        &&& handoff.req_id == req_id
        &&& handoff.tokens.len() == 1
        &&& handoff.positions.len() == 1
        &&& handoff.positions[0] + 1 == text.len()
        &&& handoff.tokens[0] == text[handoff.positions[0] as int]
        &&& handoff.context_lens.len() == 1
        &&& handoff.context_lens[0] == text.len()
        &&& handoff.cu_seqlens == seq![0u32, handoff.tokens.len() as u32]
    }
}

proof fn resumed_feeds_last(m: GenerationModel, reply: GenerationReply)
    requires
        m.well_formed(),
        m.expects(reply),
    ensures
        ({
            let (n, c) = m.resumed(reply);
            &&& n.well_formed()
            &&& n.prompt == m.prompt
            &&& n.req_id == m.req_id
            &&& feeds_last(c, m.req_id, n.prompt + n.generated)
            &&& !(c is Failed) ==> n.generated == m.generated + samples(seq![reply])
            &&& c is Decode ==> n.generated.len() < n.max_new_tokens
            &&& c is Failed ==> n.stage is Finished
        }),
{
    let (n, c) = m.resumed(reply);
    let one = seq![reply];
    assert(one.drop_first() =~= Seq::empty());
    assert(samples(one.drop_first()) =~= Seq::empty());
    assert(samples(one) =~= (match reply {
        GenerationReply::Sampled(tokens) => tokens@,
        _ => Seq::empty(),
    }));
    if !(c is Failed) {
        assert(n.generated =~= m.generated + samples(one));
    }
}

proof fn run_feeds_last(m: GenerationModel, call: GenerationCallModel, replies: Seq<GenerationReply>)
    requires
        m.well_formed(),
        feeds_last(call, m.req_id, m.prompt + m.generated),
        call is Failed ==> m.stage is Finished,
        replies_fit(m, replies),
    ensures
        ({
            let (n, c) = generated_after(m, call, replies);
            &&& n.prompt == m.prompt
            &&& feeds_last(c, m.req_id, n.prompt + n.generated)
            &&& !(c is Failed) ==> n.generated == m.generated + samples(replies)
        }),
    decreases replies.len(),
{
    if replies.len() > 0 {
        let reply = replies[0];
        resumed_feeds_last(m, reply);
        let (n, c) = m.resumed(reply);
        let rest = replies.drop_first();
        run_feeds_last(n, c, rest);
        let one = seq![reply];
        assert(one.drop_first() =~= Seq::empty());
        assert(samples(one.drop_first()) =~= Seq::empty());
        assert(one[0] == reply);
        assert(samples(replies) =~= samples(one) + samples(rest));
        let (last, end) = generated_after(n, c, rest);
        if !(end is Failed) {
            if c is Failed {
                assert(replies_fit(n, rest));
                assert(rest.len() == 0);
                assert(end == c);
            }
            assert(last.generated =~= m.generated + samples(replies));
        }
    } else {
        assert(m.generated =~= m.generated + samples(replies));
    }
}

/// Generation is greedy continuation: whatever the replies, what was generated is
/// what the backend sampled, in order, and each decode is fed the last token of the
/// prompt and what was generated so far, at its own position.
pub proof fn decodes_are_fed_what_came_before(m: GenerationModel, replies: Seq<GenerationReply>)
    requires
        m.well_formed(),
        m.stage is Prefilling,
        replies_fit(m, replies),
    ensures
        ({
            let start = GenerationCallModel::Prefill { handoff: prefill_of(m.req_id, m.prompt) };
            let (n, c) = generated_after(m, start, replies);
            &&& feeds_last(c, m.req_id, m.prompt + n.generated)
            &&& !(c is Failed) ==> n.generated == samples(replies)
        }),
{
    let start = GenerationCallModel::Prefill { handoff: prefill_of(m.req_id, m.prompt) };
    run_feeds_last(m, start, replies);
    let (n, c) = generated_after(m, start, replies);
    if !(c is Failed) {
        assert(m.generated + samples(replies) =~= samples(replies));
    }
}

/// A prefill hands over the whole prompt as one sequence, and counts its last
/// position.
pub proof fn prefills_hand_over_the_prompt(req_id: u64, prompt: Seq<u32>)
    requires
        0 < prompt.len() <= u32::MAX,
    ensures
        ({
            let handoff = prefill_of(req_id, prompt);
            &&& handoff.req_id == req_id
            &&& handoff.tokens == prompt
            &&& handoff.cu_seqlens.len() == 2
            &&& handoff.cu_seqlens[0] == 0
            &&& handoff.cu_seqlens[1] == prompt.len()
            &&& handoff.positions.len() == 1
            &&& handoff.positions[0] + 1 == prompt.len()
            &&& handoff.context_lens.len() == 1
            &&& handoff.context_lens[0] == prompt.len()
        }),
{
}

/// A case may go on exactly while no more nanoseconds have passed than its limit
/// has; without a limit it always may.
pub proof fn timeouts_count_every_nanosecond(
    limit: Option<u64>,
    case_name: Seq<char>,
    seconds: u64,
    nanos: u32,
)
    requires
        nanos < 1_000_000_000,
    ensures
        timeout_outcome(limit, case_name, seconds, nanos) is Ok <==> (limit is Some ==> seconds
            * 1_000_000_000 + nanos <= limit->0 * 1_000_000_000),
{
}

} // verus!
