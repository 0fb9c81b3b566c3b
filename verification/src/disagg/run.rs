//! A run of disaggregated inference: which request is next, when its prefill is
//! made and the ANE decoder loaded, how it is decoded, and what is reported.
use crate::disagg::continuation::{
    begun, calls_between, compiler_calls, match_of, matches_reference, mismatch_of, opened,
    require_match, tail_of, unstreamed_tail, CaseOutcome, Continuation, ContinuationModel,
    ContinuationStep, Session, SessionModel, SessionReport,
};
use crate::disagg::references::{
    line_meaning, session_line, text_budget_outcome, validate_text_budget, Reference,
    ReferenceModel, SessionLine,
};
use crate::text::cat2;
use vstd::prelude::*;

verus! {

/// What a run does throughout.
#[derive(Clone, Copy, Debug, PartialEq, Eq, Structural)]
pub struct RunMode {
    /// Each request is decoded before the next is prefilled; otherwise every
    /// prefill comes first.
    pub interleave: bool,
    pub interactive: bool,
    pub text_mode: bool,
    pub capture_layers: bool,
    pub capture_ffn_inputs: bool,
    pub max_new_tokens: usize,
    pub context_capacity: usize,
}

/// What a run waits for.
#[derive(Clone, Copy, Debug, PartialEq, Eq, Structural)]
pub enum RunStage {
    PrefillingAll,
    LoadingFirst,
    ReadingLine,
    Rejecting,
    Counting,
    Prefilling,
    Streaming,
    LoadingLate,
    Importing,
    Decoding,
    Concluding,
    SavingCase,
    SavingReport,
    Closing,
    Ended,
}

/// What the host does for a run.
#[derive(Debug)]
pub enum RunCall {
    /// Prefill one of the references.
    PrefillReference { index: usize },
    /// Load the ANE decoder.
    LoadAne,
    ReadLine,
    /// Tell that a prompt is rejected.
    RejectPrompt { message: String },
    /// Count the compiler calls so far.
    CountCompilerCalls,
    /// Prefill the current request.
    PrefillCurrent,
    /// Print what a token adds to the text.
    Stream { token: u32 },
    /// Import the current request's KV state.
    Import,
    Decode { step: ContinuationStep },
    /// Decode the whole text, and count the compiler calls again.
    Conclude,
    /// Print the rest of the text and write the request's case.
    SaveCase { matched: Option<bool>, compiler_calls: usize, tail: Option<String> },
    SaveReport { report: SessionReport },
    /// Mark the report as final.
    Close,
    Finish,
    Fail { error: String },
}

pub enum RunCallModel {
    PrefillReference { index: int },
    LoadAne,
    ReadLine,
    RejectPrompt { message: Seq<char> },
    CountCompilerCalls,
    PrefillCurrent,
    Stream { token: u32 },
    Import,
    Decode { step: ContinuationStep },
    Conclude,
    SaveCase { matched: Option<bool>, compiler_calls: usize, tail: Option<Seq<char>> },
    SaveReport { report: SessionReport },
    Close,
    Finish,
    Fail { error: Seq<char> },
}

impl View for RunCall {
    type V = RunCallModel;

    open spec fn view(&self) -> RunCallModel {
        match *self {
            RunCall::PrefillReference { index } => RunCallModel::PrefillReference {
                index: index as int,
            },
            RunCall::LoadAne => RunCallModel::LoadAne,
            RunCall::ReadLine => RunCallModel::ReadLine,
            RunCall::RejectPrompt { message } => RunCallModel::RejectPrompt { message: message@ },
            RunCall::CountCompilerCalls => RunCallModel::CountCompilerCalls,
            RunCall::PrefillCurrent => RunCallModel::PrefillCurrent,
            RunCall::Stream { token } => RunCallModel::Stream { token },
            RunCall::Import => RunCallModel::Import,
            RunCall::Decode { step } => RunCallModel::Decode { step },
            RunCall::Conclude => RunCallModel::Conclude,
            RunCall::SaveCase { matched, compiler_calls, tail } => RunCallModel::SaveCase {
                matched,
                compiler_calls,
                tail: crate::text::opt_text(tail),
            },
            RunCall::SaveReport { report } => RunCallModel::SaveReport { report },
            RunCall::Close => RunCallModel::Close,
            RunCall::Finish => RunCallModel::Finish,
            RunCall::Fail { error } => RunCallModel::Fail { error: error@ },
        }
    }
}

/// What the host answers.
#[derive(Debug)]
pub enum RunReply {
    /// A prefill's first token.
    Prefilled { token: Result<u32, String> },
    Done { outcome: Result<(), String> },
    /// A line, and the tokens of its prompt.
    Line { bytes_read: usize, line: String, tokens: Result<Vec<u32>, String> },
    Counted { calls: usize },
    Decoded { outcome: Result<(usize, u32), String> },
    Concluded { calls: usize, text: Result<String, String>, streamed: String },
}

/// A run in progress.
#[derive(Debug)]
pub struct Run {
    mode: RunMode,
    eos: Vec<u32>,
    references: Vec<Reference>,
    /// The first tokens of the prefills that were made ahead.
    starts: Vec<u32>,
    /// How many references were taken up.
    next: usize,
    ane_loaded: bool,
    /// Whether the current request's KV state was imported.
    imported: bool,
    compiler_calls: usize,
    current: Option<Reference>,
    continuation: Option<Continuation>,
    session: Session,
    stage: RunStage,
}

pub struct RunModel {
    pub mode: RunMode,
    pub eos: Seq<u32>,
    pub references: Seq<ReferenceModel>,
    pub starts: Seq<u32>,
    pub next: int,
    pub ane_loaded: bool,
    pub imported: bool,
    pub compiler_calls: usize,
    pub current: Option<ReferenceModel>,
    pub continuation: Option<ContinuationModel>,
    pub session: SessionModel,
    pub stage: RunStage,
}

pub open spec fn reference_models(references: Seq<Reference>) -> Seq<ReferenceModel> {
    Seq::new(references.len(), |i: int| references[i]@)
}

impl View for Run {
    type V = RunModel;

    closed spec fn view(&self) -> RunModel {
        RunModel {
            mode: self.mode,
            eos: self.eos@,
            references: reference_models(self.references@),
            starts: self.starts@,
            next: self.next as int,
            ane_loaded: self.ane_loaded,
            imported: self.imported,
            compiler_calls: self.compiler_calls,
            current: match self.current {
                Some(reference) => Some(reference@),
                None => None,
            },
            continuation: match self.continuation {
                Some(continuation) => Some(continuation@),
                None => None,
            },
            session: self.session@,
            stage: self.stage,
        }
    }
}

/// Whether a request's positions stay in range.
pub open spec fn fits(reference: ReferenceModel) -> bool {
    reference.prompt.len() + reference.max_new_tokens <= usize::MAX
}

/// What was said or the error.
pub open spec fn spoken<T>(r: Result<T, String>) -> Result<T, Seq<char>> {
    crate::text::told(r)
}

impl RunModel {
    pub open spec fn well_formed(self) -> bool {
        &&& 0 <= self.next <= self.references.len()
        &&& forall|i: int| 0 <= i < self.references.len() ==> fits(#[trigger] self.references[i])
        &&& self.current is Some ==> fits(self.current->0)
        &&& self.continuation is Some ==> self.continuation->0.well_formed()
        &&& self.imported ==> self.ane_loaded
        &&& self.stage == RunStage::Importing ==> self.ane_loaded
        &&& self.stage == RunStage::Decoding ==> self.imported
        &&& !self.mode.interleave && self.stage != RunStage::PrefillingAll && self.stage
            != RunStage::Ended ==> self.starts.len() == self.references.len()
        &&& self.stage == RunStage::LoadingFirst ==> self.mode.interleave
        &&& match self.stage {
            RunStage::PrefillingAll => self.starts.len() < self.references.len(),
            RunStage::Counting | RunStage::Prefilling => self.current is Some,
            RunStage::Streaming
            | RunStage::Concluding
            | RunStage::SavingCase
            | RunStage::SavingReport => self.current is Some && self.continuation is Some,
            RunStage::LoadingLate | RunStage::Importing | RunStage::Decoding => self.current is Some
                && self.continuation is Some && self.continuation->0.goes_on(),
            _ => true,
        }
    }

    /// A run that can take up a request, or go on with one.
    pub open spec fn ready(self) -> bool {
        self.at(RunStage::Ended).well_formed() && (!self.mode.interleave ==> self.starts.len()
            == self.references.len())
    }

    pub open spec fn expects(self, reply: RunReply) -> bool {
        match self.stage {
            RunStage::PrefillingAll | RunStage::Prefilling => reply is Prefilled,
            RunStage::ReadingLine => reply is Line && (reply->tokens is Ok
                ==> reply->tokens->Ok_0@.len() + self.mode.max_new_tokens <= usize::MAX),
            RunStage::Counting => reply is Counted,
            RunStage::Decoding => reply is Decoded,
            RunStage::Concluding => reply is Concluded,
            RunStage::Ended => false,
            _ => reply is Done,
        }
    }

    pub open spec fn at(self, stage: RunStage) -> RunModel {
        RunModel { stage, ..self }
    }

    pub open spec fn failed(self, error: Seq<char>) -> (RunModel, RunCallModel) {
        (self.at(RunStage::Ended), RunCallModel::Fail { error })
    }

    /// The prefills that are made ahead, then the requests.
    pub open spec fn prefill_ahead(self) -> (RunModel, RunCallModel) {
        if self.starts.len() < self.references.len() {
            (
                self.at(RunStage::PrefillingAll),
                RunCallModel::PrefillReference { index: self.starts.len() as int },
            )
        } else {
            self.take_next()
        }
    }

    /// The next request: a reference, else a line of an interactive run.
    pub open spec fn take_next(self) -> (RunModel, RunCallModel) {
        if self.next < self.references.len() {
            RunModel { next: self.next + 1, ..self }.start(self.references[self.next])
        } else if self.mode.interactive {
            (self.at(RunStage::ReadingLine), RunCallModel::ReadLine)
        } else {
            (self.at(RunStage::Closing), RunCallModel::Close)
        }
    }

    /// Starts a request.
    pub open spec fn start(self, reference: ReferenceModel) -> (RunModel, RunCallModel) {
        (
            RunModel {
                current: Some(reference),
                continuation: None,
                imported: false,
                stage: RunStage::Counting,
                ..self
            },
            RunCallModel::CountCompilerCalls,
        )
    }

    pub open spec fn reject(self, error: Seq<char>) -> (RunModel, RunCallModel) {
        (
            self.at(RunStage::Rejecting),
            RunCallModel::RejectPrompt { message: "Prompt rejected: "@ + error },
        )
    }

    /// A line of an interactive run.
    pub open spec fn read(
        self,
        bytes_read: usize,
        line: Seq<char>,
        tokens: Result<Seq<u32>, Seq<char>>,
    ) -> (RunModel, RunCallModel) {
        match line_meaning(bytes_read, line) {
            SessionLine::EndOfInput => (self.at(RunStage::Closing), RunCallModel::Close),
            SessionLine::Blank => (self.at(RunStage::ReadingLine), RunCallModel::ReadLine),
            SessionLine::Prompt => match tokens {
                Err(message) => self.reject(message),
                Ok(prompt) => match text_budget_outcome(
                    prompt.len(),
                    self.mode.max_new_tokens,
                    self.mode.context_capacity,
                ) {
                    Err(message) => self.reject(message),
                    Ok(_) => self.start(
                        ReferenceModel {
                            path: None,
                            prompt,
                            generated: None,
                            max_new_tokens: self.mode.max_new_tokens,
                        },
                    ),
                },
            },
        }
    }

    /// After the compiler calls were counted: the prefill, unless it was made
    /// ahead.
    pub open spec fn counted(self, calls: usize) -> (RunModel, RunCallModel) {
        let m = RunModel { compiler_calls: calls, ..self };
        if m.mode.interleave {
            (m.at(RunStage::Prefilling), RunCallModel::PrefillCurrent)
        } else if 1 <= m.next <= m.starts.len() {
            m.prefilled(m.starts[m.next - 1])
        } else {
            m.failed("prepared prefill missing"@)
        }
    }

    /// After a prefill sampled the first token.
    pub open spec fn prefilled(self, token: u32) -> (RunModel, RunCallModel) {
        let reference = self.current->0;
        RunModel {
            continuation: Some(
                begun(
                    reference.prompt.len() as usize,
                    reference.max_new_tokens,
                    self.eos,
                    token,
                ),
            ),
            ..self
        }.streamed(token)
    }

    /// A token of a text is streamed first.
    pub open spec fn streamed(self, token: u32) -> (RunModel, RunCallModel) {
        if self.mode.text_mode {
            (self.at(RunStage::Streaming), RunCallModel::Stream { token })
        } else {
            self.go_on()
        }
    }

    /// The next decode, or the end of the request. The decoder is loaded when it
    /// is first needed, and the KV state imported before the first decode.
    pub open spec fn go_on(self) -> (RunModel, RunCallModel) {
        if !self.continuation->0.goes_on() {
            (self.at(RunStage::Concluding), RunCallModel::Conclude)
        } else if self.imported {
            (
                self.at(RunStage::Decoding),
                RunCallModel::Decode {
                    step: self.continuation->0.step(
                        self.mode.capture_layers,
                        self.mode.capture_ffn_inputs,
                    ),
                },
            )
        } else if self.ane_loaded {
            (self.at(RunStage::Importing), RunCallModel::Import)
        } else {
            (self.at(RunStage::LoadingLate), RunCallModel::LoadAne)
        }
    }

    pub open spec fn decoded(self, position: usize, token: u32) -> (RunModel, RunCallModel) {
        if position != self.continuation->0.step(false, false).position {
            self.failed("ANE position drift"@)
        } else {
            RunModel {
                continuation: Some(self.continuation->0.with(token)),
                ..self
            }.streamed(token)
        }
    }

    pub open spec fn matched(self) -> Option<bool> {
        match_of(self.continuation->0.generated, self.current->0.generated)
    }

    pub open spec fn concluded(
        self,
        calls: usize,
        text: Result<Seq<char>, Seq<char>>,
        streamed: Seq<char>,
    ) -> (RunModel, RunCallModel) {
        match text {
            Err(message) => self.failed(message),
            Ok(complete) => match calls_between(self.compiler_calls, calls) {
                Err(message) => self.failed(message),
                Ok(compiled) => if !self.mode.text_mode {
                    (
                        self.at(RunStage::SavingCase),
                        RunCallModel::SaveCase {
                            matched: self.matched(),
                            compiler_calls: compiled,
                            tail: None,
                        },
                    )
                } else {
                    match tail_of(complete, streamed) {
                        Err(message) => self.failed(message),
                        Ok(tail) => (
                            self.at(RunStage::SavingCase),
                            RunCallModel::SaveCase {
                                matched: self.matched(),
                                compiler_calls: compiled,
                                tail: Some(tail),
                            },
                        ),
                    }
                },
            },
        }
    }

    /// After a case was written, it is counted and the report is written.
    pub open spec fn case_saved(self) -> (RunModel, RunCallModel) {
        if self.session.completed_requests == usize::MAX {
            self.failed("request count exhausted"@)
        } else {
            let session = self.session.after(
                CaseOutcome {
                    matched: self.matched(),
                    decode_steps: (self.continuation->0.generated.len() - 1) as usize,
                },
            );
            (
                RunModel { session, stage: RunStage::SavingReport, ..self },
                RunCallModel::SaveReport { report: session.report() },
            )
        }
    }

    /// After the report was written, a request that differs from its reference
    /// ends the run.
    pub open spec fn report_saved(self) -> (RunModel, RunCallModel) {
        match mismatch_of(self.matched(), self.current->0.path) {
            Err(message) => self.failed(message),
            Ok(_) => self.take_next(),
        }
    }

    /// After an operation of the host.
    pub open spec fn done(self) -> (RunModel, RunCallModel) {
        match self.stage {
            RunStage::LoadingFirst => RunModel { ane_loaded: true, ..self }.take_next(),
            RunStage::Rejecting => (self.at(RunStage::ReadingLine), RunCallModel::ReadLine),
            RunStage::Streaming => self.go_on(),
            RunStage::LoadingLate => RunModel { ane_loaded: true, ..self }.go_on(),
            RunStage::Importing => RunModel { imported: true, ..self }.go_on(),
            RunStage::SavingCase => self.case_saved(),
            RunStage::SavingReport => self.report_saved(),
            _ => (self.at(RunStage::Ended), RunCallModel::Finish),
        }
    }

    /// The run and its call after a reply.
    pub open spec fn resumed(self, reply: RunReply) -> (RunModel, RunCallModel) {
        match (self.stage, reply) {
            (RunStage::PrefillingAll, RunReply::Prefilled { token }) => match spoken(token) {
                Err(message) => self.failed(message),
                Ok(token) => RunModel { starts: self.starts.push(token), ..self }.prefill_ahead(),
            },
            (RunStage::Prefilling, RunReply::Prefilled { token }) => match spoken(token) {
                Err(message) => self.failed(message),
                Ok(token) => self.prefilled(token),
            },
            (RunStage::ReadingLine, RunReply::Line { bytes_read, line, tokens }) => self.read(
                bytes_read,
                line@,
                crate::metal_infer::args::ids_told(tokens),
            ),
            (RunStage::Counting, RunReply::Counted { calls }) => self.counted(calls),
            (RunStage::Decoding, RunReply::Decoded { outcome }) => match spoken(outcome) {
                Err(message) => self.failed(message),
                Ok(answer) => self.decoded(answer.0, answer.1),
            },
            (RunStage::Concluding, RunReply::Concluded { calls, text, streamed }) =>
                self.concluded(
                    calls,
                    crate::disagg::continuation::tail_told(text),
                    streamed@,
                ),
            (_, RunReply::Done { outcome }) => match spoken(outcome) {
                Err(message) => self.failed(message),
                Ok(_) => self.done(),
            },
            _ => self.failed("unexpected reply"@),
        }
    }
}

/// A run before its first call.
pub open spec fn prepared(mode: RunMode, eos: Seq<u32>, references: Seq<ReferenceModel>) -> RunModel {
    RunModel {
        mode,
        eos,
        references,
        starts: Seq::empty(),
        next: 0,
        ane_loaded: false,
        imported: false,
        compiler_calls: 0,
        current: None,
        continuation: None,
        session: opened(mode.text_mode, mode.interactive, references.len() as usize),
        stage: RunStage::Closing,
    }
}

fn copy_ids(ids: &Vec<u32>) -> (r: Vec<u32>)
    ensures
        r@ == ids@,
{
    let mut out: Vec<u32> = Vec::new();
    let mut i: usize = 0;
    while i < ids.len()
        invariant
            i <= ids@.len(),
            out@ == ids@.take(i as int),
        decreases ids@.len() - i,
    {
        out.push(ids[i]);
        assert(out@ =~= ids@.take(i + 1));
        i = i + 1;
    }
    assert(ids@.take(i as int) =~= ids@);
    out
}

fn copy_reference(reference: &Reference) -> (r: Reference)
    ensures
        r@ == reference@,
{
    Reference {
        path: match &reference.path {
            Some(path) => Some(path.as_str().to_owned()),
            None => None,
        },
        prompt: copy_ids(&reference.prompt),
        generated: match &reference.generated {
            Some(ids) => Some(copy_ids(ids)),
            None => None,
        },
        max_new_tokens: reference.max_new_tokens,
    }
}

impl Run {
    pub fn mode(&self) -> (r: RunMode)
        ensures
            r == self@.mode,
    {
        self.mode
    }

    pub fn references(&self) -> (r: &Vec<Reference>)
        ensures
            reference_models(r@) == self@.references,
    {
        &self.references
    }

    /// The request that is at hand.
    pub fn current(&self) -> (r: Option<&Reference>)
        ensures
            match r {
                Some(reference) => self@.current == Some(reference@),
                None => self@.current is None,
            },
    {
        match &self.current {
            Some(reference) => Some(reference),
            None => None,
        }
    }

    /// The decoding that is at hand.
    pub fn continuation(&self) -> (r: Option<&Continuation>)
        ensures
            match r {
                Some(continuation) => self@.continuation == Some(continuation@),
                None => self@.continuation is None,
            },
    {
        match &self.continuation {
            Some(continuation) => Some(continuation),
            None => None,
        }
    }

    pub fn compiler_calls(&self) -> (r: usize)
        ensures
            r == self@.compiler_calls,
    {
        self.compiler_calls
    }

    pub fn completed_requests(&self) -> (r: usize)
        ensures
            r == self@.session.completed_requests,
    {
        self.session.completed_requests
    }

    /// Starts a run on its references: an interleaved one loads the decoder
    /// first, and any other makes every prefill first.
    pub fn begin(mode: RunMode, eos: Vec<u32>, references: Vec<Reference>) -> (r: (Run, RunCall))
        requires
            forall|i: int| 0 <= i < references@.len() ==> fits((#[trigger] references@[i])@),
        ensures
            (r.0@, r.1@) == if mode.interleave {
                (
                    prepared(mode, eos@, reference_models(references@)).at(RunStage::LoadingFirst),
                    RunCallModel::LoadAne,
                )
            } else {
                prepared(mode, eos@, reference_models(references@)).prefill_ahead()
            },
            r.0@.well_formed(),
    {
        let session = Session::open(mode.text_mode, mode.interactive, references.len());
        let mut run = Run {
            mode,
            eos,
            references,
            starts: Vec::new(),
            next: 0,
            ane_loaded: false,
            imported: false,
            compiler_calls: 0,
            current: None,
            continuation: None,
            session,
            stage: RunStage::Closing,
        };
        assert(run@.starts =~= Seq::empty());
        assert(forall|i: int|
            0 <= i < run@.references.len() ==> #[trigger] run@.references[i]
                == run.references@[i]@);
        if mode.interleave {
            run.stage = RunStage::LoadingFirst;
            return (run, RunCall::LoadAne);
        }
        let call = run.prefill_ahead();
        (run, call)
    }

    fn fail(&mut self, error: String) -> (call: RunCall)
        requires
            old(self)@.well_formed(),
        ensures
            (final(self)@, call@) == old(self)@.failed(error@),
            final(self)@.well_formed(),
    {
        self.stage = RunStage::Ended;
        RunCall::Fail { error }
    }

    fn prefill_ahead(&mut self) -> (call: RunCall)
        requires
            old(self)@.at(RunStage::Ended).well_formed(),
            old(self)@.starts.len() <= old(self)@.references.len(),
        ensures
            (final(self)@, call@) == old(self)@.prefill_ahead(),
            final(self)@.well_formed(),
    {
        if self.starts.len() < self.references.len() {
            self.stage = RunStage::PrefillingAll;
            return RunCall::PrefillReference { index: self.starts.len() };
        }
        self.take_next()
    }

    fn take_next(&mut self) -> (call: RunCall)
        requires
            old(self)@.ready(),
        ensures
            (final(self)@, call@) == old(self)@.take_next(),
            final(self)@.well_formed(),
    {
        let total: usize = self.references.len();
        assert(self@.references.len() == total);
        if self.next < total {
            let reference = copy_reference(&self.references[self.next]);
            assert(reference@ == self@.references[self.next as int]);
            self.next = self.next + 1;
            return self.start(reference);
        }
        if self.mode.interactive {
            self.stage = RunStage::ReadingLine;
            return RunCall::ReadLine;
        }
        self.stage = RunStage::Closing;
        RunCall::Close
    }

    fn start(&mut self, reference: Reference) -> (call: RunCall)
        requires
            old(self)@.ready(),
            fits(reference@),
        ensures
            (final(self)@, call@) == old(self)@.start(reference@),
            final(self)@.well_formed(),
    {
        self.current = Some(reference);
        self.continuation = None;
        self.imported = false;
        self.stage = RunStage::Counting;
        RunCall::CountCompilerCalls
    }

    fn reject(&mut self, error: String) -> (call: RunCall)
        requires
            old(self)@.ready(),
        ensures
            (final(self)@, call@) == old(self)@.reject(error@),
            final(self)@.well_formed(),
    {
        self.stage = RunStage::Rejecting;
        RunCall::RejectPrompt { message: cat2("Prompt rejected: ", error.as_str()) }
    }

    fn read(&mut self, bytes_read: usize, line: &str, tokens: Result<Vec<u32>, String>) -> (call:
        RunCall)
        requires
            old(self)@.ready(),
            tokens is Ok ==> tokens->Ok_0@.len() + old(self)@.mode.max_new_tokens <= usize::MAX,
        ensures
            (final(self)@, call@) == old(self)@.read(
                bytes_read,
                line@,
                crate::metal_infer::args::ids_told(tokens),
            ),
            final(self)@.well_formed(),
    {
        match session_line(bytes_read, line) {
            SessionLine::EndOfInput => {
                self.stage = RunStage::Closing;
                RunCall::Close
            },
            SessionLine::Blank => {
                self.stage = RunStage::ReadingLine;
                RunCall::ReadLine
            },
            SessionLine::Prompt => match tokens {
                Err(message) => self.reject(message),
                Ok(prompt) => match validate_text_budget(
                    prompt.as_slice(),
                    self.mode.max_new_tokens,
                    self.mode.context_capacity,
                ) {
                    Err(message) => self.reject(message),
                    Ok(_) => self.start(
                        Reference {
                            path: None,
                            prompt,
                            generated: None,
                            max_new_tokens: self.mode.max_new_tokens,
                        },
                    ),
                },
            },
        }
    }

    fn counted(&mut self, calls: usize) -> (call: RunCall)
        requires
            old(self)@.well_formed(),
            old(self)@.stage == RunStage::Counting,
        ensures
            (final(self)@, call@) == old(self)@.counted(calls),
            final(self)@.well_formed(),
    {
        self.compiler_calls = calls;
        if self.mode.interleave {
            self.stage = RunStage::Prefilling;
            return RunCall::PrefillCurrent;
        }
        if 1 <= self.next && self.next <= self.starts.len() {
            let token: u32 = self.starts[self.next - 1];
            return self.prefilled(token);
        }
        self.fail("prepared prefill missing".to_owned())
    }

    fn prefilled(&mut self, token: u32) -> (call: RunCall)
        requires
            old(self)@.ready(),
            old(self)@.current is Some,
        ensures
            (final(self)@, call@) == old(self)@.prefilled(token),
            final(self)@.well_formed(),
    {
        let eos = copy_ids(&self.eos);
        let (length, limit): (usize, usize) = match &self.current {
            Some(reference) => (reference.prompt.len(), reference.max_new_tokens),
            None => (0, 0),
        };
        self.continuation = Some(Continuation::begin(length, limit, eos, token));
        self.streamed(token)
    }

    fn streamed(&mut self, token: u32) -> (call: RunCall)
        requires
            old(self)@.ready(),
            old(self)@.current is Some,
            old(self)@.continuation is Some,
        ensures
            (final(self)@, call@) == old(self)@.streamed(token),
            final(self)@.well_formed(),
    {
        if self.mode.text_mode {
            self.stage = RunStage::Streaming;
            return RunCall::Stream { token };
        }
        self.go_on()
    }

    fn go_on(&mut self) -> (call: RunCall)
        requires
            old(self)@.ready(),
            old(self)@.current is Some,
            old(self)@.continuation is Some,
        ensures
            (final(self)@, call@) == old(self)@.go_on(),
            final(self)@.well_formed(),
    {
        let due: Option<ContinuationStep> = match &self.continuation {
            Some(continuation) => continuation.next(
                self.mode.capture_layers,
                self.mode.capture_ffn_inputs,
            ),
            None => None,
        };
        match due {
            None => {
                self.stage = RunStage::Concluding;
                RunCall::Conclude
            },
            Some(step) => {
                if self.imported {
                    self.stage = RunStage::Decoding;
                    RunCall::Decode { step }
                } else if self.ane_loaded {
                    self.stage = RunStage::Importing;
                    RunCall::Import
                } else {
                    self.stage = RunStage::LoadingLate;
                    RunCall::LoadAne
                }
            },
        }
    }

    fn decoded(&mut self, position: usize, token: u32) -> (call: RunCall)
        requires
            old(self)@.well_formed(),
            old(self)@.stage == RunStage::Decoding,
        ensures
            (final(self)@, call@) == old(self)@.decoded(position, token),
            final(self)@.well_formed(),
    {
        let mut continuation: Option<Continuation> = None;
        std::mem::swap(&mut self.continuation, &mut continuation);
        match continuation {
            Some(mut own) => {
                let outcome = own.accept(position, token);
                self.continuation = Some(own);
                match outcome {
                    Err(message) => self.fail(message),
                    Ok(_) => self.streamed(token),
                }
            },
            None => self.fail("ANE position drift".to_owned()),
        }
    }

    fn is_match(&self) -> (r: Option<bool>)
        requires
            self@.current is Some,
            self@.continuation is Some,
        ensures
            r == self@.matched(),
    {
        match (&self.continuation, &self.current) {
            (Some(continuation), Some(reference)) => matches_reference(
                continuation.generated(),
                &reference.generated,
            ),
            _ => None,
        }
    }

    fn concluded(&mut self, calls: usize, text: Result<String, String>, streamed: &str) -> (call:
        RunCall)
        requires
            old(self)@.well_formed(),
            old(self)@.stage == RunStage::Concluding,
        ensures
            (final(self)@, call@) == old(self)@.concluded(
                calls,
                crate::disagg::continuation::tail_told(text),
                streamed@,
            ),
            final(self)@.well_formed(),
    {
        let complete = match text {
            Ok(complete) => complete,
            Err(message) => {
                return self.fail(message);
            },
        };
        let compiled: usize = match compiler_calls(self.compiler_calls, calls) {
            Ok(compiled) => compiled,
            Err(message) => {
                return self.fail(message);
            },
        };
        let matched = self.is_match();
        if !self.mode.text_mode {
            self.stage = RunStage::SavingCase;
            return RunCall::SaveCase { matched, compiler_calls: compiled, tail: None };
        }
        match unstreamed_tail(complete.as_str(), streamed) {
            Err(message) => self.fail(message),
            Ok(tail) => {
                self.stage = RunStage::SavingCase;
                RunCall::SaveCase { matched, compiler_calls: compiled, tail: Some(tail) }
            },
        }
    }

    fn case_saved(&mut self) -> (call: RunCall)
        requires
            old(self)@.well_formed(),
            old(self)@.stage == RunStage::SavingCase,
        ensures
            (final(self)@, call@) == old(self)@.case_saved(),
            final(self)@.well_formed(),
    {
        let matched = self.is_match();
        let decode_steps: usize = match &self.continuation {
            Some(continuation) => continuation.generated().len() - 1,
            None => 0,
        };
        match self.session.record(CaseOutcome { matched, decode_steps }) {
            Err(message) => self.fail(message),
            Ok(_) => {
                let report = self.session.report();
                self.stage = RunStage::SavingReport;
                RunCall::SaveReport { report }
            },
        }
    }

    fn report_saved(&mut self) -> (call: RunCall)
        requires
            old(self)@.well_formed(),
            old(self)@.stage == RunStage::SavingReport,
        ensures
            (final(self)@, call@) == old(self)@.report_saved(),
            final(self)@.well_formed(),
    {
        let matched = self.is_match();
        let outcome = match &self.current {
            Some(reference) => require_match(matched, &reference.path),
            None => Ok(()),
        };
        match outcome {
            Err(message) => self.fail(message),
            Ok(_) => self.take_next(),
        }
    }

    fn done(&mut self) -> (call: RunCall)
        requires
            old(self)@.well_formed(),
        ensures
            (final(self)@, call@) == old(self)@.done(),
            final(self)@.well_formed(),
    {
        match self.stage {
            RunStage::LoadingFirst => {
                self.ane_loaded = true;
                self.take_next()
            },
            RunStage::Rejecting => {
                self.stage = RunStage::ReadingLine;
                RunCall::ReadLine
            },
            RunStage::Streaming => self.go_on(),
            RunStage::LoadingLate => {
                self.ane_loaded = true;
                self.go_on()
            },
            RunStage::Importing => {
                self.imported = true;
                self.go_on()
            },
            RunStage::SavingCase => self.case_saved(),
            RunStage::SavingReport => self.report_saved(),
            _ => {
                self.stage = RunStage::Ended;
                RunCall::Finish
            },
        }
    }

    /// Takes the reply to the last call, and makes the next one.
    pub fn resume(&mut self, reply: RunReply) -> (call: RunCall)
        requires
            old(self)@.well_formed(),
            old(self)@.expects(reply),
        ensures
            final(self)@.well_formed(),
            (final(self)@, call@) == old(self)@.resumed(reply),
    {
        match reply {
            RunReply::Prefilled { token: Err(message) } => self.fail(message),
            RunReply::Prefilled { token: Ok(token) } => {
                if matches!(self.stage, RunStage::PrefillingAll) {
                    self.starts.push(token);
                    self.prefill_ahead()
                } else {
                    self.prefilled(token)
                }
            },
            RunReply::Done { outcome: Err(message) } => self.fail(message),
            RunReply::Done { outcome: Ok(_) } => self.done(),
            RunReply::Line { bytes_read, line, tokens } => self.read(
                bytes_read,
                line.as_str(),
                tokens,
            ),
            RunReply::Counted { calls } => self.counted(calls),
            RunReply::Decoded { outcome: Err(message) } => self.fail(message),
            RunReply::Decoded { outcome: Ok((position, token)) } => self.decoded(position, token),
            RunReply::Concluded { calls, text, streamed } => self.concluded(
                calls,
                text,
                streamed.as_str(),
            ),
        }
    }
}

// ---------------------------------------------------------------------------
// Laws
// ---------------------------------------------------------------------------

/// The run and its call after some replies.
pub open spec fn ran(
    mode: RunMode,
    eos: Seq<u32>,
    references: Seq<ReferenceModel>,
    replies: Seq<RunReply>,
) -> (RunModel, RunCallModel)
    decreases replies.len(),
{
    if replies.len() == 0 {
        if mode.interleave {
            (
                prepared(mode, eos, references).at(RunStage::LoadingFirst),
                RunCallModel::LoadAne,
            )
        } else {
            prepared(mode, eos, references).prefill_ahead()
        }
    } else {
        ran(mode, eos, references, replies.drop_last()).0.resumed(replies.last())
    }
}

/// Whether every reply answers the call before it.
pub open spec fn answering(
    mode: RunMode,
    eos: Seq<u32>,
    references: Seq<ReferenceModel>,
    replies: Seq<RunReply>,
) -> bool
    decreases replies.len(),
{
    replies.len() > 0 ==> answering(mode, eos, references, replies.drop_last()) && ran(
        mode,
        eos,
        references,
        replies.drop_last(),
    ).0.expects(replies.last())
}

proof fn taking_next_keeps_form(m: RunModel)
    requires
        m.ready(),
    ensures
        m.take_next().0.well_formed(),
        !(m.take_next().1 is Decode),
{
    if m.next < m.references.len() {
        assert(fits(m.references[m.next]));
    }
}

proof fn going_on_keeps_form(m: RunModel)
    requires
        m.ready(),
        m.current is Some,
        m.continuation is Some,
    ensures
        m.go_on().0.well_formed(),
        m.go_on().1 is Decode ==> m.go_on().0.stage == RunStage::Decoding,
{
}

proof fn streaming_keeps_form(m: RunModel, token: u32)
    requires
        m.ready(),
        m.current is Some,
        m.continuation is Some,
    ensures
        m.streamed(token).0.well_formed(),
        m.streamed(token).1 is Decode ==> m.streamed(token).0.stage == RunStage::Decoding,
{
    going_on_keeps_form(m);
}

proof fn prefilling_keeps_form(m: RunModel, token: u32)
    requires
        m.ready(),
        m.current is Some,
    ensures
        m.prefilled(token).0.well_formed(),
        m.prefilled(token).1 is Decode ==> m.prefilled(token).0.stage == RunStage::Decoding,
{
    let reference = m.current->0;
    let next = RunModel {
        continuation: Some(
            begun(reference.prompt.len() as usize, reference.max_new_tokens, m.eos, token),
        ),
        ..m
    };
    streaming_keeps_form(next, token);
}

proof fn done_keeps_form(m: RunModel)
    requires
        m.well_formed(),
    ensures
        m.done().0.well_formed(),
        m.done().1 is Decode ==> m.done().0.stage == RunStage::Decoding,
{
    match m.stage {
        RunStage::LoadingFirst => {
            taking_next_keeps_form(RunModel { ane_loaded: true, ..m });
        },
        RunStage::Streaming => {
            going_on_keeps_form(m);
        },
        RunStage::LoadingLate => {
            going_on_keeps_form(RunModel { ane_loaded: true, ..m });
        },
        RunStage::Importing => {
            going_on_keeps_form(RunModel { imported: true, ..m });
        },
        RunStage::SavingReport => {
            taking_next_keeps_form(m);
        },
        _ => {},
    }
}

proof fn run_step(m: RunModel, reply: RunReply)
    requires
        m.well_formed(),
        m.expects(reply),
    ensures
        m.resumed(reply).0.well_formed(),
        m.resumed(reply).1 is Decode ==> m.resumed(reply).0.stage == RunStage::Decoding,
{
    match reply {
        RunReply::Prefilled { token } => {
            if token is Ok {
                if m.stage == RunStage::PrefillingAll {
                    let next = RunModel { starts: m.starts.push(token->Ok_0), ..m };
                    if next.starts.len() == next.references.len() {
                        taking_next_keeps_form(next);
                    }
                } else {
                    prefilling_keeps_form(m, token->Ok_0);
                }
            }
        },
        RunReply::Counted { calls } => {
            let next = RunModel { compiler_calls: calls, ..m };
            if !m.mode.interleave && 1 <= m.next <= m.starts.len() {
                prefilling_keeps_form(next, m.starts[m.next - 1]);
            }
        },
        RunReply::Decoded { outcome } => {
            if outcome is Ok {
                let token = outcome->Ok_0.1;
                let next = RunModel { continuation: Some(m.continuation->0.with(token)), ..m };
                streaming_keeps_form(next, token);
            }
        },
        RunReply::Done { outcome } => {
            if outcome is Ok {
                done_keeps_form(m);
            }
        },
        _ => {},
    }
}

proof fn run_trace(
    mode: RunMode,
    eos: Seq<u32>,
    references: Seq<ReferenceModel>,
    replies: Seq<RunReply>,
)
    requires
        forall|i: int| 0 <= i < references.len() ==> fits(#[trigger] references[i]),
        references.len() <= usize::MAX,
        answering(mode, eos, references, replies),
    ensures
        ran(mode, eos, references, replies).0.well_formed(),
        ran(mode, eos, references, replies).1 is Decode ==> ran(mode, eos, references, replies).0.stage
            == RunStage::Decoding,
    decreases replies.len(),
{
    if replies.len() > 0 {
        run_trace(mode, eos, references, replies.drop_last());
        run_step(ran(mode, eos, references, replies.drop_last()).0, replies.last());
    } else if !mode.interleave && references.len() == 0 {
        taking_next_keeps_form(prepared(mode, eos, references));
    }
}

/// A token is decoded only on a loaded decoder that imported the request's own
/// prefill, and only while the request goes on. Where requests are not
/// interleaved, every prefill was made by then.
pub proof fn decodes_follow_load_and_import(
    mode: RunMode,
    eos: Seq<u32>,
    references: Seq<ReferenceModel>,
    replies: Seq<RunReply>,
)
    requires
        forall|i: int| 0 <= i < references.len() ==> fits(#[trigger] references[i]),
        references.len() <= usize::MAX,
        answering(mode, eos, references, replies),
        ran(mode, eos, references, replies).1 is Decode,
    ensures
        ({
            let m = ran(mode, eos, references, replies).0;
            &&& m.ane_loaded
            &&& m.imported
            &&& m.continuation is Some && m.continuation->0.goes_on()
            &&& !m.mode.interleave ==> m.starts.len() == m.references.len()
        }),
{
    run_trace(mode, eos, references, replies);
}

/// A request that differs from its reference ends the run, after its case and its
/// report were written.
pub proof fn mismatches_end_the_run(m: RunModel)
    requires
        m.well_formed(),
        m.stage == RunStage::SavingReport,
        m.matched() == Some(false),
    ensures
        m.resumed(RunReply::Done { outcome: Ok(()) }).1 is Fail,
{
}

} // verus!
