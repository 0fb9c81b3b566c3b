//! The decode of one request after its prefill, and what a session reports of
//! the requests that it completed.
use crate::metal_infer::generation::is_eos;
use crate::text::{after_prefix, cat2, opt_text, strip_prefix_text, told};
use vstd::prelude::*;

verus! {

/// What the counters of a request enclose.
pub const COUNTING_BOUNDARY: &'static str = "compiler counter brackets full request; research dispatch counters bracket synchronous Metal prefill";

/// A continuation: what was generated so far, and when to stop.
#[derive(Debug)]
pub struct Continuation {
    prompt_len: usize,
    max_new_tokens: usize,
    eos: Vec<u32>,
    generated: Vec<u32>,
}

pub struct ContinuationModel {
    pub prompt_len: usize,
    pub max_new_tokens: usize,
    pub eos: Seq<u32>,
    pub generated: Seq<u32>,
}

impl View for Continuation {
    type V = ContinuationModel;

    closed spec fn view(&self) -> ContinuationModel {
        ContinuationModel {
            prompt_len: self.prompt_len,
            max_new_tokens: self.max_new_tokens,
            eos: self.eos@,
            generated: self.generated@,
        }
    }
}

/// One decode: the token that is fed, its position, and which states are kept.
#[derive(Clone, Copy, Debug, PartialEq, Eq, Structural)]
pub struct ContinuationStep {
    pub input: u32,
    pub position: usize,
    pub capture_layers: bool,
    pub capture_ffn: bool,
}

impl ContinuationModel {
    /// A token was sampled by the prefill, and positions stay in range.
    pub open spec fn well_formed(self) -> bool {
        &&& self.generated.len() > 0
        &&& self.prompt_len + self.max_new_tokens <= usize::MAX
        &&& self.generated.len() <= self.max_new_tokens || self.generated.len() == 1
    }

    /// Whether there is more to decode.
    pub open spec fn goes_on(self) -> bool {
        self.generated.len() < self.max_new_tokens && !self.eos.contains(self.generated.last())
    }

    /// The decode that is due.
    pub open spec fn step(self, capture_layers: bool, capture_ffn_inputs: bool) -> ContinuationStep {
        ContinuationStep {
            input: self.generated.last(),
            position: (self.prompt_len + self.generated.len() - 1) as usize,
            capture_layers: capture_layers && self.generated.len() == 1,
            capture_ffn: capture_ffn_inputs && self.generated.len() <= 2,
        }
    }

    /// The continuation after a decode.
    pub open spec fn with(self, token: u32) -> ContinuationModel {
        ContinuationModel { generated: self.generated.push(token), ..self }
    }

    /// The continuation after some decodes.
    pub open spec fn with_all(self, tokens: Seq<u32>) -> ContinuationModel
        decreases tokens.len(),
    {
        if tokens.len() == 0 {
            self
        } else {
            self.with_all(tokens.drop_last()).with(tokens.last())
        }
    }
}

/// The continuation right after a prefill.
pub open spec fn begun(
    prompt_len: usize,
    max_new_tokens: usize,
    eos: Seq<u32>,
    first: u32,
) -> ContinuationModel {
    ContinuationModel { prompt_len, max_new_tokens, eos, generated: seq![first] }
}

impl Continuation {
    pub open spec fn well_formed(&self) -> bool {
        self@.well_formed()
    }

    /// The tokens so far, the one that the prefill sampled first.
    pub fn generated(&self) -> (r: &Vec<u32>)
        ensures
            r@ == self@.generated,
    {
        &self.generated
    }

    /// Starts after the token that the prefill sampled.
    pub fn begin(prompt_len: usize, max_new_tokens: usize, eos: Vec<u32>, first: u32) -> (r:
        Continuation)
        requires
            prompt_len + max_new_tokens <= usize::MAX,
        ensures
            r@ == begun(prompt_len, max_new_tokens, eos@, first),
            r.well_formed(),
    {
        let mut generated: Vec<u32> = Vec::new();
        generated.push(first);
        assert(generated@ =~= seq![first]);
        Continuation { prompt_len, max_new_tokens, eos, generated }
    }

    /// The decode that is due, or nothing where the output limit or the end of
    /// the sequence was reached. Layer states are kept of the first decode, and
    /// feed-forward inputs of the first two.
    pub fn next(&self, capture_layers: bool, capture_ffn_inputs: bool) -> (r: Option<
        ContinuationStep,
    >)
        requires
            self.well_formed(),
        ensures
            r == if self@.goes_on() {
                Some(self@.step(capture_layers, capture_ffn_inputs))
            } else {
                None
            },
    {
        let count: usize = self.generated.len();
        let last: u32 = self.generated[count - 1];
        if count >= self.max_new_tokens || is_eos(&self.eos, last) {
            return None;
        }
        Some(
            ContinuationStep {
                input: last,
                position: self.prompt_len + count - 1,
                capture_layers: capture_layers && count == 1,
                capture_ffn: capture_ffn_inputs && count <= 2,
            },
        )
    }

    /// Takes a decode's answer, which must be of the position that was asked for.
    pub fn accept(&mut self, position: usize, token: u32) -> (r: Result<(), String>)
        requires
            old(self).well_formed(),
            old(self)@.goes_on(),
        ensures
            final(self).well_formed(),
            told(r) == if position != old(self)@.step(false, false).position {
                Err::<(), Seq<char>>("ANE position drift"@)
            } else {
                Ok(())
            },
            final(self)@ == if r is Ok {
                old(self)@.with(token)
            } else {
                old(self)@
            },
    {
        if position != self.prompt_len + self.generated.len() - 1 {
            return Err("ANE position drift".to_owned());
        }
        self.generated.push(token);
        Ok(())
    }
}

/// Whether every decode was due when it was made.
pub open spec fn all_due(m: ContinuationModel, tokens: Seq<u32>) -> bool
    decreases tokens.len(),
{
    tokens.len() > 0 ==> all_due(m, tokens.drop_last()) && m.with_all(tokens.drop_last()).goes_on()
}

/// However a continuation is decoded, it keeps the first token and appends one
/// token for each decode, never exceeds the output limit, feeds each position
/// once, in order from the prompt's length, and goes on past no
/// end-of-sequence token.
pub proof fn continuations_stop(
    prompt_len: usize,
    max_new_tokens: usize,
    eos: Seq<u32>,
    first: u32,
    tokens: Seq<u32>,
)
    requires
        prompt_len + max_new_tokens <= usize::MAX,
        max_new_tokens > 0,
        all_due(begun(prompt_len, max_new_tokens, eos, first), tokens),
    ensures
        ({
            let m = begun(prompt_len, max_new_tokens, eos, first).with_all(tokens);
            &&& m.well_formed()
            &&& m.generated == seq![first] + tokens
            &&& m.generated.len() <= max_new_tokens
            &&& m.eos == eos && m.prompt_len == prompt_len && m.max_new_tokens == max_new_tokens
            &&& forall|i: int|
                0 <= i < m.generated.len() - 1 ==> !eos.contains(#[trigger] m.generated[i])
            &&& m.step(false, false).position == prompt_len + tokens.len()
        }),
    decreases tokens.len(),
{
    let start = begun(prompt_len, max_new_tokens, eos, first);
    if tokens.len() > 0 {
        continuations_stop(prompt_len, max_new_tokens, eos, first, tokens.drop_last());
        assert(seq![first] + tokens =~= (seq![first] + tokens.drop_last()).push(tokens.last()));
    } else {
        assert(seq![first] + tokens =~= seq![first]);
    }
}

// ---------------------------------------------------------------------------
// The end of a request
// ---------------------------------------------------------------------------

pub open spec fn match_of(generated: Seq<u32>, expected: Option<Seq<u32>>) -> Option<bool> {
    match expected {
        Some(ids) => Some(generated == ids),
        None => None,
    }
}

pub open spec fn ids_of(ids: Option<Vec<u32>>) -> Option<Seq<u32>> {
    match ids {
        Some(ids) => Some(ids@),
        None => None,
    }
}

fn same_ids(a: &Vec<u32>, b: &Vec<u32>) -> (r: bool)
    ensures
        r == (a@ == b@),
{
    if a.len() != b.len() {
        return false;
    }
    let mut i: usize = 0;
    while i < a.len()
        invariant
            i <= a@.len() == b@.len(),
            forall|j: int| 0 <= j < i ==> a@[j] == b@[j],
        decreases a@.len() - i,
    {
        if a[i] != b[i] {
            return false;
        }
        i = i + 1;
    }
    assert(a@ =~= b@);
    true
}

/// Whether a continuation is the reference's; nothing where there is none.
pub fn matches_reference(generated: &Vec<u32>, expected: &Option<Vec<u32>>) -> (r: Option<bool>)
    ensures
        r == match_of(generated@, ids_of(*expected)),
{
    match expected {
        Some(ids) => Some(same_ids(generated, ids)),
        None => None,
    }
}

pub open spec fn mismatch_of(matched: Option<bool>, path: Option<Seq<char>>) -> Result<(), Seq<char>> {
    if matched == Some(false) {
        match path {
            Some(p) => Err("ANE continuation differs from "@ + p),
            None => Err("reference path missing"@),
        }
    } else {
        Ok(())
    }
}

/// Refuses a continuation that differs from its reference.
pub fn require_match(matched: Option<bool>, path: &Option<String>) -> (r: Result<(), String>)
    ensures
        told(r) == mismatch_of(matched, opt_text(*path)),
{
    if let Some(false) = matched {
        return match path {
            Some(p) => Err(cat2("ANE continuation differs from ", p.as_str())),
            None => Err("reference path missing".to_owned()),
        };
    }
    Ok(())
}

pub open spec fn calls_between(before: usize, after: usize) -> Result<usize, Seq<char>> {
    if after < before {
        Err("ANE compiler call counter reset during request"@)
    } else {
        Ok((after - before) as usize)
    }
}

/// The compiler calls of a request. The request is free of compilation where
/// there is none.
pub fn compiler_calls(before: usize, after: usize) -> (r: Result<usize, String>)
    ensures
        told(r) == calls_between(before, after),
{
    if after < before {
        return Err("ANE compiler call counter reset during request".to_owned());
    }
    Ok(after - before)
}

pub open spec fn tail_of(complete: Seq<char>, streamed: Seq<char>) -> Result<Seq<char>, Seq<char>> {
    match after_prefix(complete, streamed) {
        Some(tail) => Ok(tail),
        None => Err("streamed text differs from complete token decoding"@),
    }
}

pub open spec fn tail_told(r: Result<String, String>) -> Result<Seq<char>, Seq<char>> {
    match r {
        Ok(t) => Ok(t@),
        Err(e) => Err(e@),
    }
}

/// What is left to print of the complete text after what was streamed.
pub fn unstreamed_tail(complete: &str, streamed: &str) -> (r: Result<String, String>)
    ensures
        tail_told(r) == tail_of(complete@, streamed@),
{
    match strip_prefix_text(complete, streamed) {
        Some(tail) => Ok(tail),
        None => Err("streamed text differs from complete token decoding".to_owned()),
    }
}

/// Streamed text and the tail make up the complete text.
pub proof fn streaming_loses_nothing(complete: Seq<char>, streamed: Seq<char>)
    requires
        tail_of(complete, streamed) is Ok,
    ensures
        streamed + tail_of(complete, streamed)->Ok_0 == complete,
{
    assert(streamed + tail_of(complete, streamed)->Ok_0 =~= complete);
}

// ---------------------------------------------------------------------------
// The session
// ---------------------------------------------------------------------------

/// What a report keeps of a request.
#[derive(Clone, Copy, Debug, PartialEq, Eq, Structural)]
pub struct CaseOutcome {
    pub matched: Option<bool>,
    pub decode_steps: usize,
}

/// The requests of a session: how many completed, and the cases that its report
/// holds.
#[derive(Debug)]
pub struct Session {
    pub text_mode: bool,
    pub interactive: bool,
    pub references_requested: usize,
    pub completed_requests: usize,
    pub any_ane_execution: bool,
    pub cases: Vec<CaseOutcome>,
}

pub struct SessionModel {
    pub text_mode: bool,
    pub interactive: bool,
    pub references_requested: usize,
    pub completed_requests: usize,
    pub any_ane_execution: bool,
    pub cases: Seq<CaseOutcome>,
}

impl View for Session {
    type V = SessionModel;

    open spec fn view(&self) -> SessionModel {
        SessionModel {
            text_mode: self.text_mode,
            interactive: self.interactive,
            references_requested: self.references_requested,
            completed_requests: self.completed_requests,
            any_ane_execution: self.any_ane_execution,
            cases: self.cases@,
        }
    }
}

/// What a report claims.
#[derive(Clone, Copy, Debug, PartialEq, Eq, Structural)]
pub struct SessionReport {
    pub ane_execution_verified: bool,
    pub requests_completed: usize,
    pub all_references_match: bool,
    pub references_requested: usize,
    pub references_completed: usize,
    pub qualification_complete: bool,
    pub inference_complete: bool,
    pub decode_claimed: bool,
}

impl SessionModel {
    pub open spec fn all_match(self) -> bool {
        forall|i: int|
            0 <= i < self.cases.len() ==> (#[trigger] self.cases[i]).matched == Some(true)
    }

    pub open spec fn any_decoded(self) -> bool {
        exists|i: int| 0 <= i < self.cases.len() && (#[trigger] self.cases[i]).decode_steps > 0
    }

    /// The report after the cases so far.
    pub open spec fn report(self) -> SessionReport {
        SessionReport {
            ane_execution_verified: self.any_ane_execution,
            requests_completed: self.completed_requests,
            all_references_match: !self.text_mode && self.all_match(),
            references_requested: if self.text_mode {
                0
            } else {
                self.references_requested
            },
            references_completed: if self.text_mode {
                0
            } else {
                self.cases.len() as usize
            },
            qualification_complete: !self.text_mode && self.cases.len()
                == self.references_requested && self.all_match(),
            inference_complete: !self.interactive && self.cases.len() == self.references_requested,
            decode_claimed: self.any_decoded(),
        }
    }

    /// The session after a case. An open-ended one keeps only the latest.
    pub open spec fn after(self, case: CaseOutcome) -> SessionModel {
        SessionModel {
            completed_requests: (self.completed_requests + 1) as usize,
            any_ane_execution: self.any_ane_execution || case.decode_steps > 0,
            cases: if self.interactive {
                seq![case]
            } else {
                self.cases.push(case)
            },
            ..self
        }
    }
}

/// A session before its first request.
pub open spec fn opened(text_mode: bool, interactive: bool, references_requested: usize) -> SessionModel {
    SessionModel {
        text_mode,
        interactive,
        references_requested,
        completed_requests: 0,
        any_ane_execution: false,
        cases: Seq::empty(),
    }
}

impl SessionReport {
    /// What a report claims: ANE decode only where a case decoded.
    pub fn claim(self) -> (r: &'static str)
        ensures
            r@ == if self.decode_claimed {
                "Metal prefill and first-token sampling, actual converted KV imported into all 48 ANE decode layers. Small norms, RoPE, residuals and sampling use CPU Rust. Timings include application scheduling; initialization is reported separately."@
            } else {
                "Metal prefill completed; no ANE decode step was required or executed."@
            },
    {
        if self.decode_claimed {
            "Metal prefill and first-token sampling, actual converted KV imported into all 48 ANE decode layers. Small norms, RoPE, residuals and sampling use CPU Rust. Timings include application scheduling; initialization is reported separately."
        } else {
            "Metal prefill completed; no ANE decode step was required or executed."
        }
    }
}

impl Session {
    pub fn open(text_mode: bool, interactive: bool, references_requested: usize) -> (r: Session)
        ensures
            r@ == opened(text_mode, interactive, references_requested),
    {
        let r = Session {
            text_mode,
            interactive,
            references_requested,
            completed_requests: 0,
            any_ane_execution: false,
            cases: Vec::new(),
        };
        assert(r.cases@ =~= Seq::empty());
        r
    }

    /// Counts a completed request.
    pub fn record(&mut self, case: CaseOutcome) -> (r: Result<(), String>)
        ensures
            told(r) == if old(self)@.completed_requests == usize::MAX {
                Err::<(), Seq<char>>("request count exhausted"@)
            } else {
                Ok(())
            },
            final(self)@ == if r is Ok {
                old(self)@.after(case)
            } else {
                old(self)@
            },
    {
        if self.completed_requests == usize::MAX {
            return Err("request count exhausted".to_owned());
        }
        self.completed_requests = self.completed_requests + 1;
        self.any_ane_execution = self.any_ane_execution || case.decode_steps > 0;
        if self.interactive {
            self.cases = Vec::new();
        }
        self.cases.push(case);
        assert(self.interactive ==> self.cases@ =~= seq![case]);
        Ok(())
    }

    /// What the report claims after the cases so far.
    pub fn report(&self) -> (r: SessionReport)
        ensures
            r == self@.report(),
    {
        let mut all = true;
        let mut decoded = false;
        let mut i: usize = 0;
        while i < self.cases.len()
            invariant
                i <= self.cases@.len(),
                all == forall|j: int|
                    0 <= j < i ==> (#[trigger] self.cases@[j]).matched == Some(true),
                decoded == exists|j: int|
                    0 <= j < i && (#[trigger] self.cases@[j]).decode_steps > 0,
            decreases self.cases@.len() - i,
        {
            if !matches!(self.cases[i].matched, Some(true)) {
                assert(self.cases@[i as int].matched != Some(true));
                all = false;
            }
            if self.cases[i].decode_steps > 0 {
                assert(self.cases@[i as int].decode_steps > 0);
                decoded = true;
            }
            i = i + 1;
        }
        SessionReport {
            ane_execution_verified: self.any_ane_execution,
            requests_completed: self.completed_requests,
            all_references_match: !self.text_mode && all,
            references_requested: if self.text_mode {
                0
            } else {
                self.references_requested
            },
            references_completed: if self.text_mode {
                0
            } else {
                self.cases.len()
            },
            qualification_complete: !self.text_mode && self.cases.len()
                == self.references_requested && all,
            inference_complete: !self.interactive && self.cases.len() == self.references_requested,
            decode_claimed: decoded,
        }
    }
}

/// A report claims qualification only where every requested reference was
/// completed and matched; text never qualifies.
pub proof fn qualification_is_earned(session: SessionModel)
    ensures
        session.report().qualification_complete ==> !session.text_mode && session.cases.len()
            == session.references_requested && session.all_match()
            && session.report().all_references_match,
        session.text_mode ==> !session.report().qualification_complete
            && !session.report().all_references_match,
{
}

/// An execution that was verified stays so, and one is claimed only after a
/// decode.
pub proof fn execution_claims_hold(session: SessionModel, case: CaseOutcome)
    ensures
        session.any_ane_execution ==> session.after(case).report().ane_execution_verified,
        session.after(case).report().ane_execution_verified ==> session.any_ane_execution
            || case.decode_steps > 0,
{
}

} // verus!
