//! What a run decodes, compares and reports, reply by reply.
use crate::disagg::continuation::{match_of, tail_of, CaseOutcome, SessionModel};
use crate::disagg::references::ReferenceModel;
use crate::disagg::run::{
    prepared, RunCallModel, RunMode, RunModel, RunReply, RunStage,
};
use vstd::prelude::*;

verus! {

/// Whether a run's continuation is that of its request: of its prompt, under its
/// limit, ended by the run's tokens.
pub open spec fn continues_its_request(m: RunModel) -> bool {
    m.continuation matches Some(c) ==> {
        &&& m.current is Some
        &&& c.prompt_len == m.current->0.prompt.len()
        &&& c.max_new_tokens == m.current->0.max_new_tokens
        &&& c.eos == m.eos
        &&& c.generated.len() > 0
    }
}

/// A continuation stays that of its request, whatever the reply; a run begins with
/// none, and never changes its mode, its references or what ends a sequence.
pub proof fn continuations_stay_with_their_request(m: RunModel, reply: RunReply)
    requires
        m.well_formed(),
        m.expects(reply),
        continues_its_request(m),
    ensures
        continues_its_request(m.resumed(reply).0),
        m.resumed(reply).0.mode == m.mode,
        m.resumed(reply).0.references == m.references,
        m.resumed(reply).0.eos == m.eos,
{
    if m.current is Some {
        assert(m.current->0.prompt.len() as usize == m.current->0.prompt.len());
    }
}

/// A run begins with no request at hand and none recorded.
pub proof fn runs_begin_empty(mode: RunMode, eos: Seq<u32>, references: Seq<ReferenceModel>)
    ensures
        continues_its_request(prepared(mode, eos, references)),
        ({
            let m = prepared(mode, eos, references);
            &&& m.current is None
            &&& m.next == 0
            &&& m.starts.len() == 0
            &&& !m.ane_loaded
            &&& m.session.completed_requests == 0
            &&& m.session.cases.len() == 0
            &&& m.session.text_mode == mode.text_mode
            &&& m.session.interactive == mode.interactive
            &&& m.session.references_requested == references.len() as usize
            &&& m.eos == eos && m.references == references && m.mode == mode
        }),
{
}

/// Each decode is fed the last token of the prompt and what was generated, at its
/// own position. Layers are captured only at the first decode and feed-forward inputs
/// only at the first two, where the mode asks for it.
pub proof fn decodes_are_fed_the_last_token(m: RunModel, reply: RunReply)
    requires
        m.well_formed(),
        m.expects(reply),
        continues_its_request(m),
        m.resumed(reply).1 is Decode,
    ensures
        ({
            let n = m.resumed(reply).0;
            let step = m.resumed(reply).1->step;
            let c = n.continuation->0;
            let text = n.current->0.prompt + c.generated;
            &&& step.position + 1 == text.len()
            &&& step.input == text[step.position as int]
            &&& c.generated.len() < c.max_new_tokens
            &&& !n.eos.contains(step.input)
            &&& step.capture_layers <==> m.mode.capture_layers && c.generated.len() == 1
            &&& step.capture_ffn <==> m.mode.capture_ffn_inputs && c.generated.len() <= 2
            &&& n.imported && n.ane_loaded
        }),
{
    continuations_stay_with_their_request(m, reply);
}

/// What is generated begins with the token of the prefill and grows by the token of
/// each decode at the position that was asked for; a decode at another position ends
/// the run. Nothing else changes what was generated for a request.
pub proof fn generated_tokens_are_those_decoded(m: RunModel, reply: RunReply)
    requires
        m.well_formed(),
        m.expects(reply),
        continues_its_request(m),
    ensures
        ({
            let (n, call) = m.resumed(reply);
            match (m.stage, reply) {
                (RunStage::Prefilling, RunReply::Prefilled { token: Ok(token) }) => n.continuation
                    is Some && n.continuation->0.generated == seq![token] && n.current == m.current,
                (RunStage::Decoding, RunReply::Decoded { outcome: Ok(answer) }) => {
                    let at = m.current->0.prompt.len() + m.continuation->0.generated.len() - 1;
                    if answer.0 == at {
                        n.continuation is Some && n.continuation->0.generated
                            == m.continuation->0.generated.push(answer.1) && n.current == m.current
                    } else {
                        call is Fail
                    }
                },
                (RunStage::Counting, RunReply::Counted { calls }) => {
                    &&& n.compiler_calls == calls
                    &&& !m.mode.interleave && 1 <= m.next <= m.starts.len() ==> n.continuation
                        is Some && n.continuation->0.generated == seq![m.starts[m.next - 1]]
                },
                _ => n.continuation is Some ==> n.continuation == m.continuation && n.current
                    == m.current,
            }
        }),
{
    if m.current is Some {
        assert(m.current->0.prompt.len() as usize == m.current->0.prompt.len());
    }
}

/// A run concludes a request exactly where it is complete: as many tokens as were
/// asked for, or a last one that ends the sequence.
pub proof fn requests_conclude_when_complete(m: RunModel, reply: RunReply)
    requires
        m.well_formed(),
        m.expects(reply),
        continues_its_request(m),
    ensures
        ({
            let (n, call) = m.resumed(reply);
            let c = n.continuation->0;
            &&& call is Conclude ==> n.continuation is Some && (c.generated.len()
                >= n.current->0.max_new_tokens || n.eos.contains(c.generated.last()))
            &&& call is Import || call is Decode ==> n.continuation is Some && c.generated.len()
                < n.current->0.max_new_tokens && !n.eos.contains(c.generated.last())
        }),
{
    continuations_stay_with_their_request(m, reply);
}

/// A concluded request is saved with whether its tokens are those of its reference,
/// if that has any, with the compiler calls made since it was counted, and with what
/// was not streamed of its text.
pub proof fn saved_cases_tell_the_match(
    m: RunModel,
    calls: usize,
    text: Result<String, String>,
    streamed: String,
)
    requires
        m.well_formed(),
        m.stage == RunStage::Concluding,
    ensures
        ({
            let (n, call) = m.resumed(RunReply::Concluded { calls, text, streamed });
            let g = m.continuation->0.generated;
            match call {
                RunCallModel::SaveCase { matched, compiler_calls, tail } => {
                    &&& text is Ok
                    &&& matched == match m.current->0.generated {
                        Some(expected) => Some(g == expected),
                        None => None,
                    }
                    &&& m.compiler_calls + compiler_calls == calls
                    &&& m.mode.text_mode ==> tail is Some && streamed@ + tail->0 == text->Ok_0@
                    &&& !m.mode.text_mode ==> tail is None
                    &&& n.continuation == m.continuation && n.current == m.current && n.session
                        == m.session
                },
                RunCallModel::Fail { error } => text is Err || calls < m.compiler_calls || (
                m.mode.text_mode && !streamed@.is_prefix_of(text->Ok_0@)),
                _ => false,
            }
        }),
{
    if text is Ok {
        let complete = text->Ok_0@;
        if m.mode.text_mode && tail_of(complete, streamed@) is Ok {
            crate::disagg::continuation::streaming_loses_nothing(complete, streamed@);
        }
    }
}

/// A saved case is recorded: one request more, whether it matched, and one decode
/// step for each token after the first.
pub proof fn saved_cases_are_recorded(m: RunModel)
    requires
        m.well_formed(),
        m.stage == RunStage::SavingCase,
        m.session.completed_requests < usize::MAX,
    ensures
        ({
            let (n, call) = m.resumed(RunReply::Done { outcome: Ok(()) });
            let g = m.continuation->0.generated;
            let case = CaseOutcome {
                matched: match_of(g, m.current->0.generated),
                decode_steps: (g.len() - 1) as usize,
            };
            &&& n.session.completed_requests == m.session.completed_requests + 1
            &&& n.session.cases.len() > 0 && n.session.cases.last() == case
            &&& !m.session.interactive ==> n.session.cases.len() == m.session.cases.len() + 1
                && n.session.cases.drop_last() == m.session.cases
            &&& m.session.interactive ==> n.session.cases.len() == 1
            &&& n.session.any_ane_execution <==> m.session.any_ane_execution || g.len() as usize > 1
                || (g.len() - 1) as usize > 0
            &&& call == (RunCallModel::SaveReport { report: n.session.report() })
        }),
{
    let n = m.resumed(RunReply::Done { outcome: Ok(()) }).0;
    if !m.session.interactive {
        assert(n.session.cases.drop_last() =~= m.session.cases);
    }
    let g = m.continuation->0.generated;
    assert(g.len() <= usize::MAX);
}

/// What a report claims follows from the recorded cases: qualification only of
/// references that all were run and all match, inference only where all were run,
/// decoding only where a case decoded.
pub proof fn reports_follow_the_cases(s: SessionModel, i: int)
    requires
        s.cases.len() <= usize::MAX,
    ensures
        ({
            let r = s.report();
            let matched = forall|k: int|
                0 <= k < s.cases.len() ==> (#[trigger] s.cases[k]).matched == Some(true);
            &&& r.requests_completed == s.completed_requests
            &&& r.ane_execution_verified == s.any_ane_execution
            &&& r.all_references_match <==> !s.text_mode && matched
            &&& r.qualification_complete <==> !s.text_mode && matched && s.cases.len()
                == s.references_requested
            &&& r.inference_complete <==> !s.interactive && s.cases.len() == s.references_requested
            &&& r.references_requested == if s.text_mode {
                0
            } else {
                s.references_requested
            }
            &&& r.references_completed == if s.text_mode {
                0
            } else {
                s.cases.len() as usize
            }
            &&& 0 <= i < s.cases.len() && s.cases[i].decode_steps > 0 ==> r.decode_claimed
            &&& r.decode_claimed ==> exists|k: int|
                0 <= k < s.cases.len() && (#[trigger] s.cases[k]).decode_steps > 0
        }),
{
}

/// Requests are taken up in the order of the references, none left out and none
/// twice; when all were, a line is read where the run is interactive, and the run
/// closes otherwise.
pub proof fn references_are_taken_up_in_order(m: RunModel)
    requires
        0 <= m.next <= m.references.len(),
    ensures
        ({
            let (n, call) = m.take_next();
            if m.next < m.references.len() {
                &&& n.current == Some(m.references[m.next])
                &&& n.next == m.next + 1
                &&& n.continuation is None
                &&& !n.imported
                &&& call is CountCompilerCalls
            } else {
                &&& n.next == m.next
                &&& call is ReadLine <==> m.mode.interactive
                &&& call is Close <==> !m.mode.interactive
            }
        }),
{
}

/// The next request is taken up exactly where the last one's report was saved and
/// its tokens did not differ from its reference's.
pub proof fn saved_reports_go_on_unless_tokens_differ(m: RunModel)
    requires
        m.well_formed(),
        m.stage == RunStage::SavingReport,
    ensures
        ({
            let answer = m.resumed(RunReply::Done { outcome: Ok(()) });
            let differs = m.current->0.generated matches Some(expected)
                && m.continuation->0.generated != expected;
            if differs {
                answer.1 is Fail
            } else {
                answer == m.take_next()
            }
        }),
{
}

/// Prefills that are made ahead are those of the references in order, and their
/// first tokens are kept in that order.
pub proof fn prefills_ahead_are_in_order(m: RunModel, token: u32)
    requires
        m.well_formed(),
        m.stage == RunStage::PrefillingAll,
    ensures
        ({
            let (n, call) = m.resumed(RunReply::Prefilled { token: Ok(token) });
            &&& n.starts == m.starts.push(token)
            &&& n.starts.len() < m.references.len() ==> call == (RunCallModel::PrefillReference {
                index: n.starts.len() as int,
            })
            &&& n.starts.len() == m.references.len() ==> !(call is PrefillReference)
        }),
{
}

/// A prompt that was read becomes a request of its own tokens without a reference,
/// where they fit the context together with the output; otherwise it is rejected and
/// the next line is read.
pub proof fn read_prompts_become_requests(
    m: RunModel,
    bytes_read: usize,
    line: Seq<char>,
    tokens: Result<Seq<u32>, Seq<char>>,
)
    ensures
        ({
            let (n, call) = m.read(bytes_read, line, tokens);
            &&& bytes_read == 0 ==> call is Close
            &&& call is CountCompilerCalls ==> {
                &&& tokens is Ok
                &&& n.current is Some
                &&& n.current->0.prompt == tokens->Ok_0
                &&& n.current->0.generated is None
                &&& n.current->0.path is None
                &&& n.current->0.max_new_tokens == m.mode.max_new_tokens
                &&& tokens->Ok_0.len() > 0
                &&& n.continuation is None
            }
            &&& call is RejectPrompt || call is CountCompilerCalls || call is Close || call
                is ReadLine
        }),
{
}

} // verus!
