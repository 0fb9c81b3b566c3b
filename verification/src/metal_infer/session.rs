//! Sessions of several cases: their capacities and environment, the outputs of
//! the shared engine, performance counters and the verdict.
use crate::metal_infer::args::{CliArgs, FinishReason};
use crate::metal_infer::budget::{
    count_fits, validate_u32_count, DEFAULT_MAX_METAL_TOTAL_TOKENS,
};
use crate::metal_infer::generation::is_eos;
use crate::metal_infer::reference::ReferenceComparison;
use crate::metal_infer::tokenizer::{
    can_decode, can_encode, decode_ids, decodes, draws_nothing, encode_ids, encodes_all, text_told,
    tokenizer_ids, tokenizer_text,
};
use crate::text::{cat2, cat4, decimal, decimal_text, told};
use vstd::prelude::*;

verus! {

/// What an inference report claims.
pub const CLAIM: &'static str = "Apple Metal text inference workflow; not production-ready until acceptance gates pass";

/// What a session profile claims.
pub const PROFILE_CLAIM: &'static str = "Apple Metal text session profile only; not production performance, ANE, external profiler, or production readiness evidence";

/// The prompt's tokens from a tokenizer's answer: the sequence's start, id 2,
/// comes first unless it is left out.
pub open spec fn prompt_tokens(ids: Result<Seq<u32>, Seq<char>>, no_bos: bool) -> Result<
    Seq<u32>,
    Seq<char>,
> {
    match ids {
        Err(message) => Err("tokenize prompt: "@ + message),
        Ok(ids) => {
            let tokens = if no_bos {
                ids
            } else {
                ids.insert(0, 2u32)
            };
            if tokens.len() == 0 {
                Err("prompt produced zero token IDs"@)
            } else {
                Ok(tokens)
            }
        },
    }
}

/// The tokens of a prompt, from what the tokenizer answered.
pub fn prompt_from_ids(ids: Result<Vec<u32>, String>, no_bos: bool) -> (r: Result<
    Vec<u32>,
    String,
>)
    ensures
        crate::metal_infer::args::ids_told(r) == prompt_tokens(
            crate::metal_infer::args::ids_told(ids),
            no_bos,
        ),
{
    match ids {
        Err(error) => Err(cat2("tokenize prompt: ", error.as_str())),
        Ok(mut tokens) => {
            if !no_bos {
                tokens.insert(0, 2);
            }
            if tokens.len() == 0 {
                return Err("prompt produced zero token IDs".to_owned());
            }
            Ok(tokens)
        },
    }
}

/// What is said of a tokenizer that does not take every text or every id.
pub open spec fn refused_tokenizer() -> Seq<char> {
    "unsupported tokenizer configuration"@
}

/// Tokenizes a prompt. A prompt that is accepted has a token, and starts with
/// id 2 unless that is left out; a tokenizer that may stop on a text is refused.
pub fn tokenize_prompt(tokenizer: &tokenizers::Tokenizer, prompt: &str, no_bos: bool) -> (r: Result<
    Vec<u32>,
    String,
>)
    ensures
        !encodes_all(*tokenizer) ==> r is Err && r->Err_0@ == "tokenize prompt: "@
            + refused_tokenizer(),
        encodes_all(*tokenizer) && draws_nothing(*tokenizer)
            ==> crate::metal_infer::args::ids_told(r) == prompt_tokens(
            tokenizer_ids(*tokenizer, prompt@),
            no_bos,
        ),
        r is Ok ==> r->Ok_0@.len() > 0 && (!no_bos ==> r->Ok_0@[0] == 2),
        r is Err ==> (no_bos && r->Err_0@ == "prompt produced zero token IDs"@) || "tokenize prompt: "@.is_prefix_of(
            r->Err_0@,
        ),
{
    let ids = if can_encode(tokenizer) {
        encode_ids(tokenizer, prompt)
    } else {
        Err("unsupported tokenizer configuration".to_owned())
    };
    proof {
        if ids is Err {
            let whole = "tokenize prompt: "@ + ids->Err_0@;
            assert("tokenize prompt: "@ =~= whole.subrange(0, "tokenize prompt: "@.len() as int));
        }
    }
    prompt_from_ids(ids, no_bos)
}

/// The prompt of a single-prompt command line.
pub fn single_prompt(args: &CliArgs) -> (r: Result<&String, String>)
    ensures
        match r {
            Ok(prompt) => args.prompt == Some(*prompt),
            Err(e) => args.prompt is None && e@
                == "--prompt is required for single-prompt inference"@,
        },
{
    match &args.prompt {
        Some(prompt) => Ok(prompt),
        None => Err("--prompt is required for single-prompt inference".to_owned()),
    }
}

/// The tokens of the prompt option; an error names the option.
pub open spec fn named_prompt(tokens: Result<Seq<u32>, Seq<char>>) -> Result<Seq<u32>, Seq<char>> {
    match tokens {
        Ok(tokens) => Ok(tokens),
        Err(message) => Err("--prompt "@ + message),
    }
}

/// Tokenizes the prompt of a single-prompt command line.
pub fn prompt_token_ids(args: &CliArgs, tokenizer: &tokenizers::Tokenizer) -> (r: Result<
    Vec<u32>,
    String,
>)
    ensures
        args.prompt is None ==> r is Err && r->Err_0@
            == "--prompt is required for single-prompt inference"@,
        args.prompt is Some && !encodes_all(*tokenizer) ==> r is Err && r->Err_0@ == "--prompt "@ + (
        "tokenize prompt: "@ + refused_tokenizer()),
        args.prompt is Some && encodes_all(*tokenizer) && draws_nothing(*tokenizer)
            ==> crate::metal_infer::args::ids_told(r) == named_prompt(
            prompt_tokens(tokenizer_ids(*tokenizer, args.prompt->0@), args.no_bos),
        ),
        r is Ok ==> r->Ok_0@.len() > 0 && (!args.no_bos ==> r->Ok_0@[0] == 2),
        args.prompt is Some && r is Err ==> (args.no_bos && r->Err_0@ == "--prompt "@
            + "prompt produced zero token IDs"@) || ("--prompt "@
            + "tokenize prompt: "@).is_prefix_of(r->Err_0@),
{
    match single_prompt(args) {
        Err(message) => Err(message),
        Ok(prompt) => match tokenize_prompt(tokenizer, prompt.as_str(), args.no_bos) {
            Ok(ids) => Ok(ids),
            Err(message) => {
                proof {
                    let head = "--prompt "@ + "tokenize prompt: "@;
                    let whole = "--prompt "@ + message@;
                    if "tokenize prompt: "@.is_prefix_of(message@) {
                        let tail = message@.subrange(
                            "tokenize prompt: "@.len() as int,
                            message@.len() as int,
                        );
                        assert(message@ =~= "tokenize prompt: "@ + tail);
                        assert(head =~= whole.subrange(0, head.len() as int));
                    }
                }
                Err(cat2("--prompt ", message.as_str()))
            },
        },
    }
}

/// The text of tokens, from what the tokenizer answered.
pub open spec fn labelled_text(answer: Result<Seq<char>, Seq<char>>, label: Seq<char>) -> Result<
    Seq<char>,
    Seq<char>,
> {
    match answer {
        Ok(text) => Ok(text),
        Err(message) => Err("decode "@ + label + " token IDs: "@ + message),
    }
}

/// Reports a tokenizer's answer under a label.
pub fn text_from_answer(answer: Result<String, String>, label: &str) -> (r: Result<String, String>)
    ensures
        text_told(r) == labelled_text(text_told(answer), label@),
{
    match answer {
        Ok(text) => Ok(text),
        Err(error) => Err(cat4("decode ", label, " token IDs: ", error.as_str())),
    }
}

/// What a tokenizer answers for ids; ids that its decoder does not take are refused.
pub open spec fn text_answer(tokenizer: tokenizers::Tokenizer, ids: Seq<u32>) -> Result<
    Seq<char>,
    Seq<char>,
> {
    if decodes(tokenizer, ids) {
        tokenizer_text(tokenizer, ids)
    } else {
        Err(refused_tokenizer())
    }
}

/// The text of tokens.
pub fn complete_text(tokenizer: &tokenizers::Tokenizer, token_ids: &Vec<u32>) -> (r: Result<
    String,
    String,
>)
    ensures
        text_told(r) == text_answer(*tokenizer, token_ids@),
{
    if !can_decode(tokenizer, token_ids) {
        return Err("unsupported tokenizer configuration".to_owned());
    }
    decode_ids(tokenizer, token_ids)
}

/// The text of generated tokens; an error says under which label.
pub fn decode_text(tokenizer: &tokenizers::Tokenizer, token_ids: &Vec<u32>, label: &str) -> (r: Result<
    String,
    String,
>)
    ensures
        text_told(r) == labelled_text(text_answer(*tokenizer, token_ids@), label@),
{
    text_from_answer(complete_text(tokenizer, token_ids), label)
}

// ---------------------------------------------------------------------------
// Capacities
// ---------------------------------------------------------------------------

/// What a session reads of a prepared case.
#[derive(Clone, Copy, Debug, PartialEq, Eq, Structural)]
pub struct CaseSize {
    pub prompt_tokens: usize,
    pub max_new_tokens: usize,
    pub max_supported_total_tokens: usize,
}

/// The greatest of some numbers from `i` on, but at least `least`.
pub open spec fn greatest(numbers: Seq<usize>, least: usize, i: int) -> usize
    decreases numbers.len() - i,
{
    if i >= numbers.len() {
        least
    } else if numbers[i] > least {
        greatest(numbers, numbers[i], i + 1)
    } else {
        greatest(numbers, least, i + 1)
    }
}

/// The greatest number, or a default where there is none.
pub open spec fn greatest_or(numbers: Seq<usize>, default: usize) -> usize {
    if numbers.len() == 0 {
        default
    } else {
        greatest(numbers, 0, 0)
    }
}

pub open spec fn totals(cases: Seq<CaseSize>) -> Seq<usize> {
    Seq::new(cases.len(), |i: int| cases[i].max_supported_total_tokens)
}

pub open spec fn news(cases: Seq<CaseSize>) -> Seq<usize> {
    Seq::new(cases.len(), |i: int| cases[i].max_new_tokens)
}

pub open spec fn prompts(cases: Seq<CaseSize>) -> Seq<usize> {
    Seq::new(cases.len(), |i: int| cases[i].prompt_tokens)
}

pub fn max_session_supported_total_tokens(cases: &Vec<CaseSize>) -> (r: usize)
    ensures
        r == greatest_or(totals(cases@), DEFAULT_MAX_METAL_TOTAL_TOKENS),
{
    if cases.len() == 0 {
        return DEFAULT_MAX_METAL_TOTAL_TOKENS;
    }
    let mut most: usize = 0;
    let mut i: usize = 0;
    while i < cases.len()
        invariant
            i <= cases@.len(),
            greatest(totals(cases@), 0, 0) == greatest(totals(cases@), most, i as int),
        decreases cases@.len() - i,
    {
        let number: usize = cases[i].max_supported_total_tokens;
        if number > most {
            most = number;
        }
        i = i + 1;
    }
    most
}

pub fn max_session_new_tokens(cases: &Vec<CaseSize>) -> (r: usize)
    ensures
        r == greatest_or(news(cases@), 1),
{
    if cases.len() == 0 {
        return 1;
    }
    let mut most: usize = 0;
    let mut i: usize = 0;
    while i < cases.len()
        invariant
            i <= cases@.len(),
            greatest(news(cases@), 0, 0) == greatest(news(cases@), most, i as int),
        decreases cases@.len() - i,
    {
        let number: usize = cases[i].max_new_tokens;
        if number > most {
            most = number;
        }
        i = i + 1;
    }
    most
}

/// The longest prompt of a session that runs its cases one by one.
pub fn max_session_prompt_tokens(cases: &Vec<CaseSize>) -> (r: usize)
    ensures
        r == greatest_or(prompts(cases@), 1),
{
    if cases.len() == 0 {
        return 1;
    }
    let mut most: usize = 0;
    let mut i: usize = 0;
    while i < cases.len()
        invariant
            i <= cases@.len(),
            greatest(prompts(cases@), 0, 0) == greatest(prompts(cases@), most, i as int),
        decreases cases@.len() - i,
    {
        let number: usize = cases[i].prompt_tokens;
        if number > most {
            most = number;
        }
        i = i + 1;
    }
    most
}

/// The tokens of the first prompts.
pub open spec fn prompt_sum(cases: Seq<CaseSize>, count: int) -> nat
    decreases count,
{
    if count <= 0 {
        0
    } else {
        prompt_sum(cases, count - 1) + cases[count - 1].prompt_tokens as nat
    }
}

pub open spec fn at_least(a: nat, b: nat) -> nat {
    if a >= b {
        a
    } else {
        b
    }
}

/// A shared batch holds every prompt at once, and one token of each case.
pub open spec fn batch_tokens(cases: Seq<CaseSize>) -> Result<usize, Seq<char>> {
    let sum = prompt_sum(cases, cases.len() as int);
    let capacity = at_least(at_least(sum, cases.len()), 1);
    if sum > usize::MAX {
        Err("session batch token capacity overflow"@)
    } else {
        match count_fits("session batch token capacity"@, capacity as int) {
            Err(message) => Err(message),
            Ok(_) => Ok(capacity as usize),
        }
    }
}

proof fn prompt_sum_monotone(cases: Seq<CaseSize>, a: int, b: int)
    requires
        0 <= a <= b,
    ensures
        prompt_sum(cases, a) <= prompt_sum(cases, b),
    decreases b - a,
{
    if a < b {
        prompt_sum_monotone(cases, a, b - 1);
    }
}

pub fn session_batch_token_capacity(cases: &Vec<CaseSize>) -> (r: Result<usize, String>)
    ensures
        told(r) == batch_tokens(cases@),
{
    let mut sum: usize = 0;
    let mut i: usize = 0;
    while i < cases.len()
        invariant
            i <= cases@.len(),
            sum == prompt_sum(cases@, i as int),
        decreases cases@.len() - i,
    {
        let tokens: usize = cases[i].prompt_tokens;
        if tokens > usize::MAX - sum {
            proof {
                prompt_sum_monotone(cases@, i + 1, cases@.len() as int);
            }
            return Err("session batch token capacity overflow".to_owned());
        }
        sum = sum + tokens;
        i = i + 1;
    }
    let mut capacity: usize = sum;
    if capacity < cases.len() {
        capacity = cases.len();
    }
    if capacity < 1 {
        capacity = 1;
    }
    match validate_u32_count("session batch token capacity", capacity) {
        Ok(_) => Ok(capacity),
        Err(message) => Err(message),
    }
}

pub fn session_batch_sequence_capacity(cases: &Vec<CaseSize>) -> (r: usize)
    ensures
        r == at_least(cases@.len(), 1),
{
    if cases.len() < 1 {
        1
    } else {
        cases.len()
    }
}

/// The environment that a run sets for its backend and restores afterwards.
#[derive(Debug)]
pub struct RunEnvironment {
    /// Whether the large-model opt-in is set by the run.
    pub set_large_model: bool,
    pub max_total_tokens: usize,
    pub max_batch_tokens: usize,
    pub max_batch_sequences: usize,
}

/// The environment of a single-prompt run.
pub fn single_environment(
    opted_in: bool,
    already_opted_in: bool,
    max_total_tokens: usize,
    prompt_tokens: usize,
) -> (r: RunEnvironment)
    ensures
        r.set_large_model == (opted_in && !already_opted_in),
        r.max_total_tokens == max_total_tokens,
        r.max_batch_tokens == at_least(prompt_tokens as nat, 1),
        r.max_batch_sequences == 1,
{
    RunEnvironment {
        set_large_model: opted_in && !already_opted_in,
        max_total_tokens,
        max_batch_tokens: if prompt_tokens < 1 {
            1
        } else {
            prompt_tokens
        },
        max_batch_sequences: 1,
    }
}

/// The environment of a session that runs its cases one by one.
pub fn direct_environment(cases: &Vec<CaseSize>, opted_in: bool, already_opted_in: bool) -> (r:
    RunEnvironment)
    ensures
        r.set_large_model == (opted_in && !already_opted_in),
        r.max_total_tokens == greatest_or(totals(cases@), DEFAULT_MAX_METAL_TOTAL_TOKENS),
        r.max_batch_tokens == greatest_or(prompts(cases@), 1),
        r.max_batch_sequences == 1,
{
    RunEnvironment {
        set_large_model: opted_in && !already_opted_in,
        max_total_tokens: max_session_supported_total_tokens(cases),
        max_batch_tokens: max_session_prompt_tokens(cases),
        max_batch_sequences: 1,
    }
}

/// The environment of a session that shares one engine.
pub fn engine_environment(cases: &Vec<CaseSize>, opted_in: bool, already_opted_in: bool) -> (r:
    Result<RunEnvironment, String>)
    ensures
        match (batch_tokens(cases@), r) {
            (Ok(tokens), Ok(e)) => {
                &&& e.set_large_model == (opted_in && !already_opted_in)
                &&& e.max_total_tokens == greatest_or(
                    totals(cases@),
                    DEFAULT_MAX_METAL_TOTAL_TOKENS,
                )
                &&& e.max_batch_tokens == tokens
                &&& e.max_batch_sequences == at_least(cases@.len(), 1)
            },
            (Err(message), Err(e)) => e@ == message,
            _ => false,
        },
{
    match session_batch_token_capacity(cases) {
        Err(message) => Err(message),
        Ok(tokens) => Ok(
            RunEnvironment {
                set_large_model: opted_in && !already_opted_in,
                max_total_tokens: max_session_supported_total_tokens(cases),
                max_batch_tokens: tokens,
                max_batch_sequences: session_batch_sequence_capacity(cases),
            },
        ),
    }
}

/// The rollout tokens of a plan, which are 32-bit.
pub fn rollout_tokens(count: usize) -> (r: Result<u32, String>)
    ensures
        match r {
            Ok(n) => n == count,
            Err(e) => count > u32::MAX && e@ == "rollout token count must be at most "@ + decimal(
                u32::MAX as nat,
            ),
        },
{
    if count as u64 > u32::MAX as u64 {
        let limit = decimal_text(u32::MAX as u64);
        return Err(cat2("rollout token count must be at most ", limit.as_str()));
    }
    Ok(count as u32)
}

/// The large-model opt-in counts from the command line or the environment.
pub fn large_model_opted_in(flag: bool, environment: bool) -> (r: bool)
    ensures
        r == (flag || environment),
{
    flag || environment
}

// ---------------------------------------------------------------------------
// Shared engine outputs
// ---------------------------------------------------------------------------

/// The generated tokens of each case of a shared session. Requests are numbered
/// from one in the order of their cases.
#[derive(Debug)]
pub struct SharedOutputs {
    pub generated: Vec<Vec<u32>>,
}

pub open spec fn token_lists(lists: Seq<Vec<u32>>) -> Seq<Seq<u32>> {
    Seq::new(lists.len(), |i: int| lists[i]@)
}

impl SharedOutputs {
    pub open spec fn view(&self) -> Seq<Seq<u32>> {
        token_lists(self.generated@)
    }

    pub fn new(cases: usize) -> (r: SharedOutputs)
        ensures
            r@ == Seq::new(cases as nat, |i: int| Seq::<u32>::empty()),
    {
        let mut generated: Vec<Vec<u32>> = Vec::new();
        let mut i: usize = 0;
        while i < cases
            invariant
                i <= cases,
                token_lists(generated@) =~= Seq::new(i as nat, |j: int| Seq::<u32>::empty()),
            decreases cases - i,
        {
            let list: Vec<u32> = Vec::new();
            let ghost before = token_lists(generated@);
            assert(list@ =~= Seq::<u32>::empty());
            generated.push(list);
            assert(token_lists(generated@) =~= before.push(Seq::<u32>::empty()));
            i = i + 1;
        }
        SharedOutputs { generated }
    }

    /// Records one output and tells whether it ends its request.
    pub fn record(&mut self, req_id: u64, token: u32, eos_token_ids: &Vec<u32>) -> (r: Result<
        bool,
        String,
    >)
        ensures
            if 1 <= req_id <= old(self)@.len() {
                &&& r == Ok::<bool, String>(eos_token_ids@.contains(token))
                &&& final(self)@ == old(self)@.update(
                    req_id - 1,
                    old(self)@[req_id - 1].push(token),
                )
            } else {
                &&& r is Err
                &&& r->Err_0@ == "Engine session returned unknown request id "@ + decimal(
                    req_id as nat,
                )
                &&& final(self)@ == old(self)@
            },
    {
        if req_id < 1 || req_id > self.generated.len() as u64 {
            let number = decimal_text(req_id);
            return Err(cat2("Engine session returned unknown request id ", number.as_str()));
        }
        let ghost before = self@;
        let index: usize = (req_id - 1) as usize;
        let mut list: Vec<u32> = Vec::new();
        let mut i: usize = 0;
        while i < self.generated[index].len()
            invariant
                index < self.generated@.len(),
                self@ == before,
                i <= self.generated@[index as int]@.len(),
                list@ =~= self.generated@[index as int]@.take(i as int),
            decreases self.generated@[index as int]@.len() - i,
        {
            list.push(self.generated[index][i]);
            i = i + 1;
        }
        list.push(token);
        assert(list@ =~= before[index as int].push(token));
        self.generated.set(index, list);
        assert(self@ =~= before.update(index as int, before[index as int].push(token)));
        Ok(is_eos(eos_token_ids, token))
    }
}

/// Why a case of a shared session ended, from its last token.
pub open spec fn finish_of(generated: Seq<u32>, eos_token_ids: Seq<u32>) -> FinishReason {
    if generated.len() > 0 && eos_token_ids.contains(generated.last()) {
        FinishReason::Eos
    } else {
        FinishReason::Length
    }
}

pub fn finish_reason(generated: &Vec<u32>, eos_token_ids: &Vec<u32>) -> (r: FinishReason)
    ensures
        r == finish_of(generated@, eos_token_ids@),
{
    if generated.len() > 0 && is_eos(eos_token_ids, generated[generated.len() - 1]) {
        FinishReason::Eos
    } else {
        FinishReason::Length
    }
}

// ---------------------------------------------------------------------------
// Verdicts and counters
// ---------------------------------------------------------------------------

/// A case fails only when it differs from its reference.
pub open spec fn case_passes(comparison: Option<ReferenceComparison>) -> bool {
    match comparison {
        Some(c) => c.matched,
        None => true,
    }
}

pub fn case_status(comparison: &Option<ReferenceComparison>) -> (r: &'static str)
    ensures
        r@ == if case_passes(*comparison) {
            "pass"@
        } else {
            "fail"@
        },
{
    match comparison {
        Some(c) => {
            if c.matched {
                "pass"
            } else {
                "fail"
            }
        },
        None => "pass",
    }
}

/// A session passes when each of its cases does.
pub fn session_status(comparisons: &Vec<Option<ReferenceComparison>>) -> (r: &'static str)
    ensures
        r@ == if forall|i: int|
            0 <= i < comparisons@.len() ==> case_passes(#[trigger] comparisons@[i]) {
            "pass"@
        } else {
            "fail"@
        },
{
    let mut i: usize = 0;
    while i < comparisons.len()
        invariant
            i <= comparisons@.len(),
            forall|j: int| 0 <= j < i ==> case_passes(#[trigger] comparisons@[j]),
        decreases comparisons@.len() - i,
    {
        let passes = match &comparisons[i] {
            Some(c) => c.matched,
            None => true,
        };
        if !passes {
            assert(!case_passes(comparisons@[i as int]));
            return "fail";
        }
        i = i + 1;
    }
    "pass"
}

/// Counters of a backend. Those of the last step are readings; the others grow.
#[derive(Clone, Copy, Debug, Default, PartialEq, Eq, Structural)]
pub struct MetalProbePerfStats {
    pub last_step_gpu_execution_ns: Option<u64>,
    pub prefill_steps: u64,
    pub decode_steps: u64,
    pub tokens: u64,
    pub library_compiles: u64,
    pub pipeline_state_compiles: u64,
    pub command_buffers: u64,
    pub encoders: u64,
    pub embedding_encoders: u64,
    pub ple_encoders: u64,
    pub layer_encoders: u64,
    pub layer_scale_encoder_fusions: u64,
    pub final_sample_encoders: u64,
    pub final_logits_encoders: u64,
    pub forced_waits: u64,
    pub cpu_wall_ns: u64,
    pub cpu_encode_ns: u64,
    pub command_buffer_wait_ns: u64,
    pub last_step_tokens: u64,
    pub last_step_command_buffers: u64,
    pub last_step_encoders: u64,
    pub last_step_forced_waits: u64,
    pub last_step_cpu_wall_ns: u64,
    pub last_step_cpu_encode_ns: u64,
    pub last_step_command_buffer_wait_ns: u64,
}

/// How much a counter grew; one that was reset counts as not having grown.
pub open spec fn growth(before: u64, after: u64) -> u64 {
    if after >= before {
        (after - before) as u64
    } else {
        0
    }
}

pub open spec fn grown(before: MetalProbePerfStats, after: MetalProbePerfStats) -> MetalProbePerfStats {
    MetalProbePerfStats {
        prefill_steps: growth(before.prefill_steps, after.prefill_steps),
        decode_steps: growth(before.decode_steps, after.decode_steps),
        tokens: growth(before.tokens, after.tokens),
        library_compiles: growth(before.library_compiles, after.library_compiles),
        pipeline_state_compiles: growth(
            before.pipeline_state_compiles,
            after.pipeline_state_compiles,
        ),
        command_buffers: growth(before.command_buffers, after.command_buffers),
        encoders: growth(before.encoders, after.encoders),
        embedding_encoders: growth(before.embedding_encoders, after.embedding_encoders),
        ple_encoders: growth(before.ple_encoders, after.ple_encoders),
        layer_encoders: growth(before.layer_encoders, after.layer_encoders),
        layer_scale_encoder_fusions: growth(
            before.layer_scale_encoder_fusions,
            after.layer_scale_encoder_fusions,
        ),
        final_sample_encoders: growth(before.final_sample_encoders, after.final_sample_encoders),
        final_logits_encoders: growth(before.final_logits_encoders, after.final_logits_encoders),
        forced_waits: growth(before.forced_waits, after.forced_waits),
        cpu_wall_ns: growth(before.cpu_wall_ns, after.cpu_wall_ns),
        cpu_encode_ns: growth(before.cpu_encode_ns, after.cpu_encode_ns),
        command_buffer_wait_ns: growth(before.command_buffer_wait_ns, after.command_buffer_wait_ns),
        ..after
    }
}

/// What the backend did between two readings.
pub fn stats_delta(before: MetalProbePerfStats, after: MetalProbePerfStats) -> (r: MetalProbePerfStats)
    ensures
        r == grown(before, after),
{
    MetalProbePerfStats {
        last_step_gpu_execution_ns: after.last_step_gpu_execution_ns,
        prefill_steps: after.prefill_steps.saturating_sub(before.prefill_steps),
        decode_steps: after.decode_steps.saturating_sub(before.decode_steps),
        tokens: after.tokens.saturating_sub(before.tokens),
        library_compiles: after.library_compiles.saturating_sub(before.library_compiles),
        pipeline_state_compiles: after.pipeline_state_compiles.saturating_sub(
            before.pipeline_state_compiles,
        ),
        command_buffers: after.command_buffers.saturating_sub(before.command_buffers),
        encoders: after.encoders.saturating_sub(before.encoders),
        embedding_encoders: after.embedding_encoders.saturating_sub(before.embedding_encoders),
        ple_encoders: after.ple_encoders.saturating_sub(before.ple_encoders),
        layer_encoders: after.layer_encoders.saturating_sub(before.layer_encoders),
        layer_scale_encoder_fusions: after.layer_scale_encoder_fusions.saturating_sub(
            before.layer_scale_encoder_fusions,
        ),
        final_sample_encoders: after.final_sample_encoders.saturating_sub(
            before.final_sample_encoders,
        ),
        final_logits_encoders: after.final_logits_encoders.saturating_sub(
            before.final_logits_encoders,
        ),
        forced_waits: after.forced_waits.saturating_sub(before.forced_waits),
        cpu_wall_ns: after.cpu_wall_ns.saturating_sub(before.cpu_wall_ns),
        cpu_encode_ns: after.cpu_encode_ns.saturating_sub(before.cpu_encode_ns),
        command_buffer_wait_ns: after.command_buffer_wait_ns.saturating_sub(
            before.command_buffer_wait_ns,
        ),
        last_step_tokens: after.last_step_tokens,
        last_step_command_buffers: after.last_step_command_buffers,
        last_step_encoders: after.last_step_encoders,
        last_step_forced_waits: after.last_step_forced_waits,
        last_step_cpu_wall_ns: after.last_step_cpu_wall_ns,
        last_step_cpu_encode_ns: after.last_step_cpu_encode_ns,
        last_step_command_buffer_wait_ns: after.last_step_command_buffer_wait_ns,
    }
}

/// The tokenizer's file in a model directory.
pub fn tokenizer_path(model_dir: &str) -> (r: String)
    ensures
        r@ == crate::paths::joined(model_dir@, "tokenizer.json"@),
{
    crate::paths::join_path(model_dir, "tokenizer.json")
}

} // verus!
