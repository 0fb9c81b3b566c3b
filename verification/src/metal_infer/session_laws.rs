//! What sessions, limits, references and command lines mean.
use crate::json::{array_at, natural_at, natural_of, text_at, JsonModel};
use crate::metal_infer::args::{
    bare_option, combination, ids_from, token_ids, valued_option, CliModel,
};
use crate::metal_infer::budget::{effective_limit, token_budget, token_limit, EnvValue};
use crate::metal_infer::cases::{case_of, nonempty};
use crate::metal_infer::engine_session::{
    opened, EngineSessionCallModel, EngineSessionModel, EngineSessionReply, EngineSessionStage,
};
use crate::metal_infer::logits::{at_most, single_is_finite, single_key, TopLogit};
use crate::metal_infer::reference::{array_ids, differences, reference_of, ReferenceModel};
use crate::metal_infer::session::{
    batch_tokens, finish_of, greatest, greatest_or, grown, news, prompt_sum, prompt_tokens, prompts,
    totals, CaseSize, MetalProbePerfStats,
};
use crate::paths::joined;
use crate::text::{numeral, split, trimmed};
use crate::text_laws::numerals_are_bounded;
use vstd::prelude::*;

verus! {

// ---------------------------------------------------------------------------
// Prompts and budgets
// ---------------------------------------------------------------------------

/// A prompt's tokens are those of its text, behind the first token of every
/// sequence unless that is left out; a prompt has some token.
pub proof fn prompts_begin_with_their_first_token(ids: Seq<u32>, no_bos: bool)
    ensures
        match prompt_tokens(Ok(ids), no_bos) {
            Ok(tokens) => tokens.len() > 0 && if no_bos {
                tokens == ids
            } else {
                tokens[0] == 2 && tokens.len() == ids.len() + 1 && forall|i: int|
                    0 <= i < ids.len() ==> tokens[i + 1] == #[trigger] ids[i]
            },
            Err(_) => no_bos && ids.len() == 0,
        },
{
}

/// A budget is accepted exactly where there is a prompt and something to generate,
/// both fit the limit together, and the limit fits 32 bits.
pub proof fn budgets_hold_prompt_and_output(prompt_len: usize, fresh: usize, limit: usize)
    ensures
        token_budget(prompt_len, fresh, limit) is Ok <==> prompt_len > 0 && fresh > 0 && prompt_len
            + fresh <= limit && limit <= u32::MAX,
{
}

/// A token limit that is read is the number that was written: positive and within
/// 32 bits.
pub proof fn limits_are_positive_numbers(flag: Seq<char>, raw: Seq<char>)
    ensures
        token_limit(flag, raw) matches Ok(limit) ==> 1 <= limit <= u32::MAX && numeral(
            raw,
            usize::MAX as nat,
        ) == Ok::<nat, crate::text::NumeralFault>(limit as nat),
        numeral(raw, usize::MAX as nat) matches Ok(n) ==> (token_limit(flag, raw) is Ok <==> 1 <= n
            <= u32::MAX),
        numeral(raw, usize::MAX as nat) is Err ==> token_limit(flag, raw) is Err,
{
    numerals_are_bounded(raw, usize::MAX as nat);
}

/// An explicit limit is the limit. Otherwise the configured one is, or 2048, or as
/// much as the run needs where that is more; and the older variable is looked at
/// only where the current one is not set.
pub proof fn limits_cover_what_is_needed(
    explicit: Option<usize>,
    required: usize,
    current: EnvValue,
    legacy: EnvValue,
)
    ensures
        explicit matches Some(limit) ==> effective_limit(explicit, required, current, legacy)
            == Ok::<usize, Seq<char>>(limit),
        explicit is None ==> match effective_limit(explicit, required, current, legacy) {
            Ok(limit) => {
                let set = if current is Missing {
                    legacy
                } else {
                    current
                };
                let base: int = match set {
                    EnvValue::Text(raw) => numeral(trimmed(raw@), usize::MAX as nat)->Ok_0 as int,
                    _ => 2048,
                };
                &&& !(set is NotUnicode)
                &&& limit >= required
                &&& limit >= base
                &&& limit == required || limit == base
            },
            Err(_) => !(current is Missing) || !(legacy is Missing),
        },
{
    match current {
        EnvValue::Text(raw) => {
            limits_are_positive_numbers("RVLLM_METAL_MAX_TOTAL_TOKENS"@, trimmed(raw@));
        },
        _ => {},
    }
    match legacy {
        EnvValue::Text(raw) => {
            limits_are_positive_numbers("RVLLM_METAL_MAX_PROBE_TOKENS"@, trimmed(raw@));
        },
        _ => {},
    }
}

// ---------------------------------------------------------------------------
// Sessions
// ---------------------------------------------------------------------------

proof fn greatest_from(numbers: Seq<usize>, least: usize, i: int)
    requires
        0 <= i <= numbers.len(),
    ensures
        greatest(numbers, least, i) >= least,
        forall|k: int|
            i <= k < numbers.len() ==> greatest(numbers, least, i) >= #[trigger] numbers[k],
        greatest(numbers, least, i) == least || exists|k: int|
            i <= k < numbers.len() && #[trigger] numbers[k] == greatest(numbers, least, i),
    decreases numbers.len() - i,
{
    if i < numbers.len() {
        if numbers[i] > least {
            greatest_from(numbers, numbers[i], i + 1);
            assert(numbers[i] == numbers[i]);
        } else {
            greatest_from(numbers, least, i + 1);
        }
    }
}

/// The greatest of some numbers is one of them and no less than any; where there
/// are none it is the default.
pub proof fn the_greatest_is_one_of_them(numbers: Seq<usize>, default: usize, k: int)
    ensures
        numbers.len() == 0 ==> greatest_or(numbers, default) == default,
        numbers.len() > 0 ==> numbers.contains(greatest_or(numbers, default)),
        0 <= k < numbers.len() ==> greatest_or(numbers, default) >= numbers[k],
{
    if numbers.len() > 0 {
        greatest_from(numbers, 0, 0);
        if greatest_or(numbers, default) == 0 {
            assert(numbers[0] == 0);
        }
    }
}

proof fn prompts_add_up(cases: Seq<CaseSize>, n: int)
    requires
        0 <= n <= cases.len(),
    ensures
        prompt_sum(cases, n) == cases.take(n).map_values(
            |c: CaseSize| c.prompt_tokens as int,
        ).fold_left(0, |sum: int, tokens: int| sum + tokens),
    decreases n,
{
    let tokens = |c: CaseSize| c.prompt_tokens as int;
    let plus = |sum: int, tokens: int| sum + tokens;
    let all = cases.take(n).map_values(tokens);
    if n > 0 {
        prompts_add_up(cases, n - 1);
        assert(all.drop_last() =~= cases.take(n - 1).map_values(tokens));
        assert(all.last() == cases[n - 1].prompt_tokens);
        reveal_with_fuel(Seq::fold_left, 2);
    } else {
        assert(all.len() == 0);
        reveal_with_fuel(Seq::fold_left, 2);
    }
}

/// A shared batch has room for every prompt at once: as many tokens as all prompts
/// have together, and at least one for each case.
pub proof fn batches_hold_every_prompt_at_once(cases: Seq<CaseSize>)
    ensures
        ({
            let sum = cases.map_values(|c: CaseSize| c.prompt_tokens as int).fold_left(
                0,
                |sum: int, tokens: int| sum + tokens,
            );
            match batch_tokens(cases) {
                Ok(capacity) => {
                    &&& capacity >= sum
                    &&& capacity >= cases.len()
                    &&& capacity >= 1
                    &&& capacity == sum || capacity == cases.len() || capacity == 1
                    &&& capacity <= u32::MAX
                },
                Err(_) => sum > u32::MAX || cases.len() > u32::MAX,
            }
        }),
{
    prompts_add_up(cases, cases.len() as int);
    assert(cases.take(cases.len() as int) =~= cases);
}

/// A sequence finished by its end exactly where its last token is one that ends.
pub proof fn finishes_are_of_the_last_token(generated: Seq<u32>, eos: Seq<u32>)
    ensures
        finish_of(generated, eos) is Eos <==> generated.len() > 0 && eos.contains(
            generated[generated.len() - 1],
        ),
{
}

/// What a counter gained between two readings; one that went back gained nothing.
pub open spec fn gained(before: u64, after: u64, delta: u64) -> bool {
    if after >= before {
        before + delta == after
    } else {
        delta == 0
    }
}

/// The statistics of a run are what each counter gained over it; what was measured
/// of the last step is that of the later reading.
pub proof fn statistics_are_gains(before: MetalProbePerfStats, after: MetalProbePerfStats)
    ensures
        ({
            let d = grown(before, after);
            &&& gained(before.prefill_steps, after.prefill_steps, d.prefill_steps)
            &&& gained(before.decode_steps, after.decode_steps, d.decode_steps)
            &&& gained(before.tokens, after.tokens, d.tokens)
            &&& gained(before.library_compiles, after.library_compiles, d.library_compiles)
            &&& gained(
                before.pipeline_state_compiles,
                after.pipeline_state_compiles,
                d.pipeline_state_compiles,
            )
            &&& gained(before.command_buffers, after.command_buffers, d.command_buffers)
            &&& gained(before.encoders, after.encoders, d.encoders)
            &&& gained(before.embedding_encoders, after.embedding_encoders, d.embedding_encoders)
            &&& gained(before.ple_encoders, after.ple_encoders, d.ple_encoders)
            &&& gained(before.layer_encoders, after.layer_encoders, d.layer_encoders)
            &&& gained(
                before.layer_scale_encoder_fusions,
                after.layer_scale_encoder_fusions,
                d.layer_scale_encoder_fusions,
            )
            &&& gained(
                before.final_sample_encoders,
                after.final_sample_encoders,
                d.final_sample_encoders,
            )
            &&& gained(
                before.final_logits_encoders,
                after.final_logits_encoders,
                d.final_logits_encoders,
            )
            &&& gained(before.forced_waits, after.forced_waits, d.forced_waits)
            &&& gained(before.cpu_wall_ns, after.cpu_wall_ns, d.cpu_wall_ns)
            &&& gained(before.cpu_encode_ns, after.cpu_encode_ns, d.cpu_encode_ns)
            &&& gained(
                before.command_buffer_wait_ns,
                after.command_buffer_wait_ns,
                d.command_buffer_wait_ns,
            )
            &&& d.last_step_gpu_execution_ns == after.last_step_gpu_execution_ns
            &&& d.last_step_tokens == after.last_step_tokens
            &&& d.last_step_command_buffers == after.last_step_command_buffers
            &&& d.last_step_encoders == after.last_step_encoders
            &&& d.last_step_forced_waits == after.last_step_forced_waits
            &&& d.last_step_cpu_wall_ns == after.last_step_cpu_wall_ns
            &&& d.last_step_cpu_encode_ns == after.last_step_cpu_encode_ns
            &&& d.last_step_command_buffer_wait_ns == after.last_step_command_buffer_wait_ns
        }),
{
}

// ---------------------------------------------------------------------------
// Engine sessions
// ---------------------------------------------------------------------------

/// A session enqueues its cases one after the other, each with its own limit, and
/// asks for work only when all are enqueued; a limit beyond 32 bits fails it.
pub proof fn every_case_is_enqueued_with_its_limit(m: EngineSessionModel)
    requires
        m.well_formed(),
        m.stage == EngineSessionStage::Enqueuing,
    ensures
        ({
            let (n, call) = m.resumed(EngineSessionReply::Done);
            let next = m.index + 1;
            &&& n.generated == m.generated
            &&& next < m.names.len() && m.limits[next] <= u32::MAX ==> n.index == next && call == (
            EngineSessionCallModel::Enqueue {
                case: next,
                max_new_tokens: m.limits[next] as u32,
            })
            &&& next < m.names.len() && m.limits[next] > u32::MAX ==> call is Failed
            &&& next == m.names.len() ==> call is HasPendingWork
        }),
{
}

/// It begins with the first case, and no case has tokens yet.
pub proof fn sessions_begin_with_the_first_case(
    names: Seq<Seq<char>>,
    limits: Seq<usize>,
    eos: Seq<u32>,
    timeout_seconds: Option<u64>,
)
    requires
        limits.len() == names.len(),
    ensures
        ({
            let (n, call) = opened(names, limits, eos, timeout_seconds).enqueue_next();
            &&& n.generated.len() == names.len()
            &&& forall|i: int| 0 <= i < names.len() ==> (#[trigger] n.generated[i]).len() == 0
            &&& names.len() > 0 && limits[0] <= u32::MAX ==> call == (
            EngineSessionCallModel::Enqueue { case: 0, max_new_tokens: limits[0] as u32 })
            &&& names.len() == 0 ==> call is HasPendingWork
        }),
{
}

/// The tokens among some outputs that are a request's.
pub open spec fn tokens_for(outputs: Seq<(u64, u32)>, from: int, to: int, req_id: u64) -> Seq<u32>
    decreases to - from,
{
    if from >= to {
        Seq::empty()
    } else {
        (if outputs[from].0 == req_id {
            seq![outputs[from].1]
        } else {
            Seq::empty()
        }) + tokens_for(outputs, from + 1, to, req_id)
    }
}

/// What a step gave is recorded for the case it belongs to, in order, up to the
/// first token that ends a sequence: that request is finished, and no other. An
/// output of no case fails the session.
pub proof fn outputs_go_to_their_case(m: EngineSessionModel, case: int)
    requires
        0 <= m.index <= m.queue.len(),
        0 <= case < m.generated.len() < u64::MAX,
    ensures
        ({
            let (n, call) = m.record_rest();
            &&& m.index <= n.index <= m.queue.len()
            &&& n.queue == m.queue
            &&& n.generated.len() == m.generated.len()
            &&& n.generated[case] == m.generated[case] + tokens_for(
                m.queue,
                m.index,
                n.index,
                (case + 1) as u64,
            )
            &&& forall|k: int|
                m.index <= k < n.index - 1 ==> !m.eos.contains((#[trigger] m.queue[k]).1)
            &&& call matches EngineSessionCallModel::FinishRequest { req_id } ==> n.index > m.index
                && m.queue[n.index - 1].0 == req_id && m.eos.contains(m.queue[n.index - 1].1)
            &&& call is Failed ==> n.index < m.queue.len() && !(1 <= m.queue[n.index].0
                <= m.generated.len())
            &&& call is FinishRequest || call is Failed || (call is ReadClock && n.index
                == m.queue.len() && (n.index > m.index ==> !m.eos.contains(
                m.queue[n.index - 1].1,
            )))
        }),
    decreases m.queue.len() - m.index,
{
    let (n, call) = m.record_rest();
    if m.index < m.queue.len() {
        let (req_id, token) = m.queue[m.index];
        if 1 <= req_id <= m.generated.len() {
            let next = EngineSessionModel {
                generated: m.generated.update(req_id - 1, m.generated[req_id - 1].push(token)),
                index: m.index + 1,
                ..m
            };
            let own = if req_id == case + 1 {
                seq![token]
            } else {
                Seq::empty()
            };
            assert(next.generated[case] =~= m.generated[case] + own);
            if m.eos.contains(token) {
                assert(n.index == m.index + 1);
                assert(tokens_for(m.queue, m.index + 1, n.index, (case + 1) as u64) =~= Seq::empty());
                assert(tokens_for(m.queue, m.index, n.index, (case + 1) as u64) =~= own);
            } else {
                outputs_go_to_their_case(next, case);
                assert(tokens_for(m.queue, m.index, n.index, (case + 1) as u64) =~= own
                    + tokens_for(m.queue, m.index + 1, n.index, (case + 1) as u64));
                assert(n.generated[case] =~= m.generated[case] + tokens_for(
                    m.queue,
                    m.index,
                    n.index,
                    (case + 1) as u64,
                ));
            }
        } else {
            assert(n.generated[case] =~= m.generated[case] + tokens_for(
                m.queue,
                m.index,
                n.index,
                (case + 1) as u64,
            ));
        }
    } else {
        assert(n.generated[case] =~= m.generated[case] + tokens_for(
            m.queue,
            m.index,
            n.index,
            (case + 1) as u64,
        ));
    }
}

/// A session steps while there is work and completes when there is none; what a
/// step gave is looked at from its first output on.
pub proof fn sessions_step_while_there_is_work(
    m: EngineSessionModel,
    pending: bool,
    reply: EngineSessionReply,
)
    ensures
        m.stage == EngineSessionStage::AskingPending ==> {
            let (n, call) = m.resumed(EngineSessionReply::Pending { pending });
            &&& n.generated == m.generated
            &&& if pending {
                call is Step
            } else {
                call is Completed
            }
        },
        m.stage == EngineSessionStage::Stepping && reply is Stepped ==> m.resumed(reply)
            == (EngineSessionModel { queue: reply->outputs@, index: 0, ..m }).record_rest(),
        m.stage == EngineSessionStage::Stepping && (reply is LaunchFailed || reply is CollectFailed)
            ==> m.resumed(reply).1 is Failed,
        m.stage == EngineSessionStage::Finishing ==> m.resumed(EngineSessionReply::Done)
            == m.record_rest(),
{
}

// ---------------------------------------------------------------------------
// References
// ---------------------------------------------------------------------------

proof fn ids_of_items(field: Seq<char>, items: Seq<JsonModel>, i: int, ids: Seq<u32>)
    requires
        0 <= i <= items.len(),
        ids.len() == i,
    ensures
        array_ids(field, items, i, ids) matches Ok(all) ==> {
            &&& all.len() == items.len()
            &&& forall|k: int| 0 <= k < i ==> #[trigger] all[k] == ids[k]
            &&& forall|k: int|
                i <= k < items.len() ==> natural_of(items[k]) == Some(#[trigger] all[k] as u64)
        },
    decreases items.len() - i,
{
    if i < items.len() {
        match natural_of(items[i]) {
            Some(raw) => {
                if raw <= u32::MAX {
                    ids_of_items(field, items, i + 1, ids.push(raw as u32));
                    if array_ids(field, items, i, ids) is Ok {
                        let all = array_ids(field, items, i, ids)->Ok_0;
                        assert(all[i] == ids.push(raw as u32)[i]);
                        assert forall|k: int| 0 <= k < i implies #[trigger] all[k] == ids[k] by {
                            assert(all[k] == ids.push(raw as u32)[k]);
                        }
                    }
                }
            },
            None => {},
        }
    }
}

/// A reference holds what its document says under the members of those names: every
/// id of both lists, in order, and the number of steps.
pub proof fn references_hold_their_document(path: Seq<char>, value: JsonModel)
    requires
        reference_of(path, value) is Ok,
    ensures
        ({
            let reference = reference_of(path, value)->Ok_0;
            let prompt = array_at(value, "prompt_token_ids"@);
            let generated = array_at(value, "generated_tokens"@);
            &&& reference.path == path
            &&& prompt is Some && generated is Some
            &&& reference.prompt_token_ids.len() == prompt->0.len()
            &&& forall|k: int|
                0 <= k < prompt->0.len() ==> natural_of(prompt->0[k]) == Some(
                    #[trigger] reference.prompt_token_ids[k] as u64,
                )
            &&& reference.generated_tokens.len() == generated->0.len()
            &&& forall|k: int|
                0 <= k < generated->0.len() ==> natural_of(generated->0[k]) == Some(
                    #[trigger] reference.generated_tokens[k] as u64,
                )
            &&& natural_at(value, "decode_steps"@) == Some(reference.decode_steps as u64)
        }),
{
    ids_of_items(
        "prompt_token_ids"@,
        array_at(value, "prompt_token_ids"@)->0,
        0,
        Seq::empty(),
    );
    ids_of_items(
        "generated_tokens"@,
        array_at(value, "generated_tokens"@)->0,
        0,
        Seq::empty(),
    );
}

/// A run differs from its reference in as many ways as there are: its prompt, its
/// number of steps and its tokens; it matches exactly where it differs in none.
pub proof fn differences_are_of_prompt_steps_and_tokens(
    prompt: Seq<u32>,
    steps: usize,
    generated: Seq<u32>,
    reference: ReferenceModel,
)
    ensures
        differences(prompt, steps, generated, reference).len() == (if prompt
            == reference.prompt_token_ids {
            0int
        } else {
            1
        }) + (if steps == reference.decode_steps {
            0int
        } else {
            1
        }) + (if generated == reference.generated_tokens {
            0int
        } else {
            1
        }),
{
}

// ---------------------------------------------------------------------------
// Logits
// ---------------------------------------------------------------------------

/// Of a ranking its first places are kept, as many as are asked for or as there are.
pub proof fn the_first_places_are_kept(list: Seq<TopLogit>, limit: int)
    requires
        limit >= 0,
    ensures
        at_most(list, limit).len() <= limit,
        at_most(list, limit).len() == limit || at_most(list, limit).len() == list.len(),
        forall|i: int|
            0 <= i < at_most(list, limit).len() ==> #[trigger] at_most(list, limit)[i] == list[i],
{
}

/// Single-precision numbers compare as their bits tell: positive ones by their bits,
/// negative ones the other way round, and the two zeros are equal. One is finite
/// where its magnitude is below infinity's.
pub proof fn singles_compare_by_their_bits(a: u32, b: u32)
    ensures
        a < 0x8000_0000 && b < 0x8000_0000 ==> (single_key(a) < single_key(b) <==> a < b),
        a >= 0x8000_0000 && b >= 0x8000_0000 ==> (single_key(a) < single_key(b) <==> a > b),
        a >= 0x8000_0000 && b < 0x8000_0000 ==> (single_key(a) < single_key(b) <==> !(a
            == 0x8000_0000 && b == 0)),
        single_key(0x8000_0000) == single_key(0),
        single_is_finite(a) <==> a % 0x8000_0000 < 0x7f80_0000,
{
}

// ---------------------------------------------------------------------------
// Command lines and cases
// ---------------------------------------------------------------------------

proof fn flags_differ()
    ensures
        ({
            let flags = seq![
                "--model-dir"@,
                "--prompt"@,
                "--prompts-jsonl"@,
                "--reference-manifest"@,
                "--session-backend"@,
                "--max-new-tokens"@,
                "--max-total-tokens"@,
                "--eos-token-ids"@,
                "--hf-reference"@,
                "--report"@,
                "--case-timeout-seconds"@,
                "--profile-samples"@,
                "--profile-report"@,
                "--top-logits"@,
            ];
            forall|i: int, j: int| 0 <= i < j < 14 ==> flags[i] != flags[j]
        }),
{
    reveal_strlit("--model-dir");
    reveal_strlit("--prompt");
    reveal_strlit("--prompts-jsonl");
    reveal_strlit("--reference-manifest");
    reveal_strlit("--session-backend");
    reveal_strlit("--max-new-tokens");
    reveal_strlit("--max-total-tokens");
    reveal_strlit("--eos-token-ids");
    reveal_strlit("--hf-reference");
    reveal_strlit("--report");
    reveal_strlit("--case-timeout-seconds");
    reveal_strlit("--profile-samples");
    reveal_strlit("--profile-report");
    reveal_strlit("--top-logits");
    assert("--model-dir"@.len() == 11);
    assert("--prompt"@.len() == 8);
    assert("--prompts-jsonl"@.len() == 15);
    assert("--reference-manifest"@.len() == 20);
    assert("--session-backend"@.len() == 17);
    assert("--max-new-tokens"@.len() == 16);
    assert("--max-total-tokens"@.len() == 18);
    assert("--eos-token-ids"@.len() == 15);
    assert("--hf-reference"@.len() == 14);
    assert("--report"@.len() == 8);
    assert("--case-timeout-seconds"@.len() == 22);
    assert("--profile-samples"@.len() == 17);
    assert("--profile-report"@.len() == 16);
    assert("--top-logits"@.len() == 12);
    assert("--prompt"@[2] != "--report"@[2]);
    assert("--prompts-jsonl"@[2] != "--eos-token-ids"@[2]);
    assert("--session-backend"@[2] != "--profile-samples"@[2]);
    assert("--max-new-tokens"@[2] != "--profile-report"@[2]);
}

/// Each option sets what it is named after to the value that follows it, and
/// nothing else.
pub proof fn options_set_what_they_name(d: CliModel, value: Seq<char>)
    ensures
        valued_option(d, "--model-dir"@, value) == Ok::<CliModel, Seq<char>>(
            CliModel { model_dir: Some(value), ..d },
        ),
        value.len() > 0 ==> valued_option(d, "--prompt"@, value) == Ok::<CliModel, Seq<char>>(
            CliModel { prompt: Some(value), ..d },
        ),
        value.len() == 0 ==> valued_option(d, "--prompt"@, value) is Err,
        valued_option(d, "--prompts-jsonl"@, value) == Ok::<CliModel, Seq<char>>(
            CliModel { prompts_jsonl: Some(value), ..d },
        ),
        valued_option(d, "--reference-manifest"@, value) == Ok::<CliModel, Seq<char>>(
            CliModel { reference_manifest: Some(value), ..d },
        ),
        valued_option(d, "--hf-reference"@, value) == Ok::<CliModel, Seq<char>>(
            CliModel { hf_reference: Some(value), ..d },
        ),
        valued_option(d, "--report"@, value) == Ok::<CliModel, Seq<char>>(
            CliModel { report: Some(value), ..d },
        ),
        valued_option(d, "--profile-report"@, value) == Ok::<CliModel, Seq<char>>(
            CliModel { profile_report: Some(value), ..d },
        ),
        valued_option(d, "--session-backend"@, value) matches Ok(n) ==> n == (CliModel {
            session_backend: n.session_backend,
            ..d
        }) && (n.session_backend is Direct ==> value == "direct"@) && (n.session_backend is Engine
            ==> value == "engine"@),
        valued_option(d, "--max-new-tokens"@, value) matches Ok(n) ==> n == (CliModel {
            max_new_tokens: n.max_new_tokens,
            ..d
        }) && token_limit("--max-new-tokens"@, value) == Ok::<usize, Seq<char>>(n.max_new_tokens),
        valued_option(d, "--max-total-tokens"@, value) matches Ok(n) ==> n == (CliModel {
            max_total_tokens: n.max_total_tokens,
            ..d
        }) && n.max_total_tokens is Some && token_limit("--max-total-tokens"@, value) == Ok::<
            usize,
            Seq<char>,
        >(n.max_total_tokens->0),
        valued_option(d, "--eos-token-ids"@, value) matches Ok(n) ==> n == (CliModel {
            eos_token_ids: n.eos_token_ids,
            ..d
        }) && token_ids("--eos-token-ids"@, value) == Ok::<Seq<u32>, Seq<char>>(n.eos_token_ids),
        valued_option(d, "--case-timeout-seconds"@, value) matches Ok(n) ==> n == (CliModel {
            case_timeout_seconds: n.case_timeout_seconds,
            ..d
        }) && n.case_timeout_seconds is Some && n.case_timeout_seconds->0 > 0 && numeral(value, usize::MAX as nat) == Ok::<nat, crate::text::NumeralFault>(n.case_timeout_seconds->0 as nat),
        valued_option(d, "--profile-samples"@, value) matches Ok(n) ==> n == (CliModel {
            profile_samples: n.profile_samples,
            ..d
        }) && n.profile_samples > 0 && numeral(value, usize::MAX as nat) == Ok::<nat, crate::text::NumeralFault>(n.profile_samples as nat),
        valued_option(d, "--top-logits"@, value) matches Ok(n) ==> n == (CliModel {
            top_logits: n.top_logits,
            ..d
        }) && n.top_logits > 0 && numeral(value, usize::MAX as nat) == Ok::<nat, crate::text::NumeralFault>(n.top_logits as nat),
        bare_option(d, "--no-bos"@) == Ok::<CliModel, Seq<char>>(CliModel { no_bos: true, ..d }),
{
    flags_differ();
    numerals_are_bounded(value, usize::MAX as nat);
    let flags = seq![
        "--model-dir"@,
        "--prompt"@,
        "--prompts-jsonl"@,
        "--reference-manifest"@,
        "--session-backend"@,
        "--max-new-tokens"@,
        "--max-total-tokens"@,
        "--eos-token-ids"@,
        "--hf-reference"@,
        "--report"@,
        "--case-timeout-seconds"@,
        "--profile-samples"@,
        "--profile-report"@,
        "--top-logits"@,
    ];
    assert(flags.len() == 14);
    assert(flags[0] == "--model-dir"@ && flags[1] == "--prompt"@ && flags[2] == "--prompts-jsonl"@);
    assert(flags[3] == "--reference-manifest"@ && flags[4] == "--session-backend"@);
    assert(flags[5] == "--max-new-tokens"@ && flags[6] == "--max-total-tokens"@);
    assert(flags[7] == "--eos-token-ids"@ && flags[8] == "--hf-reference"@);
    assert(flags[9] == "--report"@ && flags[10] == "--case-timeout-seconds"@);
    assert(flags[11] == "--profile-samples"@ && flags[12] == "--profile-report"@);
    assert(flags[13] == "--top-logits"@);
}

/// A command line is accepted exactly where it has a model and one input, and no
/// option that does not belong to that input: sessions alone are reported, profiled
/// and timed and choose their backend, and a single prompt alone shows logits.
pub proof fn accepted_lines_fit_their_input(d: CliModel)
    ensures
        combination(d) matches Ok(n) ==> n == d,
        combination(d) is Ok <==> {
            let single = d.prompt is Some;
            let session = d.prompts_jsonl is Some || d.reference_manifest is Some;
            &&& single != session
            &&& !(d.prompts_jsonl is Some && d.reference_manifest is Some)
            &&& d.model_dir is Some
            &&& single ==> d.session_backend is Direct && d.report is None && d.profile_samples == 0
                && d.case_timeout_seconds is None && d.profile_report is None
            &&& session ==> d.top_logits == 0
            &&& d.profile_report is Some ==> d.profile_samples > 0
        },
{
}

proof fn ids_in_order(flag: Seq<char>, pieces: Seq<Seq<char>>, i: int, ids: Seq<u32>)
    requires
        0 <= i <= pieces.len(),
    ensures
        ids_from(flag, pieces, i, ids) matches Ok(all) ==> {
            &&& all.len() > 0
            &&& all == ids + written_ids(pieces, i)
        },
    decreases pieces.len() - i,
{
    if i < pieces.len() {
        let part = trimmed(pieces[i]);
        if part.len() == 0 {
            ids_in_order(flag, pieces, i + 1, ids);
        } else {
            match numeral(part, u32::MAX as nat) {
                Ok(id) => {
                    ids_in_order(flag, pieces, i + 1, ids.push(id as u32));
                    assert(ids.push(id as u32) + written_ids(pieces, i + 1) =~= ids + written_ids(
                        pieces,
                        i,
                    ));
                },
                Err(_) => {},
            }
        }
    } else {
        assert(ids + written_ids(pieces, i) =~= ids);
    }
}

/// The numbers of the pieces from a place on, leaving out blank ones.
pub open spec fn written_ids(pieces: Seq<Seq<char>>, i: int) -> Seq<u32>
    decreases pieces.len() - i,
{
    if i >= pieces.len() {
        Seq::empty()
    } else {
        (if trimmed(pieces[i]).len() == 0 {
            Seq::empty()
        } else {
            seq![numeral(trimmed(pieces[i]), u32::MAX as nat)->Ok_0 as u32]
        }) + written_ids(pieces, i + 1)
    }
}

/// A list of token ids is the numbers between its commas, in order, and has one.
pub proof fn id_lists_are_read_whole(flag: Seq<char>, raw: Seq<char>)
    ensures
        token_ids(flag, raw) matches Ok(ids) ==> ids.len() > 0 && ids == written_ids(
            split(raw, ','),
            0,
        ),
{
    ids_in_order(flag, split(raw, ','), 0, Seq::empty());
    assert(Seq::<u32>::empty() + written_ids(split(raw, ','), 0) =~= written_ids(
        split(raw, ','),
        0,
    ));
}

/// A case of a session takes from its document what the document says, each member
/// under its own name, and from the command line what the document leaves open.
pub proof fn cases_override_the_command_line(
    value: JsonModel,
    default_name: Seq<char>,
    base_dir: Seq<char>,
    args: CliModel,
)
    requires
        case_of(value, default_name, base_dir, args) is Ok,
    ensures
        ({
            let case = case_of(value, default_name, base_dir, args)->Ok_0;
            &&& value is Object
            &&& nonempty(text_at(value, "name"@)) matches Some(name) ==> case.name == name
            &&& nonempty(text_at(value, "name"@)) is None ==> case.name == default_name
            &&& text_at(value, "prompt"@) == Some(case.prompt) && case.prompt.len() > 0
            &&& crate::json::at(value, "max_new_tokens"@) is None ==> case.max_new_tokens
                == args.max_new_tokens
            &&& crate::json::at(value, "max_new_tokens"@) is Some ==> natural_at(
                value,
                "max_new_tokens"@,
            ) == Some(case.max_new_tokens as u64) && case.max_new_tokens > 0
            &&& crate::json::at(value, "max_total_tokens"@) is None ==> case.max_total_tokens
                == args.max_total_tokens
            &&& crate::json::at(value, "max_total_tokens"@) is Some ==> case.max_total_tokens
                is Some && natural_at(value, "max_total_tokens"@) == Some(
                case.max_total_tokens->0 as u64,
            )
            &&& crate::json::at(value, "no_bos"@) is None ==> case.no_bos == args.no_bos
            &&& crate::json::at(value, "no_bos"@) is Some ==> crate::json::bool_at(
                value,
                "no_bos"@,
            ) == Some(case.no_bos)
            &&& nonempty(text_at(value, "hf_reference"@)) matches Some(path) ==> case.hf_reference
                == Some(joined(base_dir, path))
            &&& nonempty(text_at(value, "hf_reference"@)) is None && nonempty(
                text_at(value, "reference_path"@),
            ) is None ==> case.hf_reference == args.hf_reference
        }),
{
}

/// A session is sized by the case that asks for most: by its total, by what it generates and
/// by its prompt, each on its own.
pub proof fn sessions_have_room_for_every_case(cases: Seq<CaseSize>, default: usize, k: int)
    requires
        0 <= k < cases.len(),
    ensures
        greatest_or(totals(cases), default) >= cases[k].max_supported_total_tokens,
        greatest_or(news(cases), default) >= cases[k].max_new_tokens,
        greatest_or(prompts(cases), default) >= cases[k].prompt_tokens,
        exists|i: int|
            0 <= i < cases.len() && (#[trigger] cases[i]).max_supported_total_tokens == greatest_or(
                totals(cases),
                default,
            ),
        exists|i: int|
            0 <= i < cases.len() && (#[trigger] cases[i]).max_new_tokens == greatest_or(
                news(cases),
                default,
            ),
        exists|i: int|
            0 <= i < cases.len() && (#[trigger] cases[i]).prompt_tokens == greatest_or(
                prompts(cases),
                default,
            ),
{
    the_greatest_is_one_of_them(totals(cases), default, k);
    the_greatest_is_one_of_them(news(cases), default, k);
    the_greatest_is_one_of_them(prompts(cases), default, k);
    let t = choose|i: int|
        0 <= i < cases.len() && totals(cases)[i] == greatest_or(totals(cases), default);
    let n = choose|i: int|
        0 <= i < cases.len() && news(cases)[i] == greatest_or(news(cases), default);
    let p = choose|i: int|
        0 <= i < cases.len() && prompts(cases)[i] == greatest_or(prompts(cases), default);
    assert(cases[t].max_supported_total_tokens == totals(cases)[t]);
    assert(cases[n].max_new_tokens == news(cases)[n]);
    assert(cases[p].prompt_tokens == prompts(cases)[p]);
}

} // verus!
