//! What is owed an acceptance: whatever meets each condition is taken.
use crate::ane::component::{
    candidate_name, input_outcome, request_outcome, same_sample, Candidate, Input, PinRequest,
};
use crate::ane::component_laws::candidates_read_back;
use crate::disagg::cache_receipt::{
    entries_from, events_from, graph_names, journal_agrees, no_entries, part_outcome, PartModel,
};
use crate::disagg::references::{id_list, indexed, reference_in};
use crate::engine::reservation::{KvCall, KvReply, ReservationModel, Stage};
use crate::engine::types::{kv_error, refused, EngineError, Refusal};
use crate::evidence::{
    claims_outcome, compiler_outcome, device_outcome, report_outcome, resources_outcome,
    toolchain_outcome, ReadFile,
};
use crate::evidence_laws::{
    artifacts_are_sealed, captured, captures_agree_with_their_exit, commanded, has_members, sealed,
    versioned,
};
use crate::json::{array_at, at, bool_at, natural_at, text_at, JsonModel};
use crate::metal_infer::args::CliModel;
use crate::metal_infer::cases::{
    case_of, manifest_case, manifest_output, manifest_prompt, manifest_steps, nonempty,
};
use crate::mlx::stage_identity::{hash_outcome, IdentityModel};
use crate::mlx::stage_receipt::receipt_header;
use crate::model_suite::{suite_case_of, SuiteCaseModel};
use crate::paths::{file_name, is_absolute, same_path};
use crate::queue::job::{
    call_outcome, holds, input_with, is_id, is_id_char, is_process_name, job_outcome, pin_shaped,
    required_digests, submission_outcome, unpinned_from, variable_sound, Directories, Invocation,
    Job, Pin, Submission,
};
use crate::text::{is_digest, is_lower_digest, lines, lowered};
use vstd::prelude::*;

verus! {

// ---------------------------------------------------------------------------
// Jobs
// ---------------------------------------------------------------------------

/// A command is accepted where its directory is there and absolute, nothing in it holds a
/// null, its variables are named, and its program is pinned.
pub proof fn plain_commands_are_accepted(call: Invocation)
    requires
        is_absolute(call.cwd@),
        is_absolute(call.executable.path@),
        is_digest(call.executable.sha256@),
        forall|i: int| 0 <= i < call.args@.len() ==> !(#[trigger] call.args@[i])@.contains('\0'),
        forall|i: int|
            0 <= i < call.env@.len() ==> (#[trigger] call.env@[i]).0@.len() > 0
                && !call.env@[i].0@.contains('=') && !call.env@[i].0@.contains('\0')
                && !call.env@[i].1@.contains('\0'),
    ensures
        call_outcome(call, true) is Ok,
        call_outcome(call, false) is Err,
{
    assert forall|i: int| 0 <= i < call.env@.len() implies variable_sound(
        #[trigger] call.env@[i],
    ) by {}
    assert forall|i: int| 0 <= i < call.args@.len() implies !holds(
        (#[trigger] call.args@[i])@,
        '\0',
    ) by {}
}

/// A job is accepted where its name, its conditions, its times, its dependencies, its
/// commands and its pins are each as they must be; the greatest times are still accepted.
pub proof fn bounded_jobs_are_accepted(job: Job, dirs: Directories)
    requires
        job.schema@ == "rvllm.experiment_job.v1"@,
        0 < job.id@.len() <= 96,
        forall|i: int|
            0 <= i < job.id@.len() ==> {
                let c = #[trigger] job.id@[i];
                ('0' <= c && c <= '9') || ('a' <= c && c <= 'z') || ('A' <= c && c <= 'Z') || c
                    == '-' || c == '_'
            },
        job.stable_seconds <= 600,
        job.max_wait_seconds <= 86400,
        1 <= job.max_run_seconds <= 3600,
        dirs.disk_path,
        ({
            let c = job.conditions;
            &&& c.power_source@ == "ac"@ || c.power_source@ == "battery"@
            &&& c.pmset_power_mode is Some ==> c.pmset_power_mode->0 <= 2
            &&& c.thermal_state is Some ==> c.thermal_state->0 <= 3
            &&& is_absolute(c.disk_path@)
            &&& c.idle_llama_servers@.len() <= 4
            &&& forall|i: int|
                0 <= i < c.idle_llama_servers@.len() ==> (#[trigger] c.idle_llama_servers@[i]).pid
                    > 0 && c.idle_llama_servers@[i].port > 0
            &&& forall|i: int|
                0 <= i < c.quiet_process_names@.len() ==> (
                #[trigger] c.quiet_process_names@[i])@.len() > 0
                    && !c.quiet_process_names@[i]@.contains('/')
            &&& forall|i: int|
                0 <= i < c.observe_process_names@.len() ==> (
                #[trigger] c.observe_process_names@[i])@.len() > 0
                    && !c.observe_process_names@[i]@.contains('/')
        }),
        forall|i: int|
            0 <= i < job.after@.len() ==> is_id((#[trigger] job.after@[i])@) && job.after@[i]@
                != job.id@,
        forall|i: int, j: int|
            0 <= i < j < job.after@.len() ==> (#[trigger] job.after@[i])@ != (
            #[trigger] job.after@[j])@,
        call_outcome(job.command, dirs.command_cwd) is Ok,
        job.validator is Some ==> call_outcome(job.validator->0, dirs.validator_cwd) is Ok,
        forall|i: int|
            0 <= i < job.inputs@.len() ==> is_absolute((#[trigger] job.inputs@[i]).path@)
                && is_digest(job.inputs@[i].sha256@),
        job.kernel_game_submission is Some ==> is_absolute(job.kernel_game_submission->0.path@)
            && is_digest(job.kernel_game_submission->0.sha256@),
    ensures
        job_outcome(job, dirs) is Ok,
{
    assert(is_id(job.id@)) by {
        assert forall|i: int| 0 <= i < job.id@.len() implies is_id_char(#[trigger] job.id@[i]) by {}
    }
    let c = job.conditions;
    assert forall|i: int| 0 <= i < c.quiet_process_names@.len() implies is_process_name(
        (#[trigger] c.quiet_process_names@[i])@,
    ) by {}
    assert forall|i: int| 0 <= i < c.observe_process_names@.len() implies is_process_name(
        (#[trigger] c.observe_process_names@[i])@,
    ) by {}
    assert forall|i: int| 0 <= i < job.inputs@.len() implies pin_shaped(
        #[trigger] job.inputs@[i],
    ) by {}
}

proof fn required_are_pinned(required: Seq<Seq<char>>, inputs: Seq<Pin>, i: int)
    requires
        0 <= i <= required.len(),
        forall|k: int|
            0 <= k < required.len() ==> input_with(inputs, #[trigger] required[k], 0) is Some,
    ensures
        unpinned_from(required, inputs, i) is Ok,
    decreases required.len() - i,
{
    if i < required.len() {
        required_are_pinned(required, inputs, i + 1);
    }
}

/// A job is bound to a submission where it runs the executable, is told of the submission,
/// of the candidate, of the source tree and of the oracle, and pins what is required.
pub proof fn told_jobs_are_bound(job: Job, pin: Pin, s: Submission, i: int, j: int, k: int, v: int)
    requires
        s.executable@ == lowered(job.command.executable.sha256@),
        forall|n: int|
            0 <= n < required_digests(s).len() ==> input_with(
                job.inputs@,
                #[trigger] required_digests(s)[n],
                0,
            ) is Some,
        0 <= i < job.command.args@.len() - 1,
        job.command.args@[i]@ == "--kernel-game-submission"@,
        same_path(job.command.args@[i + 1]@, pin.path@),
        0 <= j < job.command.args@.len() - 1,
        job.command.args@[j]@ == "--kernel-game-source-tree"@,
        same_path(
            job.command.args@[j + 1]@,
            job.inputs@[input_with(job.inputs@, s.source_tree@, 0)->0].path@,
        ),
        0 <= k < job.command.args@.len() - 1,
        job.command.args@[k]@ == "--kernel-game-oracle"@,
        same_path(
            job.command.args@[k + 1]@,
            job.inputs@[input_with(job.inputs@, s.oracle@, 0)->0].path@,
        ),
        0 <= v < job.command.env@.len(),
        job.command.env@[v].0@ == "RVLLM_METAL_RESEARCH"@,
        job.command.env@[v].1@ == s.candidate@,
    ensures
        submission_outcome(job, pin, s) is Ok,
{
    required_are_pinned(required_digests(s), job.inputs@, 0);
}

// ---------------------------------------------------------------------------
// References, manifests and cases
// ---------------------------------------------------------------------------

/// A reference is accepted where it is of the checkpoint's revision and its tokens are
/// known, fit the context and end in time; the whole context may be used.
pub proof fn fitting_references_are_accepted(
    path: Seq<char>,
    document: JsonModel,
    model_dir: Seq<char>,
    capacity: usize,
    eos: Seq<u32>,
    revision: Seq<char>,
)
    requires
        capacity < usize::MAX,
        text_at(document, "model_revision"@) == Some(revision),
        file_name(model_dir) == Some(revision),
        id_list(indexed(document, "prompt_token_ids"@)) is Ok,
        id_list(indexed(document, "generated_tokens"@)) is Ok,
        ({
            let prompt = id_list(indexed(document, "prompt_token_ids"@))->Ok_0;
            let generated = id_list(indexed(document, "generated_tokens"@))->Ok_0;
            &&& prompt.len() > 0 && generated.len() > 0
            &&& prompt.len() + generated.len() <= capacity + 1
            &&& forall|i: int| 0 <= i < prompt.len() ==> #[trigger] prompt[i] < 262144
            &&& forall|i: int| 0 <= i < generated.len() ==> #[trigger] generated[i] < 262144
            &&& forall|i: int|
                0 <= i && i + 1 < generated.len() ==> !eos.contains(#[trigger] generated[i])
        }),
    ensures
        reference_in(path, document, model_dir, capacity, eos) is Ok,
{
}

/// An entry of a suite that states its name, its model and its prompt, and no more, is a
/// case.
pub proof fn plain_entries_are_cases(value: JsonModel, idx: int, earlier: Seq<SuiteCaseModel>)
    requires
        text_at(value, "name"@) is Some && text_at(value, "name"@)->0.len() > 0,
        text_at(value, "model_dir"@) is Some && text_at(value, "model_dir"@)->0.len() > 0,
        text_at(value, "prompt"@) is Some && text_at(value, "prompt"@)->0.len() > 0,
        at(value, "max_new_tokens"@) is None || (natural_at(value, "max_new_tokens"@) is Some && 0
            < natural_at(value, "max_new_tokens"@)->0 <= u32::MAX),
        at(value, "max_total_tokens"@) is None || (natural_at(value, "max_total_tokens"@) is Some
            && 0 < natural_at(value, "max_total_tokens"@)->0 <= u32::MAX),
        at(value, "timeout_seconds"@) is None || (natural_at(value, "timeout_seconds"@) is Some && 0
            < natural_at(value, "timeout_seconds"@)->0 <= u32::MAX),
        at(value, "expected_error_contains"@) is None,
        at(value, "min_tok_per_s"@) is None,
        at(value, "max_prefill_ms"@) is None,
        at(value, "max_decode_ms"@) is None,
        forall|i: int|
            0 <= i < earlier.len() ==> (#[trigger] earlier[i]).name != text_at(value, "name"@)->0,
    ensures
        suite_case_of(value, idx, earlier) is Ok,
{
}

/// A line of a session that holds an object with a prompt is a case, named or not.
pub proof fn prompts_are_cases(
    value: JsonModel,
    name: Seq<char>,
    base_dir: Seq<char>,
    args: CliModel,
)
    requires
        value is Object,
        text_at(value, "prompt"@) is Some && text_at(value, "prompt"@)->0.len() > 0,
        at(value, "max_new_tokens"@) is None,
        at(value, "max_total_tokens"@) is None,
        args.max_total_tokens is None,
        at(value, "no_bos"@) is None || bool_at(value, "no_bos"@) is Some,
    ensures
        case_of(value, name, base_dir, args) is Ok,
{
}

/// An entry of a manifest that has a name, a prompt, a step and an output is a case.
pub proof fn whole_entries_are_cases(
    dir: Seq<char>,
    manifest: JsonModel,
    args: CliModel,
    case: JsonModel,
    i: int,
)
    requires
        nonempty(text_at(case, "name"@)) is Some,
        manifest_prompt(case) is Some,
        manifest_steps(case, nonempty(text_at(case, "name"@))->0) matches Ok(Some(n)) && n > 0,
        manifest_output(case) is Some,
        at(case, "max_total_tokens"@) is None,
        args.max_total_tokens is None,
        at(case, "no_bos"@) is None || bool_at(case, "no_bos"@) is Some,
    ensures
        manifest_case(dir, manifest, args, case, i) is Ok,
{
}

// ---------------------------------------------------------------------------
// Components
// ---------------------------------------------------------------------------

/// A component's manifest is accepted where it is of its candidate and its layer, and pins
/// the model, three matrices, and one to three samples that differ in path and content.
pub proof fn pinned_manifests_are_accepted(input: Input, candidate: Candidate)
    requires
        input.schema@ == "rvllm.ane.ffn-component-input.v1"@,
        input.candidate@ == candidate_name(candidate),
        input.layer < 48,
        1 <= input.samples@.len() <= 3,
        is_lower_digest(input.model_config_sha256@),
        input.quantized_matrix_sha256@.len() == 3,
        forall|i: int|
            0 <= i < input.quantized_matrix_sha256@.len() ==> is_lower_digest(
                #[trigger] input.quantized_matrix_sha256@[i]@,
            ),
        forall|i: int|
            0 <= i < input.samples@.len() ==> is_absolute((#[trigger] input.samples@[i]).path@)
                && is_lower_digest(input.samples@[i].sha256@),
        forall|i: int, j: int|
            0 <= j < i < input.samples@.len() ==> !same_path(
                (#[trigger] input.samples@[j]).path@,
                (#[trigger] input.samples@[i]).path@,
            ) && input.samples@[j].sha256@ != input.samples@[i].sha256@,
    ensures
        input_outcome(input, candidate) is Ok,
{
    assert forall|i: int| 0 <= i < input.samples@.len() implies crate::ane::component::sample_pinned(
        #[trigger] input.samples@[i],
    ) by {}
    assert forall|i: int, j: int| 0 <= j < i < input.samples@.len() implies !same_sample(
        input.samples@[j],
        input.samples@[i],
    ) by {}
}

/// A request for pins is accepted where it names a candidate, a layer, and one to three
/// absolute paths that differ.
pub proof fn plain_requests_are_accepted(request: PinRequest, candidate: Candidate)
    requires
        request.schema@ == "rvllm.ane.ffn-pin-request.v1"@,
        request.candidate@ == candidate_name(candidate),
        request.layer < 48,
        1 <= request.sample_paths@.len() <= 3,
        forall|i: int|
            0 <= i < request.sample_paths@.len() ==> is_absolute(
                #[trigger] request.sample_paths@[i]@,
            ),
        forall|i: int, j: int|
            0 <= j < i < request.sample_paths@.len() ==> !same_path(
                #[trigger] request.sample_paths@[j]@,
                #[trigger] request.sample_paths@[i]@,
            ),
    ensures
        request_outcome(request) == Ok::<Candidate, Seq<char>>(candidate),
{
    candidates_read_back(candidate, request.candidate@);
}

// ---------------------------------------------------------------------------
// Receipts and reports
// ---------------------------------------------------------------------------

/// A preparation's receipt is accepted where it is of the visit, prepared every graph
/// within the compilations allowed, and its journal agrees.
pub proof fn complete_preparations_are_accepted(
    report: JsonModel,
    journal: Seq<char>,
    p: PartModel,
    compiled: u64,
)
    requires
        !p.inspect,
        p.count <= u64::MAX,
        p.capacity <= u64::MAX,
        text_at(report, "schema"@) == Some("rvllm.ane_cache_provision.v1"@),
        text_at(report, "part"@) == Some(p.part),
        text_at(report, "model_dir"@) == Some(p.model),
        natural_at(report, "global_context_capacity"@) == Some(p.capacity as u64),
        natural_at(report, "inference_evaluations"@) == Some(0u64),
        text_at(report, "cache_policy"@) == Some("bounded-reuse-or-compile"@),
        natural_at(report, "maximum_explicit_compiles"@) == Some(p.count as u64),
        natural_at(report, "compiler_calls"@) == Some(compiled),
        natural_at(report, "programs_prepared"@) == Some(p.count as u64),
        compiled <= p.count,
        events_from(lines(journal), 0, Seq::empty()) is Ok,
        journal_agrees(
            events_from(lines(journal), 0, Seq::empty())->Ok_0,
            p,
            compiled,
            p.count as u64,
        ),
    ensures
        part_outcome(report, journal, p) is Ok,
{
}

/// An inspection's receipt is accepted where it is of the visit, compiled nothing, has an
/// entry for each graph that is present or missing as it counts, and its journal agrees.
pub proof fn complete_inspections_are_accepted(
    report: JsonModel,
    journal: Seq<char>,
    p: PartModel,
    items: Seq<JsonModel>,
)
    requires
        p.inspect,
        text_at(report, "schema"@) == Some("rvllm.ane_cache_inspection.v1"@),
        text_at(report, "part"@) == Some(p.part),
        text_at(report, "model_dir"@) == Some(p.model),
        natural_at(report, "global_context_capacity"@) == Some(p.capacity as u64),
        natural_at(report, "inference_evaluations"@) == Some(0u64),
        text_at(report, "cache_policy"@) == Some("require-existing"@),
        natural_at(report, "maximum_explicit_compiles"@) == Some(0u64),
        natural_at(report, "compiler_calls"@) == Some(0u64),
        array_at(report, "entries"@) == Some(items),
        items.len() == p.count,
        entries_from(items, 0, no_entries()) is Ok,
        ({
            let found = entries_from(items, 0, no_entries())->Ok_0;
            &&& found.names == graph_names(p.part, p.count as int)
            &&& found.present <= p.count
            &&& natural_at(report, "programs_prepared"@) == Some(found.present as u64)
            &&& events_from(lines(journal), 0, Seq::empty()) is Ok
            &&& journal_agrees(
                events_from(lines(journal), 0, Seq::empty())->Ok_0,
                p,
                0,
                found.present as u64,
            )
        }),
    ensures
        part_outcome(report, journal, p) is Ok,
{
}

/// A toolchain is accepted where its tools are sealed with their versions, its command
/// lines are lists of texts, its kit is named, and both captures agree with their exits.
pub proof fn bound_toolchains_are_accepted(files: Seq<ReadFile>, toolchain: JsonModel)
    requires
        has_members(
            toolchain,
            seq![
                "compile_argv"@,
                "compile_capture"@,
                "link_argv"@,
                "link_capture"@,
                "metal"@,
                "metal_objdump"@,
                "metallib"@,
                "sdk_path"@,
                "sdk_version"@,
            ],
        ),
        versioned(files, toolchain, "metal"@),
        versioned(files, toolchain, "metallib"@),
        versioned(files, toolchain, "metal_objdump"@),
        commanded(toolchain, "compile_argv"@),
        commanded(toolchain, "link_argv"@),
        text_at(toolchain, "sdk_path"@) is Some && text_at(toolchain, "sdk_path"@)->0.len() > 0,
        text_at(toolchain, "sdk_version"@) is Some && text_at(toolchain, "sdk_version"@)->0.len()
            > 0,
        captured(files, at(toolchain, "compile_capture"@)->0),
        captured(files, at(toolchain, "link_capture"@)->0),
    ensures
        toolchain_outcome(files, toolchain) is Ok,
{
    tool_accepted(files, toolchain, "metal"@);
    tool_accepted(files, toolchain, "metallib"@);
    tool_accepted(files, toolchain, "metal_objdump"@);
    captures_agree_with_their_exit(
        files,
        at(toolchain, "compile_capture"@)->0,
        "toolchain.compile_capture"@,
    );
    captures_agree_with_their_exit(
        files,
        at(toolchain, "link_capture"@)->0,
        "toolchain.link_capture"@,
    );
    assert forall|i: int|
        0 <= i < array_at(toolchain, "compile_argv"@)->0.len() implies crate::json::text_of(
        #[trigger] array_at(toolchain, "compile_argv"@)->0[i],
    ) is Some by {}
}

proof fn tool_accepted(files: Seq<ReadFile>, toolchain: JsonModel, key: Seq<char>)
    requires
        versioned(files, toolchain, key),
    ensures
        crate::evidence::tool_outcome(files, toolchain, key) is Ok,
{
    let tool = at(toolchain, key)->0;
    artifacts_are_sealed(files, at(tool, "identity"@)->0, "toolchain."@ + key + ".identity"@);
}

/// A report is accepted where it is of the schema, the status and the scope, its four
/// artifacts are sealed, and its toolchain, its device, its pipelines, what the compiler
/// left and its claims are each accepted.
pub proof fn bound_reports_are_accepted(files: Seq<ReadFile>, report: JsonModel)
    requires
        has_members(
            report,
            seq![
                "air"@,
                "claims"@,
                "collector"@,
                "compiler_artifacts"@,
                "device"@,
                "metallib"@,
                "pipeline_resources"@,
                "schema"@,
                "scope"@,
                "source"@,
                "status"@,
                "toolchain"@,
            ],
        ),
        text_at(report, "schema"@) == Some("rvllm.metal_artifact_evidence.v1"@),
        text_at(report, "status"@) == Some("captured"@),
        text_at(report, "scope"@) == Some(
            "rvLLM artifact evidence only; contains no MLX trace or performance claim"@,
        ),
        sealed(files, at(report, "source"@)->0),
        sealed(files, at(report, "air"@)->0),
        sealed(files, at(report, "metallib"@)->0),
        sealed(files, at(report, "collector"@)->0),
        toolchain_outcome(files, at(report, "toolchain"@)->0) is Ok,
        device_outcome(at(report, "device"@)->0) is Ok,
        resources_outcome(report) is Ok,
        compiler_outcome(files, at(report, "compiler_artifacts"@)->0) is Ok,
        claims_outcome(at(report, "claims"@)->0) is Ok,
    ensures
        report_outcome(files, report) is Ok,
{
    artifacts_are_sealed(files, at(report, "source"@)->0, "source"@);
    artifacts_are_sealed(files, at(report, "air"@)->0, "air"@);
    artifacts_are_sealed(files, at(report, "metallib"@)->0, "metallib"@);
    artifacts_are_sealed(files, at(report, "collector"@)->0, "collector"@);
}

/// A benchmark's receipt is accepted where it is of the job's model, bits and sources, at
/// the pinned commits, under the protocol.
pub proof fn sealed_receipts_are_accepted(receipt: JsonModel, job: IdentityModel)
    requires
        text_at(receipt, "schema"@) == Some("rvllm.mlx_gemma4_stage_microbenchmark.v1"@),
        text_at(receipt, "status"@) == Some("measured_microbenchmark_not_normal_route"@),
        at(receipt, "model"@) is Some && at(receipt, "model"@)->0 is Object,
        at(receipt, "mlx_lm_source"@) is Some && at(receipt, "mlx_lm_source"@)->0 is Object,
        at(receipt, "mlx_protocol_source"@) is Some && at(receipt, "mlx_protocol_source"@)->0
            is Object,
        at(receipt, "protocol"@) is Some && at(receipt, "protocol"@)->0 is Object,
        ({
            let model = at(receipt, "model"@)->0;
            &&& text_at(model, "path"@) == Some(job.model)
            &&& natural_at(model, "requested_weight_bits"@) == Some(job.bits)
            &&& natural_at(model, "config_exposed_weight_bits"@) == Some(job.bits)
            &&& text_at(model, "config_sha256"@) matches Some(h) && hash_outcome(
                job,
                job.model + "/config.json"@,
                h,
            ) is Ok
            &&& text_at(model, "model_index_sha256"@) matches Some(h) && hash_outcome(
                job,
                job.model + "/model.safetensors.index.json"@,
                h,
            ) is Ok
        }),
        ({
            let source = at(receipt, "mlx_lm_source"@)->0;
            &&& text_at(source, "source_root"@) == Some(job.mlx_lm_source)
            &&& text_at(source, "commit"@) == Some("87b7b583a697537aa68f47130b40884700b5f55f"@)
            &&& bool_at(source, "working_tree_matches_commit"@) == Some(true)
            &&& text_at(source, "referenced_path_sha256"@) matches Some(h) && hash_outcome(
                job,
                job.mlx_lm_source + "/mlx_lm/models/gemma4_text.py"@,
                h,
            ) is Ok
        }),
        ({
            let source = at(receipt, "mlx_protocol_source"@)->0;
            &&& text_at(source, "source_root"@) == Some(job.mlx_source)
            &&& text_at(source, "commit"@) == Some("c215b6f88cf0fee0b0895623e4046cda797ef397"@)
            &&& bool_at(source, "working_tree_matches_commit"@) == Some(true)
            &&& text_at(source, "referenced_path_sha256"@) matches Some(h) && hash_outcome(
                job,
                job.mlx_source + "/benchmarks/python/time_utils.py"@,
                h,
            ) is Ok
        }),
        natural_at(at(receipt, "protocol"@)->0, "warmups"@) == Some(5u64),
        natural_at(at(receipt, "protocol"@)->0, "iterations"@) == Some(100u64),
    ensures
        receipt_header(receipt, job) == Ok::<u64, Seq<char>>(100),
{
}

// ---------------------------------------------------------------------------
// Reservations
// ---------------------------------------------------------------------------

/// Why a reservation is being undone or was refused, where it is or was.
pub open spec fn reason(m: ReservationModel, call: KvCall) -> Option<EngineError> {
    match call {
        KvCall::Refused { error } => Some(error),
        _ => match m.stage {
            Stage::Releasing { error } => Some(error),
            Stage::Unbinding { error } => Some(error),
            Stage::Truncating { error } => Some(error),
            _ => None,
        },
    }
}

/// A reservation is refused for what went wrong, with the request at hand: a chain of
/// another owner, a chain that could not be bound, or what the pool refused. Undoing keeps
/// that reason to the end, and nothing else refuses.
pub proof fn reservations_are_refused_for_their_reason(m: ReservationModel, reply: KvReply)
    requires
        m.well_formed(),
        m.expects(reply),
    ensures
        ({
            let (next, call) = m.resumed(reply);
            let req_id = m.rows[m.index].req_id;
            match (m.stage, reply) {
                (Stage::Viewing { .. }, KvReply::Viewed(Ok(view))) => if view.owner == req_id {
                    reason(next, call) is None
                } else {
                    reason(next, call) == Some(refused(Some(req_id), Refusal::OwnerMismatch))
                },
                (Stage::Viewing { .. }, KvReply::Viewed(Err(e))) => reason(next, call) == Some(
                    kv_error(e, Some(req_id)),
                ),
                (Stage::Allocation, KvReply::Allocated(Err(e))) => reason(next, call) == Some(
                    kv_error(e, Some(req_id)),
                ),
                (Stage::Appending, KvReply::Appended(Err(e))) => reason(next, call) == Some(
                    kv_error(e, Some(req_id)),
                ),
                (Stage::Binding { .. }, KvReply::Bound(false)) => reason(next, call) == Some(
                    refused(Some(req_id), Refusal::BindFailed),
                ),
                (Stage::Releasing { error }, _) => reason(next, call) == Some(error),
                (Stage::Unbinding { error }, _) => reason(next, call) == Some(error),
                (Stage::Truncating { error }, _) => reason(next, call) == Some(error),
                _ => reason(next, call) is None,
            }
        }),
{
}

} // verus!
