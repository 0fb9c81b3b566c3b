//! What a command line asks for, option by option.
use crate::ane::decoder::KvImportPacking;
use crate::ane::static_cache::AneStaticCachePart;
use crate::ane::weight_plan::{plan_name, plan_names_are_distinct, AneWeightPlan};
use crate::disagg::options::{
    count_value, flag_setting, interleaves, metallib_outcome, option_read, options_from, part_named,
    plan_value, retains, run_outcome, screen_of, worker_outcome, CacheTarget, OptionsModel,
    PromptModel, RunKind,
};
use vstd::prelude::*;

verus! {

proof fn flags_differ()
    ensures
        "--model-dir"@.len() == 11 && "--model-dir"@[2] == 'm' && "--model-dir"@[3] == 'o',
        "--output-dir"@.len() == 12 && "--output-dir"@[2] == 'o' && "--output-dir"@[3] == 'u',
        "--metallib-bf16"@.len() == 15 && "--metallib-bf16"@[2] == 'm' && "--metallib-bf16"@[3] == 'e',
        "--hf-reference"@.len() == 14 && "--hf-reference"@[2] == 'h' && "--hf-reference"@[3] == 'f',
        "--prompt"@.len() == 8 && "--prompt"@[2] == 'p' && "--prompt"@[3] == 'r',
        "--prompt-file"@.len() == 13 && "--prompt-file"@[2] == 'p' && "--prompt-file"@[3] == 'r',
        "--kv-import-packing"@.len() == 19 && "--kv-import-packing"@[2] == 'k' && "--kv-import-packing"@[3] == 'v',
        "--head-ranking"@.len() == 14 && "--head-ranking"@[2] == 'h' && "--head-ranking"@[3] == 'e',
        "--prepare-ane-cache"@.len() == 19 && "--prepare-ane-cache"@[2] == 'p' && "--prepare-ane-cache"@[3] == 'r',
        "--inspect-ane-cache"@.len() == 19 && "--inspect-ane-cache"@[2] == 'i' && "--inspect-ane-cache"@[3] == 'n',
        "--ane-weights"@.len() == 13 && "--ane-weights"@[2] == 'a' && "--ane-weights"@[3] == 'n',
        "--max-new-tokens"@.len() == 16 && "--max-new-tokens"@[2] == 'm' && "--max-new-tokens"@[3] == 'a',
        "--ane-compile-budget"@.len() == 20 && "--ane-compile-budget"@[2] == 'a' && "--ane-compile-budget"@[3] == 'n',
        "--context-capacity"@.len() == 18 && "--context-capacity"@[2] == 'c' && "--context-capacity"@[3] == 'o',
        "--prefill-only"@.len() == 14 && "--prefill-only"@[2] == 'p' && "--prefill-only"@[3] == 'r',
        "--capture-layer-states"@.len() == 22 && "--capture-layer-states"@[2] == 'c' && "--capture-layer-states"@[3] == 'a',
        "--capture-ffn-inputs"@.len() == 20 && "--capture-ffn-inputs"@[2] == 'c' && "--capture-ffn-inputs"@[3] == 'a',
        "--retain-metal"@.len() == 14 && "--retain-metal"@[2] == 'r' && "--retain-metal"@[3] == 'e',
        "--interleave"@.len() == 12 && "--interleave"@[2] == 'i' && "--interleave"@[3] == 'n',
        "--interactive"@.len() == 13 && "--interactive"@[2] == 'i' && "--interactive"@[3] == 'n',
        "--runtime-worker"@.len() == 16 && "--runtime-worker"@[2] == 'r' && "--runtime-worker"@[3] == 'u',
        "--head-ranking-timing"@.len() == 21 && "--head-ranking-timing"@[2] == 'h' && "--head-ranking-timing"@[3] == 'e',
        "--help"@.len() == 6 && "--help"@[2] == 'h' && "--help"@[3] == 'e',
        "-h"@.len() == 2,
{
    reveal_strlit("--model-dir");
    reveal_strlit("--output-dir");
    reveal_strlit("--metallib-bf16");
    reveal_strlit("--hf-reference");
    reveal_strlit("--prompt");
    reveal_strlit("--prompt-file");
    reveal_strlit("--kv-import-packing");
    reveal_strlit("--head-ranking");
    reveal_strlit("--prepare-ane-cache");
    reveal_strlit("--inspect-ane-cache");
    reveal_strlit("--ane-weights");
    reveal_strlit("--max-new-tokens");
    reveal_strlit("--ane-compile-budget");
    reveal_strlit("--context-capacity");
    reveal_strlit("--prefill-only");
    reveal_strlit("--capture-layer-states");
    reveal_strlit("--capture-ffn-inputs");
    reveal_strlit("--retain-metal");
    reveal_strlit("--interleave");
    reveal_strlit("--interactive");
    reveal_strlit("--runtime-worker");
    reveal_strlit("--head-ranking-timing");
    reveal_strlit("--help");
    reveal_strlit("-h");
}

proof fn parts_differ()
    ensures
        "all-int8"@.len() == 8 && "all-int8"@[0] == 'a' && "all-int8"@[7] == '8',
        "qkv"@.len() == 3 && "qkv"@[0] == 'q' && "qkv"@[2] == 'v',
        "qkv-sliding-int8-tiles4"@.len() == 23 && "qkv-sliding-int8-tiles4"@[0] == 'q' && "qkv-sliding-int8-tiles4"@[22] == '4',
        "qkv-sliding-int8"@.len() == 16 && "qkv-sliding-int8"@[0] == 'q' && "qkv-sliding-int8"@[15] == '8',
        "output"@.len() == 6 && "output"@[0] == 'o' && "output"@[5] == 't',
        "ffn"@.len() == 3 && "ffn"@[0] == 'f' && "ffn"@[2] == 'n',
        "ffn-lut4"@.len() == 8 && "ffn-lut4"@[0] == 'f' && "ffn-lut4"@[7] == '4',
        "ffn-int8"@.len() == 8 && "ffn-int8"@[0] == 'f' && "ffn-int8"@[7] == '8',
        "ffn-int8-chunk4"@.len() == 15 && "ffn-int8-chunk4"@[0] == 'f' && "ffn-int8-chunk4"@[14] == '4',
        "ffn-int8-down4"@.len() == 14 && "ffn-int8-down4"@[0] == 'f' && "ffn-int8-down4"@[13] == '4',
        "ffn-int8-interleaved"@.len() == 20 && "ffn-int8-interleaved"@[0] == 'f' && "ffn-int8-interleaved"@[19] == 'd',
        "attention-transpose-flags"@.len() == 25 && "attention-transpose-flags"@[0] == 'a' && "attention-transpose-flags"@[24] == 's',
        "ffn-int8-stacked"@.len() == 16 && "ffn-int8-stacked"@[0] == 'f' && "ffn-int8-stacked"@[15] == 'd',
        "head-attention"@.len() == 14 && "head-attention"@[0] == 'h' && "head-attention"@[13] == 'n',
{
    reveal_strlit("all-int8");
    reveal_strlit("qkv");
    reveal_strlit("qkv-sliding-int8-tiles4");
    reveal_strlit("qkv-sliding-int8");
    reveal_strlit("output");
    reveal_strlit("ffn");
    reveal_strlit("ffn-lut4");
    reveal_strlit("ffn-int8");
    reveal_strlit("ffn-int8-chunk4");
    reveal_strlit("ffn-int8-down4");
    reveal_strlit("ffn-int8-interleaved");
    reveal_strlit("attention-transpose-flags");
    reveal_strlit("ffn-int8-stacked");
    reveal_strlit("head-attention");
}

/// Whether reading an option leaves these settings.
pub open spec fn sets(r: Result<OptionsModel, Seq<char>>, settings: OptionsModel) -> bool {
    r matches Ok(next) && next == settings
}

/// An option that takes a text sets what it names to that text, whatever stood
/// there, and nothing else; references and prompts gather in the order given.
pub proof fn text_options_keep_their_text(d: OptionsModel, v: Seq<char>)
    ensures
        sets(option_read(d, "--model-dir"@, v), (OptionsModel { model_dir: Some(v), ..d })),
        sets(option_read(d, "--output-dir"@, v), (OptionsModel { output_dir: Some(v), ..d })),
        sets(option_read(d, "--metallib-bf16"@, v), (OptionsModel { metallib_bf16: Some(v), ..d })),
        sets(
            option_read(d, "--hf-reference"@, v),
            (OptionsModel { references: d.references.push(v), ..d }),
        ),
        sets(
            option_read(d, "--prompt"@, v),
            (OptionsModel { prompts: d.prompts.push(PromptModel::Text(v)), ..d }),
        ),
        sets(
            option_read(d, "--prompt-file"@, v),
            (OptionsModel { prompts: d.prompts.push(PromptModel::File(v)), ..d }),
        ),
{
    flags_differ();
}

/// An option that takes a count sets what it names to the number written, and is
/// refused where none is written.
pub proof fn count_options_keep_their_number(d: OptionsModel, v: Seq<char>)
    ensures
        forall|flag: Seq<char>|
            flag == "--max-new-tokens"@ || flag == "--ane-compile-budget"@ || flag
                == "--context-capacity"@ ==> (#[trigger] option_read(d, flag, v) is Ok
                <==> count_value(v) is Ok),
        count_value(v) is Ok ==> {
            let n = count_value(v)->Ok_0;
            &&& sets(
                option_read(d, "--max-new-tokens"@, v),
                (OptionsModel { max_new_tokens: n, ..d }),
            )
            &&& sets(
                option_read(d, "--ane-compile-budget"@, v),
                (OptionsModel { compile_budget: n, ..d }),
            )
            &&& sets(
                option_read(d, "--context-capacity"@, v),
                (OptionsModel { context_capacity: n, ..d }),
            )
        },
{
    flags_differ();
}

/// A switch turns what it names on or off, and nothing else; only the words for
/// true and false turn it.
pub proof fn switches_turn_what_they_name(d: OptionsModel, b: bool, v: Seq<char>)
    requires
        v == if b {
            "true"@
        } else {
            "false"@
        },
    ensures
        sets(option_read(d, "--prefill-only"@, v), (OptionsModel { prefill_only: b, ..d })),
        sets(option_read(d, "--capture-layer-states"@, v), (OptionsModel { capture_layers: b, ..d })),
        sets(option_read(d, "--capture-ffn-inputs"@, v), (OptionsModel { capture_ffn_inputs: b, ..d })),
        sets(option_read(d, "--retain-metal"@, v), (OptionsModel { retain_metal: b, ..d })),
        sets(option_read(d, "--interleave"@, v), (OptionsModel { interleave: b, ..d })),
        sets(option_read(d, "--interactive"@, v), (OptionsModel { interactive: b, ..d })),
        sets(option_read(d, "--runtime-worker"@, v), (OptionsModel { runtime_worker: b, ..d })),
        sets(option_read(d, "--head-ranking-timing"@, v), (OptionsModel { head_ranking_timing: b, ..d })),
        flag_setting(v) == Ok::<bool, Seq<char>>(b),
        forall|w: Seq<char>|
            w != "true"@ && w != "false"@ ==> (#[trigger] flag_setting(w)) is Err,
{
    flags_differ();
    reveal_strlit("true");
    reveal_strlit("false");
    assert("true"@.len() == 4 && "false"@.len() == 5);
}

/// An option that takes a name sets what it names to what the name stands for: a
/// plan by the plan's own name, the packings and the rankings by theirs.
pub proof fn named_options_keep_their_name(d: OptionsModel, plan: AneWeightPlan)
    ensures
        sets(
            option_read(d, "--ane-weights"@, plan_name(plan)),
            (OptionsModel { ane_weights: plan, ..d }),
        ),
        sets(
            option_read(d, "--kv-import-packing"@, "baseline"@),
            (OptionsModel { kv_import_packing: KvImportPacking::Baseline, ..d }),
        ),
        sets(
            option_read(d, "--kv-import-packing"@, "reuse-scratch"@),
            (OptionsModel { kv_import_packing: KvImportPacking::ReuseScratch, ..d }),
        ),
        sets(
            option_read(d, "--kv-import-packing"@, "cpu-kv-blocked32"@),
            (OptionsModel { kv_import_packing: KvImportPacking::Blocked32, ..d }),
        ),
        sets(
            option_read(d, "--head-ranking"@, "baseline"@),
            (OptionsModel { head_ranking_prune: false, ..d }),
        ),
        sets(
            option_read(d, "--head-ranking"@, "cpu-head-softcap-prune"@),
            (OptionsModel { head_ranking_prune: true, ..d }),
        ),
        forall|v: Seq<char>|
            (#[trigger] option_read(d, "--ane-weights"@, v)) is Ok ==> plan_name(
                option_read(d, "--ane-weights"@, v)->Ok_0.ane_weights,
            ) == v,
{
    flags_differ();
    reveal_strlit("baseline");
    reveal_strlit("reuse-scratch");
    reveal_strlit("cpu-kv-blocked32");
    reveal_strlit("cpu-head-softcap-prune");
    assert("baseline"@.len() == 8 && "reuse-scratch"@.len() == 13);
    assert("cpu-kv-blocked32"@.len() == 16 && "cpu-head-softcap-prune"@.len() == 22);
    assert(plan_value(plan_name(plan)) is Ok);
    plan_names_are_distinct(plan, plan_value(plan_name(plan))->Ok_0);
}

/// The two cache operations differ in whether they inspect; each takes the part
/// that its value names, and neither comes after another.
pub proof fn one_cache_operation_is_asked_for(d: OptionsModel, v: Seq<char>)
    ensures
        option_read(d, "--prepare-ane-cache"@, v) is Ok <==> d.cache_target is None && part_named(
            v,
        ) is Some,
        option_read(d, "--inspect-ane-cache"@, v) is Ok <==> d.cache_target is None && part_named(
            v,
        ) is Some,
        d.cache_target is None && part_named(v) is Some ==> {
            &&& sets(
                option_read(d, "--prepare-ane-cache"@, v),
                (OptionsModel { inspect_cache: false, cache_target: part_named(v), ..d }),
            )
            &&& sets(
                option_read(d, "--inspect-ane-cache"@, v),
                (OptionsModel { inspect_cache: true, cache_target: part_named(v), ..d }),
            )
        },
{
    flags_differ();
}

/// A name stands for one part of the cache: the quantized feed-forward layouts,
/// the projections and the rest each under its own.
pub proof fn part_names_stand_for_their_parts()
    ensures
        part_named("all-int8"@) == Some(CacheTarget::AllInt8),
        part_named("qkv"@) == Some(CacheTarget::Part(AneStaticCachePart::QueryKeyValue)),
        part_named("qkv-sliding-int8-tiles4"@) == Some(CacheTarget::Part(AneStaticCachePart::QueryKeyValueSlidingInt8Tiles4)),
        part_named("qkv-sliding-int8"@) == Some(CacheTarget::Part(AneStaticCachePart::QueryKeyValueSlidingInt8)),
        part_named("output"@) == Some(CacheTarget::Part(AneStaticCachePart::Output)),
        part_named("ffn"@) == Some(CacheTarget::Part(AneStaticCachePart::FeedForward)),
        part_named("ffn-lut4"@) == Some(CacheTarget::Part(AneStaticCachePart::FeedForwardLut4)),
        part_named("ffn-int8"@) == Some(CacheTarget::Part(AneStaticCachePart::FeedForwardInt8)),
        part_named("ffn-int8-chunk4"@) == Some(CacheTarget::Part(AneStaticCachePart::FeedForwardInt8Chunk4)),
        part_named("ffn-int8-down4"@) == Some(CacheTarget::Part(AneStaticCachePart::FeedForwardInt8Down4)),
        part_named("ffn-int8-interleaved"@) == Some(CacheTarget::Part(AneStaticCachePart::FeedForwardInt8Interleaved)),
        part_named("attention-transpose-flags"@) == Some(CacheTarget::Part(AneStaticCachePart::AttentionTransposeFlags)),
        part_named("ffn-int8-stacked"@) == Some(CacheTarget::Part(AneStaticCachePart::FeedForwardInt8Stacked)),
        part_named("head-attention"@) == Some(CacheTarget::Part(AneStaticCachePart::VocabularyAndAttention)),
        forall|a: Seq<char>, b: Seq<char>|
            (#[trigger] part_named(a)) is Some && part_named(a) == #[trigger] part_named(b) ==> a
                == b,
{
    parts_differ();
}

/// A line of options is read two arguments at a time, from the first on; help is
/// given wherever it is asked for before a mistake.
pub proof fn options_are_read_in_order(
    args: Seq<Seq<char>>,
    i: int,
    d: OptionsModel,
)
    requires
        0 <= i < args.len(),
    ensures
        args[i] == "--help"@ || args[i] == "-h"@ ==> options_from(args, i, d) == Ok::<
            Option<OptionsModel>,
            Seq<char>,
        >(None),
        args[i] != "--help"@ && args[i] != "-h"@ && i + 1 == args.len() ==> options_from(
            args,
            i,
            d,
        ) is Err,
        args[i] != "--help"@ && args[i] != "-h"@ && i + 1 < args.len() ==> match option_read(
            d,
            args[i],
            args[i + 1],
        ) {
            Ok(next) => options_from(args, i, d) == options_from(args, i + 2, next),
            Err(message) => options_from(args, i, d) == Err::<Option<OptionsModel>, Seq<char>>(
                message,
            ),
        },
        options_from(args, args.len() as int, d) == Ok::<Option<OptionsModel>, Seq<char>>(Some(d)),
{
}

/// Interaction and the worker imply interleaving, and interleaving implies that
/// Metal is retained; asking for more never takes that back.
pub proof fn interaction_implies_interleaving(o: OptionsModel)
    ensures
        interleaves(o) <==> o.interleave || o.interactive || o.runtime_worker,
        o.retain_metal ==> retains(o),
        interleaves(o) ==> retains(o),
        !o.retain_metal && !interleaves(o) ==> !retains(o),
        ({
            let s = screen_of(o);
            &&& s.enabled == o.prefill_only
            &&& s.reference_count == o.references.len() as usize
            &&& s.output_requested == o.output_dir is Some
            &&& s.text_input == (o.prompts.len() != 0)
            &&& s.interactive == o.interactive
            &&& s.interleave == (o.interleave || o.interactive || o.runtime_worker)
            &&& s.retain_metal == (o.retain_metal || s.interleave)
            &&& s.runtime_worker == o.runtime_worker
            &&& s.capture_ane == (o.capture_layers || o.capture_ffn_inputs)
            &&& s.cache_operation == o.cache_target is Some
            &&& s.nonbaseline_ane == !(o.ane_weights is StaticInt8FfnCached)
            &&& s.nonbaseline_packing == !(o.kv_import_packing is Baseline)
            &&& s.compile_budget == o.compile_budget
        }),
{
}

/// The plan that checks its stacked layout runs only against references, with a
/// directory to report to, a driver journal and no compilation; a ranking that was
/// refused refuses the run.
pub proof fn runs_are_accepted_together(
    o: OptionsModel,
    ranking: Result<(), Seq<char>>,
    journal: bool,
)
    requires
        run_outcome(o, ranking, journal) is Ok,
    ensures
        ranking is Ok,
        o.ane_weights is StaticInt8StackedFfnChecked ==> o.references.len() > 0 && o.output_dir
            is Some && o.compile_budget == 0 && o.cache_target is None && journal,
        match run_outcome(o, ranking, journal)->Ok_0 {
            RunKind::Cache { target, inspect } => {
                &&& o.cache_target == Some(target)
                &&& inspect == o.inspect_cache
                &&& o.output_dir is Some
                &&& o.references.len() == 0 && o.prompts.len() == 0
                &&& !o.interactive && !o.interleave && !o.runtime_worker
                &&& !o.capture_layers && !o.capture_ffn_inputs
                &&& o.kv_import_packing is Baseline
            },
            RunKind::Inference { text_mode } => {
                &&& o.cache_target is None
                &&& text_mode <==> o.references.len() == 0
                &&& text_mode <==> o.prompts.len() > 0 || o.interactive
                &&& o.references.len() > 0 || o.capture_layers || o.capture_ffn_inputs
                    ==> o.output_dir is Some
            },
        },
{
}

/// A prompt or a reference, a model and a context to run in are all that inference
/// takes: with the other settings as they are by default it is accepted.
pub proof fn plain_inference_is_accepted(o: OptionsModel, journal: bool)
    requires
        o.model_dir is Some,
        o.ane_weights is StaticInt8FfnCached,
        !o.prefill_only,
        o.cache_target is None,
        o.compile_budget <= 16,
        o.context_capacity == 64 || o.context_capacity == 1024,
        0 < o.max_new_tokens <= o.context_capacity + 1,
        o.references.len() > 0 <==> !(o.prompts.len() > 0 || o.interactive),
        o.output_dir is None ==> o.references.len() == 0 && !o.capture_layers
            && !o.capture_ffn_inputs,
    ensures
        run_outcome(o, Ok(()), journal) is Ok,
{
}

/// A cache operation on a model, with a directory to report to and nothing else
/// asked for, is accepted.
pub proof fn plain_cache_operations_are_accepted(o: OptionsModel, journal: bool)
    requires
        o.model_dir is Some && o.output_dir is Some && o.cache_target is Some,
        o.ane_weights is StaticInt8FfnCached && o.kv_import_packing is Baseline,
        !o.prefill_only && !o.interleave && !o.interactive && !o.runtime_worker,
        !o.capture_layers && !o.capture_ffn_inputs,
        o.references.len() == 0 && o.prompts.len() == 0,
        o.compile_budget == 0,
        o.context_capacity == 64 || o.context_capacity == 1024,
    ensures
        run_outcome(o, Ok(()), journal) == Ok::<RunKind, Seq<char>>(
            (RunKind::Cache { target: o.cache_target->0, inspect: o.inspect_cache }),
        ),
{
}

/// A path on the command line is taken before one of the environment; the worker
/// takes the qualified route alone.
pub proof fn the_command_line_comes_first(
    o: OptionsModel,
    a: Seq<char>,
    environment: Option<Seq<char>>,
    qualified: bool,
)
    ensures
        metallib_outcome(Some(a), environment) == Ok::<Seq<char>, Seq<char>>(a),
        metallib_outcome(None, Some(a)) == Ok::<Seq<char>, Seq<char>>(a),
        metallib_outcome(None, None) is Err,
        worker_outcome(o, qualified) is Ok <==> {
            &&& qualified
            &&& !o.capture_layers && !o.capture_ffn_inputs
            &&& o.ane_weights is StaticInt8FfnCached
            &&& o.kv_import_packing is Baseline
        },
{
}

} // verus!
