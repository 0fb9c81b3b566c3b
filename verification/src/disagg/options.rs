//! The command line of disaggregated inference: its options, which of them go
//! together, and what the run is to do.
use crate::ane::decoder::{candidate, packing_name, KvImportPacking};
use crate::ane::static_cache::AneStaticCachePart;
use crate::ane::weight_plan::{
    cached_only, plan_name, plan_names_are_distinct, AneProgramCachePolicy, AneWeightPlan,
};
use crate::disagg::prefill_screen::{screen_outcome, PrefillScreenOptions};
use crate::text::{cat2, fault_text, numeral, opt_text, parse_numeral, same, texts, told};
use vstd::prelude::*;

verus! {

/// What the tool prints where help is asked for.
pub const HELP: &'static str = "Gemma 4 12B: Metal prefill, ANE decode, greedy text generation.

Usage: rvllm_disaggregated_infer --model-dir PATH --prompt TEXT [options]

  --metallib-bf16 PATH           Precompiled BF16 Metal library (or RVLLM_METAL_METALLIB_BF16)
  --prompt TEXT                 One user text turn; may be repeated
  --prompt-file PATH            Read one user text turn from a UTF-8 file
  --max-new-tokens N             Output limit including EOS (default 64)
  --context-capacity 64|1024     Prompt plus decoded input capacity (default 1024)
  --ane-weights PLAN             static-int8-ffn-cached (default), static-all-cached, or research plans
  --ane-compile-budget 0..16     Bounded recovery of missing cached programs (default 0)
  --retain-metal BOOL            Keep Metal loaded during ANE decode (default false)
  --interleave BOOL              Prepare both backends once, then prefill/decode each request
  --interactive BOOL             Read successive user prompts from stdin, one per line; implies interleave
  --runtime-worker BOOL          Use the serial runtime owner (INT8/MMA/SIMD; default false)
  --output-dir PATH              Optional local report directory
  --hf-reference PATH           Verify against pinned token IDs; requires output directory
  --capture-layer-states BOOL    Capture first ANE step; requires output directory
  --prepare-ane-cache PART       qkv, output, ffn, ffn-int8, ffn-lut4, head-attention

Text input uses the qualified single-user, non-thinking checkpoint template.
Multiple prompts share initialization. Model histories, tools and multimodal inputs are unsupported.

  --prefill-only BOOL            First-token/KV screen; original reference retained; never loads ANE

  --inspect-ane-cache PART       Strict load inspection of a cache part; zero compiles/evaluations
  --kv-import-packing baseline|reuse-scratch|cpu-kv-blocked32 (default baseline)
  --head-ranking baseline|cpu-head-softcap-prune (default baseline)
  --head-ranking-timing BOOL   CPU softcap/ranking only; default false; same setting on both timing arms
  PART=all-int8                  Visit qkv, output, ffn-int8 and head-attention in fresh serial processes
  PART=ffn-int8-chunk4           Explicit single-I/O FFN output-channel chunking
  --ane-weights static-int8-chunk4-ffn-cached (zero compile budget)
  PART=ffn-int8-down4; --ane-weights static-int8-down4-ffn-cached (zero compile budget)
  PART=ffn-int8-interleaved; --ane-weights static-int8-interleaved-ffn-cached (zero compile budget; control is stacked INT8)
  PART=attention-transpose-flags; --ane-weights static-int8-ffn-transpose-attention-cached (zero compile budget)
  PART=ffn-int8-stacked          Prepare/inspect the experimental stacked INT8 FFNs
  PART=qkv-sliding-int8-tiles4   Output-row tiling; original FP16 global QKV
  --ane-weights static-int8-ffn-sliding-qkv-tiles4-cached (zero compile budget)
  PART=qkv-sliding-int8          Experimental INT8 sliding QKV; original FP16 global QKV
  --capture-ffn-inputs BOOL      Capture actual FFN inputs for the first two ANE steps; requires output directory; diagnostics only
  --ane-weights static-int8-ffn-sliding-qkv-cached
                                Experimental sliding QKV quantization; full-model quality unqualified
  --ane-weights static-int8-stacked-ffn-cached|static-int8-stacked-ffn-checked
                                Experimental layout; checked requires references, output directory, journal and zero compile budget";

/// Which parts of the cache an operation visits.
#[derive(Clone, Copy, Debug, PartialEq, Eq, Structural)]
pub enum CacheTarget {
    Part(AneStaticCachePart),
    AllInt8,
}

pub open spec fn part_named(name: Seq<char>) -> Option<CacheTarget> {
    if name == "all-int8"@ {
        Some(CacheTarget::AllInt8)
    } else if name == "qkv"@ {
        Some(CacheTarget::Part(AneStaticCachePart::QueryKeyValue))
    } else if name == "qkv-sliding-int8-tiles4"@ {
        Some(CacheTarget::Part(AneStaticCachePart::QueryKeyValueSlidingInt8Tiles4))
    } else if name == "qkv-sliding-int8"@ {
        Some(CacheTarget::Part(AneStaticCachePart::QueryKeyValueSlidingInt8))
    } else if name == "output"@ {
        Some(CacheTarget::Part(AneStaticCachePart::Output))
    } else if name == "ffn"@ {
        Some(CacheTarget::Part(AneStaticCachePart::FeedForward))
    } else if name == "ffn-lut4"@ {
        Some(CacheTarget::Part(AneStaticCachePart::FeedForwardLut4))
    } else if name == "ffn-int8"@ {
        Some(CacheTarget::Part(AneStaticCachePart::FeedForwardInt8))
    } else if name == "ffn-int8-chunk4"@ {
        Some(CacheTarget::Part(AneStaticCachePart::FeedForwardInt8Chunk4))
    } else if name == "ffn-int8-down4"@ {
        Some(CacheTarget::Part(AneStaticCachePart::FeedForwardInt8Down4))
    } else if name == "ffn-int8-interleaved"@ {
        Some(CacheTarget::Part(AneStaticCachePart::FeedForwardInt8Interleaved))
    } else if name == "attention-transpose-flags"@ {
        Some(CacheTarget::Part(AneStaticCachePart::AttentionTransposeFlags))
    } else if name == "ffn-int8-stacked"@ {
        Some(CacheTarget::Part(AneStaticCachePart::FeedForwardInt8Stacked))
    } else if name == "head-attention"@ {
        Some(CacheTarget::Part(AneStaticCachePart::VocabularyAndAttention))
    } else {
        None
    }
}

/// The cache target of a name.
pub fn cache_target(name: &str) -> (r: Option<CacheTarget>)
    ensures
        r == part_named(name@),
{
    if same(name, "all-int8") {
        Some(CacheTarget::AllInt8)
    } else if same(name, "qkv") {
        Some(CacheTarget::Part(AneStaticCachePart::QueryKeyValue))
    } else if same(name, "qkv-sliding-int8-tiles4") {
        Some(CacheTarget::Part(AneStaticCachePart::QueryKeyValueSlidingInt8Tiles4))
    } else if same(name, "qkv-sliding-int8") {
        Some(CacheTarget::Part(AneStaticCachePart::QueryKeyValueSlidingInt8))
    } else if same(name, "output") {
        Some(CacheTarget::Part(AneStaticCachePart::Output))
    } else if same(name, "ffn") {
        Some(CacheTarget::Part(AneStaticCachePart::FeedForward))
    } else if same(name, "ffn-lut4") {
        Some(CacheTarget::Part(AneStaticCachePart::FeedForwardLut4))
    } else if same(name, "ffn-int8") {
        Some(CacheTarget::Part(AneStaticCachePart::FeedForwardInt8))
    } else if same(name, "ffn-int8-chunk4") {
        Some(CacheTarget::Part(AneStaticCachePart::FeedForwardInt8Chunk4))
    } else if same(name, "ffn-int8-down4") {
        Some(CacheTarget::Part(AneStaticCachePart::FeedForwardInt8Down4))
    } else if same(name, "ffn-int8-interleaved") {
        Some(CacheTarget::Part(AneStaticCachePart::FeedForwardInt8Interleaved))
    } else if same(name, "attention-transpose-flags") {
        Some(CacheTarget::Part(AneStaticCachePart::AttentionTransposeFlags))
    } else if same(name, "ffn-int8-stacked") {
        Some(CacheTarget::Part(AneStaticCachePart::FeedForwardInt8Stacked))
    } else if same(name, "head-attention") {
        Some(CacheTarget::Part(AneStaticCachePart::VocabularyAndAttention))
    } else {
        None
    }
}

/// A prompt on the command line: its text, or the file that holds it.
#[derive(Debug)]
pub enum PromptSource {
    Text(String),
    File(String),
}

pub enum PromptModel {
    Text(Seq<char>),
    File(Seq<char>),
}

pub open spec fn prompt_models(prompts: Seq<PromptSource>) -> Seq<PromptModel> {
    Seq::new(
        prompts.len(),
        |i: int|
            match prompts[i] {
                PromptSource::Text(t) => PromptModel::Text(t@),
                PromptSource::File(p) => PromptModel::File(p@),
            },
    )
}

/// The options of a run. The head ranking keeps its text, which its own
/// validation reads.
#[derive(Debug)]
pub struct Options {
    pub model_dir: Option<String>,
    pub output_dir: Option<String>,
    pub metallib_bf16: Option<String>,
    pub references: Vec<String>,
    pub prompts: Vec<PromptSource>,
    pub max_new_tokens: usize,
    pub prefill_only: bool,
    pub capture_layers: bool,
    pub capture_ffn_inputs: bool,
    pub retain_metal: bool,
    pub interleave: bool,
    pub interactive: bool,
    pub runtime_worker: bool,
    pub ane_weights: AneWeightPlan,
    pub kv_import_packing: KvImportPacking,
    pub head_ranking_prune: bool,
    pub head_ranking_timing: bool,
    pub cache_target: Option<CacheTarget>,
    pub inspect_cache: bool,
    pub compile_budget: usize,
    pub context_capacity: usize,
}

pub struct OptionsModel {
    pub model_dir: Option<Seq<char>>,
    pub output_dir: Option<Seq<char>>,
    pub metallib_bf16: Option<Seq<char>>,
    pub references: Seq<Seq<char>>,
    pub prompts: Seq<PromptModel>,
    pub max_new_tokens: usize,
    pub prefill_only: bool,
    pub capture_layers: bool,
    pub capture_ffn_inputs: bool,
    pub retain_metal: bool,
    pub interleave: bool,
    pub interactive: bool,
    pub runtime_worker: bool,
    pub ane_weights: AneWeightPlan,
    pub kv_import_packing: KvImportPacking,
    pub head_ranking_prune: bool,
    pub head_ranking_timing: bool,
    pub cache_target: Option<CacheTarget>,
    pub inspect_cache: bool,
    pub compile_budget: usize,
    pub context_capacity: usize,
}

impl View for Options {
    type V = OptionsModel;

    open spec fn view(&self) -> OptionsModel {
        OptionsModel {
            model_dir: opt_text(self.model_dir),
            output_dir: opt_text(self.output_dir),
            metallib_bf16: opt_text(self.metallib_bf16),
            references: texts(self.references@),
            prompts: prompt_models(self.prompts@),
            max_new_tokens: self.max_new_tokens,
            prefill_only: self.prefill_only,
            capture_layers: self.capture_layers,
            capture_ffn_inputs: self.capture_ffn_inputs,
            retain_metal: self.retain_metal,
            interleave: self.interleave,
            interactive: self.interactive,
            runtime_worker: self.runtime_worker,
            ane_weights: self.ane_weights,
            kv_import_packing: self.kv_import_packing,
            head_ranking_prune: self.head_ranking_prune,
            head_ranking_timing: self.head_ranking_timing,
            cache_target: self.cache_target,
            inspect_cache: self.inspect_cache,
            compile_budget: self.compile_budget,
            context_capacity: self.context_capacity,
        }
    }
}

/// The values before any option is read.
pub open spec fn default_options() -> OptionsModel {
    OptionsModel {
        model_dir: None,
        output_dir: None,
        metallib_bf16: None,
        references: Seq::empty(),
        prompts: Seq::empty(),
        max_new_tokens: 64,
        prefill_only: false,
        capture_layers: false,
        capture_ffn_inputs: false,
        retain_metal: false,
        interleave: false,
        interactive: false,
        runtime_worker: false,
        ane_weights: AneWeightPlan::StaticInt8FfnCached,
        kv_import_packing: KvImportPacking::Baseline,
        head_ranking_prune: false,
        head_ranking_timing: false,
        cache_target: None,
        inspect_cache: false,
        compile_budget: 0,
        context_capacity: 1024,
    }
}

// ---------------------------------------------------------------------------
// Values
// ---------------------------------------------------------------------------

pub open spec fn count_value(raw: Seq<char>) -> Result<usize, Seq<char>> {
    match numeral(raw, usize::MAX as nat) {
        Ok(n) => Ok(n as usize),
        Err(f) => Err(fault_text(f)),
    }
}

pub fn parse_count(raw: &str) -> (r: Result<usize, String>)
    ensures
        told(r) == count_value(raw@),
{
    match parse_numeral(raw, usize::MAX as u64) {
        Ok(n) => Ok(n as usize),
        Err(f) => Err(f.text().to_owned()),
    }
}

pub open spec fn flag_setting(raw: Seq<char>) -> Result<bool, Seq<char>> {
    if raw == "true"@ {
        Ok(true)
    } else if raw == "false"@ {
        Ok(false)
    } else {
        Err("provided string was not `true` or `false`"@)
    }
}

pub fn parse_flag(raw: &str) -> (r: Result<bool, String>)
    ensures
        told(r) == flag_setting(raw@),
{
    if same(raw, "true") {
        Ok(true)
    } else if same(raw, "false") {
        Ok(false)
    } else {
        Err("provided string was not `true` or `false`".to_owned())
    }
}

pub open spec fn packing_value(raw: Seq<char>) -> Result<KvImportPacking, Seq<char>> {
    if raw == "baseline"@ {
        Ok(KvImportPacking::Baseline)
    } else if raw == "reuse-scratch"@ {
        Ok(KvImportPacking::ReuseScratch)
    } else if raw == "cpu-kv-blocked32"@ {
        Ok(KvImportPacking::Blocked32)
    } else {
        Err("unknown --kv-import-packing value "@ + raw)
    }
}

pub fn parse_packing(raw: &str) -> (r: Result<KvImportPacking, String>)
    ensures
        told(r) == packing_value(raw@),
{
    if same(raw, "baseline") {
        Ok(KvImportPacking::Baseline)
    } else if same(raw, "reuse-scratch") {
        Ok(KvImportPacking::ReuseScratch)
    } else if same(raw, "cpu-kv-blocked32") {
        Ok(KvImportPacking::Blocked32)
    } else {
        Err(cat2("unknown --kv-import-packing value ", raw))
    }
}

/// The name of a packing reads back as the packing.
pub proof fn packing_names_read_back(packing: KvImportPacking)
    ensures
        packing_value(packing_name(packing)) == Ok::<KvImportPacking, Seq<char>>(packing),
{
    reveal_strlit("baseline");
    reveal_strlit("reuse-scratch");
    reveal_strlit("cpu-kv-blocked32");
    assert("baseline"@.len() == 8);
    assert("reuse-scratch"@.len() == 13);
    assert("cpu-kv-blocked32"@.len() == 16);
}

pub open spec fn ranking_value(raw: Seq<char>) -> Result<bool, Seq<char>> {
    if raw == "baseline"@ {
        Ok(false)
    } else if raw == "cpu-head-softcap-prune"@ {
        Ok(true)
    } else {
        Err("unknown --head-ranking value "@ + raw)
    }
}

pub fn parse_ranking(raw: &str) -> (r: Result<bool, String>)
    ensures
        told(r) == ranking_value(raw@),
{
    if same(raw, "baseline") {
        Ok(false)
    } else if same(raw, "cpu-head-softcap-prune") {
        Ok(true)
    } else {
        Err(cat2("unknown --head-ranking value ", raw))
    }
}

pub open spec fn plan_value(raw: Seq<char>) -> Result<AneWeightPlan, Seq<char>> {
    if exists|plan: AneWeightPlan| #[trigger] plan_name(plan) == raw {
        Ok(choose|plan: AneWeightPlan| #[trigger] plan_name(plan) == raw)
    } else {
        Err("unknown --ane-weights plan; see --help for cached and research plans"@)
    }
}

pub fn parse_plan(raw: &str) -> (r: Result<AneWeightPlan, String>)
    ensures
        told(r) == plan_value(raw@),
{
    match AneWeightPlan::from_name(raw) {
        Some(plan) => {
            proof {
                assert(plan_name(plan) == raw@);
                let chosen = choose|p: AneWeightPlan| #[trigger] plan_name(p) == raw@;
                plan_names_are_distinct(plan, chosen);
            }
            Ok(plan)
        },
        None => Err(
            "unknown --ane-weights plan; see --help for cached and research plans".to_owned(),
        ),
    }
}

/// The options after a cache operation was named.
pub open spec fn with_cache(d: OptionsModel, inspect: bool, raw: Seq<char>) -> Result<
    OptionsModel,
    Seq<char>,
> {
    if d.cache_target is Some {
        Err("provide only one cache operation"@)
    } else {
        match part_named(raw) {
            Some(target) => Ok(
                OptionsModel { inspect_cache: inspect, cache_target: Some(target), ..d },
            ),
            None => Err(
                "cache part must be all-int8, qkv, qkv-sliding-int8, qkv-sliding-int8-tiles4, output, ffn, ffn-int8, ffn-int8-stacked, ffn-int8-chunk4, ffn-lut4 or head-attention"@,
            ),
        }
    }
}

// ---------------------------------------------------------------------------
// Options
// ---------------------------------------------------------------------------

/// The options after one that takes a path, a prompt or a name.
pub open spec fn text_option(d: OptionsModel, flag: Seq<char>, value: Seq<char>) -> Option<
    Result<OptionsModel, Seq<char>>,
> {
    if flag == "--model-dir"@ {
        Some(Ok(OptionsModel { model_dir: Some(value), ..d }))
    } else if flag == "--output-dir"@ {
        Some(Ok(OptionsModel { output_dir: Some(value), ..d }))
    } else if flag == "--metallib-bf16"@ {
        Some(Ok(OptionsModel { metallib_bf16: Some(value), ..d }))
    } else if flag == "--hf-reference"@ {
        Some(Ok(OptionsModel { references: d.references.push(value), ..d }))
    } else if flag == "--prompt"@ {
        Some(Ok(OptionsModel { prompts: d.prompts.push(PromptModel::Text(value)), ..d }))
    } else if flag == "--prompt-file"@ {
        Some(Ok(OptionsModel { prompts: d.prompts.push(PromptModel::File(value)), ..d }))
    } else if flag == "--kv-import-packing"@ {
        Some(
            match packing_value(value) {
                Ok(kv_import_packing) => Ok(OptionsModel { kv_import_packing, ..d }),
                Err(message) => Err(message),
            },
        )
    } else if flag == "--head-ranking"@ {
        Some(
            match ranking_value(value) {
                Ok(head_ranking_prune) => Ok(OptionsModel { head_ranking_prune, ..d }),
                Err(message) => Err(message),
            },
        )
    } else if flag == "--prepare-ane-cache"@ {
        Some(with_cache(d, false, value))
    } else if flag == "--inspect-ane-cache"@ {
        Some(with_cache(d, true, value))
    } else if flag == "--ane-weights"@ {
        Some(
            match plan_value(value) {
                Ok(ane_weights) => Ok(OptionsModel { ane_weights, ..d }),
                Err(message) => Err(message),
            },
        )
    } else {
        None
    }
}

/// The options after one that takes a count.
pub open spec fn count_option(d: OptionsModel, flag: Seq<char>, n: usize) -> Option<OptionsModel> {
    if flag == "--max-new-tokens"@ {
        Some(OptionsModel { max_new_tokens: n, ..d })
    } else if flag == "--ane-compile-budget"@ {
        Some(OptionsModel { compile_budget: n, ..d })
    } else if flag == "--context-capacity"@ {
        Some(OptionsModel { context_capacity: n, ..d })
    } else {
        None
    }
}

/// The options after one that takes a truth value.
pub open spec fn flag_option(d: OptionsModel, flag: Seq<char>, b: bool) -> Option<OptionsModel> {
    if flag == "--prefill-only"@ {
        Some(OptionsModel { prefill_only: b, ..d })
    } else if flag == "--capture-layer-states"@ {
        Some(OptionsModel { capture_layers: b, ..d })
    } else if flag == "--capture-ffn-inputs"@ {
        Some(OptionsModel { capture_ffn_inputs: b, ..d })
    } else if flag == "--retain-metal"@ {
        Some(OptionsModel { retain_metal: b, ..d })
    } else if flag == "--interleave"@ {
        Some(OptionsModel { interleave: b, ..d })
    } else if flag == "--interactive"@ {
        Some(OptionsModel { interactive: b, ..d })
    } else if flag == "--runtime-worker"@ {
        Some(OptionsModel { runtime_worker: b, ..d })
    } else if flag == "--head-ranking-timing"@ {
        Some(OptionsModel { head_ranking_timing: b, ..d })
    } else {
        None
    }
}

/// The options after one of them and its value.
pub open spec fn option_read(d: OptionsModel, flag: Seq<char>, value: Seq<char>) -> Result<
    OptionsModel,
    Seq<char>,
> {
    if text_option(d, flag, value) is Some {
        text_option(d, flag, value)->0
    } else if count_option(d, flag, 0) is Some {
        match count_value(value) {
            Ok(n) => Ok(count_option(d, flag, n)->0),
            Err(message) => Err(message),
        }
    } else if flag_option(d, flag, false) is Some {
        match flag_setting(value) {
            Ok(b) => Ok(flag_option(d, flag, b)->0),
            Err(message) => Err(message),
        }
    } else {
        Err("unknown argument "@ + flag)
    }
}

/// The options of the arguments from `i` on, or nothing where help is asked for.
pub open spec fn options_from(args: Seq<Seq<char>>, i: int, d: OptionsModel) -> Result<
    Option<OptionsModel>,
    Seq<char>,
>
    decreases args.len() - i,
{
    if i >= args.len() {
        Ok(Some(d))
    } else if args[i] == "--help"@ || args[i] == "-h"@ {
        Ok(None)
    } else if i + 1 >= args.len() {
        Err("missing value for "@ + args[i])
    } else {
        match option_read(d, args[i], args[i + 1]) {
            Ok(next) => options_from(args, i + 2, next),
            Err(message) => Err(message),
        }
    }
}

fn push_string(list: &mut Vec<String>, text: &str)
    ensures
        texts(final(list)@) == texts(old(list)@).push(text@),
{
    let ghost before = list@;
    list.push(text.to_owned());
    assert(texts(list@) =~= texts(before).push(text@));
}

fn push_prompt(list: &mut Vec<PromptSource>, file: bool, text: &str)
    ensures
        prompt_models(final(list)@) == prompt_models(old(list)@).push(
            if file {
                PromptModel::File(text@)
            } else {
                PromptModel::Text(text@)
            },
        ),
{
    let ghost before = list@;
    if file {
        list.push(PromptSource::File(text.to_owned()));
        assert(prompt_models(list@) =~= prompt_models(before).push(PromptModel::File(text@)));
    } else {
        list.push(PromptSource::Text(text.to_owned()));
        assert(prompt_models(list@) =~= prompt_models(before).push(PromptModel::Text(text@)));
    }
}

impl Options {
    fn blank() -> (r: Options)
        ensures
            r@ == default_options(),
    {
        let r = Options {
            model_dir: None,
            output_dir: None,
            metallib_bf16: None,
            references: Vec::new(),
            prompts: Vec::new(),
            max_new_tokens: 64,
            prefill_only: false,
            capture_layers: false,
            capture_ffn_inputs: false,
            retain_metal: false,
            interleave: false,
            interactive: false,
            runtime_worker: false,
            ane_weights: AneWeightPlan::StaticInt8FfnCached,
            kv_import_packing: KvImportPacking::Baseline,
            head_ranking_prune: false,
            head_ranking_timing: false,
            cache_target: None,
            inspect_cache: false,
            compile_budget: 0,
            context_capacity: 1024,
        };
        assert(r@.references =~= Seq::empty());
        assert(r@.prompts =~= Seq::empty());
        r
    }

    fn take_cache(&mut self, inspect: bool, value: &str) -> (r: Result<(), String>)
        ensures
            match r {
                Ok(_) => with_cache(old(self)@, inspect, value@) == Ok::<OptionsModel, Seq<char>>(
                    final(self)@,
                ),
                Err(e) => with_cache(old(self)@, inspect, value@) == Err::<OptionsModel, Seq<char>>(
                    e@,
                ),
            },
    {
        if self.cache_target.is_some() {
            return Err("provide only one cache operation".to_owned());
        }
        match cache_target(value) {
            Some(target) => {
                self.inspect_cache = inspect;
                self.cache_target = Some(target);
                Ok(())
            },
            None => Err(
                "cache part must be all-int8, qkv, qkv-sliding-int8, qkv-sliding-int8-tiles4, output, ffn, ffn-int8, ffn-int8-stacked, ffn-int8-chunk4, ffn-lut4 or head-attention".to_owned(),
            ),
        }
    }

    fn take_text(&mut self, flag: &str, value: &str) -> (r: Option<Result<(), String>>)
        ensures
            match r {
                None => text_option(old(self)@, flag@, value@) is None && final(self)@
                    == old(self)@,
                Some(Ok(_)) => text_option(old(self)@, flag@, value@) == Some(
                    Ok::<OptionsModel, Seq<char>>(final(self)@),
                ),
                Some(Err(e)) => text_option(old(self)@, flag@, value@) == Some(
                    Err::<OptionsModel, Seq<char>>(e@),
                ),
            },
    {
        if same(flag, "--model-dir") {
            self.model_dir = Some(value.to_owned());
        } else if same(flag, "--output-dir") {
            self.output_dir = Some(value.to_owned());
        } else if same(flag, "--metallib-bf16") {
            self.metallib_bf16 = Some(value.to_owned());
        } else if same(flag, "--hf-reference") {
            push_string(&mut self.references, value);
        } else if same(flag, "--prompt") {
            push_prompt(&mut self.prompts, false, value);
        } else if same(flag, "--prompt-file") {
            push_prompt(&mut self.prompts, true, value);
        } else if same(flag, "--kv-import-packing") {
            match parse_packing(value) {
                Ok(packing) => {
                    self.kv_import_packing = packing;
                },
                Err(message) => {
                    return Some(Err(message));
                },
            }
        } else if same(flag, "--head-ranking") {
            match parse_ranking(value) {
                Ok(prune) => {
                    self.head_ranking_prune = prune;
                },
                Err(message) => {
                    return Some(Err(message));
                },
            }
        } else if same(flag, "--prepare-ane-cache") {
            return Some(self.take_cache(false, value));
        } else if same(flag, "--inspect-ane-cache") {
            return Some(self.take_cache(true, value));
        } else if same(flag, "--ane-weights") {
            match parse_plan(value) {
                Ok(plan) => {
                    self.ane_weights = plan;
                },
                Err(message) => {
                    return Some(Err(message));
                },
            }
        } else {
            return None;
        }
        Some(Ok(()))
    }

    fn take_count(&mut self, flag: &str, n: usize)
        requires
            count_option(old(self)@, flag@, n) is Some,
        ensures
            count_option(old(self)@, flag@, n) == Some(final(self)@),
    {
        if same(flag, "--max-new-tokens") {
            self.max_new_tokens = n;
        } else if same(flag, "--ane-compile-budget") {
            self.compile_budget = n;
        } else {
            self.context_capacity = n;
        }
    }

    fn take_flag(&mut self, flag: &str, b: bool)
        requires
            flag_option(old(self)@, flag@, b) is Some,
        ensures
            flag_option(old(self)@, flag@, b) == Some(final(self)@),
    {
        if same(flag, "--prefill-only") {
            self.prefill_only = b;
        } else if same(flag, "--capture-layer-states") {
            self.capture_layers = b;
        } else if same(flag, "--capture-ffn-inputs") {
            self.capture_ffn_inputs = b;
        } else if same(flag, "--retain-metal") {
            self.retain_metal = b;
        } else if same(flag, "--interleave") {
            self.interleave = b;
        } else if same(flag, "--interactive") {
            self.interactive = b;
        } else if same(flag, "--runtime-worker") {
            self.runtime_worker = b;
        } else {
            self.head_ranking_timing = b;
        }
    }

    fn take(&mut self, flag: &str, value: &str) -> (r: Result<(), String>)
        ensures
            match r {
                Ok(_) => option_read(old(self)@, flag@, value@) == Ok::<OptionsModel, Seq<char>>(
                    final(self)@,
                ),
                Err(e) => option_read(old(self)@, flag@, value@) == Err::<OptionsModel, Seq<char>>(
                    e@,
                ),
            },
    {
        match self.take_text(flag, value) {
            Some(outcome) => {
                return outcome;
            },
            None => {},
        }
        if same(flag, "--max-new-tokens") || same(flag, "--ane-compile-budget") || same(
            flag,
            "--context-capacity",
        ) {
            return match parse_count(value) {
                Ok(n) => {
                    self.take_count(flag, n);
                    Ok(())
                },
                Err(message) => Err(message),
            };
        }
        if same(flag, "--prefill-only") || same(flag, "--capture-layer-states") || same(
            flag,
            "--capture-ffn-inputs",
        ) || same(flag, "--retain-metal") || same(flag, "--interleave") || same(
            flag,
            "--interactive",
        ) || same(flag, "--runtime-worker") || same(flag, "--head-ranking-timing") {
            return match parse_flag(value) {
                Ok(b) => {
                    self.take_flag(flag, b);
                    Ok(())
                },
                Err(message) => Err(message),
            };
        }
        Err(cat2("unknown argument ", flag))
    }
}

pub open spec fn options_told(r: Result<Option<Options>, String>) -> Result<
    Option<OptionsModel>,
    Seq<char>,
> {
    match r {
        Ok(Some(options)) => Ok(Some(options@)),
        Ok(None) => Ok(None),
        Err(e) => Err(e@),
    }
}

/// Reads a command line, without the program's name; nothing where help is
/// asked for.
pub fn parse_options(args: &Vec<String>) -> (r: Result<Option<Options>, String>)
    ensures
        options_told(r) == options_from(texts(args@), 0, default_options()),
{
    let ghost all = texts(args@);
    let mut options = Options::blank();
    let mut i: usize = 0;
    while i < args.len()
        invariant
            i <= args@.len(),
            all == texts(args@),
            options_from(all, 0, default_options()) == options_from(all, i as int, options@),
        decreases args@.len() - i,
    {
        let flag = args[i].as_str();
        assert(all[i as int] == flag@);
        if same(flag, "--help") || same(flag, "-h") {
            return Ok(None);
        }
        if i + 1 >= args.len() {
            return Err(cat2("missing value for ", flag));
        }
        let value = args[i + 1].as_str();
        assert(all[i + 1] == value@);
        match options.take(flag, value) {
            Ok(_) => {},
            Err(message) => {
                return Err(message);
            },
        }
        i = i + 2;
    }
    Ok(Some(options))
}

// ---------------------------------------------------------------------------
// What goes together
// ---------------------------------------------------------------------------

/// What a run is to do.
#[derive(Clone, Copy, Debug, PartialEq, Eq, Structural)]
pub enum RunKind {
    Cache { target: CacheTarget, inspect: bool },
    Inference { text_mode: bool },
}

/// A worker or an interactive session interleaves, and interleaving retains
/// Metal.
pub open spec fn interleaves(o: OptionsModel) -> bool {
    o.interleave || o.interactive || o.runtime_worker
}

pub open spec fn retains(o: OptionsModel) -> bool {
    o.retain_metal || interleaves(o)
}

pub open spec fn screen_of(o: OptionsModel) -> PrefillScreenOptions {
    PrefillScreenOptions {
        enabled: o.prefill_only,
        reference_count: o.references.len() as usize,
        output_requested: o.output_dir is Some,
        text_input: o.prompts.len() > 0,
        interactive: o.interactive,
        interleave: interleaves(o),
        retain_metal: retains(o),
        runtime_worker: o.runtime_worker,
        capture_ane: o.capture_layers || o.capture_ffn_inputs,
        cache_operation: o.cache_target is Some,
        nonbaseline_ane: o.ane_weights != AneWeightPlan::StaticInt8FfnCached,
        nonbaseline_packing: o.kv_import_packing != KvImportPacking::Baseline,
        compile_budget: o.compile_budget,
    }
}

/// The checks that every run shares.
pub open spec fn shared_outcome(
    o: OptionsModel,
    ranking: Result<(), Seq<char>>,
    journal: bool,
) -> Result<(), Seq<char>> {
    if ranking is Err {
        ranking
    } else if screen_outcome(screen_of(o)) is Err {
        screen_outcome(screen_of(o))
    } else if o.model_dir is None {
        Err("--model-dir required"@)
    } else if candidate(o.ane_weights) && o.compile_budget != 0 {
        Err("candidate inference requires zero compile budget; provision separately"@)
    } else if o.ane_weights == AneWeightPlan::StaticInt8StackedFfnChecked && (o.references.len()
        == 0 || o.output_dir is None || o.compile_budget != 0 || o.cache_target is Some
        || !journal) {
        Err(
            "stacked FFN checking requires references, an output directory, a driver journal and zero compile budget"@,
        )
    } else if o.context_capacity != 64 && o.context_capacity != 1024 {
        Err("--context-capacity must be a qualified capacity: 64 or 1024"@)
    } else if o.compile_budget > 16 || (o.compile_budget != 0 && (o.cache_target is Some
        || !cached_only(o.ane_weights))) {
        Err("--ane-compile-budget must be 0..=16, for cached inference only"@)
    } else {
        Ok(())
    }
}

/// What the options ask for.
pub open spec fn run_outcome(
    o: OptionsModel,
    ranking: Result<(), Seq<char>>,
    journal: bool,
) -> Result<RunKind, Seq<char>> {
    match shared_outcome(o, ranking, journal) {
        Err(message) => Err(message),
        Ok(_) => match o.cache_target {
            Some(target) => if o.kv_import_packing != KvImportPacking::Baseline
                || o.references.len() > 0 || o.prompts.len() > 0 || o.capture_layers
                || o.capture_ffn_inputs || o.interactive || interleaves(o) {
                Err(
                    "cache operations cannot be combined with prompts, references, interactive/worker mode or layer capture"@,
                )
            } else if o.output_dir is None {
                Err("--output-dir required for cache provisioning"@)
            } else {
                Ok(RunKind::Cache { target, inspect: o.inspect_cache })
            },
            None => if (o.references.len() > 0 && (o.prompts.len() > 0 || o.interactive)) || (
            o.references.len() == 0 && o.prompts.len() == 0 && !o.interactive) {
                Err("provide --prompt/--prompt-file or --hf-reference, but do not mix them"@)
            } else if (o.references.len() > 0 || o.capture_layers || o.capture_ffn_inputs)
                && o.output_dir is None {
                Err("--output-dir required for reference verification or layer capture"@)
            } else if o.max_new_tokens == 0 || o.max_new_tokens > o.context_capacity + 1 {
                Err("--max-new-tokens must be positive and fit the selected context"@)
            } else {
                Ok(RunKind::Inference { text_mode: o.prompts.len() > 0 || o.interactive })
            },
        },
    }
}

impl Options {
    pub fn interleaving(&self) -> (r: bool)
        ensures
            r == interleaves(self@),
    {
        self.interleave || self.interactive || self.runtime_worker
    }

    pub fn retaining(&self) -> (r: bool)
        ensures
            r == retains(self@),
    {
        self.retain_metal || self.interleaving()
    }

    fn check_shared(&self, ranking: Result<(), String>, journal: bool) -> (r: Result<(), String>)
        ensures
            told(r) == shared_outcome(self@, told(ranking), journal),
    {
        match ranking {
            Err(message) => {
                return Err(message);
            },
            Ok(_) => {},
        }
        let screen = PrefillScreenOptions {
            enabled: self.prefill_only,
            reference_count: self.references.len(),
            output_requested: self.output_dir.is_some(),
            text_input: self.prompts.len() > 0,
            interactive: self.interactive,
            interleave: self.interleaving(),
            retain_metal: self.retaining(),
            runtime_worker: self.runtime_worker,
            capture_ane: self.capture_layers || self.capture_ffn_inputs,
            cache_operation: self.cache_target.is_some(),
            nonbaseline_ane: !matches!(self.ane_weights, AneWeightPlan::StaticInt8FfnCached),
            nonbaseline_packing: !matches!(self.kv_import_packing, KvImportPacking::Baseline),
            compile_budget: self.compile_budget,
        };
        match screen.validate() {
            Ok(_) => {},
            Err(message) => {
                return Err(message.to_owned());
            },
        }
        if self.model_dir.is_none() {
            return Err("--model-dir required".to_owned());
        }
        let is_candidate = matches!(
            self.ane_weights,
            AneWeightPlan::StaticInt8Chunk4FfnCached
                | AneWeightPlan::StaticInt8FfnSlidingQkvTiles4Cached
                | AneWeightPlan::StaticInt8Down4FfnCached
                | AneWeightPlan::StaticInt8InterleavedFfnCached
                | AneWeightPlan::StaticInt8FfnTransposeAttentionCached
        );
        if is_candidate && self.compile_budget != 0 {
            return Err(
                "candidate inference requires zero compile budget; provision separately".to_owned(),
            );
        }
        if matches!(self.ane_weights, AneWeightPlan::StaticInt8StackedFfnChecked) && (
        self.references.len() == 0 || self.output_dir.is_none() || self.compile_budget != 0
            || self.cache_target.is_some() || !journal) {
            return Err(
                "stacked FFN checking requires references, an output directory, a driver journal and zero compile budget".to_owned(),
            );
        }
        if self.context_capacity != 64 && self.context_capacity != 1024 {
            return Err("--context-capacity must be a qualified capacity: 64 or 1024".to_owned());
        }
        let strict = matches!(
            self.ane_weights.cache_policy(),
            AneProgramCachePolicy::RequireExisting
        );
        if self.compile_budget > 16 || (self.compile_budget != 0 && (self.cache_target.is_some()
            || !strict)) {
            return Err(
                "--ane-compile-budget must be 0..=16, for cached inference only".to_owned(),
            );
        }
        Ok(())
    }

    /// What the options ask for. `ranking` is what the validation of the head
    /// ranking said, and `journal` tells whether a driver journal is configured.
    pub fn run_kind(&self, ranking: Result<(), String>, journal: bool) -> (r: Result<
        RunKind,
        String,
    >)
        ensures
            told(r) == run_outcome(self@, told(ranking), journal),
    {
        match self.check_shared(ranking, journal) {
            Ok(_) => {},
            Err(message) => {
                return Err(message);
            },
        }
        match self.cache_target {
            Some(target) => {
                if !matches!(self.kv_import_packing, KvImportPacking::Baseline)
                    || self.references.len() > 0 || self.prompts.len() > 0 || self.capture_layers
                    || self.capture_ffn_inputs || self.interactive || self.interleaving() {
                    return Err(
                        "cache operations cannot be combined with prompts, references, interactive/worker mode or layer capture".to_owned(),
                    );
                }
                if self.output_dir.is_none() {
                    return Err("--output-dir required for cache provisioning".to_owned());
                }
                Ok(RunKind::Cache { target, inspect: self.inspect_cache })
            },
            None => {
                if (self.references.len() > 0 && (self.prompts.len() > 0 || self.interactive)) || (
                self.references.len() == 0 && self.prompts.len() == 0 && !self.interactive) {
                    return Err(
                        "provide --prompt/--prompt-file or --hf-reference, but do not mix them".to_owned(),
                    );
                }
                if (self.references.len() > 0 || self.capture_layers || self.capture_ffn_inputs)
                    && self.output_dir.is_none() {
                    return Err(
                        "--output-dir required for reference verification or layer capture".to_owned(),
                    );
                }
                if self.max_new_tokens == 0 || self.max_new_tokens > self.context_capacity + 1 {
                    return Err(
                        "--max-new-tokens must be positive and fit the selected context".to_owned(),
                    );
                }
                Ok(RunKind::Inference { text_mode: self.prompts.len() > 0 || self.interactive })
            },
        }
    }
}

/// Inference that is accepted never compiles for a candidate plan, compiles at
/// most 16 programs otherwise, and runs at a qualified capacity.
pub proof fn accepted_inference_is_bounded(
    o: OptionsModel,
    ranking: Result<(), Seq<char>>,
    journal: bool,
)
    requires
        run_outcome(o, ranking, journal) is Ok,
    ensures
        o.model_dir is Some,
        o.compile_budget <= 16,
        candidate(o.ane_weights) ==> o.compile_budget == 0,
        o.compile_budget != 0 ==> cached_only(o.ane_weights) && o.cache_target is None,
        o.context_capacity == 64 || o.context_capacity == 1024,
        run_outcome(o, ranking, journal)->Ok_0 is Inference ==> 0 < o.max_new_tokens
            <= o.context_capacity + 1,
{
}

/// The runtime worker runs only the qualified route.
pub open spec fn worker_outcome(o: OptionsModel, qualified_kernels: bool) -> Result<(), Seq<char>> {
    if o.capture_layers || o.capture_ffn_inputs || o.ane_weights
        != AneWeightPlan::StaticInt8FfnCached || !qualified_kernels || o.kv_import_packing
        != KvImportPacking::Baseline {
        Err("runtime worker requires the qualified INT8/MMA/SIMD route without layer capture"@)
    } else {
        Ok(())
    }
}

impl Options {
    pub fn check_worker(&self, qualified_kernels: bool) -> (r: Result<(), String>)
        ensures
            told(r) == worker_outcome(self@, qualified_kernels),
    {
        if self.capture_layers || self.capture_ffn_inputs || !matches!(
            self.ane_weights,
            AneWeightPlan::StaticInt8FfnCached
        ) || !qualified_kernels || !matches!(self.kv_import_packing, KvImportPacking::Baseline) {
            return Err(
                "runtime worker requires the qualified INT8/MMA/SIMD route without layer capture".to_owned(),
            );
        }
        Ok(())
    }
}

/// How a report names the cache policy of a run.
pub open spec fn policy_label(plan: AneWeightPlan, compile_budget: usize) -> Seq<char> {
    if compile_budget != 0 {
        "reuse-with-compile-budget"@
    } else if cached_only(plan) {
        "require-existing"@
    } else {
        "compile"@
    }
}

pub open spec fn metallib_outcome(
    option: Option<Seq<char>>,
    environment: Option<Seq<char>>,
) -> Result<Seq<char>, Seq<char>> {
    match (option, environment) {
        (Some(path), _) => Ok(path),
        (None, Some(path)) => Ok(path),
        (None, None) => Err("provide --metallib-bf16 or RVLLM_METAL_METALLIB_BF16"@),
    }
}

pub open spec fn path_told(r: Result<String, String>) -> Result<Seq<char>, Seq<char>> {
    match r {
        Ok(path) => Ok(path@),
        Err(e) => Err(e@),
    }
}

impl Options {
    /// The name of the cache policy in a report.
    pub fn cache_policy_label(&self) -> (r: &'static str)
        ensures
            r@ == policy_label(self@.ane_weights, self@.compile_budget),
    {
        if self.compile_budget != 0 {
            return "reuse-with-compile-budget";
        }
        match self.ane_weights.cache_policy() {
            AneProgramCachePolicy::RequireExisting => "require-existing",
            _ => "compile",
        }
    }

    /// In which order a report says that requests were executed.
    pub fn execution_order(&self) -> (r: &'static str)
        ensures
            r@ == if interleaves(self@) {
                "prefill-decode-per-request"@
            } else {
                "all-prefills-then-decode"@
            },
    {
        if self.interleaving() {
            "prefill-decode-per-request"
        } else {
            "all-prefills-then-decode"
        }
    }

    /// How long a report says that Metal was resident.
    pub fn metal_residency(&self) -> (r: &'static str)
        ensures
            r@ == if retains(self@) {
                "retained-through-ane-decode"@
            } else {
                "released-after-all-prefills-before-ane-load"@
            },
    {
        if self.retaining() {
            "retained-through-ane-decode"
        } else {
            "released-after-all-prefills-before-ane-load"
        }
    }

    /// Which cases a report keeps.
    pub fn case_history(&self) -> (r: &'static str)
        ensures
            r@ == if self.interactive {
                "latest-request-only; full receipts in case-N/result.json"@
            } else {
                "all-requests"@
            },
    {
        if self.interactive {
            "latest-request-only; full receipts in case-N/result.json"
        } else {
            "all-requests"
        }
    }

    /// The Metal library: the option's, else the environment's.
    pub fn metallib(&self, environment: &Option<String>) -> (r: Result<String, String>)
        ensures
            path_told(r) == metallib_outcome(self@.metallib_bf16, opt_text(*environment)),
    {
        match &self.metallib_bf16 {
            Some(path) => Ok(path.as_str().to_owned()),
            None => match environment {
                Some(path) => Ok(path.as_str().to_owned()),
                None => Err("provide --metallib-bf16 or RVLLM_METAL_METALLIB_BF16".to_owned()),
            },
        }
    }
}

} // verus!
