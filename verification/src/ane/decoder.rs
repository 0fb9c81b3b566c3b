//! The decoder's life: what it may load, which programs a plan prepares, when
//! its KV state is usable, and the comparison of checked FFN outputs.
use crate::ane::half_bits::half_is_finite;
use crate::ane::config::{config_outcome, validate_config};
use crate::ane::shape::{
    projection_rows, query_width, shape_of, supported, validate_architecture, ArchitectureFacts,
    PrefillLayerShape, HEAD_ROWS, LAYERS, VOCAB,
};
use crate::ane::tensors::{
    decoder_tensors, first_fault, tensor_models, validate_tensors, TensorInfo, TensorModel,
};
use crate::ane::weight_plan::{
    cached_only, ffn_precision, int8_qkv, plan_policy, plan_programs, AneProgramCachePolicy,
    AneWeightPlan, StaticFfnPrecision,
};
use crate::json::{json_bytes_document, JsonModel};
use crate::text::{cat2, cat6, decimal, decimal_text, hex_char, told};
use vstd::prelude::*;

verus! {

/// Plans that run inference on separately provisioned programs only.
pub open spec fn candidate(plan: AneWeightPlan) -> bool {
    plan == AneWeightPlan::StaticInt8Chunk4FfnCached || plan
        == AneWeightPlan::StaticInt8FfnSlidingQkvTiles4Cached || plan
        == AneWeightPlan::StaticInt8Down4FfnCached || plan
        == AneWeightPlan::StaticInt8InterleavedFfnCached || plan
        == AneWeightPlan::StaticInt8FfnTransposeAttentionCached
}

/// Under which policy a plan may load, or why it may not.
pub open spec fn load_policy(plan: AneWeightPlan, compile_budget: usize, journal: bool) -> Result<
    AneProgramCachePolicy,
    Seq<char>,
> {
    if candidate(plan) && compile_budget != 0 {
        Err("candidate inference requires zero compile budget; provision separately"@)
    } else if plan == AneWeightPlan::StaticInt8StackedFfnChecked && (compile_budget != 0
        || !journal) {
        Err("stacked FFN checking requires zero compile budget and a driver journal"@)
    } else if compile_budget > 16 || (compile_budget != 0 && !cached_only(plan)) {
        Err("ANE compile budget must be 0..=16 and applies only to cached weight plans"@)
    } else if compile_budget != 0 {
        Ok(AneProgramCachePolicy::ReuseOrCompileUpTo(compile_budget))
    } else {
        Ok(plan_policy(plan))
    }
}

/// A program that loading prepares.
#[derive(Clone, Copy, Debug, PartialEq, Eq, Structural)]
pub enum LoadStep {
    AttentionTranspose { sliding: bool },
    Attention { sliding: bool },
    DynamicFfn,
    DynamicOutput { width: usize },
    Qkv { layer: usize, rows: usize, int8: bool, tiles4: bool },
    Output { layer: usize, width: usize },
    Ffn { layer: usize, precision: StaticFfnPrecision },
    Vocabulary { first: usize },
}

/// The two attention graphs.
pub open spec fn attention_steps(plan: AneWeightPlan) -> Seq<LoadStep> {
    if plan == AneWeightPlan::StaticInt8FfnTransposeAttentionCached {
        seq![
            LoadStep::AttentionTranspose { sliding: true },
            LoadStep::AttentionTranspose { sliding: false },
        ]
    } else {
        seq![LoadStep::Attention { sliding: true }, LoadStep::Attention { sliding: false }]
    }
}

/// The programs that layers share.
pub open spec fn shared_steps(plan: AneWeightPlan) -> Seq<LoadStep> {
    if plan == AneWeightPlan::DynamicFfn {
        seq![LoadStep::DynamicFfn]
    } else if plan == AneWeightPlan::StaticFfnDynamicOutput {
        seq![LoadStep::DynamicOutput { width: 4096 }, LoadStep::DynamicOutput { width: 8192 }]
    } else {
        Seq::empty()
    }
}

/// The programs of one layer.
pub open spec fn layer_steps(plan: AneWeightPlan, layer: int, sliding: bool) -> Seq<LoadStep> {
    let qkv = seq![
        LoadStep::Qkv {
            layer: layer as usize,
            rows: projection_rows(sliding) as usize,
            int8: int8_qkv(plan, sliding),
            tiles4: plan == AneWeightPlan::StaticInt8FfnSlidingQkvTiles4Cached && sliding,
        },
    ];
    let output = if plan == AneWeightPlan::StaticFfnDynamicOutput {
        Seq::empty()
    } else {
        seq![LoadStep::Output { layer: layer as usize, width: query_width(sliding) as usize }]
    };
    let ffn = if plan == AneWeightPlan::DynamicFfn {
        Seq::empty()
    } else if plan == AneWeightPlan::StaticInt8StackedFfnChecked {
        seq![
            LoadStep::Ffn { layer: layer as usize, precision: StaticFfnPrecision::Int8 },
            LoadStep::Ffn { layer: layer as usize, precision: StaticFfnPrecision::Int8Stacked },
        ]
    } else {
        seq![LoadStep::Ffn { layer: layer as usize, precision: ffn_precision(plan) }]
    };
    qkv + output + ffn
}

pub open spec fn layers_steps(plan: AneWeightPlan, sliding: Seq<bool>, count: int) -> Seq<LoadStep>
    decreases count,
{
    if count <= 0 {
        Seq::empty()
    } else {
        layers_steps(plan, sliding, count - 1) + layer_steps(plan, count - 1, sliding[count - 1])
    }
}

/// The vocabulary tiles.
pub open spec fn vocabulary_steps(count: int) -> Seq<LoadStep>
    decreases count,
{
    if count <= 0 {
        Seq::empty()
    } else {
        vocabulary_steps(count - 1).push(
            LoadStep::Vocabulary { first: ((count - 1) * HEAD_ROWS) as usize },
        )
    }
}

/// Every program of a plan, in the order in which loading prepares them.
pub open spec fn load_order(plan: AneWeightPlan, sliding: Seq<bool>) -> Seq<LoadStep> {
    attention_steps(plan) + shared_steps(plan) + layers_steps(plan, sliding, sliding.len() as int)
        + vocabulary_steps((VOCAB / HEAD_ROWS) as int)
}

proof fn layers_steps_len(plan: AneWeightPlan, sliding: Seq<bool>, count: int)
    requires
        0 <= count,
    ensures
        layers_steps(plan, sliding, count).len() == count * (plan_layer_programs(plan)),
    decreases count,
{
    if count > 0 {
        layers_steps_len(plan, sliding, count - 1);
        let p = plan_layer_programs(plan);
        assert((count - 1) * p + p == count * p) by (nonlinear_arith);
    } else {
        assert(0 * plan_layer_programs(plan) == 0);
    }
}

spec fn plan_layer_programs(plan: AneWeightPlan) -> int {
    if plan == AneWeightPlan::DynamicFfn || plan == AneWeightPlan::StaticFfnDynamicOutput {
        2
    } else if plan == AneWeightPlan::StaticInt8StackedFfnChecked {
        4
    } else {
        3
    }
}

proof fn vocabulary_steps_len(count: int)
    requires
        0 <= count,
    ensures
        vocabulary_steps(count).len() == count,
    decreases count,
{
    if count > 0 {
        vocabulary_steps_len(count - 1);
    }
}

/// Loading prepares exactly as many programs as the plan announces.
pub proof fn load_prepares_the_announced_programs(plan: AneWeightPlan, sliding: Seq<bool>)
    requires
        sliding.len() == LAYERS,
    ensures
        load_order(plan, sliding).len() == plan_programs(plan),
{
    layers_steps_len(plan, sliding, 48);
    vocabulary_steps_len(16);
    assert(48 * plan_layer_programs(plan) == 48 * 2 || 48 * plan_layer_programs(plan) == 48 * 4
        || 48 * plan_layer_programs(plan) == 48 * 3);
}

/// What loading is allowed: the policy, and the programs in order.
#[derive(Debug)]
pub struct LoadOrder {
    pub policy: AneProgramCachePolicy,
    pub steps: Vec<LoadStep>,
    pub head_ranking_eligible: bool,
}

fn push_layer_steps(
    steps: &mut Vec<LoadStep>,
    plan: AneWeightPlan,
    layer: usize,
    sliding: bool,
)
    ensures
        final(steps)@ == old(steps)@ + layer_steps(plan, layer as int, sliding),
{
    let ghost before = steps@;
    let rows: usize = if sliding {
        8192
    } else {
        8704
    };
    let width: usize = if sliding {
        4096
    } else {
        8192
    };
    let tiles4 = matches!(plan, AneWeightPlan::StaticInt8FfnSlidingQkvTiles4Cached) && sliding;
    steps.push(LoadStep::Qkv { layer, rows, int8: plan.quantizes_qkv(sliding), tiles4 });
    if !matches!(plan, AneWeightPlan::StaticFfnDynamicOutput) {
        steps.push(LoadStep::Output { layer, width });
    }
    if matches!(plan, AneWeightPlan::StaticInt8StackedFfnChecked) {
        steps.push(LoadStep::Ffn { layer, precision: StaticFfnPrecision::Int8 });
        steps.push(LoadStep::Ffn { layer, precision: StaticFfnPrecision::Int8Stacked });
    } else if !matches!(plan, AneWeightPlan::DynamicFfn) {
        steps.push(LoadStep::Ffn { layer, precision: plan.static_ffn_precision() });
    }
    assert(steps@ =~= before + layer_steps(plan, layer as int, sliding));
}

fn load_steps(plan: AneWeightPlan, sliding: &Vec<bool>) -> (r: Vec<LoadStep>)
    ensures
        r@ == load_order(plan, sliding@),
{
    let mut steps: Vec<LoadStep> = Vec::new();
    if matches!(plan, AneWeightPlan::StaticInt8FfnTransposeAttentionCached) {
        steps.push(LoadStep::AttentionTranspose { sliding: true });
        steps.push(LoadStep::AttentionTranspose { sliding: false });
    } else {
        steps.push(LoadStep::Attention { sliding: true });
        steps.push(LoadStep::Attention { sliding: false });
    }
    if matches!(plan, AneWeightPlan::DynamicFfn) {
        steps.push(LoadStep::DynamicFfn);
    }
    if matches!(plan, AneWeightPlan::StaticFfnDynamicOutput) {
        steps.push(LoadStep::DynamicOutput { width: 4096 });
        steps.push(LoadStep::DynamicOutput { width: 8192 });
    }
    let ghost head = attention_steps(plan) + shared_steps(plan);
    assert(steps@ =~= head + layers_steps(plan, sliding@, 0));
    let mut layer: usize = 0;
    while layer < sliding.len()
        invariant
            layer <= sliding@.len(),
            steps@ == head + layers_steps(plan, sliding@, layer as int),
        decreases sliding@.len() - layer,
    {
        let ghost before = layers_steps(plan, sliding@, layer as int);
        push_layer_steps(&mut steps, plan, layer, sliding[layer]);
        layer = layer + 1;
        assert(steps@ =~= head + layers_steps(plan, sliding@, layer as int));
    }
    let ghost body = head + layers_steps(plan, sliding@, sliding@.len() as int);
    let mut tile: usize = 0;
    assert(steps@ =~= body + vocabulary_steps(0));
    while tile < VOCAB / HEAD_ROWS
        invariant
            tile <= 16,
            steps@ == body + vocabulary_steps(tile as int),
        decreases 16 - tile,
    {
        steps.push(LoadStep::Vocabulary { first: tile * HEAD_ROWS });
        tile = tile + 1;
        assert(steps@ =~= body + vocabulary_steps(tile as int));
    }
    steps
}

/// Which head ranking a decoder applies.
#[derive(Clone, Copy, Debug, PartialEq, Eq, Structural)]
pub enum HeadRankingPlan {
    Baseline,
    SoftcapPrune,
}

/// One layer's saved KV tensors, as FP16 bits.
#[derive(Debug)]
pub struct SavedLayer {
    pub shape: PrefillLayerShape,
    pub keys: Vec<u16>,
    pub values: Vec<u16>,
}

/// The KV state that a synchronized prefill hands over.
#[derive(Debug)]
pub struct AnePrefillSnapshot {
    pub tokens: usize,
    pub layers: Vec<SavedLayer>,
}

pub open spec fn all_finite(bits: Seq<u16>) -> bool {
    forall|i: int| 0 <= i < bits.len() ==> half_is_finite(#[trigger] bits[i])
}

/// A saved layer fits a layer of the decoder.
pub open spec fn layer_fits(saved: SavedLayer, sliding: bool, tokens: usize) -> bool {
    let count = tokens * shape_of(sliding).kv_heads * shape_of(sliding).head_dim;
    &&& saved.shape == shape_of(sliding)
    &&& saved.keys@.len() == count
    &&& saved.values@.len() == count
    &&& all_finite(saved.keys@)
    &&& all_finite(saved.values@)
}

/// Why a snapshot cannot be imported, if it cannot.
pub open spec fn import_fault(
    snapshot: AnePrefillSnapshot,
    capacity: usize,
    sliding: Seq<bool>,
) -> Option<Seq<char>> {
    if snapshot.tokens == 0 || snapshot.tokens > capacity || snapshot.layers@.len() != LAYERS {
        Some("ANE prefill token count or layer count invalid"@)
    } else if exists|i: int|
        0 <= i < LAYERS && !layer_fits(
            #[trigger] snapshot.layers@[i],
            sliding[i],
            snapshot.tokens,
        ) {
        Some("ANE prefill has an incompatible or nonfinite KV tensor"@)
    } else {
        None
    }
}

fn finite_bits(bits: &Vec<u16>) -> (r: bool)
    ensures
        r == all_finite(bits@),
{
    let mut i: usize = 0;
    while i < bits.len()
        invariant
            i <= bits@.len(),
            forall|j: int| 0 <= j < i ==> half_is_finite(#[trigger] bits@[j]),
        decreases bits@.len() - i,
    {
        if bits[i] % 0x8000 >= 0x7c00 {
            assert(!half_is_finite(bits@[i as int]));
            return false;
        }
        i = i + 1;
    }
    true
}

fn saved_layer_fits(saved: &SavedLayer, sliding: bool, tokens: usize) -> (r: bool)
    requires
        tokens <= 1024,
    ensures
        r == layer_fits(*saved, sliding, tokens),
{
    let shape = crate::ane::shape::layer_shape(sliding);
    let width: usize = if sliding {
        2048
    } else {
        512
    };
    let count: usize = tokens * width;
    assert(tokens * shape.kv_heads * shape.head_dim == count) by {
        if sliding {
            assert(tokens * 8 * 256 == tokens * 2048);
        } else {
            assert(tokens * 1 * 512 == tokens * 512);
        }
    }
    saved.shape.query_heads == shape.query_heads && saved.shape.kv_heads == shape.kv_heads
        && saved.shape.head_dim == shape.head_dim && saved.shape.sliding_window
        == shape.sliding_window && saved.keys.len() == count && saved.values.len() == count
        && finite_bits(&saved.keys) && finite_bits(&saved.values)
}

/// How a prefill's KV state is packed for its import.
#[derive(Clone, Copy, Debug, PartialEq, Eq, Structural)]
pub enum KvImportPacking {
    Baseline,
    ReuseScratch,
    Blocked32,
}

pub open spec fn packing_name(packing: KvImportPacking) -> Seq<char> {
    match packing {
        KvImportPacking::Baseline => "baseline"@,
        KvImportPacking::ReuseScratch => "reuse-scratch"@,
        KvImportPacking::Blocked32 => "cpu-kv-blocked32"@,
    }
}

impl KvImportPacking {
    pub fn name(self) -> (r: &'static str)
        ensures
            r@ == packing_name(self),
    {
        match self {
            KvImportPacking::Baseline => "baseline",
            KvImportPacking::ReuseScratch => "reuse-scratch",
            KvImportPacking::Blocked32 => "cpu-kv-blocked32",
        }
    }
}

/// How every layer's attention takes its saved KV tensors.
#[derive(Clone, Copy, Debug, PartialEq, Eq, Structural)]
pub enum LayerImport {
    Plain,
    /// With one packing allocation that all layers share.
    WithScratch,
    /// With that allocation, in blocks of 32.
    Blocked32WithScratch,
}

pub open spec fn layer_import(packing: KvImportPacking) -> LayerImport {
    match packing {
        KvImportPacking::Baseline => LayerImport::Plain,
        KvImportPacking::ReuseScratch => LayerImport::WithScratch,
        KvImportPacking::Blocked32 => LayerImport::Blocked32WithScratch,
    }
}

/// What a decoder waits for: its host performs it and reports the outcome.
#[derive(Clone, Copy, Debug, PartialEq, Eq, Structural)]
pub enum PendingWork {
    Import { tokens: usize },
    Decode { position: usize },
}

/// A decoder between device calls.
#[derive(Debug)]
pub struct GemmaAneDecode {
    capacity: usize,
    /// The kind of each layer.
    sliding: Vec<bool>,
    /// Where the next token goes; nothing while the KV state is not usable.
    next_position: Option<usize>,
    pending: Option<PendingWork>,
    head_ranking: HeadRankingPlan,
    head_ranking_eligible: bool,
    head_ranking_timing: bool,
    /// Successful bit-identical comparisons by layer, in the checked plan.
    comparisons: Option<Vec<usize>>,
}

pub struct DecoderModel {
    pub capacity: usize,
    pub sliding: Seq<bool>,
    pub next_position: Option<usize>,
    pub pending: Option<PendingWork>,
    pub head_ranking: HeadRankingPlan,
    pub head_ranking_eligible: bool,
    pub head_ranking_timing: bool,
    pub comparisons: Option<Seq<usize>>,
}

impl View for GemmaAneDecode {
    type V = DecoderModel;

    closed spec fn view(&self) -> DecoderModel {
        DecoderModel {
            capacity: self.capacity,
            sliding: self.sliding@,
            next_position: self.next_position,
            pending: self.pending,
            head_ranking: self.head_ranking,
            head_ranking_eligible: self.head_ranking_eligible,
            head_ranking_timing: self.head_ranking_timing,
            comparisons: match self.comparisons {
                Some(counts) => Some(counts@),
                None => None,
            },
        }
    }
}

pub open spec fn qualified_capacity(capacity: usize) -> bool {
    capacity == 64 || capacity == 1024
}

impl DecoderModel {
    /// Qualified capacities, one kind for each layer, positions that the capacity
    /// admits, and no position while work is pending.
    pub open spec fn well_formed(self) -> bool {
        &&& qualified_capacity(self.capacity)
        &&& self.sliding.len() == LAYERS
        &&& match self.next_position {
            Some(position) => position <= self.capacity && self.pending is None,
            None => true,
        }
        &&& match self.pending {
            Some(PendingWork::Import { tokens }) => 0 < tokens <= self.capacity,
            Some(PendingWork::Decode { position }) => position < self.capacity,
            None => true,
        }
        &&& match self.comparisons {
            Some(counts) => counts.len() == LAYERS,
            None => true,
        }
    }

    /// The start of an import: an invalid snapshot changes nothing; a valid one
    /// leaves no usable position until every layer was imported.
    pub open spec fn import_begun(self, snapshot: AnePrefillSnapshot) -> (
        DecoderModel,
        Result<(), Seq<char>>,
    ) {
        match import_fault(snapshot, self.capacity, self.sliding) {
            Some(message) => (self, Err(message)),
            None => (
                DecoderModel {
                    next_position: None,
                    pending: Some(PendingWork::Import { tokens: snapshot.tokens }),
                    ..self
                },
                Ok(()),
            ),
        }
    }

    /// The end of an import: a complete one lets the decoder continue behind its
    /// tokens, a failed one does not.
    pub open spec fn import_ended(self, outcome: Result<(), Seq<char>>) -> (
        DecoderModel,
        Result<(), Seq<char>>,
    ) {
        match self.pending {
            Some(PendingWork::Import { tokens }) => match outcome {
                Ok(_) => (
                    DecoderModel { next_position: Some(tokens), pending: None, ..self },
                    Ok(()),
                ),
                Err(message) => (DecoderModel { pending: None, ..self }, Err(message)),
            },
            _ => (self, Err("no ANE prefill import is pending"@)),
        }
    }

    /// The start of a decode: a token that is taken leaves no usable position until
    /// it was decoded on every layer.
    pub open spec fn decode_begun(self, token: u32) -> (DecoderModel, Result<usize, Seq<char>>) {
        match self.next_position {
            None => (self, Err(unusable())),
            Some(position) => if token >= VOCAB || position >= self.capacity {
                (self, Err("ANE token is outside the vocabulary or context capacity"@))
            } else {
                (
                    DecoderModel {
                        next_position: None,
                        pending: Some(PendingWork::Decode { position }),
                        ..self
                    },
                    Ok(position),
                )
            },
        }
    }

    /// The end of a decode: a complete one moves the decoder to the next position, a
    /// failed one leaves it without.
    pub open spec fn decode_ended(self, outcome: Result<(), Seq<char>>) -> (
        DecoderModel,
        Result<usize, Seq<char>>,
    ) {
        match self.pending {
            Some(PendingWork::Decode { position }) => match outcome {
                Ok(_) => (
                    DecoderModel {
                        next_position: Some((position + 1) as usize),
                        pending: None,
                        ..self
                    },
                    Ok(position),
                ),
                Err(message) => (DecoderModel { pending: None, ..self }, Err(message)),
            },
            _ => (self, Err("no ANE decode is pending"@)),
        }
    }
}

/// What a decoder without a usable position answers.
pub open spec fn unusable() -> Seq<char> {
    "ANE decoder requires a complete prefill import"@
}

/// Whether an import was started, or why not.
pub open spec fn import_told(r: Result<LayerImport, String>) -> Result<(), Seq<char>> {
    match r {
        Ok(_) => Ok(()),
        Err(e) => Err(e@),
    }
}

impl GemmaAneDecode {
    /// A decoder whose programs were loaded; only the checked plan counts
    /// comparisons.
    pub fn loaded(capacity: usize, sliding: Vec<bool>, weights: AneWeightPlan, eligible: bool) -> (r:
        GemmaAneDecode)
        requires
            qualified_capacity(capacity),
            sliding@.len() == LAYERS,
        ensures
            r@.well_formed(),
            r@ == (DecoderModel {
                capacity,
                sliding: sliding@,
                next_position: None,
                pending: None,
                head_ranking: HeadRankingPlan::Baseline,
                head_ranking_eligible: eligible,
                head_ranking_timing: false,
                comparisons: if weights == AneWeightPlan::StaticInt8StackedFfnChecked {
                    Some(Seq::new(LAYERS as nat, |i: int| 0usize))
                } else {
                    None
                },
            }),
    {
        let comparisons = if matches!(weights, AneWeightPlan::StaticInt8StackedFfnChecked) {
            let mut counts: Vec<usize> = Vec::new();
            let mut i: usize = 0;
            while i < LAYERS
                invariant
                    i <= LAYERS,
                    counts@ =~= Seq::new(i as nat, |k: int| 0usize),
                decreases LAYERS - i,
            {
                counts.push(0);
                i = i + 1;
            }
            Some(counts)
        } else {
            None
        };
        GemmaAneDecode {
            capacity,
            sliding,
            next_position: None,
            pending: None,
            head_ranking: HeadRankingPlan::Baseline,
            head_ranking_eligible: eligible,
            head_ranking_timing: false,
            comparisons,
        }
    }

    /// The kind of each layer.
    pub fn layer_kinds(&self) -> (r: &Vec<bool>)
        ensures
            r@ == self@.sliding,
    {
        &self.sliding
    }

    /// Where the next token goes, while the KV state is usable.
    pub fn next_position(&self) -> (r: Option<usize>)
        ensures
            r == self@.next_position,
    {
        self.next_position
    }

    pub fn head_ranking(&self) -> (r: HeadRankingPlan)
        ensures
            r == self@.head_ranking,
    {
        self.head_ranking
    }

    /// Plans the strict load of the default plan.
    pub fn load(sliding: &Vec<bool>) -> (r: Result<LoadOrder, String>)
        ensures
            r is Ok,
            r->Ok_0.policy == AneProgramCachePolicy::Compile,
            r->Ok_0.steps@ == load_order(AneWeightPlan::DynamicFfn, sliding@),
            !r->Ok_0.head_ranking_eligible,
    {
        GemmaAneDecode::load_with_weight_plan(sliding, AneWeightPlan::DynamicFfn, false)
    }

    /// Plans the strict load of a plan.
    pub fn load_with_weight_plan(sliding: &Vec<bool>, weights: AneWeightPlan, journal: bool) -> (r:
        Result<LoadOrder, String>)
        ensures
            match (load_policy(weights, 0, journal), r) {
                (Ok(policy), Ok(order)) => order.policy == policy && order.steps@ == load_order(
                    weights,
                    sliding@,
                ) && order.head_ranking_eligible == (weights
                    == AneWeightPlan::StaticInt8FfnCached),
                (Err(message), Err(e)) => e@ == message,
                _ => false,
            },
    {
        GemmaAneDecode::load_with_compile_budget(sliding, weights, 0, journal)
    }

    /// Plans a load that may compile a bounded number of programs that are not
    /// cached. Zero retains strict cache-only loading. `journal` tells whether a
    /// durable driver journal is configured.
    pub fn load_with_compile_budget(
        sliding: &Vec<bool>,
        weights: AneWeightPlan,
        compile_budget: usize,
        journal: bool,
    ) -> (r: Result<LoadOrder, String>)
        ensures
            match (load_policy(weights, compile_budget, journal), r) {
                (Ok(policy), Ok(order)) => order.policy == policy && order.steps@ == load_order(
                    weights,
                    sliding@,
                ) && order.head_ranking_eligible == (weights == AneWeightPlan::StaticInt8FfnCached
                    && compile_budget == 0),
                (Err(message), Err(e)) => e@ == message,
                _ => false,
            },
    {
        let is_candidate = matches!(
            weights,
            AneWeightPlan::StaticInt8Chunk4FfnCached
                | AneWeightPlan::StaticInt8FfnSlidingQkvTiles4Cached
                | AneWeightPlan::StaticInt8Down4FfnCached
                | AneWeightPlan::StaticInt8InterleavedFfnCached
                | AneWeightPlan::StaticInt8FfnTransposeAttentionCached
        );
        if is_candidate && compile_budget != 0 {
            return Err(
                "candidate inference requires zero compile budget; provision separately".to_owned(),
            );
        }
        if matches!(weights, AneWeightPlan::StaticInt8StackedFfnChecked) && (compile_budget != 0
            || !journal) {
            return Err(
                "stacked FFN checking requires zero compile budget and a driver journal".to_owned(),
            );
        }
        let strict = matches!(weights.cache_policy(), AneProgramCachePolicy::RequireExisting);
        if compile_budget > 16 || (compile_budget != 0 && !strict) {
            return Err(
                "ANE compile budget must be 0..=16 and applies only to cached weight plans".to_owned(),
            );
        }
        let policy = if compile_budget != 0 {
            AneProgramCachePolicy::ReuseOrCompileUpTo(compile_budget)
        } else {
            weights.cache_policy()
        };
        Ok(
            LoadOrder {
                policy,
                steps: load_steps(weights, sliding),
                head_ranking_eligible: matches!(weights, AneWeightPlan::StaticInt8FfnCached)
                    && compile_budget == 0,
            },
        )
    }

    /// Starts an import: the whole snapshot is validated first, and the decoder
    /// stays unusable until the host reports that every layer was imported.
    pub fn import_prefill_with_packing(
        &mut self,
        snapshot: &AnePrefillSnapshot,
        packing: KvImportPacking,
    ) -> (r: Result<LayerImport, String>)
        requires
            old(self)@.well_formed(),
        ensures
            final(self)@.well_formed(),
            (final(self)@, import_told(r)) == old(self)@.import_begun(*snapshot),
            r is Ok ==> r->Ok_0 == layer_import(packing),
    {
        if snapshot.tokens == 0 || snapshot.tokens > self.capacity || snapshot.layers.len()
            != LAYERS {
            return Err("ANE prefill token count or layer count invalid".to_owned());
        }
        let mut i: usize = 0;
        while i < LAYERS
            invariant
                i <= LAYERS,
                self@.well_formed(),
                *self == *old(self),
                0 < snapshot.tokens <= self.capacity,
                snapshot.layers@.len() == LAYERS,
                forall|j: int|
                    0 <= j < i ==> layer_fits(
                        #[trigger] snapshot.layers@[j],
                        self.sliding@[j],
                        snapshot.tokens,
                    ),
            decreases LAYERS - i,
        {
            if !saved_layer_fits(&snapshot.layers[i], self.sliding[i], snapshot.tokens) {
                assert(!layer_fits(
                    snapshot.layers@[i as int],
                    self.sliding@[i as int],
                    snapshot.tokens,
                ));
                return Err("ANE prefill has an incompatible or nonfinite KV tensor".to_owned());
            }
            i = i + 1;
        }
        self.next_position = None;
        self.pending = Some(PendingWork::Import { tokens: snapshot.tokens });
        match packing {
            KvImportPacking::Baseline => Ok(LayerImport::Plain),
            KvImportPacking::ReuseScratch => Ok(LayerImport::WithScratch),
            KvImportPacking::Blocked32 => Ok(LayerImport::Blocked32WithScratch),
        }
    }

    /// Starts an import with the ordinary packing.
    pub fn import_prefill(&mut self, snapshot: &AnePrefillSnapshot) -> (r: Result<
        LayerImport,
        String,
    >)
        requires
            old(self)@.well_formed(),
        ensures
            final(self)@.well_formed(),
            (final(self)@, import_told(r)) == old(self)@.import_begun(*snapshot),
            r is Ok ==> r->Ok_0 == LayerImport::Plain,
    {
        self.import_prefill_with_packing(snapshot, KvImportPacking::Baseline)
    }

    /// Starts an import that reuses one packing allocation across layers.
    pub fn import_prefill_reusing_scratch(&mut self, snapshot: &AnePrefillSnapshot) -> (r: Result<
        LayerImport,
        String,
    >)
        requires
            old(self)@.well_formed(),
        ensures
            final(self)@.well_formed(),
            (final(self)@, import_told(r)) == old(self)@.import_begun(*snapshot),
            r is Ok ==> r->Ok_0 == LayerImport::WithScratch,
    {
        self.import_prefill_with_packing(snapshot, KvImportPacking::ReuseScratch)
    }

    /// Ends the pending import with the outcome of its layers.
    pub fn prefill_imported(&mut self, outcome: Result<(), String>) -> (r: Result<(), String>)
        requires
            old(self)@.well_formed(),
        ensures
            final(self)@.well_formed(),
            (final(self)@, told(r)) == old(self)@.import_ended(told(outcome)),
    {
        match self.pending {
            Some(PendingWork::Import { tokens }) => {
                self.pending = None;
                match outcome {
                    Ok(_) => {
                        self.next_position = Some(tokens);
                        Ok(())
                    },
                    Err(message) => Err(message),
                }
            },
            _ => Err("no ANE prefill import is pending".to_owned()),
        }
    }

    /// Starts the decoding of one token and returns its position. Until the host
    /// reports success the decoder is unusable.
    pub fn decode(&mut self, token: u32) -> (r: Result<usize, String>)
        requires
            old(self)@.well_formed(),
        ensures
            final(self)@.well_formed(),
            (final(self)@, told(r)) == old(self)@.decode_begun(token),
    {
        let position: usize = match self.next_position {
            Some(position) => position,
            None => {
                return Err("ANE decoder requires a complete prefill import".to_owned());
            },
        };
        if token as usize >= VOCAB || position >= self.capacity {
            return Err("ANE token is outside the vocabulary or context capacity".to_owned());
        }
        self.next_position = None;
        self.pending = Some(PendingWork::Decode { position });
        Ok(position)
    }

    /// Ends the pending decode with the outcome of its layers, and returns its
    /// position.
    pub fn decoded(&mut self, outcome: Result<(), String>) -> (r: Result<usize, String>)
        requires
            old(self)@.well_formed(),
        ensures
            final(self)@.well_formed(),
            (final(self)@, told(r)) == old(self)@.decode_ended(told(outcome)),
    {
        match self.pending {
            Some(PendingWork::Decode { position }) => {
                self.pending = None;
                match outcome {
                    Ok(_) => {
                        self.next_position = Some(position + 1);
                        Ok(position)
                    },
                    Err(message) => Err(message),
                }
            },
            _ => Err("no ANE decode is pending".to_owned()),
        }
    }

    /// Layers can never resume out of step: each must have seen exactly the
    /// tokens before the position.
    pub fn check_layer_position(tokens_seen: usize, position: usize) -> (r: Result<(), String>)
        ensures
            match r {
                Ok(_) => tokens_seen == position,
                Err(e) => tokens_seen != position && e@ == "ANE layer KV positions disagree"@,
            },
    {
        if tokens_seen != position {
            return Err("ANE layer KV positions disagree".to_owned());
        }
        Ok(())
    }

    /// Applies a head ranking that the host has validated for this decoder.
    pub fn configure_head_ranking(
        &mut self,
        plan: HeadRankingPlan,
        timing: bool,
        validated: Result<(), String>,
    ) -> (r: Result<(), String>)
        ensures
            told(r) == told(validated),
            final(self)@ == if validated is Ok {
                DecoderModel {
                    head_ranking: plan,
                    head_ranking_timing: timing,
                    ..old(self)@
                }
            } else {
                old(self)@
            },
    {
        match validated {
            Ok(_) => {
                self.head_ranking = plan;
                self.head_ranking_timing = timing;
                Ok(())
            },
            Err(e) => Err(e),
        }
    }

    /// Counts one successful comparison of a layer in the checked plan.
    pub fn count_comparison(&mut self, layer: usize) -> (r: Result<(), String>)
        requires
            old(self)@.well_formed(),
            layer < LAYERS,
            old(self)@.comparisons is Some,
        ensures
            final(self)@.well_formed(),
            if old(self)@.comparisons->0[layer as int] == usize::MAX {
                r is Err && r->Err_0@ == "FFN comparison count overflow"@ && final(self)@
                    == old(self)@
            } else {
                r is Ok && final(self)@ == (DecoderModel {
                    comparisons: Some(
                        old(self)@.comparisons->0.update(
                            layer as int,
                            (old(self)@.comparisons->0[layer as int] + 1) as usize,
                        ),
                    ),
                    ..old(self)@
                })
            },
    {
        let mut counts = match self.comparisons.take() {
            Some(counts) => counts,
            None => Vec::new(),
        };
        let count: usize = counts[layer];
        if count == usize::MAX {
            self.comparisons = Some(counts);
            return Err("FFN comparison count overflow".to_owned());
        }
        counts.set(layer, count + 1);
        self.comparisons = Some(counts);
        Ok(())
    }

    /// Counts successful bit-identical comparisons in the explicit check plan.
    pub fn stacked_ffn_checks_per_layer(&self) -> (r: Option<&Vec<usize>>)
        ensures
            match r {
                Some(counts) => self@.comparisons == Some(counts@),
                None => self@.comparisons is None,
            },
    {
        match &self.comparisons {
            Some(counts) => Some(counts),
            None => None,
        }
    }
}

// ---------------------------------------------------------------------------
// Sequences of calls
// ---------------------------------------------------------------------------

/// One call on a decoder.
pub enum DecoderEvent {
    Import { snapshot: AnePrefillSnapshot },
    Imported { outcome: Result<(), Seq<char>> },
    Decode { token: u32 },
    Decoded { outcome: Result<(), Seq<char>> },
}

pub open spec fn after_event(m: DecoderModel, event: DecoderEvent) -> DecoderModel {
    match event {
        DecoderEvent::Import { snapshot } => m.import_begun(snapshot).0,
        DecoderEvent::Imported { outcome } => m.import_ended(outcome).0,
        DecoderEvent::Decode { token } => m.decode_begun(token).0,
        DecoderEvent::Decoded { outcome } => m.decode_ended(outcome).0,
    }
}

/// A decoder after some calls.
pub open spec fn after_events(m: DecoderModel, events: Seq<DecoderEvent>) -> DecoderModel
    decreases events.len(),
{
    if events.len() == 0 {
        m
    } else {
        after_event(after_events(m, events.drop_last()), events.last())
    }
}

/// Whether a call completes an import.
pub open spec fn completes_import(event: DecoderEvent) -> bool {
    event is Imported && event->Imported_outcome is Ok
}

/// Whether every decode is refused for want of a complete import.
pub open spec fn refuses(m: DecoderModel) -> bool {
    forall|token: u32|
        (#[trigger] m.decode_begun(token)).1 == Err::<usize, Seq<char>>(unusable())
}

proof fn stopped_stays(m: DecoderModel, events: Seq<DecoderEvent>)
    requires
        m.next_position is None,
        !(m.pending is Some && m.pending->0 is Decode),
        forall|i: int| 0 <= i < events.len() ==> !completes_import(#[trigger] events[i]),
    ensures
        after_events(m, events).next_position is None,
        !(after_events(m, events).pending is Some && after_events(m, events).pending->0 is Decode),
    decreases events.len(),
{
    if events.len() > 0 {
        let before = events.drop_last();
        assert forall|i: int| 0 <= i < before.len() implies !completes_import(
            #[trigger] before[i],
        ) by {
            assert(before[i] == events[i]);
        }
        stopped_stays(m, before);
        assert(!completes_import(events[events.len() - 1]));
    }
}

/// A failed import or decode stops the decoder: whatever is called afterwards, every
/// decode is refused until an import completes.
pub proof fn failed_work_stops_the_decoder(
    m: DecoderModel,
    failure: Seq<char>,
    events: Seq<DecoderEvent>,
)
    requires
        m.well_formed(),
        m.pending is Some,
        forall|i: int| 0 <= i < events.len() ==> !completes_import(#[trigger] events[i]),
    ensures
        m.pending->0 is Import ==> m.import_ended(Err(failure)).1 == Err::<(), Seq<char>>(failure)
            && refuses(after_events(m.import_ended(Err(failure)).0, events)),
        m.pending->0 is Decode ==> m.decode_ended(Err(failure)).1 == Err::<usize, Seq<char>>(
            failure,
        ) && refuses(after_events(m.decode_ended(Err(failure)).0, events)),
{
    if m.pending->0 is Import {
        stopped_stays(m.import_ended(Err(failure)).0, events);
    } else {
        stopped_stays(m.decode_ended(Err(failure)).0, events);
    }
}

/// So does an import that was started and not completed, whatever its host reports
/// of decodes.
pub proof fn started_imports_stop_the_decoder(
    m: DecoderModel,
    snapshot: AnePrefillSnapshot,
    events: Seq<DecoderEvent>,
)
    requires
        m.well_formed(),
        import_fault(snapshot, m.capacity, m.sliding) is None,
        forall|i: int| 0 <= i < events.len() ==> !completes_import(#[trigger] events[i]),
    ensures
        refuses(after_events(m.import_begun(snapshot).0, events)),
{
    stopped_stays(m.import_begun(snapshot).0, events);
}

/// A complete import resumes the decoder behind its tokens: the next decode that is
/// taken is at that position, and one that is not taken changes nothing. A complete
/// decode moves on by one.
pub proof fn complete_work_resumes_the_decoder(
    m: DecoderModel,
    snapshot: AnePrefillSnapshot,
    token: u32,
)
    requires
        m.well_formed(),
        import_fault(snapshot, m.capacity, m.sliding) is None,
    ensures
        ({
            let imported = m.import_begun(snapshot).0.import_ended(Ok(())).0;
            let (decoding, answer) = imported.decode_begun(token);
            &&& imported.next_position == Some(snapshot.tokens)
            &&& answer is Ok == (token < VOCAB && snapshot.tokens < m.capacity)
            &&& answer is Ok ==> answer == Ok::<usize, Seq<char>>(snapshot.tokens)
            &&& answer is Ok ==> decoding.decode_ended(Ok(())).0.next_position == Some(
                (snapshot.tokens + 1) as usize,
            )
            &&& answer is Err ==> decoding == imported
        }),
{
}

/// Why a checkpoint cannot be decoded: its architecture, its configuration, or
/// its tensors, in this order.
pub open spec fn configuration_outcome(
    arch: ArchitectureFacts,
    capacity: usize,
    config: Result<JsonModel, Seq<char>>,
    entries: Seq<TensorModel>,
    prefix: Seq<char>,
    sliding: Seq<bool>,
) -> Result<(), Seq<char>> {
    if !supported(arch, capacity) {
        Err(
            "ANE decoder currently requires the dense Gemma 4 12B architecture and a qualified 64- or 1024-token global context capacity"@,
        )
    } else if config_outcome(config) is Err {
        config_outcome(config)
    } else {
        match first_fault(entries, decoder_tensors(prefix, sliding), 0) {
            Some(message) => Err(message),
            None => Ok(()),
        }
    }
}

impl GemmaAneDecode {
    /// Checks a checkpoint's architecture, configuration and tensors, without a
    /// device.
    pub fn validate_configuration(
        arch: &ArchitectureFacts,
        capacity: usize,
        config: &[u8],
        entries: &Vec<TensorInfo>,
        prefix: &str,
        sliding: &Vec<bool>,
    ) -> (r: Result<(), String>)
        ensures
            told(r) == configuration_outcome(
                *arch,
                capacity,
                json_bytes_document(config@),
                tensor_models(entries@),
                prefix@,
                sliding@,
            ),
    {
        match validate_architecture(arch, capacity) {
            Ok(_) => {},
            Err(message) => {
                return Err(message);
            },
        }
        match validate_config(config) {
            Ok(_) => {},
            Err(message) => {
                return Err(message);
            },
        }
        validate_tensors(entries, prefix, sliding)
    }
}

/// Four lower-case hexadecimal digits.
pub open spec fn hex4(bits: u16) -> Seq<char> {
    seq![
        hex_char(bits as nat / 4096),
        hex_char(bits as nat / 256 % 16),
        hex_char(bits as nat / 16 % 16),
        hex_char(bits as nat % 16),
    ]
}

fn hex4_text(bits: u16) -> (r: String)
    ensures
        r@ == hex4(bits),
{
    let high: u8 = (bits / 256) as u8;
    let low: u8 = (bits % 256) as u8;
    let pair: [u8; 2] = [high, low];
    let r = crate::text::hex_text(pair.as_slice());
    assert(pair@[0] == high && pair@[1] == low);
    assert(high as nat / 16 == bits as nat / 4096);
    assert(high as nat % 16 == bits as nat / 256 % 16);
    assert(low as nat / 16 == bits as nat / 16 % 16);
    assert(low as nat % 16 == bits as nat % 16);
    assert(r@ =~= hex4(bits));
    r
}

/// Whether two outputs agree at an element: both finite, and bit for bit.
pub open spec fn agree_at(baseline: Seq<u16>, candidate: Seq<u16>, i: int) -> bool {
    half_is_finite(baseline[i]) && half_is_finite(candidate[i]) && baseline[i] == candidate[i]
}

/// The first element at or after `from` where two outputs do not agree.
pub open spec fn first_disagreement(baseline: Seq<u16>, candidate: Seq<u16>, from: int) -> int
    decreases baseline.len() - from,
{
    if from >= baseline.len() {
        baseline.len() as int
    } else if !agree_at(baseline, candidate, from) {
        from
    } else {
        first_disagreement(baseline, candidate, from + 1)
    }
}

/// Why a checked FFN's two outputs are not the same.
#[derive(Clone, Copy, Debug, PartialEq, Eq, Structural)]
pub enum FfnFault {
    Length { layer: usize },
    Output { layer: usize, index: usize, baseline: u16, candidate: u16 },
}

/// What is wrong with a checked FFN's two outputs, if anything.
pub open spec fn ffn_fault(layer: usize, baseline: Seq<u16>, candidate: Seq<u16>) -> Option<
    FfnFault,
> {
    let i = first_disagreement(baseline, candidate, 0);
    if baseline.len() != candidate.len() {
        Some(FfnFault::Length { layer })
    } else if i < baseline.len() {
        Some(
            FfnFault::Output {
                layer,
                index: i as usize,
                baseline: baseline[i],
                candidate: candidate[i],
            },
        )
    } else {
        None
    }
}

/// The sentence of a fault, given the two numbers in decimal.
pub open spec fn ffn_fault_text(fault: FfnFault, left: Seq<char>, right: Seq<char>) -> Seq<char> {
    match fault {
        FfnFault::Length { layer } => "stacked INT8 FFN layer "@ + decimal(layer as nat)
            + ": output length mismatch"@,
        FfnFault::Output { layer, index, baseline, candidate } => ("stacked INT8 FFN layer "@
            + decimal(layer as nat) + " output "@ + decimal(index as nat) + ": baseline="@ + left)
            + (" candidate="@ + right + ", bits "@ + hex4(baseline) + "/"@ + hex4(candidate)),
    }
}

impl FfnFault {
    /// Describes the fault; `left` and `right` are the two numbers in decimal.
    pub fn describe(self, left: &str, right: &str) -> (r: String)
        ensures
            r@ == ffn_fault_text(self, left@, right@),
    {
        match self {
            FfnFault::Length { layer } => {
                let number = decimal_text(layer as u64);
                crate::text::cat3(
                    "stacked INT8 FFN layer ",
                    number.as_str(),
                    ": output length mismatch",
                )
            },
            FfnFault::Output { layer, index, baseline, candidate } => {
                let number = decimal_text(layer as u64);
                let position = decimal_text(index as u64);
                let left_bits = hex4_text(baseline);
                let right_bits = hex4_text(candidate);
                let head = cat6(
                    "stacked INT8 FFN layer ",
                    number.as_str(),
                    " output ",
                    position.as_str(),
                    ": baseline=",
                    left,
                );
                let tail = cat6(
                    " candidate=",
                    right,
                    ", bits ",
                    left_bits.as_str(),
                    "/",
                    right_bits.as_str(),
                );
                cat2(head.as_str(), tail.as_str())
            },
        }
    }
}

/// Compares a checked FFN's outputs: finite and bit-identical, or a fault that
/// names the first element that is not.
pub fn check_ffn_output(layer: usize, baseline: &Vec<u16>, candidate: &Vec<u16>) -> (r: Result<
    (),
    FfnFault,
>)
    ensures
        match r {
            Ok(_) => ffn_fault(layer, baseline@, candidate@) is None,
            Err(fault) => ffn_fault(layer, baseline@, candidate@) == Some(fault),
        },
{
    if baseline.len() != candidate.len() {
        return Err(FfnFault::Length { layer });
    }
    let mut i: usize = 0;
    while i < baseline.len()
        invariant
            i <= baseline@.len(),
            baseline@.len() == candidate@.len(),
            first_disagreement(baseline@, candidate@, 0) == first_disagreement(
                baseline@,
                candidate@,
                i as int,
            ),
        decreases baseline@.len() - i,
    {
        let a: u16 = baseline[i];
        let b: u16 = candidate[i];
        if a % 0x8000 >= 0x7c00 || b % 0x8000 >= 0x7c00 || a != b {
            assert(!agree_at(baseline@, candidate@, i as int));
            return Err(FfnFault::Output { layer, index: i, baseline: a, candidate: b });
        }
        i = i + 1;
    }
    Ok(())
}

/// Two outputs pass the check exactly when they are finite and bit-identical.
pub proof fn checked_outputs_are_identical(layer: usize, baseline: Seq<u16>, candidate: Seq<u16>)
    ensures
        ffn_fault(layer, baseline, candidate) is None <==> (baseline == candidate && all_finite(
            baseline,
        )),
{
    if baseline.len() == candidate.len() {
        disagreement_bounds(baseline, candidate, 0);
        if ffn_fault(layer, baseline, candidate) is None {
            assert forall|i: int| 0 <= i < baseline.len() implies agree_at(
                baseline,
                candidate,
                i,
            ) by {}
            assert(baseline =~= candidate) by {
                assert forall|i: int| 0 <= i < baseline.len() implies baseline[i] == candidate[i] by {
                    assert(agree_at(baseline, candidate, i));
                }
            }
            assert forall|i: int| 0 <= i < baseline.len() implies half_is_finite(
                #[trigger] baseline[i],
            ) by {
                assert(agree_at(baseline, candidate, i));
            }
        } else {
            let i = first_disagreement(baseline, candidate, 0);
            assert(!agree_at(baseline, candidate, i));
        }
    }
}

proof fn disagreement_bounds(baseline: Seq<u16>, candidate: Seq<u16>, from: int)
    requires
        0 <= from <= baseline.len(),
    ensures
        from <= first_disagreement(baseline, candidate, from) <= baseline.len(),
        forall|i: int|
            from <= i < first_disagreement(baseline, candidate, from) ==> agree_at(
                baseline,
                candidate,
                i,
            ),
        first_disagreement(baseline, candidate, from) < baseline.len() ==> !agree_at(
            baseline,
            candidate,
            first_disagreement(baseline, candidate, from),
        ),
    decreases baseline.len() - from,
{
    if from < baseline.len() && agree_at(baseline, candidate, from) {
        disagreement_bounds(baseline, candidate, from + 1);
    }
}

} // verus!
