//! What a decoder loads, requires, imports and decodes, for every plan and layer.
use crate::ane::config::config_outcome;
use crate::ane::decoder::{
    all_finite, attention_steps, configuration_outcome, ffn_fault, first_disagreement, import_fault,
    layer_fits, layer_import, layer_steps, layers_steps, load_order, load_policy, shared_steps,
    vocabulary_steps, AnePrefillSnapshot, DecoderModel, FfnFault, KvImportPacking, LoadStep,
};
use crate::ane::half_bits::{element, half_bits, half_is_finite, half_of_bf16, representable, DType};
use crate::ane::shape::{
    key_value_width, projection_rows, query_width, shape_of, supported, ArchitectureFacts,
    HEAD_ROWS, LAYERS, VOCAB,
};
use crate::ane::tensors::{
    decoder_tensors, entry_named, first_fault, layer_prefix, layer_tensors, layers_tensors,
    tensor_fault, RequiredModel, TensorModel,
};
use crate::ane::weight_plan::{
    ffn_precision, int8_qkv, plan_policy, AneProgramCachePolicy, AneWeightPlan, StaticFfnPrecision,
};
use crate::json::{bool_at, text_at, JsonModel};
use crate::text::decimal;
use vstd::prelude::*;

verus! {

proof fn held_by_either<A>(a: Seq<A>, b: Seq<A>, x: A)
    ensures
        a.contains(x) || b.contains(x) ==> (a + b).contains(x),
{
    if a.contains(x) {
        let i = choose|i: int| 0 <= i < a.len() && a[i] == x;
        assert((a + b)[i] == x);
    }
    if b.contains(x) {
        let i = choose|i: int| 0 <= i < b.len() && b[i] == x;
        assert((a + b)[a.len() + i] == x);
    }
}

// ---------------------------------------------------------------------------
// Loading
// ---------------------------------------------------------------------------

proof fn layer_is_loaded(
    plan: AneWeightPlan,
    sliding: Seq<bool>,
    count: int,
    layer: int,
    step: LoadStep,
)
    requires
        0 <= layer < count <= sliding.len(),
        layer_steps(plan, layer, sliding[layer]).contains(step),
    ensures
        layers_steps(plan, sliding, count).contains(step),
    decreases count,
{
    let before = layers_steps(plan, sliding, count - 1);
    let last = layer_steps(plan, count - 1, sliding[count - 1]);
    if layer < count - 1 {
        layer_is_loaded(plan, sliding, count - 1, layer, step);
    }
    held_by_either(before, last, step);
}

proof fn step_is_loaded(plan: AneWeightPlan, sliding: Seq<bool>, step: LoadStep)
    requires
        attention_steps(plan).contains(step) || shared_steps(plan).contains(step) || layers_steps(
            plan,
            sliding,
            sliding.len() as int,
        ).contains(step) || vocabulary_steps(16).contains(step),
    ensures
        load_order(plan, sliding).contains(step),
{
    let a = attention_steps(plan);
    let s = shared_steps(plan);
    let l = layers_steps(plan, sliding, sliding.len() as int);
    assert(VOCAB / HEAD_ROWS == 16);
    let v = vocabulary_steps(16);
    held_by_either(a, s, step);
    held_by_either(a + s, l, step);
    held_by_either(a + s + l, v, step);
}

proof fn layer_step_is_loaded(plan: AneWeightPlan, sliding: Seq<bool>, layer: int, k: int)
    requires
        0 <= layer < sliding.len(),
        0 <= k < layer_steps(plan, layer, sliding[layer]).len(),
    ensures
        load_order(plan, sliding).contains(layer_steps(plan, layer, sliding[layer])[k]),
{
    let step = layer_steps(plan, layer, sliding[layer])[k];
    assert(layer_steps(plan, layer, sliding[layer]).contains(step));
    layer_is_loaded(plan, sliding, sliding.len() as int, layer, step);
    step_is_loaded(plan, sliding, step);
}

/// Every layer gets its own projection: as many rows as its query heads and its key
/// and value heads take, the value's only where the layer is sliding. It is
/// quantized only where the plan says so of sliding layers, and tiled only where it
/// is quantized.
pub proof fn every_layer_gets_its_projection(plan: AneWeightPlan, sliding: Seq<bool>, layer: usize)
    requires
        layer < sliding.len(),
    ensures
        ({
            let kind = sliding[layer as int];
            let rows = if kind {
                16 * 256 + 2 * (8 * 256)
            } else {
                16 * 512 + 1 * 512
            };
            let tiles4 = kind && plan is StaticInt8FfnSlidingQkvTiles4Cached;
            let int8 = tiles4 || (kind && plan is StaticInt8FfnSlidingQkvCached);
            load_order(plan, sliding).contains(
                LoadStep::Qkv { layer, rows: rows as usize, int8, tiles4 },
            )
        }),
{
    layer_step_is_loaded(plan, sliding, layer as int, 0);
}

/// Every layer gets its own output projection, as wide as its query heads, but for
/// the plan that keeps those weights dynamic: it loads one program for each width.
pub proof fn every_layer_gets_its_output(plan: AneWeightPlan, sliding: Seq<bool>, layer: usize)
    requires
        layer < sliding.len(),
    ensures
        ({
            let width = if sliding[layer as int] {
                16 * 256
            } else {
                16 * 512
            };
            let order = load_order(plan, sliding);
            if plan is StaticFfnDynamicOutput {
                order.contains(LoadStep::DynamicOutput { width: width as usize })
            } else {
                order.contains(LoadStep::Output { layer, width: width as usize })
            }
        }),
{
    if plan is StaticFfnDynamicOutput {
        let s = shared_steps(plan);
        assert(s[0] == LoadStep::DynamicOutput { width: 4096 });
        assert(s[1] == LoadStep::DynamicOutput { width: 8192 });
        step_is_loaded(plan, sliding, s[0]);
        step_is_loaded(plan, sliding, s[1]);
    } else {
        layer_step_is_loaded(plan, sliding, layer as int, 1);
    }
}

/// Every layer gets its own feed-forward program in the plan's precision, but for the
/// plan that keeps those weights dynamic and loads one program for all. The checked
/// plan loads the ordinary and the stacked one of each layer.
pub proof fn every_layer_gets_its_ffn(plan: AneWeightPlan, sliding: Seq<bool>, layer: usize)
    requires
        layer < sliding.len(),
    ensures
        ({
            let order = load_order(plan, sliding);
            if plan is DynamicFfn {
                order.contains(LoadStep::DynamicFfn)
            } else if plan is StaticInt8StackedFfnChecked {
                order.contains(LoadStep::Ffn { layer, precision: StaticFfnPrecision::Int8 })
                    && order.contains(
                    LoadStep::Ffn { layer, precision: StaticFfnPrecision::Int8Stacked },
                )
            } else {
                order.contains(LoadStep::Ffn { layer, precision: ffn_precision(plan) })
            }
        }),
{
    if plan is DynamicFfn {
        let s = shared_steps(plan);
        assert(s[0] == LoadStep::DynamicFfn);
        step_is_loaded(plan, sliding, s[0]);
    } else if plan is StaticInt8StackedFfnChecked {
        layer_step_is_loaded(plan, sliding, layer as int, 2);
        layer_step_is_loaded(plan, sliding, layer as int, 3);
    } else if plan is StaticFfnDynamicOutput {
        layer_step_is_loaded(plan, sliding, layer as int, 1);
    } else {
        layer_step_is_loaded(plan, sliding, layer as int, 2);
    }
}

/// A plan's feed-forward precision is the one it is named after.
pub proof fn precisions_are_the_plans(plan: AneWeightPlan)
    ensures
        ffn_precision(plan) is Lut4 <==> plan is StaticLut4FfnCached,
        ffn_precision(plan) is Int8Chunk4 <==> plan is StaticInt8Chunk4FfnCached,
        ffn_precision(plan) is Int8Down4 <==> plan is StaticInt8Down4FfnCached,
        ffn_precision(plan) is Int8Interleaved <==> plan is StaticInt8InterleavedFfnCached,
        ffn_precision(plan) is Int8Stacked <==> plan is StaticInt8StackedFfnCached || plan
            is StaticInt8StackedFfnChecked,
        ffn_precision(plan) is Fp16 <==> plan is DynamicFfn || plan is StaticFfnDynamicOutput
            || plan is StaticAllCached,
        int8_qkv(plan, true) <==> plan is StaticInt8FfnSlidingQkvCached || plan
            is StaticInt8FfnSlidingQkvTiles4Cached,
        plan_policy(plan) is Compile <==> plan is DynamicFfn || plan is StaticFfnDynamicOutput,
        plan_policy(plan) is Compile || plan_policy(plan) is RequireExisting,
{
}

proof fn vocabulary_is_loaded(count: int, tile: int)
    requires
        0 <= tile < count,
    ensures
        vocabulary_steps(count).contains(
            LoadStep::Vocabulary { first: (tile * HEAD_ROWS) as usize },
        ),
    decreases count,
{
    let all = vocabulary_steps(count);
    if tile < count - 1 {
        vocabulary_is_loaded(count - 1, tile);
        let step = LoadStep::Vocabulary { first: (tile * HEAD_ROWS) as usize };
        let before = vocabulary_steps(count - 1);
        let i = choose|i: int| 0 <= i < before.len() && before[i] == step;
        assert(all[i] == step);
    } else {
        assert(all.last() == LoadStep::Vocabulary { first: (tile * HEAD_ROWS) as usize });
    }
}

/// Every row of the vocabulary is in a tile that is loaded, and both kinds of
/// attention are: transposed in the plan of that name, and in no other.
pub proof fn the_head_and_both_attentions_are_loaded(
    plan: AneWeightPlan,
    sliding: Seq<bool>,
    row: usize,
    kind: bool,
)
    requires
        row < VOCAB,
    ensures
        load_order(plan, sliding).contains(
            LoadStep::Vocabulary { first: (row - row % HEAD_ROWS) as usize },
        ),
        if plan is StaticInt8FfnTransposeAttentionCached {
            load_order(plan, sliding).contains(LoadStep::AttentionTranspose { sliding: kind })
        } else {
            load_order(plan, sliding).contains(LoadStep::Attention { sliding: kind })
        },
{
    let tile = row as int / HEAD_ROWS as int;
    assert(0 <= tile < 16);
    assert(tile * HEAD_ROWS == row - row % HEAD_ROWS);
    vocabulary_is_loaded(16, tile);
    step_is_loaded(plan, sliding, LoadStep::Vocabulary { first: (tile * HEAD_ROWS) as usize });
    let a = attention_steps(plan);
    assert(a.contains(a[0]) && a.contains(a[1]));
    step_is_loaded(plan, sliding, a[0]);
    step_is_loaded(plan, sliding, a[1]);
}

/// Programs are compiled without limit only by the two plans with dynamic weights. A
/// cached plan requires its programs, or compiles up to a budget of at most sixteen;
/// a candidate and the checked plan never compile, and the checked one keeps a
/// journal.
pub proof fn budgets_apply_to_cached_plans(plan: AneWeightPlan, budget: usize, journal: bool)
    ensures
        ({
            let dynamic = plan is DynamicFfn || plan is StaticFfnDynamicOutput;
            let candidate = plan is StaticInt8Chunk4FfnCached || plan
                is StaticInt8FfnSlidingQkvTiles4Cached || plan is StaticInt8Down4FfnCached || plan
                is StaticInt8InterleavedFfnCached || plan is StaticInt8FfnTransposeAttentionCached;
            let checked = plan is StaticInt8StackedFfnChecked;
            match load_policy(plan, budget, journal) {
                Ok(AneProgramCachePolicy::Compile) => dynamic && budget == 0,
                Ok(AneProgramCachePolicy::RequireExisting) => !dynamic && budget == 0 && (checked
                    ==> journal),
                Ok(AneProgramCachePolicy::ReuseOrCompileUpTo(n)) => n == budget && 1 <= n <= 16
                    && !dynamic && !candidate && !checked,
                Err(_) => budget > 16 || (budget > 0 && (dynamic || candidate || checked)) || (
                checked && !journal),
            }
        }),
{
}

// ---------------------------------------------------------------------------
// Tensors
// ---------------------------------------------------------------------------

/// Whether a checkpoint must have a vector of this name and length.
pub open spec fn needs_vector(required: Seq<RequiredModel>, name: Seq<char>, length: int) -> bool {
    required.contains(RequiredModel { name, rows: length as usize, columns: None })
}

/// Whether a checkpoint must have a matrix of this name and shape.
pub open spec fn needs_matrix(
    required: Seq<RequiredModel>,
    name: Seq<char>,
    rows: int,
    columns: int,
) -> bool {
    required.contains(
        RequiredModel { name, rows: rows as usize, columns: Some(columns as usize) },
    )
}

proof fn layer_is_required(
    prefix: Seq<char>,
    sliding: Seq<bool>,
    count: int,
    layer: int,
    t: RequiredModel,
)
    requires
        0 <= layer < count <= sliding.len(),
        layer_tensors(layer_prefix(prefix, layer), sliding[layer]).contains(t),
    ensures
        layers_tensors(prefix, sliding, count).contains(t),
    decreases count,
{
    let before = layers_tensors(prefix, sliding, count - 1);
    let last = layer_tensors(layer_prefix(prefix, count - 1), sliding[count - 1]);
    if layer < count - 1 {
        layer_is_required(prefix, sliding, count - 1, layer, t);
    }
    held_by_either(before, last, t);
}

proof fn tensor_is_required(prefix: Seq<char>, sliding: Seq<bool>, layer: int, k: int)
    requires
        0 <= layer < sliding.len(),
        0 <= k < layer_tensors(layer_prefix(prefix, layer), sliding[layer]).len(),
    ensures
        decoder_tensors(prefix, sliding).contains(
            layer_tensors(layer_prefix(prefix, layer), sliding[layer])[k],
        ),
{
    let own = layer_tensors(layer_prefix(prefix, layer), sliding[layer]);
    assert(own.contains(own[k]));
    layer_is_required(prefix, sliding, sliding.len() as int, layer, own[k]);
    let rest = decoder_tensors(prefix, sliding).subrange(
        layers_tensors(prefix, sliding, sliding.len() as int).len() as int,
        decoder_tensors(prefix, sliding).len() as int,
    );
    assert(decoder_tensors(prefix, sliding) =~= layers_tensors(
        prefix,
        sliding,
        sliding.len() as int,
    ) + rest);
    held_by_either(layers_tensors(prefix, sliding, sliding.len() as int), rest, own[k]);
}

/// Each layer's projections fit together: the query and the output are as wide as
/// its heads, both feed-forward projections lead from the hidden width to the
/// intermediate one and the down projection back, and only a sliding layer has a
/// value projection, shaped as its key's.
pub proof fn layers_require_fitting_projections(
    prefix: Seq<char>,
    sliding: Seq<bool>,
    layer: usize,
)
    requires
        layer < sliding.len(),
    ensures
        ({
            let all = decoder_tensors(prefix, sliding);
            let own = prefix + ".layers."@ + decimal(layer as nat);
            let (q, kv, head): (int, int, int) = if sliding[layer as int] {
                (16int * 256, 8int * 256, 256)
            } else {
                (16int * 512, 1int * 512, 512)
            };
            &&& needs_matrix(all, own + ".self_attn.q_proj.weight"@, q, 3840)
            &&& needs_matrix(all, own + ".self_attn.k_proj.weight"@, kv, 3840)
            &&& needs_matrix(all, own + ".self_attn.o_proj.weight"@, 3840, q)
            &&& sliding[layer as int] ==> needs_matrix(
                all,
                own + ".self_attn.v_proj.weight"@,
                kv,
                3840,
            )
            &&& needs_matrix(all, own + ".mlp.gate_proj.weight"@, 15360, 3840)
            &&& needs_matrix(all, own + ".mlp.up_proj.weight"@, 15360, 3840)
            &&& needs_matrix(all, own + ".mlp.down_proj.weight"@, 3840, 15360)
            &&& needs_vector(all, own + ".self_attn.q_norm.weight"@, head)
            &&& needs_vector(all, own + ".self_attn.k_norm.weight"@, head)
            &&& needs_vector(all, own + ".input_layernorm.weight"@, 3840)
            &&& needs_vector(all, own + ".post_attention_layernorm.weight"@, 3840)
            &&& needs_vector(all, own + ".pre_feedforward_layernorm.weight"@, 3840)
            &&& needs_vector(all, own + ".post_feedforward_layernorm.weight"@, 3840)
            &&& needs_vector(all, own + ".layer_scalar"@, 1)
        }),
{
    let l = layer as int;
    tensor_is_required(prefix, sliding, l, 0);
    tensor_is_required(prefix, sliding, l, 1);
    tensor_is_required(prefix, sliding, l, 2);
    tensor_is_required(prefix, sliding, l, 3);
    tensor_is_required(prefix, sliding, l, 4);
    tensor_is_required(prefix, sliding, l, 5);
    tensor_is_required(prefix, sliding, l, 6);
    tensor_is_required(prefix, sliding, l, 7);
    tensor_is_required(prefix, sliding, l, 8);
    tensor_is_required(prefix, sliding, l, 9);
    tensor_is_required(prefix, sliding, l, 10);
    tensor_is_required(prefix, sliding, l, 11);
    tensor_is_required(prefix, sliding, l, 12);
    if sliding[l] {
        tensor_is_required(prefix, sliding, l, 13);
    }
}

proof fn layers_required(prefix: Seq<char>, sliding: Seq<bool>, count: int)
    requires
        0 <= count <= sliding.len(),
    ensures
        layers_tensors(prefix, sliding, count).len() == 13 * count + sliding.take(count).filter(
            |s: bool| s,
        ).len(),
    decreases count,
{
    reveal(Seq::filter);
    if count > 0 {
        layers_required(prefix, sliding, count - 1);
        assert(sliding.take(count).drop_last() =~= sliding.take(count - 1));
    }
}

/// Beside its layers a decoder requires the final norm and the embedding of the
/// whole vocabulary, and nothing else: thirteen tensors for each layer, and one more
/// where it is sliding.
pub proof fn decoders_require_embedding_and_norm(prefix: Seq<char>, sliding: Seq<bool>)
    ensures
        needs_vector(decoder_tensors(prefix, sliding), prefix + ".norm.weight"@, 3840),
        needs_matrix(
            decoder_tensors(prefix, sliding),
            prefix + ".embed_tokens.weight"@,
            262144,
            3840,
        ),
        decoder_tensors(prefix, sliding).len() == 2 + 13 * sliding.len() + sliding.filter(
            |s: bool| s,
        ).len(),
{
    let all = decoder_tensors(prefix, sliding);
    layers_required(prefix, sliding, sliding.len() as int);
    assert(sliding.take(sliding.len() as int) =~= sliding);
    assert(all[all.len() - 2] == (RequiredModel {
        name: prefix + ".norm.weight"@,
        rows: 3840,
        columns: None,
    }));
    assert(all[all.len() - 1] == (RequiredModel {
        name: prefix + ".embed_tokens.weight"@,
        rows: 262144,
        columns: Some(3840),
    }));
}

proof fn entry_is_found(entries: Seq<TensorModel>, name: Seq<char>, from: int)
    requires
        0 <= from <= entries.len(),
    ensures
        match entry_named(entries, name, from) {
            Some(entry) => entry.name == name && exists|k: int|
                from <= k < entries.len() && #[trigger] entries[k] == entry && forall|j: int|
                    from <= j < k ==> (#[trigger] entries[j]).name != name,
            None => forall|j: int| from <= j < entries.len() ==> (#[trigger] entries[j]).name != name,
        },
    decreases entries.len() - from,
{
    if from < entries.len() {
        if entries[from].name == name {
            assert(entries[from] == entry_named(entries, name, from)->0);
        } else {
            entry_is_found(entries, name, from + 1);
            if entry_named(entries, name, from) is Some {
                let entry = entry_named(entries, name, from)->0;
                let k = choose|k: int|
                    from + 1 <= k < entries.len() && #[trigger] entries[k] == entry && forall|
                        j: int,
                    |
                        from + 1 <= j < k ==> (#[trigger] entries[j]).name != name;
                assert(entries[k] == entry);
            }
        }
    }
}

/// Whether a checkpoint has a tensor of this name with this shape, two bytes for
/// each element, in a type that converts to FP16.
#[verifier::opaque]
pub open spec fn has_tensor(entries: Seq<TensorModel>, t: RequiredModel) -> bool {
    exists|k: int|
        {
            &&& 0 <= k < entries.len()
            &&& (#[trigger] entries[k]).name == t.name
            &&& forall|j: int| 0 <= j < k ==> (#[trigger] entries[j]).name != t.name
            &&& entries[k].dtype is Bf16 || entries[k].dtype is F16
            &&& match t.columns {
                Some(columns) => entries[k].shape == seq![t.rows, columns] && entries[k].nbytes == 2
                    * (t.rows * columns),
                None => entries[k].shape == seq![t.rows] && entries[k].nbytes == 2 * t.rows,
            }
        }
}

proof fn tensors_are_had(entries: Seq<TensorModel>, t: RequiredModel)
    ensures
        tensor_fault(entries, t) is None <==> has_tensor(entries, t),
{
    reveal(has_tensor);
    entry_is_found(entries, t.name, 0);
    match t.columns {
        Some(columns) => {
            assert(t.rows * columns * 2 == 2 * (t.rows * columns)) by (nonlinear_arith);
        },
        None => {},
    }
    match entry_named(entries, t.name, 0) {
        Some(entry) => {
            let k = choose|k: int|
                0 <= k < entries.len() && #[trigger] entries[k] == entry && forall|j: int|
                    0 <= j < k ==> (#[trigger] entries[j]).name != t.name;
            if tensor_fault(entries, t) is None {
                assert(entries[k].name == t.name);
            }
            if has_tensor(entries, t) {
                let m = choose|k: int|
                    {
                        &&& 0 <= k < entries.len()
                        &&& (#[trigger] entries[k]).name == t.name
                        &&& forall|j: int| 0 <= j < k ==> (#[trigger] entries[j]).name != t.name
                        &&& entries[k].dtype is Bf16 || entries[k].dtype is F16
                        &&& match t.columns {
                            Some(columns) => entries[k].shape == seq![t.rows, columns]
                                && entries[k].nbytes == 2 * (t.rows * columns),
                            None => entries[k].shape == seq![t.rows] && entries[k].nbytes == 2
                                * t.rows,
                        }
                    };
                assert(m == k) by {
                    if m < k {
                        assert(entries[m].name != t.name);
                    } else if k < m {
                        assert(entries[k].name != t.name);
                    }
                }
            }
        },
        None => {},
    }
}

proof fn no_fault_from(entries: Seq<TensorModel>, required: Seq<RequiredModel>, from: int)
    requires
        0 <= from <= required.len(),
    ensures
        first_fault(entries, required, from) is None <==> forall|i: int|
            from <= i < required.len() ==> has_tensor(entries, #[trigger] required[i]),
    decreases required.len() - from,
{
    if from < required.len() {
        tensors_are_had(entries, required[from]);
        no_fault_from(entries, required, from + 1);
        if first_fault(entries, required, from) is None {
            assert(has_tensor(entries, required[from]));
            assert(first_fault(entries, required, from + 1) is None);
        } else if has_tensor(entries, required[from]) {
            assert(tensor_fault(entries, required[from]) is None);
            let i = choose|i: int|
                from + 1 <= i < required.len() && !has_tensor(entries, #[trigger] required[i]);
            assert(!has_tensor(entries, required[i]));
        }
    }
}

/// Whether a checkpoint has every tensor of a list.
pub open spec fn has_all(entries: Seq<TensorModel>, required: Seq<RequiredModel>) -> bool {
    forall|i: int| 0 <= i < required.len() ==> has_tensor(entries, #[trigger] required[i])
}

/// A checkpoint is accepted exactly where it is of the one architecture that the
/// decoder runs, at a qualified capacity, with a configuration of tanh GELU and no
/// attention bias, and has every tensor that is required.
pub proof fn accepted_checkpoints_have_their_tensors(
    arch: ArchitectureFacts,
    capacity: usize,
    config: Result<JsonModel, Seq<char>>,
    entries: Seq<TensorModel>,
    prefix: Seq<char>,
    sliding: Seq<bool>,
)
    ensures
        configuration_outcome(arch, capacity, config, entries, prefix, sliding) is Ok <==> {
            &&& supported(arch, capacity)
            &&& config_outcome(config) is Ok
            &&& has_all(entries, decoder_tensors(prefix, sliding))
        },
        config_outcome(config) is Ok ==> config is Ok && exists|text: JsonModel| #[trigger]
            text_at(text, "hidden_activation"@) == Some("gelu_pytorch_tanh"@) && bool_at(
                text,
                "attention_bias"@,
            ) == Some(false) && (text == config->Ok_0 || crate::json::at(
                config->Ok_0,
                "text_config"@,
            ) == Some(text)),
{
    no_fault_from(entries, decoder_tensors(prefix, sliding), 0);
    if config_outcome(config) is Ok {
        let text = crate::ane::config::text_config(config->Ok_0);
        assert(text_at(text, "hidden_activation"@) == Some("gelu_pytorch_tanh"@));
    }
}

/// The architecture that the decoder runs is the dense one of forty-eight layers.
pub proof fn one_architecture_is_supported(arch: ArchitectureFacts, capacity: usize)
    requires
        supported(arch, capacity),
    ensures
        capacity == 64 || capacity == 1024,
        arch.hidden_size == 3840,
        arch.intermediate_size == 15360,
        arch.num_hidden_layers == 48,
        arch.layer_types == 48,
        arch.vocab_size == 262144,
        arch.num_attention_heads == 16,
        arch.num_kv_heads_sliding * arch.head_dim_sliding == 2048,
        arch.num_kv_heads_global * arch.head_dim_global == 512,
        arch.head_dim_sliding == 256,
        arch.head_dim_global == 512,
        arch.sliding_window_size == 1024,
        !arch.enable_moe_block && !arch.use_double_wide_mlp,
        arch.num_kv_shared_layers == 0 && arch.hidden_size_per_layer_input == 0,
        arch.tie_word_embeddings && arch.attention_k_eq_v,
        arch.rope_theta_sliding_bits == 0x461c_4000,
        arch.rope_theta_global_bits == 0x4974_2400,
        arch.partial_rotary_factor_global_bits == 0x3e80_0000,
        arch.logit_softcap_bits == 0x41f0_0000,
        arch.rms_norm_eps_bits == 0x3586_37bd,
{
}

/// The shapes of the two kinds of layer.
pub proof fn layer_shapes(sliding: bool)
    ensures
        shape_of(sliding).query_heads == 16,
        shape_of(sliding).kv_heads == if sliding {
            8usize
        } else {
            1
        },
        shape_of(sliding).head_dim == if sliding {
            256usize
        } else {
            512
        },
        shape_of(sliding).sliding_window == if sliding {
            Some(1024usize)
        } else {
            None
        },
        query_width(sliding) == 16 * shape_of(sliding).head_dim,
        projection_rows(sliding) == if sliding {
            query_width(sliding) + key_value_width(sliding) + key_value_width(sliding)
        } else {
            query_width(sliding) + key_value_width(sliding)
        },
{
}

// ---------------------------------------------------------------------------
// Conversions
// ---------------------------------------------------------------------------

/// A checkpoint's element is its two bytes, the lower first. A converted number keeps
/// its sign, an FP16 one all of its bits, and it is finite.
pub proof fn conversions_keep_the_sign(bytes: Seq<u8>, i: int, bits: u16, dtype: DType)
    requires
        0 <= i,
        2 * i + 1 < bytes.len(),
    ensures
        element(bytes, i) % 0x100 == bytes[2 * i],
        element(bytes, i) / 0x100 == bytes[2 * i + 1],
        representable(bits, dtype) ==> {
            let half = half_bits(bits, dtype);
            &&& half <= u16::MAX
            &&& half >= 0x8000 <==> bits >= 0x8000
            &&& half % 0x8000 < 0x7c00
            &&& !(dtype is Bf16) ==> half == bits
            &&& dtype is Bf16 ==> half % 0x8000 == half_of_bf16(bits as nat % 0x8000)
        },
        half_is_finite(bits) <==> bits % 0x8000 < 0x7c00,
{
    if representable(bits, dtype) && dtype is Bf16 {
        crate::ane::half_bits::bf16_conversion_rounds_to_nearest(bits as nat % 0x8000);
    }
}

// ---------------------------------------------------------------------------
// Imports and decodes
// ---------------------------------------------------------------------------

/// A prefill is imported exactly where it has some tokens within the capacity and,
/// for each of the decoder's layers, finite keys and values of the layer's own shape
/// for just as many tokens.
pub proof fn imports_hold_every_layer(
    snapshot: AnePrefillSnapshot,
    capacity: usize,
    sliding: Seq<bool>,
)
    requires
        sliding.len() == LAYERS,
    ensures
        import_fault(snapshot, capacity, sliding) is None <==> {
            &&& 1 <= snapshot.tokens <= capacity
            &&& snapshot.layers@.len() == 48
            &&& forall|i: int|
                0 <= i < 48 ==> {
                    let saved = #[trigger] snapshot.layers@[i];
                    let count: int = if sliding[i] {
                        snapshot.tokens * 8 * 256
                    } else {
                        snapshot.tokens * 1 * 512
                    };
                    &&& saved.shape == shape_of(sliding[i])
                    &&& saved.keys@.len() == count
                    &&& saved.values@.len() == count
                    &&& forall|k: int| 0 <= k < count ==> #[trigger] saved.keys@[k] % 0x8000 < 0x7c00
                    &&& forall|k: int|
                        0 <= k < count ==> #[trigger] saved.values@[k] % 0x8000 < 0x7c00
                }
        },
{
    if import_fault(snapshot, capacity, sliding) is None {
        assert forall|i: int| 0 <= i < 48 implies {
            let saved = #[trigger] snapshot.layers@[i];
            let count: int = if sliding[i] {
                snapshot.tokens * 8 * 256
            } else {
                snapshot.tokens * 1 * 512
            };
            &&& saved.shape == shape_of(sliding[i])
            &&& saved.keys@.len() == count
            &&& saved.values@.len() == count
            &&& forall|k: int| 0 <= k < count ==> #[trigger] saved.keys@[k] % 0x8000 < 0x7c00
            &&& forall|k: int| 0 <= k < count ==> #[trigger] saved.values@[k] % 0x8000 < 0x7c00
        } by {
            assert(layer_fits(snapshot.layers@[i], sliding[i], snapshot.tokens));
            let saved = snapshot.layers@[i];
            assert forall|k: int| 0 <= k < saved.keys@.len() implies #[trigger] saved.keys@[k]
                % 0x8000 < 0x7c00 by {
                assert(half_is_finite(saved.keys@[k]));
            }
            assert forall|k: int| 0 <= k < saved.values@.len() implies #[trigger] saved.values@[k]
                % 0x8000 < 0x7c00 by {
                assert(half_is_finite(saved.values@[k]));
            }
        }
    } else if 1 <= snapshot.tokens <= capacity && snapshot.layers@.len() == 48 {
        let i = choose|i: int|
            0 <= i < LAYERS && !layer_fits(
                #[trigger] snapshot.layers@[i],
                sliding[i],
                snapshot.tokens,
            );
        let saved = snapshot.layers@[i];
        if saved.shape == shape_of(sliding[i]) && (forall|k: int|
            0 <= k < saved.keys@.len() ==> #[trigger] saved.keys@[k] % 0x8000 < 0x7c00) && (forall|
            k: int,
        |
            0 <= k < saved.values@.len() ==> #[trigger] saved.values@[k] % 0x8000 < 0x7c00) {
            assert(all_finite(saved.keys@));
            assert(all_finite(saved.values@));
        }
    }
}

/// Each packing imports in its own way.
pub proof fn packings_import_in_their_way(packing: KvImportPacking)
    ensures
        layer_import(packing) is Plain <==> packing is Baseline,
        layer_import(packing) is WithScratch <==> packing is ReuseScratch,
        layer_import(packing) is Blocked32WithScratch <==> packing is Blocked32,
{
}

/// A usable decoder takes a token of the vocabulary at its next position, while
/// there is room, and the position after it comes next once that is decoded. A token
/// it does not take changes nothing.
pub proof fn decodes_go_on_by_one_position(m: DecoderModel, token: u32, position: usize)
    requires
        m.well_formed(),
        m.next_position == Some(position),
    ensures
        ({
            let (begun, answer) = m.decode_begun(token);
            let (done, told) = begun.decode_ended(Ok(()));
            if token < 262144 && position < m.capacity {
                &&& answer == Ok::<usize, Seq<char>>(position)
                &&& begun.next_position is None
                &&& told == Ok::<usize, Seq<char>>(position)
                &&& done.next_position == Some((position + 1) as usize)
                &&& done.capacity == m.capacity
                &&& done.sliding == m.sliding
            } else {
                answer is Err && begun == m
            }
        }),
{
}

proof fn disagreements_are_first(baseline: Seq<u16>, candidate: Seq<u16>, from: int)
    requires
        0 <= from <= baseline.len(),
        baseline.len() == candidate.len(),
    ensures
        ({
            let i = first_disagreement(baseline, candidate, from);
            &&& from <= i <= baseline.len()
            &&& forall|k: int|
                #![trigger baseline[k]]
                from <= k < i ==> baseline[k] == candidate[k] && baseline[k] % 0x8000 < 0x7c00
            &&& i < baseline.len() ==> baseline[i] != candidate[i] || baseline[i] % 0x8000 >= 0x7c00
        }),
    decreases baseline.len() - from,
{
    if from < baseline.len() && half_is_finite(baseline[from]) && half_is_finite(candidate[from])
        && baseline[from] == candidate[from] {
        disagreements_are_first(baseline, candidate, from + 1);
    }
}

/// The fault of a checked layer names the layer and the first output that differs or
/// is not finite, with both of its values.
pub proof fn checked_faults_name_the_first_output(
    layer: usize,
    baseline: Seq<u16>,
    candidate: Seq<u16>,
)
    requires
        baseline.len() <= usize::MAX,
    ensures
        match ffn_fault(layer, baseline, candidate) {
            Some(FfnFault::Length { layer: named }) => named == layer && baseline.len()
                != candidate.len(),
            Some(FfnFault::Output { layer: named, index, baseline: left, candidate: right }) => {
                &&& named == layer
                &&& baseline.len() == candidate.len()
                &&& index < baseline.len()
                &&& left == baseline[index as int]
                &&& right == candidate[index as int]
                &&& left != right || left % 0x8000 >= 0x7c00
                &&& forall|k: int|
                    #![trigger baseline[k]]
                    0 <= k < index ==> baseline[k] == candidate[k] && baseline[k] % 0x8000 < 0x7c00
            },
            None => baseline == candidate,
        },
{
    if baseline.len() == candidate.len() {
        disagreements_are_first(baseline, candidate, 0);
        if ffn_fault(layer, baseline, candidate) is None {
            assert(baseline =~= candidate);
        }
    }
}

} // verus!
