//! The ANE decoder: plans, caches, tensors, conversion and checks.
use half::{bf16, f16};
use rvllm_runtime::ane::config::{check_config, validate_config};
use rvllm_runtime::ane::decoder::{
    check_ffn_output, AnePrefillSnapshot, GemmaAneDecode, HeadRankingPlan, KvImportPacking,
    LayerImport, LoadStep, SavedLayer,
};
use rvllm_runtime::ane::half_bits::{decode_f16, half_from_bits, DType};
use rvllm_runtime::ane::ranking::TopFive;
use rvllm_runtime::ane::script::{decode_ops, DecodeOp};
use rvllm_runtime::ane::shape::{
    layer_shape, projection_width, validate_architecture, ArchitectureFacts, LAYERS,
};
use rvllm_runtime::ane::static_cache::{
    inspect_static_cache_with_capacity, inspect_static_cache_with_capacity_until, layer_program,
    load_static_qkv,
    load_static_qkv_tiles4, provision_static_cache, provision_static_cache_with_capacity_until,
    record_cache_entry, AneStaticCachePart, CacheCall, CacheGraph, CacheReply, CacheVisit,
    GraphOutcome, LayerProgram,
};
use rvllm_runtime::ane::tensors::{
    embedding_offset, load_rows, required_tensors, validate_tensors, TensorInfo,
};
use rvllm_runtime::ane::weight_plan::{AneProgramCachePolicy, AneWeightPlan, StaticFfnPrecision};

/// Every sixth layer is global.
fn layers() -> Vec<bool> {
    (0..LAYERS).map(|i| i % 6 != 5).collect()
}

fn refuses_compilation(plan: AneWeightPlan) {
    let result = GemmaAneDecode::load_with_compile_budget(&layers(), plan, 1, true);
    assert!(matches!(result, Err(error) if error.contains("zero compile budget")));
}

#[test]
fn interleaved_is_cached_only_and_does_not_change_projection_precision() {
    let plan = AneWeightPlan::StaticInt8InterleavedFfnCached;
    assert_eq!(plan.program_count(), 162);
    assert_eq!(plan.cache_policy(), AneProgramCachePolicy::RequireExisting);
    assert_eq!(plan.static_ffn_precision(), StaticFfnPrecision::Int8Interleaved);
    assert!(!plan.quantizes_qkv(true));
    assert!(!plan.quantizes_qkv(false));
    refuses_compilation(plan);
}

#[test]
fn transpose_attention_does_not_change_weights_program_count_or_compile_policy() {
    let plan = AneWeightPlan::StaticInt8FfnTransposeAttentionCached;
    assert_eq!(plan.program_count(), 162);
    assert_eq!(plan.static_ffn_precision(), StaticFfnPrecision::Int8);
    assert!(!plan.quantizes_qkv(true));
    refuses_compilation(plan);
}

#[test]
fn down4_is_one_cached_program_per_layer_and_never_compiles_on_inference() {
    let plan = AneWeightPlan::StaticInt8Down4FfnCached;
    assert_eq!(plan.program_count(), 162);
    assert_eq!(plan.static_ffn_precision(), StaticFfnPrecision::Int8Down4);
    assert!(!plan.quantizes_qkv(true));
    refuses_compilation(plan);
}

#[test]
fn tiles4_is_single_variant_sliding_only_and_cached() {
    let plan = AneWeightPlan::StaticInt8FfnSlidingQkvTiles4Cached;
    assert_eq!(plan.program_count(), 162);
    assert_eq!(plan.cache_policy(), AneProgramCachePolicy::RequireExisting);
    assert_eq!(plan.static_ffn_precision(), StaticFfnPrecision::Int8);
    assert!(plan.quantizes_qkv(true));
    assert!(!plan.quantizes_qkv(false));
    assert!(
        matches!(load_static_qkv_tiles4(8704), Err(error) if error.contains("8192-row sliding"))
    );
    refuses_compilation(plan);
}

#[test]
fn chunk4_is_independent_cached_and_never_quantizes_qkv() {
    let plan = AneWeightPlan::StaticInt8Chunk4FfnCached;
    assert_eq!(plan.name(), "static-int8-chunk4-ffn-cached");
    assert_eq!(plan.program_count(), 162);
    assert_eq!(plan.cache_policy(), AneProgramCachePolicy::RequireExisting);
    assert_eq!(plan.static_ffn_precision(), StaticFfnPrecision::Int8Chunk4);
    assert!(!plan.quantizes_qkv(true));
    assert!(!plan.quantizes_qkv(false));
    refuses_compilation(plan);
}

#[test]
fn sliding_qkv_candidate_preserves_global_precision_and_ffn_policy() {
    let candidate = AneWeightPlan::StaticInt8FfnSlidingQkvCached;
    assert!(candidate.quantizes_qkv(true));
    assert!(!candidate.quantizes_qkv(false));
    assert_eq!(candidate.static_ffn_precision(), StaticFfnPrecision::Int8);
    assert_eq!(candidate.cache_policy(), AneProgramCachePolicy::RequireExisting);
    assert_eq!(candidate.program_count(), 162);
    for baseline in [
        AneWeightPlan::DynamicFfn,
        AneWeightPlan::StaticFfnDynamicOutput,
        AneWeightPlan::StaticAllCached,
        AneWeightPlan::StaticLut4FfnCached,
        AneWeightPlan::StaticInt8FfnCached,
        AneWeightPlan::StaticInt8StackedFfnCached,
        AneWeightPlan::StaticInt8StackedFfnChecked,
    ] {
        assert!(!baseline.quantizes_qkv(true));
        assert!(!baseline.quantizes_qkv(false));
    }
}

#[test]
fn sliding_qkv_candidate_rejects_global_shape_before_device_access() {
    let error = load_static_qkv(8704, true)
        .err()
        .expect("global INT8 QKV must not reach the private API");
    assert!(error.contains("8192-row sliding"));
    assert!(load_static_qkv(8192, true).is_ok());
    assert!(load_static_qkv(8704, false).is_ok());
}

#[test]
fn stacked_ffn_check_rejects_compilation_before_checkpoint_access() {
    let error = GemmaAneDecode::load_with_compile_budget(
        &layers(),
        AneWeightPlan::StaticInt8StackedFfnChecked,
        1,
        true,
    )
    .err()
    .expect("checked route must reject compilation");
    assert!(error.contains("zero compile budget"));
}

fn bits(values: &[f16]) -> Vec<u16> {
    values.iter().map(|v| v.to_bits()).collect()
}

fn check(layer: usize, baseline: &[f16], candidate: &[f16]) -> Result<(), String> {
    check_ffn_output(layer, &bits(baseline), &bits(candidate)).map_err(|fault| {
        fault.describe("left", "right")
    })
}

#[test]
fn stacked_ffn_check_requires_finite_bit_identical_outputs() {
    let values = [f16::ZERO, f16::from_f32(-1.25), f16::MAX];
    check(47, &values, &values).unwrap();
    assert!(check(0, &values, &values[..2]).is_err());
    let mut changed = values;
    changed[1] = f16::from_bits(changed[1].to_bits() + 1);
    assert!(check(47, &values, &changed).unwrap_err().contains("layer 47 output 1"));
    changed = values;
    changed[0] = f16::NEG_ZERO;
    assert!(check(0, &values, &changed).is_err());
    for invalid in [f16::NAN, f16::INFINITY, f16::NEG_INFINITY] {
        assert!(check(0, &[invalid], &[invalid]).is_err());
    }
}

#[test]
fn cache_cancellation_precedes_checkpoint_access() {
    for inspect in [false, true] {
        let part = AneStaticCachePart::QueryKeyValue;
        let (mut visit, call) = if inspect {
            inspect_static_cache_with_capacity_until(part, 1024)
        } else {
            provision_static_cache_with_capacity_until(part, 1024)
        };
        assert!(matches!(call, CacheCall::ShouldStop));
        let CacheCall::Failed { error } = visit.resume(CacheReply::Stop(true)) else {
            panic!("the visit went on");
        };
        assert_eq!(error, "ANE cache operation cancelled");
    }
}

#[test]
fn cache_inspection_continues_only_for_confirmed_absence() {
    let absent = "ANE model is absent from the current client's compiled cache";
    let mut entries = Vec::new();
    record_cache_entry(&mut entries, "first".into(), Ok(()), true).unwrap();
    record_cache_entry(&mut entries, "missing".into(), Err(absent.into()), true).unwrap();
    assert!(entries[0].available);
    assert!(!entries[1].available);
    assert!(
        record_cache_entry(&mut entries, "bad".into(), Err("ANE load failed".into()), true)
            .is_err()
    );
    assert!(
        record_cache_entry(&mut entries, "provision".into(), Err(absent.into()), false).is_err()
    );
    assert_eq!(entries.len(), 2);
}

fn run_visit(
    (mut visit, mut call): (CacheVisit, CacheCall),
    refuse_at: usize,
    error: &str,
) -> (CacheVisit, Result<Vec<CacheGraph>, String>) {
    let mut graphs = Vec::new();
    loop {
        let reply = match call {
            CacheCall::ShouldStop => CacheReply::Stop(false),
            CacheCall::Validate { .. } => CacheReply::Validated(Ok(())),
            CacheCall::Prepare { graph, .. } => {
                graphs.push(graph);
                CacheReply::Prepared(if graphs.len() == refuse_at {
                    GraphOutcome::Refused(error.into())
                } else {
                    GraphOutcome::Loaded
                })
            }
            CacheCall::Completed => return (visit, Ok(graphs)),
            CacheCall::Failed { error } => return (visit, Err(error)),
        };
        call = visit.resume(reply);
    }
}

#[test]
fn visits_cover_every_graph_of_a_part() {
    let part = AneStaticCachePart::Output;
    let (visit, graphs) = run_visit(provision_static_cache(part), 0, "");
    assert_eq!(graphs.unwrap().len(), 48);
    assert_eq!(visit.visited(), 48);
    assert_eq!(visit.entries()[7].name, "Output/layer/7");
    let absent = "ANE model is absent from the current client's compiled cache";
    let inspection = inspect_static_cache_with_capacity_until(part, 1024);
    let (visit, graphs) = run_visit(inspection, 3, absent);
    assert!(graphs.is_ok());
    assert!(!visit.entries()[2].available && visit.entries()[3].available);
    let (visit, graphs) = run_visit(inspect_static_cache_with_capacity(part, 64), 3, absent);
    assert!(graphs.is_ok() && !visit.entries()[2].available);
    let (visit, graphs) = run_visit(provision_static_cache(part), 3, "no memory");
    assert!(graphs.unwrap_err().contains("no memory"));
    assert_eq!(visit.visited(), 2);
    let head = AneStaticCachePart::VocabularyAndAttention;
    let (_, graphs) = run_visit(provision_static_cache(head), 0, "");
    assert_eq!(graphs.unwrap().len(), 18);
}

#[test]
fn layers_compile_the_program_of_their_part() {
    let int8 = AneStaticCachePart::QueryKeyValueSlidingInt8;
    assert_eq!(
        layer_program(int8, true),
        LayerProgram::Qkv { rows: 8192, int8: true, tiles4: false }
    );
    assert_eq!(
        layer_program(int8, false),
        LayerProgram::Qkv { rows: 8704, int8: false, tiles4: false }
    );
    assert_eq!(int8.label(), "QueryKeyValueSlidingInt8");
}

/// A checkpoint tensor of three rows of four elements, at an offset of a file.
#[test]
fn embedding_tiles_respect_tensor_offset_rows_and_dtype() {
    for dtype in [DType::Bf16, DType::F16] {
        let mut file = vec![0xa5_u8; 17];
        let values = [
            0.0, 1.0, -2.0, 3.0, 4.0, -5.0, 6.0, 7.0, 8.0, 9.0, -10.0, 11.0_f32,
        ];
        for value in values {
            let bits = match dtype {
                DType::Bf16 => bf16::from_f32(value).to_bits(),
                _ => f16::from_f32(value).to_bits(),
            };
            file.extend(bits.to_le_bytes());
        }
        file.extend([0xa5; 13]);
        let shape = vec![3, 4];
        let rows = |first, count| -> Result<Vec<u16>, String> {
            let (offset, bytes) = load_rows(&shape, first, count)?;
            let mut output = vec![0; bytes / 2];
            decode_f16(&file[17 + offset..17 + offset + bytes], dtype, &mut output)?;
            Ok(output)
        };
        let halves = |list: &[f32]| -> Vec<u16> {
            list.iter().map(|&x| f16::from_f32(x).to_bits()).collect()
        };
        assert_eq!(rows(1, 1).unwrap(), halves(&values[4..8]));
        assert_eq!(rows(1, 2).unwrap(), halves(&values[4..]));
        assert!(rows(2, 2).is_err());
        assert!(rows(usize::MAX, 1).is_err());
        assert_eq!(rows(0, 3).unwrap().len(), values.len());
    }
    assert!(load_rows(&vec![3], 0, 1).is_err());
    assert_eq!(embedding_offset(17, 2), 17 + 2 * 3840 * 2);
}

#[test]
fn conversion_rejects_nonfinite_or_unrepresentable_weights() {
    let mut output = vec![0_u16; 1];
    for bits in [
        bf16::INFINITY.to_bits(),
        bf16::NAN.to_bits(),
        bf16::MAX.to_bits(),
    ] {
        assert!(decode_f16(&bits.to_le_bytes(), DType::Bf16, &mut output).is_err());
    }
    assert!(decode_f16(&f16::NAN.to_le_bytes(), DType::F16, &mut output).is_err());
    assert!(decode_f16(&[0], DType::F16, &mut output).is_err());
    assert!(decode_f16(&[0, 0], DType::Other, &mut output).is_err());
}

#[test]
fn conversion_rounds_as_the_half_crate_does() {
    for bits in 0..=u16::MAX {
        let expected = f16::from_f32(bf16::from_bits(bits).to_f32());
        let found = half_from_bits(bits, DType::Bf16);
        if expected.is_finite() {
            assert_eq!(found, Some(expected.to_bits()), "{bits:04x}");
        } else {
            assert_eq!(found, None, "{bits:04x}");
        }
    }
}

#[test]
fn load_orders_prepare_the_announced_programs() {
    for plan in [
        AneWeightPlan::StaticAllCached,
        AneWeightPlan::StaticInt8FfnCached,
        AneWeightPlan::StaticInt8FfnSlidingQkvCached,
    ] {
        let order = GemmaAneDecode::load_with_weight_plan(&layers(), plan, false).unwrap();
        assert_eq!(order.steps.len(), plan.program_count());
        assert_eq!(order.policy, AneProgramCachePolicy::RequireExisting);
        let int8 = order
            .steps
            .iter()
            .filter(|step| matches!(step, LoadStep::Qkv { int8: true, .. }))
            .count();
        assert_eq!(int8, if plan.quantizes_qkv(true) { 40 } else { 0 });
    }
    let dynamic = GemmaAneDecode::load(&layers()).unwrap();
    assert_eq!(dynamic.policy, AneProgramCachePolicy::Compile);
    assert!(!dynamic.head_ranking_eligible);
    let budget = GemmaAneDecode::load_with_compile_budget(
        &layers(),
        AneWeightPlan::StaticInt8FfnCached,
        3,
        false,
    )
    .unwrap();
    assert_eq!(budget.policy, AneProgramCachePolicy::ReuseOrCompileUpTo(3));
    assert!(GemmaAneDecode::load_with_weight_plan(
        &layers(),
        AneWeightPlan::StaticInt8StackedFfnChecked,
        false
    )
    .is_err());
}

fn decoder() -> GemmaAneDecode {
    GemmaAneDecode::loaded(64, layers(), AneWeightPlan::StaticInt8StackedFfnChecked, true)
}

fn snapshot(tokens: usize) -> AnePrefillSnapshot {
    let layers = layers()
        .iter()
        .map(|sliding| {
            let shape = layer_shape(*sliding);
            let count = tokens * shape.kv_heads * shape.head_dim;
            SavedLayer { shape, keys: vec![0x3c00; count], values: vec![0; count] }
        })
        .collect();
    AnePrefillSnapshot { tokens, layers }
}

#[test]
fn imports_are_validated_whole_before_the_decoder_stops() {
    let mut d = decoder();
    assert_eq!(
        d.decode(5).unwrap_err(),
        "ANE decoder requires a complete prefill import"
    );
    d.import_prefill(&snapshot(2)).unwrap();
    assert!(d.decode(5).is_err());
    assert!(d.decoded(Ok(())).is_err(), "no decode is pending");
    d.prefill_imported(Ok(())).unwrap();
    assert!(d.prefill_imported(Ok(())).is_err(), "no import is pending");
    assert_eq!(d.decode(5), Ok(2));
    assert!(d.decode(5).is_err(), "a step that did not finish stops the decoder");
    assert_eq!(d.decoded(Ok(())), Ok(2));
    assert_eq!(d.next_position(), Some(3));
    assert!(d.decode(262144).is_err());
    assert_eq!(d.next_position(), Some(3));
    let mut bad = snapshot(2);
    bad.layers[47].values[0] = 0x7c00;
    assert_eq!(
        d.import_prefill(&bad).unwrap_err(),
        "ANE prefill has an incompatible or nonfinite KV tensor"
    );
    assert_eq!(d.next_position(), Some(3));
    assert!(d.import_prefill(&snapshot(0)).is_err());
    assert!(d.import_prefill(&snapshot(65)).is_err());
    assert!(GemmaAneDecode::check_layer_position(3, 3).is_ok());
    assert!(GemmaAneDecode::check_layer_position(2, 3).is_err());
}

#[test]
fn failed_work_needs_a_complete_import() {
    let stopped = "ANE decoder requires a complete prefill import";
    let mut d = decoder();
    d.import_prefill(&snapshot(4)).unwrap();
    assert_eq!(d.prefill_imported(Err("layer 3".into())), Err("layer 3".to_string()));
    assert_eq!(d.decode(5).unwrap_err(), stopped);
    assert!(d.prefill_imported(Ok(())).is_err());
    assert!(d.decoded(Ok(())).is_err());
    assert_eq!(d.decode(5).unwrap_err(), stopped);
    d.import_prefill(&snapshot(4)).unwrap();
    d.prefill_imported(Ok(())).unwrap();
    assert_eq!(d.decode(5), Ok(4));
    assert_eq!(d.decoded(Err("lost".into())), Err("lost".to_string()));
    assert_eq!(d.decode(5).unwrap_err(), stopped);
    assert!(d.decoded(Ok(())).is_err());
    assert_eq!(d.next_position(), None);
}

#[test]
fn packings_select_how_layers_import() {
    let mut d = decoder();
    assert_eq!(d.import_prefill(&snapshot(2)), Ok(LayerImport::Plain));
    assert_eq!(
        d.import_prefill_reusing_scratch(&snapshot(2)),
        Ok(LayerImport::WithScratch)
    );
    assert_eq!(
        d.import_prefill_with_packing(&snapshot(2), KvImportPacking::Blocked32),
        Ok(LayerImport::Blocked32WithScratch)
    );
    assert!(d
        .import_prefill_with_packing(&snapshot(0), KvImportPacking::Blocked32)
        .is_err());
}

#[test]
fn comparisons_are_counted_by_layer() {
    let mut d = decoder();
    d.count_comparison(3).unwrap();
    d.count_comparison(3).unwrap();
    assert_eq!(d.stacked_ffn_checks_per_layer().unwrap()[3], 2);
    let plain = GemmaAneDecode::loaded(64, layers(), AneWeightPlan::StaticInt8FfnCached, true);
    assert!(plain.stacked_ffn_checks_per_layer().is_none());
    assert_eq!(plain.layer_kinds(), &layers());
}

#[test]
fn head_ranking_needs_an_eligible_plan() {
    let mut d = decoder();
    d.configure_head_ranking(HeadRankingPlan::SoftcapPrune, true, Ok(())).unwrap();
    assert_eq!(d.head_ranking(), HeadRankingPlan::SoftcapPrune);
    let refused = d.configure_head_ranking(HeadRankingPlan::Baseline, false, Err("no".into()));
    assert!(refused.is_err());
    assert_eq!(d.head_ranking(), HeadRankingPlan::SoftcapPrune);
}

#[test]
fn configurations_are_checked_for_activation_and_bias() {
    let config = |text: &str| validate_config(text.as_bytes());
    let good = "{\"hidden_activation\":\"gelu_pytorch_tanh\",\"attention_bias\":false}";
    assert!(config(good).is_ok());
    assert!(config(&format!("{{\"text_config\":{good}}}")).is_ok());
    let biased = good.replace("false", "true");
    assert_eq!(
        config(&biased).unwrap_err(),
        "ANE Gemma decode requires tanh GELU and bias-free projections"
    );
    assert!(config("{").is_err());
    assert!(check_config(&serde_json::from_str("{}").unwrap()).is_err());
}

fn architecture() -> ArchitectureFacts {
    ArchitectureFacts {
        hidden_size: 3840,
        intermediate_size: 15360,
        num_hidden_layers: 48,
        vocab_size: 262144,
        num_attention_heads: 16,
        num_kv_heads_sliding: 8,
        num_kv_heads_global: 1,
        head_dim_sliding: 256,
        head_dim_global: 512,
        layer_types: 48,
        sliding_window_size: 1024,
        enable_moe_block: false,
        use_double_wide_mlp: false,
        num_kv_shared_layers: 0,
        hidden_size_per_layer_input: 0,
        tie_word_embeddings: true,
        attention_k_eq_v: true,
        rope_theta_sliding_bits: 10_000.0_f32.to_bits(),
        rope_theta_global_bits: 1_000_000.0_f32.to_bits(),
        partial_rotary_factor_global_bits: 0.25_f32.to_bits(),
        logit_softcap_bits: 30.0_f32.to_bits(),
        rms_norm_eps_bits: 1e-6_f32.to_bits(),
    }
}

fn tensors() -> Vec<TensorInfo> {
    required_tensors("model", &layers())
        .into_iter()
        .map(|t| {
            let shape: Vec<usize> = match t.columns {
                Some(columns) => vec![t.rows, columns],
                None => vec![t.rows],
            };
            let nbytes = shape.iter().product::<usize>() * 2;
            TensorInfo { name: t.name, shape, dtype: DType::Bf16, nbytes }
        })
        .collect()
}

#[test]
fn checkpoints_are_validated_in_order() {
    let config = b"{\"hidden_activation\":\"gelu_pytorch_tanh\",\"attention_bias\":false}";
    let validate = |arch: &ArchitectureFacts, config: &[u8], entries: &Vec<TensorInfo>| {
        GemmaAneDecode::validate_configuration(arch, 1024, config, entries, "model", &layers())
    };
    assert_eq!(validate(&architecture(), config, &tensors()), Ok(()));
    let wide = ArchitectureFacts { hidden_size: 4096, ..architecture() };
    assert!(validate(&wide, b"{", &vec![]).unwrap_err().starts_with("ANE decoder currently"));
    assert!(validate(&architecture(), b"{}", &vec![]).unwrap_err().contains("tanh GELU"));
    let mut short = tensors();
    short.pop();
    assert!(validate(&architecture(), config, &short).is_err());
    let mut typed = tensors();
    typed[0].dtype = DType::Other;
    assert!(validate_tensors(&typed, "model", &layers()).is_err());
    assert!(validate_architecture(&architecture(), 128).is_err());
    assert_eq!(projection_width(&layer_shape(true)), 8192);
    assert_eq!(projection_width(&layer_shape(false)), 8704);
}

#[test]
fn rankings_keep_the_five_best_and_the_first_of_equals() {
    let mut top = TopFive::new();
    for (token, key) in [(1, 5), (2, 9), (3, 5), (4, -2), (5, 9), (6, 0), (7, 7)] {
        top.observe(token, key);
    }
    let order: Vec<u32> = top.places.iter().map(|p| p.token).collect();
    assert_eq!(order, [2, 5, 7, 1, 3]);
}

#[test]
fn a_step_reads_checks_and_ranks_in_order() {
    let ops = decode_ops(&layers());
    assert_eq!(ops[0], DecodeOp::ReadEmbedding);
    let checks = ops.iter().filter(|op| matches!(op, DecodeOp::CheckPosition { .. })).count();
    assert_eq!(checks, 48);
    let shared = ops
        .iter()
        .filter(|op| matches!(op, DecodeOp::CopyValue { shared: true, .. }))
        .count();
    assert_eq!(shared, 8);
}
