//! Options, references and continuations of disaggregated inference.
use rvllm_runtime::ane::decoder::KvImportPacking;
use rvllm_runtime::ane::weight_plan::AneWeightPlan;
use rvllm_runtime::disagg::continuation::{
    compiler_calls, matches_reference, require_match, unstreamed_tail, CaseOutcome, Continuation,
    Session,
};
use rvllm_runtime::disagg::options::{
    parse_options, CacheTarget, Options, PromptSource, RunKind,
};
use rvllm_runtime::disagg::prefill_case::{
    capture_file, check_prefill, command_contract, dispatch_report, encode_f16, resolve_kernels,
    screen_verdict, seed_file, KernelChoice, PrefillAnswer, PrefillCounters,
};
use rvllm_runtime::disagg::prefill_screen::{
    validate_requested_candidate, PrefillScreenOptions, Selector,
};
use rvllm_runtime::disagg::references::{
    load_reference, max_batch_tokens, session_line, validate_text_budget, workload_digest, Reference,
    SessionLine,
};
use rvllm_runtime::hash::sha256_text;
use sha2::Digest as _;

fn args(list: &[&str]) -> Vec<String> {
    list.iter().map(|s| s.to_string()).collect()
}

fn options(list: &[&str]) -> Options {
    parse_options(&args(list)).unwrap().unwrap()
}

#[test]
fn file_identity_hashes_exact_bytes() {
    let artifact = b"kernel-game".to_vec();
    assert_eq!(
        sha256_text(&artifact),
        format!("{:x}", sha2::Sha256::digest(b"kernel-game"))
    );
}

#[test]
fn output_budget_counts_only_tokens_consumed_by_decode() {
    assert!(validate_text_budget(&[2; 1024], 1, 1024).is_ok());
    assert!(validate_text_budget(&[2; 1001], 24, 1024).is_ok());
    assert!(validate_text_budget(&[2; 1002], 24, 1024).is_err());
    assert!(validate_text_budget(&[2; 1024], 2, 1024).is_err());
    assert!(validate_text_budget(&[2], 0, 1024).is_err());
    assert!(validate_text_budget(&[], 1, 1024).is_err());
    assert!(validate_text_budget(&[2; 2], usize::MAX, usize::MAX).is_err());
}

#[test]
fn a_budget_that_does_not_fit_names_its_numbers() {
    assert_eq!(
        validate_text_budget(&[2; 3], 5, 6),
        Err("3 prompt tokens and output limit 5 exceed context capacity 6".to_string())
    );
}

fn valid_options() -> PrefillScreenOptions {
    PrefillScreenOptions {
        enabled: true,
        reference_count: 1,
        output_requested: true,
        ..PrefillScreenOptions::default()
    }
}

#[test]
fn prefill_only_requires_an_unchanged_reference_and_no_decode_options() {
    assert!(valid_options().validate().is_ok());
    for bad in [
        PrefillScreenOptions { reference_count: 0, ..valid_options() },
        PrefillScreenOptions { reference_count: 17, ..valid_options() },
        PrefillScreenOptions { reference_count: usize::MAX, ..valid_options() },
        PrefillScreenOptions { output_requested: false, ..valid_options() },
        PrefillScreenOptions { text_input: true, ..valid_options() },
        PrefillScreenOptions { interactive: true, ..valid_options() },
        PrefillScreenOptions { interleave: true, ..valid_options() },
        PrefillScreenOptions { retain_metal: true, ..valid_options() },
        PrefillScreenOptions { runtime_worker: true, ..valid_options() },
        PrefillScreenOptions { capture_ane: true, ..valid_options() },
        PrefillScreenOptions { cache_operation: true, ..valid_options() },
        PrefillScreenOptions { nonbaseline_ane: true, ..valid_options() },
        PrefillScreenOptions { nonbaseline_packing: true, ..valid_options() },
        PrefillScreenOptions { compile_budget: 1, ..valid_options() },
    ] {
        assert!(bad.validate().is_err());
    }
    assert!(PrefillScreenOptions::default().validate().is_ok());
}

const OFF: u32 = 0;
const GQA_KV8: u32 = 1;

fn parsed(name: &str) -> Selector {
    match name {
        "off" => Selector::Parsed(OFF),
        "metal-gqa-kv8" => Selector::Parsed(GQA_KV8),
        _ => Selector::Malformed("unknown Metal research candidate"),
    }
}

#[test]
fn screen_rejects_unresolved_or_malformed_selectors() {
    assert!(validate_requested_candidate(parsed("off"), OFF).is_ok());
    assert!(validate_requested_candidate(parsed("metal-gqa-kv8"), GQA_KV8).is_ok());
    assert!(validate_requested_candidate(Selector::NotPresent, OFF).is_ok());
    assert!(validate_requested_candidate(parsed("metal-gqa-kv8"), OFF).is_err());
    assert!(validate_requested_candidate(parsed("metal-gqa-kv8 "), OFF).is_err());
    assert!(validate_requested_candidate(parsed("auto"), OFF).is_err());
    assert!(validate_requested_candidate(Selector::NotUnicode, OFF).is_err());
}

/// The families of research kernels, by the places of their counters.
fn family(requested: &str) -> &'static [usize] {
    match requested {
        "metal-gqa-kv8" => &[3, 4],
        "metal-mma32-f32" => &[10, 11],
        "metal-rounded-gate32" => &[0],
        _ => &[],
    }
}

fn report(
    requested: &str,
    before: [u64; 12],
    after: [u64; 12],
) -> Result<(bool, bool, Vec<u64>), &'static str> {
    let delta: Result<Vec<u64>, &'static str> = before
        .iter()
        .zip(after.iter())
        .map(|(b, a)| a.checked_sub(*b).ok_or("research counters ran backwards"))
        .collect();
    let counts = delta.clone().unwrap_or_default();
    let own = family(requested);
    let foreign = counts.iter().enumerate().any(|(i, n)| *n > 0 && !own.contains(&i));
    let judged = |exercised: bool| {
        if foreign {
            Err("another research kernel was dispatched")
        } else {
            Ok(exercised)
        }
    };
    let any = own.iter().any(|i| counts.get(*i).copied().unwrap_or(0) > 0);
    let all = own.iter().all(|i| counts.get(*i).copied().unwrap_or(0) > 0);
    dispatch_report(requested, delta, judged(any), judged(all)).map(|r| {
        assert_eq!(r.requested, requested);
        (r.selection_exercised, r.complete_family_exercised, r.encoded_dispatches)
    })
}

#[test]
fn receipt_preserves_fallback_and_rejects_mixed_dispatches() {
    let zero = [0_u64; 12];
    let fallback = report("metal-gqa-kv8", zero, zero).unwrap();
    assert_eq!(fallback.0, false);
    assert_eq!(fallback.2[3], 0);
    let mut gqa = zero;
    gqa[3] = 40;
    gqa[4] = 8;
    let exercised = report("metal-gqa-kv8", zero, gqa).unwrap();
    assert_eq!(exercised.0, true);
    assert_eq!(exercised.2[4], 8);
    assert!(report("metal-rounded-gate32", zero, gqa).is_err());
    assert!(report("metal-gqa-kv8", gqa, zero).is_err());
}

#[test]
fn partial_family_is_preserved_as_partial_not_full_coverage() {
    let zero = [0_u64; 12];
    let mut partial = zero;
    partial[10] = 48;
    let first = report("metal-mma32-f32", zero, partial).unwrap();
    assert_eq!((first.0, first.1), (true, false));
    partial[11] = 48;
    assert_eq!(report("metal-mma32-f32", zero, partial).unwrap().1, true);
}

#[test]
fn screens_that_fell_back_are_refused() {
    assert!(screen_verdict(&vec![true, true]).is_ok());
    assert!(screen_verdict(&vec![true, false])
        .unwrap_err()
        .starts_with("prefill completed through fallback"));
}

#[test]
fn options_are_read_in_pairs() {
    let o = options(&[
        "--model-dir",
        "/m",
        "--prompt",
        "hi",
        "--prompt-file",
        "p.txt",
        "--max-new-tokens",
        "+8",
        "--interactive",
        "true",
        "--ane-weights",
        "static-int8-ffn-cached",
        "--kv-import-packing",
        "cpu-kv-blocked32",
    ]);
    assert_eq!(o.model_dir.as_deref(), Some("/m"));
    assert!(matches!(&o.prompts[0], PromptSource::Text(t) if t == "hi"));
    assert!(matches!(&o.prompts[1], PromptSource::File(p) if p == "p.txt"));
    assert_eq!(o.max_new_tokens, 8);
    assert!(o.interactive && o.interleaving() && o.retaining());
    assert_eq!(o.kv_import_packing, KvImportPacking::Blocked32);
    assert_eq!(o.ane_weights, AneWeightPlan::StaticInt8FfnCached);
    assert!(parse_options(&args(&["--prompt", "x", "--help"])).unwrap().is_none());
}

#[test]
fn unreadable_options_are_named() {
    let error = |list: &[&str]| parse_options(&args(list)).unwrap_err();
    assert_eq!(error(&["--prompt"]), "missing value for --prompt");
    assert_eq!(error(&["--wrong", "1"]), "unknown argument --wrong");
    assert_eq!(error(&["--max-new-tokens", "x"]), "invalid digit found in string");
    assert_eq!(error(&["--max-new-tokens", ""]), "cannot parse integer from empty string");
    assert_eq!(
        error(&["--interactive", "yes"]),
        "provided string was not `true` or `false`"
    );
    assert_eq!(
        error(&["--prepare-ane-cache", "qkv", "--inspect-ane-cache", "qkv"]),
        "provide only one cache operation"
    );
    assert!(error(&["--prepare-ane-cache", "x"]).starts_with("cache part must be all-int8"));
    assert!(error(&["--ane-weights", "x"]).starts_with("unknown --ane-weights plan"));
    assert_eq!(error(&["--kv-import-packing", "x"]), "unknown --kv-import-packing value x");
    assert_eq!(error(&["--head-ranking", "x"]), "unknown --head-ranking value x");
}

#[test]
fn options_that_do_not_go_together_are_refused() {
    let kind = |list: &[&str]| options(list).run_kind(Ok(()), false);
    assert_eq!(kind(&["--prompt", "x"]), Err("--model-dir required".to_string()));
    let base = ["--model-dir", "/m"];
    let with = |more: &[&str]| {
        let list: Vec<&str> = base.iter().chain(more).copied().collect();
        kind(&list)
    };
    assert_eq!(with(&["--prompt", "x"]), Ok(RunKind::Inference { text_mode: true }));
    assert_eq!(
        with(&["--hf-reference", "r", "--output-dir", "/o"]),
        Ok(RunKind::Inference { text_mode: false })
    );
    assert_eq!(
        with(&["--prepare-ane-cache", "all-int8", "--output-dir", "/o"]),
        Ok(RunKind::Cache { target: CacheTarget::AllInt8, inspect: false })
    );
    assert_eq!(
        with(&["--prepare-ane-cache", "qkv"]),
        Err("--output-dir required for cache provisioning".to_string())
    );
    assert!(with(&["--inspect-ane-cache", "qkv", "--prompt", "x"])
        .unwrap_err()
        .starts_with("cache operations cannot be combined"));
    assert!(with(&[]).unwrap_err().starts_with("provide --prompt"));
    assert!(with(&["--prompt", "x", "--hf-reference", "r"])
        .unwrap_err()
        .starts_with("provide --prompt"));
    assert_eq!(
        with(&["--hf-reference", "r"]),
        Err("--output-dir required for reference verification or layer capture".to_string())
    );
    assert!(with(&["--prompt", "x", "--max-new-tokens", "0"]).is_err());
    assert!(with(&["--prompt", "x", "--max-new-tokens", "1025"]).is_ok());
    assert!(with(&["--prompt", "x", "--max-new-tokens", "1026"]).is_err());
    assert!(with(&["--prompt", "x", "--context-capacity", "128"])
        .unwrap_err()
        .starts_with("--context-capacity must be"));
    assert!(with(&["--prompt", "x", "--ane-compile-budget", "17"])
        .unwrap_err()
        .starts_with("--ane-compile-budget must be"));
    let screen = ["--prompt", "x", "--prefill-only", "true"];
    assert!(with(&screen).unwrap_err().starts_with("prefill-only requires"));
    assert_eq!(
        options(&["--model-dir", "/m", "--prompt", "x"]).run_kind(Err("no".into()), false),
        Err("no".to_string())
    );
}

#[test]
fn the_worker_runs_the_qualified_route_only() {
    let base = options(&["--model-dir", "/m", "--prompt", "x"]);
    assert!(base.check_worker(true).is_ok());
    assert!(base.check_worker(false).is_err());
    let captured = options(&["--capture-layer-states", "true"]);
    assert!(captured.check_worker(true).is_err());
}

#[test]
fn the_metal_library_comes_from_the_option_or_the_environment() {
    let own = options(&["--metallib-bf16", "/a"]);
    assert_eq!(own.metallib(&Some("/b".into())), Ok("/a".to_string()));
    let none = options(&[]);
    assert_eq!(none.metallib(&Some("/b".into())), Ok("/b".to_string()));
    assert!(none.metallib(&None).is_err());
    assert_eq!(none.cache_policy_label(), "require-existing");
}

fn document(prompt: &str, generated: &str, extra: &str) -> Vec<u8> {
    format!("{{\"prompt_token_ids\":{prompt},\"generated_tokens\":{generated}{extra}}}")
        .into_bytes()
}

#[test]
fn references_bind_to_the_checkpoint_and_fit_the_context() {
    let load = |bytes: &[u8], capacity: usize| {
        load_reference("ref.json", bytes, "/models/rev-1/", capacity, &vec![106])
    };
    let revision = ",\"model_revision\":\"rev-1\"";
    let good = load(&document("[2,3]", "[7,106]", revision), 3).unwrap();
    assert_eq!(good.prompt, [2, 3]);
    assert_eq!(good.generated, Some(vec![7, 106]));
    assert_eq!(good.max_new_tokens, 2);
    assert_eq!(good.path.as_deref(), Some("ref.json"));
    let directory = ",\"model_dir\":\"/other/rev-1/.\"";
    assert!(load(&document("[2]", "[7]", directory), 64).is_ok());
    assert_eq!(
        load(&document("[2]", "[7]", ""), 64).unwrap_err(),
        "reference lacks checkpoint revision"
    );
    assert_eq!(
        load(&document("[2]", "[7]", ",\"model_revision\":\"rev-2\""), 64).unwrap_err(),
        "reference/checkpoint revision mismatch"
    );
    let invalid = "reference has invalid tokens, EOS placement or context length";
    for (prompt, generated, capacity) in [
        ("[]", "[7]", 64),
        ("[2]", "[]", 64),
        ("[2,3]", "[7,8]", 2),
        ("[262144]", "[7]", 64),
        ("[2]", "[262144]", 64),
        ("[2]", "[106,7]", 64),
    ] {
        assert_eq!(
            load(&document(prompt, generated, revision), capacity).unwrap_err(),
            invalid
        );
    }
    for prompt in ["[-1]", "[1.5]", "[4294967296]", "\"2\"", "null"] {
        assert!(load(&document(prompt, "[7]", revision), 64).is_err());
    }
    assert!(load(b"{", 64).is_err());
}

fn reference(prompt: usize) -> Reference {
    Reference { path: None, prompt: vec![1; prompt], generated: None, max_new_tokens: 1 }
}

#[test]
fn batches_hold_the_longest_prompt() {
    let list = vec![reference(3), reference(9), reference(4)];
    assert_eq!(max_batch_tokens(false, 64, &list), Ok(9));
    assert_eq!(max_batch_tokens(true, 64, &list), Ok(64));
    assert_eq!(max_batch_tokens(false, 64, &vec![]), Err("no prompts".to_string()));
}

#[test]
fn session_lines_end_or_are_skipped() {
    assert_eq!(session_line(0, ""), SessionLine::EndOfInput);
    assert_eq!(session_line(3, " \t\n"), SessionLine::Blank);
    assert_eq!(session_line(3, "hi\n"), SessionLine::Prompt);
}

#[test]
fn continuations_stop_at_the_end_of_a_sequence() {
    let mut c = Continuation::begin(4, 4, vec![9], 5);
    let first = c.next(true, true).unwrap();
    assert_eq!((first.input, first.position), (5, 4));
    assert!(first.capture_layers && first.capture_ffn);
    assert_eq!(c.accept(3, 6), Err("ANE position drift".to_string()));
    c.accept(4, 6).unwrap();
    let second = c.next(true, true).unwrap();
    assert_eq!((second.input, second.position), (6, 5));
    assert!(!second.capture_layers && second.capture_ffn);
    c.accept(5, 9).unwrap();
    assert!(c.next(true, true).is_none());
    assert_eq!(c.generated(), &[5, 6, 9]);
    let mut limited = Continuation::begin(1, 2, vec![], 5);
    limited.accept(1, 6).unwrap();
    assert!(limited.next(false, false).is_none());
}

#[test]
fn a_request_ends_with_its_match_and_its_tail() {
    assert_eq!(matches_reference(&vec![1, 2], &Some(vec![1, 2])), Some(true));
    assert_eq!(matches_reference(&vec![1, 2], &Some(vec![1])), Some(false));
    assert_eq!(matches_reference(&vec![1], &None), None);
    assert_eq!(
        require_match(Some(false), &Some("r.json".into())),
        Err("ANE continuation differs from r.json".to_string())
    );
    assert_eq!(
        require_match(Some(false), &None),
        Err("reference path missing".to_string())
    );
    assert!(require_match(None, &None).is_ok());
    assert_eq!(compiler_calls(3, 5), Ok(2));
    assert!(compiler_calls(5, 3).is_err());
    assert_eq!(unstreamed_tail("hello", "he"), Ok("llo".to_string()));
    assert!(unstreamed_tail("hello", "ho").is_err());
}

#[test]
fn reports_claim_qualification_only_for_complete_matches() {
    let case = |matched, decode_steps| CaseOutcome { matched, decode_steps };
    let mut session = Session::open(false, false, 2);
    session.record(case(Some(true), 3)).unwrap();
    let half = session.report();
    assert!(half.all_references_match && !half.qualification_complete);
    assert!(half.ane_execution_verified && half.decode_claimed);
    session.record(case(Some(true), 0)).unwrap();
    let full = session.report();
    assert!(full.qualification_complete && full.inference_complete);
    assert_eq!((full.references_requested, full.references_completed), (2, 2));
    let mut text = Session::open(true, true, 0);
    text.record(case(None, 1)).unwrap();
    text.record(case(None, 0)).unwrap();
    let open = text.report();
    assert_eq!(text.cases.len(), 1);
    assert_eq!(open.requests_completed, 2);
    assert!(!open.all_references_match && !open.inference_complete);
    assert!(open.ane_execution_verified && !open.decode_claimed);
}

#[test]
fn prefills_keep_their_command_contract() {
    let before = PrefillCounters { prefill_steps: 4, decode_steps: 7, command_buffers: 9 };
    let after = PrefillCounters { prefill_steps: 5, decode_steps: 7, command_buffers: 10 };
    let answer = PrefillAnswer { req_id: 1, next_position: 6, first_token: 42 };
    assert!(command_contract(before, after, 1, 6, answer));
    assert!(!command_contract(after, before, 1, 6, answer));
    assert!(!command_contract(before, after, 2, 6, answer));
    assert!(!command_contract(before, after, 1, 5, answer));
    let decoded = PrefillCounters { decode_steps: 8, ..after };
    assert!(!command_contract(before, decoded, 1, 6, answer));
    assert!(check_prefill(true, None, true, true, 42, Some(42)).is_ok());
    assert_eq!(
        check_prefill(true, None, false, false, 42, Some(43)),
        Err("Metal first token 42 differs from reference 43".to_string())
    );
    assert!(check_prefill(false, None, false, false, 42, None).is_err());
    assert_eq!(check_prefill(true, Some("mixed"), false, false, 1, None), Err("mixed".into()));
    assert_eq!(
        check_prefill(true, None, true, false, 1, None),
        Err("capture directory missing".to_string())
    );
}

#[test]
fn kernels_default_to_the_qualified_prefill() {
    let none = KernelChoice {
        prefill_mma32: false,
        prefill_simd_attention: false,
        quantized_bf16_accumulation: false,
    };
    let chosen = resolve_kernels(none, false, true).unwrap();
    assert!(chosen.prefill_mma32 && !chosen.prefill_simd_attention);
    let quantized = KernelChoice { quantized_bf16_accumulation: true, ..none };
    assert!(resolve_kernels(quantized, false, false).is_err());
}

#[test]
fn captured_values_are_written_little_endian() {
    assert_eq!(seed_file(3, false), "layer-03-key.fp16");
    assert_eq!(seed_file(47, true), "layer-47-value.fp16");
    assert_eq!(capture_file(12, 3, false), "ane-position-12-layer-03.fp16");
    assert_eq!(capture_file(12, 103, true), "ane-position-12-layer-103-ffn-input.fp16");
    let values = [half::f16::ONE, half::f16::from_f32(-0.5)];
    let (bytes, digest) = encode_f16(&values.iter().map(|v| v.to_bits()).collect());
    assert_eq!(bytes, [0x00, 0x3c, 0x00, 0xb8]);
    assert_eq!(digest, format!("{:x}", sha2::Sha256::digest(&bytes)));
}

#[test]
fn reports_name_what_a_run_was_asked() {
    let parse = |list: &[&str]| {
        let args = list.iter().map(|s| s.to_string()).collect();
        parse_options(&args).unwrap().unwrap()
    };
    let plain = parse(&["--prompt", "hi"]);
    assert_eq!(plain.execution_order(), "all-prefills-then-decode");
    assert_eq!(
        plain.metal_residency(),
        "released-after-all-prefills-before-ane-load"
    );
    assert_eq!(plain.case_history(), "all-requests");
    let open = parse(&["--interactive", "true"]);
    assert_eq!(open.execution_order(), "prefill-decode-per-request");
    assert_eq!(open.metal_residency(), "retained-through-ane-decode");
    assert!(open.case_history().starts_with("latest-request-only"));
    for name in ["baseline", "reuse-scratch", "cpu-kv-blocked32"] {
        let o = parse(&["--kv-import-packing", name]);
        assert_eq!(o.kv_import_packing.name(), name);
    }
    assert_eq!(workload_digest(&vec![1, 22]), sha256_text(b"[1,22]"));
    assert_eq!(workload_digest(&vec![]), sha256_text(b"[]"));
}
