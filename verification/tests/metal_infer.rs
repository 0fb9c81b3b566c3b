//! The Metal text inference workflow.
use rvllm_runtime::metal_infer::args::{
    parse_args_from as parse_list, parse_session_backend, parse_token_ids, usage, CliArgs,
    FinishReason, SessionBackend,
};
use rvllm_runtime::metal_infer::budget::{
    default_max_total_tokens, effective_max_total_tokens, env_configured_max_total_tokens,
    parse_max_total_tokens, parse_positive_usize, validate_token_budget, validate_u32_count,
    EnvValue,
};
use rvllm_runtime::metal_infer::cases::{
    flag_value, load_jsonl_session_cases, load_manifest_session_cases, load_session_case_specs,
    missing_reference, prepare_session_case, resolve_relative_path, session_case_from_value,
    validate_unique_case_names, CaseSource, SessionCaseSpec,
};
use rvllm_runtime::metal_infer::engine_session::{
    EngineSession, EngineSessionCall, EngineSessionReply,
};
use rvllm_runtime::metal_infer::charsmap::{check_map, octets_of};
use rvllm_runtime::metal_infer::generation::{
    check_case_timeout, decode_handoff, prefill_handoff, Generation, GenerationCall,
    GenerationReply,
};
use rvllm_runtime::metal_infer::logits::{sample_label, select_top_logits};
use rvllm_runtime::metal_infer::reference::{
    compare_hf_reference_parts, json_u32_array, parse_hf_reference, HfReference,
};
use rvllm_runtime::metal_infer::session::{
    case_status, decode_text, direct_environment, engine_environment, finish_reason,
    large_model_opted_in, max_session_new_tokens, max_session_supported_total_tokens,
    prompt_from_ids, prompt_token_ids, rollout_tokens, session_batch_sequence_capacity,
    session_batch_token_capacity, session_status, single_environment, single_prompt,
    stats_delta, text_from_answer, tokenize_prompt, tokenizer_path, CaseSize,
    MetalProbePerfStats, SharedOutputs,
};
use rvllm_runtime::metal_infer::tokenizer::{can_decode, can_encode, is_settled};
use serde_json::Value;

const MAX_TOTAL_TOKENS_ENV: &str = "RVLLM_METAL_MAX_TOTAL_TOKENS";

fn value(text: &str) -> Value {
    serde_json::from_str(text).unwrap()
}

fn parse_args_from(list: &[&str]) -> Result<CliArgs, String> {
    parse_list(&list.iter().map(|s| s.to_string()).collect())
}

#[test]
fn rvllm_metal_infer_cli_args() {
    let args = parse_args_from(&[
        "--model-dir",
        "/tmp/gemma4-e2b",
        "--prompt",
        "Hello",
        "--max-new-tokens",
        "4",
        "--max-total-tokens",
        "32",
        "--eos-token-ids",
        "1,2,107",
        "--no-bos",
        "--large-model-opt-in",
        "--hf-reference",
        "/tmp/ref.json",
        "--json",
    ])
    .expect("parse CLI args");
    assert_eq!(args.model_dir, "/tmp/gemma4-e2b");
    assert_eq!(args.prompt.as_deref(), Some("Hello"));
    assert_eq!(args.prompts_jsonl, None);
    assert_eq!(args.reference_manifest, None);
    assert_eq!(args.session_backend, SessionBackend::Direct);
    assert_eq!(args.max_new_tokens, 4);
    assert_eq!(args.max_total_tokens, Some(32));
    assert_eq!(args.eos_token_ids, vec![1, 2, 107]);
    assert!(args.no_bos);
    assert!(args.large_model_opt_in);
    assert_eq!(args.hf_reference.as_deref(), Some("/tmp/ref.json"));
    assert_eq!(args.report, None);
    assert_eq!(args.case_timeout_seconds, None);
    assert_eq!(args.profile_samples, 0);
    assert_eq!(args.profile_report, None);
    assert!(args.json_output);

    let session = parse_args_from(&[
        "--model-dir",
        "/tmp/gemma4-e2b",
        "--prompts-jsonl",
        "/tmp/prompts.jsonl",
        "--session-backend",
        "engine",
        "--report",
        "/tmp/session.json",
        "--case-timeout-seconds",
        "600",
        "--profile-samples",
        "2",
        "--profile-report",
        "/tmp/profile.json",
        "--json",
    ])
    .expect("parse session CLI args");
    assert_eq!(session.prompt, None);
    assert_eq!(session.prompts_jsonl.as_deref(), Some("/tmp/prompts.jsonl"));
    assert_eq!(session.session_backend, SessionBackend::Engine);
    assert_eq!(session.report.as_deref(), Some("/tmp/session.json"));
    assert_eq!(session.case_timeout_seconds, Some(600));
    assert_eq!(session.profile_samples, 2);
    assert_eq!(session.profile_report.as_deref(), Some("/tmp/profile.json"));

    let err = parse_args_from(&["--model-dir", "/tmp/gemma4-e2b", "--prompt", ""])
        .expect_err("empty prompt should fail");
    assert!(err.contains("--prompt must not be empty"));

    let err = parse_args_from(&[
        "--model-dir",
        "/tmp/gemma4-e2b",
        "--prompt",
        "Hello",
        "--max-new-tokens",
        "0",
    ])
    .expect_err("zero max tokens should fail");
    assert!(err.contains("--max-new-tokens must be positive"));

    let args = parse_args_from(&[
        "--model-dir",
        "/tmp/gemma4-e2b",
        "--prompt",
        "Hello",
        "--max-total-tokens",
        "4096",
    ])
    .expect("large total token cap should parse");
    assert_eq!(args.max_total_tokens, Some(4096));

    let err = parse_args_from(&["--model-dir", "/tmp/gemma4-e2b"])
        .expect_err("input mode should be required");
    assert!(err.contains("exactly one"));

    let err = parse_args_from(&[
        "--model-dir",
        "/tmp/gemma4-e2b",
        "--prompt",
        "Hello",
        "--prompts-jsonl",
        "/tmp/prompts.jsonl",
    ])
    .expect_err("input modes should be mutually exclusive");
    assert!(err.contains("exactly one"));

    let err = parse_args_from(&[
        "--model-dir",
        "/tmp/gemma4-e2b",
        "--prompt",
        "Hello",
        "--report",
        "/tmp/session.json",
    ])
    .expect_err("single prompt should not take session report");
    assert!(err.contains("--report is only valid"));

    let err = parse_args_from(&[
        "--model-dir",
        "/tmp/gemma4-e2b",
        "--prompt",
        "Hello",
        "--case-timeout-seconds",
        "600",
    ])
    .expect_err("single prompt should not take a case timeout");
    assert!(err.contains("--case-timeout-seconds is only valid"));

    let err = parse_args_from(&[
        "--model-dir",
        "/tmp/gemma4-e2b",
        "--prompts-jsonl",
        "/tmp/prompts.jsonl",
        "--case-timeout-seconds",
        "0",
    ])
    .expect_err("zero case timeout should fail");
    assert!(err.contains("--case-timeout-seconds must be positive"));
}

#[test]
fn arguments_name_what_they_cannot_read() {
    assert_eq!(parse_session_backend("engine"), Ok(SessionBackend::Engine));
    assert!(parse_session_backend("Engine").is_err());
    assert_eq!(SessionBackend::Direct.as_str(), "direct");
    assert_eq!(FinishReason::Eos.as_str(), "eos");
    assert_eq!(parse_token_ids("--eos", "1, 2"), Ok(vec![1, 2]));
    assert!(parse_token_ids("--eos", "1,x").unwrap_err().contains("--eos"));
    assert!(parse_args_from(&["--what"]).is_err());
    assert!(parse_args_from(&["--model-dir"]).is_err());
    assert!(usage().starts_with("usage: rvllm_metal_infer"));
}

fn session_args() -> CliArgs {
    CliArgs {
        model_dir: "/tmp/gemma4-e2b".into(),
        prompt: None,
        prompts_jsonl: Some("/tmp/cases/prompts.jsonl".into()),
        reference_manifest: None,
        session_backend: SessionBackend::Direct,
        max_new_tokens: 3,
        max_total_tokens: Some(32),
        eos_token_ids: vec![1, 2, 107],
        no_bos: true,
        large_model_opt_in: true,
        hf_reference: None,
        report: None,
        case_timeout_seconds: None,
        profile_samples: 0,
        profile_report: None,
        top_logits: 0,
        json_output: true,
    }
}

fn jsonl(text: &str) -> Result<Vec<SessionCaseSpec>, String> {
    load_jsonl_session_cases(&session_args(), "/tmp/cases/prompts.jsonl", "/tmp/cases", text)
}

#[test]
fn rvllm_metal_infer_jsonl_session_cases_validate_and_default() {
    let cases = jsonl(
        "{\"name\":\"a\",\"prompt\":\"Hello\",\"max_new_tokens\":1,\"no_bos\":false}\n\
         {\"prompt\":\"Once upon a time\",\"reference_path\":\"ref.json\"}\n",
    )
    .expect("load JSONL cases");
    assert_eq!(cases.len(), 2);
    assert_eq!(cases[0].name, "a");
    assert_eq!(cases[0].prompt, "Hello");
    assert_eq!(cases[0].max_new_tokens, 1);
    assert!(!cases[0].no_bos);
    assert_eq!(cases[0].max_total_tokens, Some(32));
    assert_eq!(cases[1].name, "case_2");
    assert_eq!(cases[1].max_new_tokens, 3);
    assert!(cases[1].no_bos);
    assert_eq!(cases[1].hf_reference.as_deref(), Some("/tmp/cases/ref.json"));
}

#[test]
fn rvllm_metal_infer_jsonl_duplicate_names_fail() {
    let err = jsonl(
        "{\"name\":\"same\",\"prompt\":\"Hello\"}\n{\"name\":\"same\",\"prompt\":\"Bye\"}\n",
    )
    .expect_err("duplicates should fail");
    assert!(err.contains("duplicate session case name"));
}

#[test]
fn jsonl_faults_are_named() {
    assert!(jsonl("").is_err());
    assert!(jsonl("{\n").unwrap_err().contains("/tmp/cases/prompts.jsonl"));
    assert!(jsonl("{\"name\":\"a\"}\n").is_err());
    assert!(jsonl("{\"prompt\":\"x\",\"max_new_tokens\":0}\n").is_err());
    assert!(jsonl("{\"prompt\":\"x\",\"no_bos\":1}\n").is_err());
    let one = session_case_from_value(&value("{\"prompt\":\"x\"}"), "d", "/b", &session_args());
    assert_eq!(one.unwrap().name, "d");
}

fn manifest(text: &str) -> Result<Vec<SessionCaseSpec>, String> {
    let mut args = session_args();
    args.prompts_jsonl = None;
    args.reference_manifest = Some("/tmp/m/references.json".into());
    load_manifest_session_cases(&args, "/tmp/m/references.json", "/tmp/m", text)
}

#[test]
fn rvllm_metal_infer_reference_manifest_cases_validate() {
    let cases = manifest(
        r#"{
            "schema": "rvllm.gemma4_e2b_hf_text_reference_suite.v1",
            "output_dir": "/tmp/rvllm-reference-fixtures",
            "cases": [
                {
                    "name": "text_reference_hello_step1",
                    "prompt_text": "Hello",
                    "decode_steps": 1,
                    "output": "hello.json"
                }
            ]
        }"#,
    )
    .expect("load manifest cases");
    assert_eq!(cases.len(), 1);
    assert_eq!(cases[0].prompt, "Hello");
    assert_eq!(cases[0].max_new_tokens, 1);
    assert_eq!(
        cases[0].hf_reference.as_deref(),
        Some("/tmp/rvllm-reference-fixtures/hello.json")
    );
}

#[test]
fn rvllm_metal_infer_reference_manifest_missing_case_name_fails() {
    let err = manifest(
        r#"{
            "schema": "rvllm.gemma4_e2b_hf_text_reference_suite.v1",
            "cases": [
                {
                    "prompt_text": "Hello",
                    "decode_steps": 1,
                    "output": "hello.json"
                }
            ]
        }"#,
    )
    .expect_err("manifest case names should be required");
    assert!(err.contains("missing required non-empty name"));
}

#[test]
fn sessions_have_one_source_and_distinct_cases() {
    let args = session_args();
    assert!(matches!(
        load_session_case_specs(&args),
        Ok(CaseSource::PromptsJsonl(path)) if path == "/tmp/cases/prompts.jsonl"
    ));
    let mut none = session_args();
    none.prompts_jsonl = None;
    assert!(load_session_case_specs(&none).is_err());
    let case = |name: &str| SessionCaseSpec {
        name: name.into(),
        prompt: "x".into(),
        max_new_tokens: 1,
        max_total_tokens: Some(8),
        no_bos: false,
        hf_reference: None,
    };
    assert!(validate_unique_case_names(&vec![case("a"), case("b")]).is_ok());
    assert!(validate_unique_case_names(&vec![case("a"), case("a")]).is_err());
    let missing = EnvValue::Missing;
    assert_eq!(prepare_session_case(&case("a"), 7, &missing, &missing), Ok(8));
    assert!(prepare_session_case(&case("a"), 8, &missing, &missing).is_err());
    assert!(missing_reference("a", "/r").contains("/r"));
    assert_eq!(resolve_relative_path("/b", "c/d"), "/b/c/d");
    assert_eq!(resolve_relative_path("/b", "/c"), "/c");
    let command: Vec<String> = ["x", "--a", "1"].iter().map(|s| s.to_string()).collect();
    assert_eq!(flag_value(&command, "--a").as_deref(), Some("1"));
    assert_eq!(flag_value(&command, "--b"), None);
}

#[test]
fn rvllm_metal_infer_token_budget_reports_current_limit() {
    validate_token_budget(31, 1, 32).expect("configured budget edge should pass");
    let err = validate_token_budget(31, 2, 32).expect_err("budget overflow should fail");
    assert!(err.contains("prompt token count + max_new_tokens <= 32"));

    let overflow = validate_token_budget(usize::MAX, 1, u32::MAX as usize)
        .expect_err("usize overflow must fail");
    assert!(overflow.contains("overflow"));
}

#[test]
fn rvllm_metal_infer_env_token_limit_parser_accepts_configured_context() {
    assert_eq!(
        parse_max_total_tokens(MAX_TOTAL_TOKENS_ENV, "16").expect("default cap parses"),
        16
    );
    assert_eq!(
        parse_max_total_tokens(MAX_TOTAL_TOKENS_ENV, "4096").expect("large cap parses"),
        4096
    );
    let err = parse_max_total_tokens(MAX_TOTAL_TOKENS_ENV, "0").expect_err("zero cap should fail");
    assert!(err.contains("must be positive"));
    let err = validate_token_budget(31, 2, 32).expect_err("configured budget should fail");
    assert!(err.contains("prompt token count + max_new_tokens <= 32"));
    if usize::BITS > 32 {
        let too_large = (u32::MAX as u64 + 1).to_string();
        let err = parse_max_total_tokens(MAX_TOTAL_TOKENS_ENV, &too_large)
            .expect_err("u32 metadata narrowing must fail");
        assert!(err.contains("at most"));
    }
}

#[test]
fn limits_come_from_the_option_the_environment_or_the_need() {
    let set = |text: &str| EnvValue::Text(text.into());
    let missing = EnvValue::Missing;
    assert_eq!(env_configured_max_total_tokens(&set(" 64 "), &set("9")), Ok(Some(64)));
    assert_eq!(env_configured_max_total_tokens(&missing, &set("9")), Ok(Some(9)));
    assert_eq!(env_configured_max_total_tokens(&missing, &missing), Ok(None));
    assert!(env_configured_max_total_tokens(&EnvValue::NotUnicode, &missing)
        .unwrap_err()
        .contains("must be valid UTF-8"));
    assert!(default_max_total_tokens(9, &set("x"), &missing).is_err());
    assert_eq!(effective_max_total_tokens(Some(7), 9, &set("64"), &missing), Ok(7));
    assert_eq!(effective_max_total_tokens(None, 9, &set("64"), &missing), Ok(64));
    assert_eq!(parse_positive_usize("--n", "+3"), Ok(3));
    assert!(parse_positive_usize("--n", "3 ").unwrap_err().contains("\"3 \""));
    assert!(validate_u32_count("count", u32::MAX as usize).is_ok());
    assert!(validate_u32_count("count", u32::MAX as usize + 1).is_err());
}

fn reference(generated: Vec<u32>) -> HfReference {
    HfReference {
        path: "/tmp/ref.json".into(),
        prompt_token_ids: vec![2, 4],
        decode_steps: 1,
        generated_tokens: generated,
    }
}

#[test]
fn rvllm_metal_infer_hf_reference_compare_reports_mismatch() {
    let comparison =
        compare_hf_reference_parts(&vec![2, 4], 1, &vec![954], &reference(vec![145832]));
    assert!(!comparison.matched);
    assert!(comparison
        .mismatches
        .iter()
        .any(|item| item.contains("generated_token_ids differ")));
}

#[test]
fn references_are_compared_in_every_part() {
    let good = compare_hf_reference_parts(&vec![2, 4], 1, &vec![7], &reference(vec![7]));
    assert!(good.matched && good.mismatches.is_empty());
    let bad = compare_hf_reference_parts(&vec![2], 3, &vec![7], &reference(vec![8]));
    assert_eq!(bad.mismatches.len(), 3);
    assert_eq!(bad.mismatches[0], "prompt_token_ids differ: metal=[2] reference=[2, 4]");
    assert_eq!(case_status(&Some(good)), "pass");
    assert_eq!(case_status(&None), "pass");
    assert_eq!(session_status(&vec![None, Some(bad)]), "fail");
}

fn reference_text(steps: usize, generated: &str) -> String {
    format!(
        "{{\"prompt_token_ids\":[2,9259],\"decode_steps\":{steps},\
         \"generated_tokens\":{generated}}}"
    )
}

#[test]
fn checked_in_e2b_reference_artifacts_are_consistent() {
    let parse = |steps, generated| {
        parse_hf_reference("reference.json", &reference_text(steps, generated))
            .expect("parse E2B reference")
    };
    let step1 = parse(1, "[236764]");
    let steps2 = parse(2, "[236764,108]");
    let steps4 = parse(4, "[236764,108,236777,735]");
    assert_eq!(step1.prompt_token_ids, vec![2, 9259]);
    assert_eq!(steps2.prompt_token_ids, step1.prompt_token_ids);
    assert_eq!(steps4.prompt_token_ids, step1.prompt_token_ids);
    assert_eq!(step1.generated_tokens, steps2.generated_tokens[..1]);
    assert_eq!(steps2.generated_tokens, steps4.generated_tokens[..2]);
    assert_eq!(steps4.generated_tokens, vec![236764, 108, 236777, 735]);
}

#[test]
fn references_name_what_they_lack() {
    let error = |text: &str| parse_hf_reference("r.json", text).unwrap_err();
    assert!(error("{").starts_with("parse HF reference r.json: "));
    assert_eq!(
        json_u32_array(&value("{\"a\":1}"), "a").unwrap_err(),
        "HF reference missing array field \"a\""
    );
    assert_eq!(
        json_u32_array(&value("{\"a\":[1,-1]}"), "a").unwrap_err(),
        "HF reference a[1] is not an unsigned integer"
    );
    assert_eq!(
        json_u32_array(&value("{\"a\":[4294967296]}"), "a").unwrap_err(),
        "HF reference a[0] exceeds u32: 4294967296"
    );
}

/// Answers decodes from a list of tokens.
fn generate(
    (mut generation, mut call): (Generation, GenerationCall),
    tokens: &[u32],
    seconds: u64,
) -> (Vec<u32>, Result<FinishReason, String>) {
    let mut next = tokens.iter().copied();
    loop {
        let reply = match call {
            GenerationCall::Prefill { .. } => GenerationReply::Sampled(vec![]),
            GenerationCall::Decode { .. } => {
                GenerationReply::Sampled(next.next().into_iter().collect())
            }
            GenerationCall::ReadClock => GenerationReply::Elapsed { seconds, nanos: 0 },
            GenerationCall::Finished { reason } => {
                return (generation.output_token_ids(), Ok(reason));
            }
            GenerationCall::Failed { error } => return (generation.into_generated(), Err(error)),
        };
        call = generation.resume(reply);
    }
}

#[test]
fn generations_stop_at_eos_or_at_their_limit() {
    let start = |limit| Generation::single(vec![2, 3], limit, vec![9]);
    let (ids, reason) = generate(start(3), &[5, 9, 7], 0);
    assert_eq!((ids, reason), (vec![2, 3, 5, 9], Ok(FinishReason::Eos)));
    let (ids, reason) = generate(start(2), &[5, 6, 7], 0);
    assert_eq!((ids, reason), (vec![2, 3, 5, 6], Ok(FinishReason::Length)));
    let (_, reason) = generate(start(2), &[], 0);
    assert!(reason.is_err());
    let case = Generation::session_case("slow", 1, vec![2], 4, vec![], Some(10));
    let (_, reason) = generate(case, &[5, 6, 7, 8], 11);
    assert!(reason.unwrap_err().contains("slow"));
    let case = Generation::session_case("fast", 1, vec![2], 2, vec![], Some(10));
    assert!(generate(case, &[5, 6], 3).1.is_ok());
    assert!(check_case_timeout(Some(10), "c", 10, 0).is_ok());
    assert!(check_case_timeout(Some(10), "c", 10, 1).is_err());
    assert!(check_case_timeout(Some(10), "c", 11, 0).is_err());
    assert!(check_case_timeout(None, "c", u64::MAX, 0).is_ok());
}

#[test]
fn handoffs_place_their_tokens() {
    let prefill = prefill_handoff(1, &vec![7, 8, 9]);
    assert_eq!(prefill.tokens, [7, 8, 9]);
    assert_eq!(prefill.cu_seqlens, [0, 3]);
    assert_eq!(prefill.context_lens, [3]);
    let decode = decode_handoff(1, 5, 3, 1);
    assert_eq!(decode.tokens, [5]);
    assert_eq!(decode.positions, [3]);
    assert_eq!(decode.context_lens, [4]);
}

const TOKENIZER: &str = r#"{
    "version": "1.0", "truncation": null, "padding": null, "added_tokens": [],
    "normalizer": null, "pre_tokenizer": {"type": "Whitespace"}, "post_processor": null,
    "decoder": null,
    "model": {
        "type": "WordLevel", "unk_token": "[UNK]",
        "vocab": {"[UNK]": 0, "hello": 4, "world": 5}
    }
}"#;

fn tokenizer() -> tokenizers::Tokenizer {
    TOKENIZER.parse().unwrap()
}

#[test]
fn prompts_are_tokenized_behind_their_first_token() {
    let t = tokenizer();
    assert_eq!(tokenize_prompt(&t, "hello world", false), Ok(vec![2, 4, 5]));
    assert_eq!(tokenize_prompt(&t, "world what", true), Ok(vec![5, 0]));
    assert_eq!(
        tokenize_prompt(&t, "", true),
        Err("prompt produced zero token IDs".to_string())
    );
    assert_eq!(tokenize_prompt(&t, "", false), Ok(vec![2]));
    assert_eq!(decode_text(&t, &vec![4, 5], "generated"), Ok("hello world".to_string()));
    assert_eq!(prompt_from_ids(Ok(vec![1]), false), Ok(vec![2, 1]));
    assert_eq!(
        prompt_from_ids(Err("bad".into()), false),
        Err("tokenize prompt: bad".to_string())
    );
    assert_eq!(
        text_from_answer(Err("bad".into()), "output"),
        Err("decode output token IDs: bad".to_string())
    );
    let mut args = session_args();
    assert!(single_prompt(&args).is_err());
    assert!(prompt_token_ids(&args, &t).is_err());
    args.prompt = Some("hello".into());
    assert_eq!(prompt_token_ids(&args, &t), Ok(vec![4]));
    assert_eq!(tokenizer_path("/m"), "/m/tokenizer.json");
}

fn configured(part: &str, document: &str) -> tokenizers::Tokenizer {
    let text = if part == "pre_tokenizer" {
        TOKENIZER.replace(r#"{"type": "Whitespace"}"#, document)
    } else {
        TOKENIZER.replace(
            &format!("\"{part}\": null"),
            &format!("\"{part}\": {document}"),
        )
    };
    text.parse().unwrap()
}

fn split(pattern: &str) -> String {
    format!(
        r#"{{"type": "Split", "pattern": {pattern}, "behavior": "Isolated", "invert": false}}"#
    )
}

fn replace(pattern: &str) -> String {
    format!(r#"{{"type": "Replace", "pattern": {pattern}, "content": "o"}}"#)
}

#[test]
fn accepted_configurations_change_what_is_encoded() {
    let t = configured("normalizer", &replace(r#"{"String": "a"}"#));
    assert_eq!(tokenize_prompt(&t, "hella warld", true), Ok(vec![4, 5]));
    let lower = configured("normalizer", r#"{"type": "Lowercase"}"#);
    assert_eq!(tokenize_prompt(&lower, "HELLO", true), Ok(vec![4]));
    let strip = r#"{"type": "Strip", "content": "h", "start": 1, "stop": 0}"#;
    let stripping = configured("decoder", strip);
    assert_eq!(decode_text(&stripping, &vec![4], "output"), Ok("ello".to_string()));
    assert!(is_settled(&t));
    let merges = |dropout: &str| {
        let model = format!(
            r#"{{"type": "BPE", "dropout": {dropout}, "unk_token": null,
                "continuing_subword_prefix": null, "end_of_word_suffix": null,
                "fuse_unk": false, "byte_fallback": false, "vocab": {{"h": 0, "i": 1}},
                "merges": []}}"#
        );
        let at = TOKENIZER.find(r#""model":"#).unwrap();
        let text = format!(r#"{}"model": {model}}}"#, &TOKENIZER[..at]);
        text.parse::<tokenizers::Tokenizer>().unwrap()
    };
    assert!(is_settled(&merges("null")));
    assert!(!is_settled(&merges("0.5")));
    assert_eq!(tokenize_prompt(&merges("null"), "hi", true), Ok(vec![0, 1]));
}

fn base64(bytes: &[u8]) -> String {
    let digits = b"ABCDEFGHIJKLMNOPQRSTUVWXYZabcdefghijklmnopqrstuvwxyz0123456789+/";
    let mut text = String::new();
    for group in bytes.chunks(3) {
        let at = |i: usize| u32::from(group.get(i).copied().unwrap_or(0));
        let bits = at(0) << 16 | at(1) << 8 | at(2);
        for i in 0..4 {
            if i <= group.len() {
                text.push(digits[(bits >> (18 - 6 * i) & 63) as usize] as char);
            } else {
                text.push('=');
            }
        }
    }
    text
}

/// A map of one letter: `H` leads to a leaf whose text begins at `value`.
fn charsmap(units: usize, value: u32, texts: &[u8]) -> String {
    let mut trie = vec![0u32; units];
    if units > 72 {
        trie[72] = (73 << 10) | (1 << 8) | 72;
        trie[1] = (1 << 31) | value;
    }
    let mut bytes = ((units * 4) as u32).to_le_bytes().to_vec();
    for unit in trie {
        bytes.extend(unit.to_le_bytes());
    }
    bytes.extend(texts);
    base64(&bytes)
}

#[test]
fn base64_texts_are_read() {
    for bytes in [&b""[..], b"f", b"fo", b"foo", b"\xff\x00\xfe\x80"] {
        assert_eq!(octets_of(&base64(bytes)), bytes);
    }
    assert_eq!(octets_of("Zm9vYg=="), b"foob");
    assert_eq!(octets_of("+/8="), [0xfb, 0xff]);
}

#[test]
fn precompiled_maps_stay_within_their_trie() {
    let mapped = |units: usize, value: u32, texts: &[u8]| {
        configured(
            "normalizer",
            &format!(
                r#"{{"type": "Precompiled", "precompiled_charsmap": "{}"}}"#,
                charsmap(units, value, texts)
            ),
        )
    };
    let t = mapped(256, 0, b"h\0");
    assert!(can_encode(&t));
    assert_eq!(tokenize_prompt(&t, "Hello world", true), Ok(vec![4, 5]));
    assert_eq!(tokenize_prompt(&tokenizer(), "Hello world", true), Ok(vec![0, 5]));
    let erased = mapped(256, 1, b"h\0");
    assert_eq!(tokenize_prompt(&erased, "HhelloH world", true).map(|ids| ids.len()), Ok(2));
    assert!(can_encode(&mapped(256, 2, b"h\0")));
    assert!(!can_encode(&mapped(256, 3, b"h\0")));
    assert!(can_encode(&mapped(256, 0, "\u{e9}\0".as_bytes())));
    assert!(!can_encode(&mapped(256, 1, "\u{e9}\0".as_bytes())));
    assert!(!can_encode(&mapped(255, 0, b"h\0")));
    assert!(!can_encode(&mapped(1, 0, b"")));
    assert!(!can_encode(&mapped(0, 0, b"")));
    assert!(!check_map(&vec![]));
}

#[test]
fn tokenizers_that_may_stop_are_refused() {
    let encodes = |part: &str, document: &str| can_encode(&configured(part, document));
    let decodes =
        |document: &str| can_decode(&configured("decoder", document), &vec![4, 5]);
    assert!(can_encode(&tokenizer()) && can_decode(&tokenizer(), &vec![]));
    let truncation = |length: usize, stride: usize| {
        encodes(
            "truncation",
            &format!(
                r#"{{"direction": "Right", "max_length": {length}, "strategy": "LongestFirst",
                    "stride": {stride}}}"#
            ),
        )
    };
    assert!(truncation(3, 2) && truncation(0, 5));
    assert!(!truncation(3, 3));
    let padding = |strategy: &str| {
        encodes(
            "padding",
            &format!(
                r#"{{"strategy": {strategy}, "direction": "Right", "pad_to_multiple_of": null,
                    "pad_id": 0, "pad_type_id": 0, "pad_token": "[PAD]"}}"#
            ),
        )
    };
    assert!(padding(r#""BatchLongest""#) && padding(r#"{"Fixed": 8}"#));
    assert!(!padding(r#"{"Fixed": 4294967296}"#));
    assert!(encodes("pre_tokenizer", r#"{"type": "FixedLength", "length": 2}"#));
    assert!(!encodes("pre_tokenizer", r#"{"type": "FixedLength", "length": 0}"#));
    assert!(!encodes(
        "pre_tokenizer",
        r#"{"type": "Sequence", "pretokenizers": [{"type": "FixedLength", "length": 0}]}"#
    ));
    assert!(encodes("pre_tokenizer", &split(r#"{"String": " "}"#)));
    assert!(encodes("pre_tokenizer", &split(r#"{"Regex": "\\d{1,3}"}"#)));
    assert!(!encodes("pre_tokenizer", &split(r#"{"Regex": "(?=a\\K)"}"#)));
    assert!(encodes("normalizer", r#"{"type": "Lowercase"}"#));
    assert!(encodes("normalizer", &replace(r#"{"String": " "}"#)));
    assert!(!encodes("normalizer", &replace(r#"{"String": ""}"#)));
    assert!(!encodes("normalizer", &replace(r#"{"Regex": "^"}"#)));
    let chain = format!(
        r#"{{"type": "Sequence", "normalizers": [{}, {{"type": "Lowercase"}}]}}"#,
        replace(r#"{"Regex": "^"}"#)
    );
    assert!(!encodes("normalizer", &chain));
    assert_eq!(
        tokenize_prompt(&configured("normalizer", &chain), "hello", true),
        Err("tokenize prompt: unsupported tokenizer configuration".to_string())
    );
    assert!(encodes("normalizer", r#"{"type": "Prepend", "prepend": "_"}"#));
    assert!(!encodes("normalizer", r#"{"type": "Prepend", "prepend": ""}"#));
    let added = |left: bool, right: bool| {
        let token = |id: usize, content: &str, lstrip: bool, rstrip: bool| {
            format!(
                r#"{{"id": {id}, "content": "{content}", "single_word": false,
                    "lstrip": {lstrip}, "rstrip": {rstrip}, "normalized": false,
                    "special": true}}"#
            )
        };
        let listed = format!(
            r#""added_tokens": [{}, {}]"#,
            token(6, "<m>", false, right),
            token(7, " ", left, false)
        );
        let text = TOKENIZER.replace(r#""added_tokens": []"#, &listed);
        can_encode(&text.parse().unwrap())
    };
    assert!(added(true, false) && added(false, true));
    assert!(!added(true, true));
    let template = |pieces: &str| {
        format!(
            r#"{{"type": "TemplateProcessing", "single": [{pieces}], "pair": [],
                "special_tokens": {{}}}}"#
        )
    };
    let first = r#"{"Sequence": {"id": "A", "type_id": 0}}"#;
    let second = r#"{"Sequence": {"id": "B", "type_id": 0}}"#;
    let twice = format!("{first}, {first}");
    assert!(encodes("post_processor", &template(first)));
    assert!(encodes("post_processor", &template(&twice)));
    assert!(!encodes("post_processor", &template(second)));
    let listed = |pieces: &str| {
        let document = template(pieces);
        encodes(
            "post_processor",
            &format!(r#"{{"type": "Sequence", "processors": [{document}]}}"#),
        )
    };
    assert!(listed(first) && listed(&twice));
    let both = |document: String| {
        encodes(
            "post_processor",
            &format!(r#"{{"type": "Sequence", "processors": [{document}, {document}]}}"#),
        )
    };
    assert!(both(template(first)));
    assert!(both(template(&twice)));
    assert!(!both(template(&format!("{twice}, {first}"))));
    assert!(!both(template("")));
    let strip = r#"{"type": "Strip", "content": "h", "start": 0, "stop": 1}"#;
    assert!(decodes(strip));
    assert!(decodes(r#"{"type": "Strip", "content": " ", "start": 1, "stop": 0}"#));
    let later = format!(r#"{{"type": "Sequence", "decoders": [{{"type": "Fuse"}}, {strip}]}}"#);
    assert!(!decodes(&later));
    let first_of = format!(r#"{{"type": "Sequence", "decoders": [{strip}, {{"type": "Fuse"}}]}}"#);
    assert!(decodes(&first_of));
    let ends = r#"{"type": "BPEDecoder", "suffix": "</w>"}"#;
    assert!(decodes(ends));
    assert!(!can_decode(&configured("decoder", ends), &vec![]));
    assert!(!can_decode(&configured("decoder", ends), &vec![77]));
    assert!(decodes(r#"{"type": "Replace", "pattern": {"Regex": "l+"}, "content": "r"}"#));
    assert!(!decodes(r#"{"type": "Replace", "pattern": {"Regex": "a\\Kb"}, "content": "r"}"#));
    assert!(decodes(
        r#"{"type": "Sequence", "decoders": [{"type": "ByteFallback"}, {"type": "Fuse"}]}"#
    ));
    let stops = configured(
        "pre_tokenizer",
        r#"{"type": "FixedLength", "length": 0}"#,
    );
    assert_eq!(
        tokenize_prompt(&stops, "hello", false),
        Err("tokenize prompt: unsupported tokenizer configuration".to_string())
    );
    let bare = configured("decoder", r#"{"type": "BPEDecoder", "suffix": "</w>"}"#);
    assert_eq!(
        decode_text(&bare, &vec![], "output"),
        Err("decode output token IDs: unsupported tokenizer configuration".to_string())
    );
    let short = configured(
        "truncation",
        r#"{"direction": "Right", "max_length": 1, "strategy": "LongestFirst", "stride": 0}"#,
    );
    assert_eq!(tokenize_prompt(&short, "hello world", true), Ok(vec![4]));
}

fn size(prompt: usize, fresh: usize, total: usize) -> CaseSize {
    CaseSize { prompt_tokens: prompt, max_new_tokens: fresh, max_supported_total_tokens: total }
}

#[test]
fn session_capacities_hold_every_case() {
    let cases = vec![size(3, 4, 16), size(9, 1, 32)];
    assert_eq!(max_session_supported_total_tokens(&cases), 32);
    assert_eq!(max_session_new_tokens(&cases), 4);
    assert_eq!(session_batch_token_capacity(&cases), Ok(12));
    assert_eq!(session_batch_sequence_capacity(&cases), 2);
    assert_eq!(session_batch_sequence_capacity(&vec![]), 1);
    assert!(session_batch_token_capacity(&vec![size(usize::MAX, 1, 1), size(1, 1, 1)]).is_err());
    let direct = direct_environment(&cases, true, false);
    assert!(direct.set_large_model);
    assert_eq!((direct.max_total_tokens, direct.max_batch_tokens), (32, 9));
    let engine = engine_environment(&cases, true, true).unwrap();
    assert!(!engine.set_large_model);
    assert_eq!((engine.max_batch_tokens, engine.max_batch_sequences), (12, 2));
    assert_eq!(single_environment(false, false, 8, 3).max_batch_tokens, 3);
    assert_eq!(rollout_tokens(7), Ok(7));
    assert!(rollout_tokens(u32::MAX as usize + 1).is_err());
    assert!(large_model_opted_in(false, true) && !large_model_opted_in(false, false));
}

#[test]
fn shared_outputs_belong_to_their_case() {
    let mut outputs = SharedOutputs::new(2);
    assert_eq!(outputs.record(2, 5, &vec![9]), Ok(false));
    assert_eq!(outputs.record(2, 9, &vec![9]), Ok(true));
    assert!(outputs.record(3, 5, &vec![9]).is_err());
    assert!(outputs.record(0, 5, &vec![9]).is_err());
    assert_eq!(outputs.generated, vec![vec![], vec![5, 9]]);
    assert_eq!(finish_reason(&vec![5, 9], &vec![9]), FinishReason::Eos);
    assert_eq!(finish_reason(&vec![], &vec![9]), FinishReason::Length);
}

#[test]
fn top_logits_are_ranked_by_value() {
    let logits = [0.5_f32, f32::NAN, -1.0, 3.0, 3.0, f32::INFINITY];
    let top = select_top_logits(&logits.iter().map(|x| x.to_bits()).collect(), 3);
    let found: Vec<(u32, f32)> =
        top.iter().map(|t| (t.token_id, f32::from_bits(t.logit_bits))).collect();
    assert_eq!(found, [(3, 3.0), (4, 3.0), (0, 0.5)]);
    assert_eq!(sample_label(Some(&value("{\"a\":\"x\"}")), "a"), "x");
    assert_eq!(sample_label(None, "a"), "unknown");
}

#[test]
fn counters_grow_and_readings_stay() {
    let zero = MetalProbePerfStats {
        last_step_gpu_execution_ns: None,
        prefill_steps: 0,
        decode_steps: 0,
        tokens: 0,
        library_compiles: 0,
        pipeline_state_compiles: 0,
        command_buffers: 0,
        encoders: 0,
        embedding_encoders: 0,
        ple_encoders: 0,
        layer_encoders: 0,
        layer_scale_encoder_fusions: 0,
        final_sample_encoders: 0,
        final_logits_encoders: 0,
        forced_waits: 0,
        cpu_wall_ns: 0,
        cpu_encode_ns: 0,
        command_buffer_wait_ns: 0,
        last_step_tokens: 0,
        last_step_command_buffers: 0,
        last_step_encoders: 0,
        last_step_forced_waits: 0,
        last_step_cpu_wall_ns: 0,
        last_step_cpu_encode_ns: 0,
        last_step_command_buffer_wait_ns: 0,
    };
    let before = MetalProbePerfStats { tokens: 5, encoders: 9, last_step_tokens: 3, ..zero };
    let after = MetalProbePerfStats { tokens: 8, encoders: 2, last_step_tokens: 4, ..zero };
    let delta = stats_delta(before, after);
    assert_eq!((delta.tokens, delta.encoders, delta.last_step_tokens), (3, 0, 4));
}

fn engine_session(
    limits: Vec<usize>,
    steps: &[&[(u64, u32)]],
    seconds: u64,
) -> (Vec<Vec<u32>>, Result<Vec<u64>, String>) {
    let names = (0..limits.len()).map(|i| format!("case_{i}")).collect();
    let (mut session, mut call) = EngineSession::begin(names, limits, vec![9], Some(10));
    let mut next = 0;
    let mut finished = vec![];
    loop {
        let reply = match call {
            EngineSessionCall::Enqueue { .. } => EngineSessionReply::Done,
            EngineSessionCall::HasPendingWork => {
                EngineSessionReply::Pending { pending: next < steps.len() }
            }
            EngineSessionCall::Step => {
                next += 1;
                EngineSessionReply::Stepped { outputs: steps[next - 1].to_vec() }
            }
            EngineSessionCall::FinishRequest { req_id } => {
                finished.push(req_id);
                EngineSessionReply::Done
            }
            EngineSessionCall::ReadClock => EngineSessionReply::Elapsed { seconds, nanos: 0 },
            EngineSessionCall::Completed => return (session.into_generated(), Ok(finished)),
            EngineSessionCall::Failed { error } => {
                return (session.into_generated(), Err(error));
            }
        };
        call = session.resume(reply);
    }
}

#[test]
fn engine_sessions_give_each_output_to_its_case() {
    let (tokens, outcome) =
        engine_session(vec![2, 2], &[&[], &[(1, 5), (2, 9)], &[(1, 6)]], 0);
    assert_eq!(tokens, vec![vec![5, 6], vec![9]]);
    assert_eq!(outcome, Ok(vec![2]));
    let (_, outcome) = engine_session(vec![2], &[&[(2, 5)]], 0);
    assert_eq!(outcome, Err("Engine session returned unknown request id 2".to_string()));
    let (_, outcome) = engine_session(vec![2], &[&[(1, 5)]], 11);
    assert_eq!(outcome, Err("session case case_0 timed out after 10s".to_string()));
    let (_, outcome) = engine_session(vec![1, u32::MAX as usize + 1], &[], 0);
    assert_eq!(
        outcome,
        Err("session case case_1 max_new_tokens must be at most 4294967295".to_string())
    );
}
