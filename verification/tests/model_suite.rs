//! The model suite: manifests, commands, gates and verdicts.
use rvllm_runtime::model_suite::{
    case_command, case_start, case_verdict, optional_bool, optional_usize, parse_args, parse_case,
    parse_json_from_stdout, parse_manifest, performance_gate_failures, required_string,
    summarize_suite, usage, wait_step, CaseStart, GateFailure, Metric, SuiteCase, WaitStep,
    DEFAULT_MAX_TOTAL_TOKENS,
};
use serde_json::Value;

fn value(text: &str) -> Value {
    serde_json::from_str(text).unwrap()
}

fn strings(list: &[&str]) -> Vec<String> {
    list.iter().map(|s| s.to_string()).collect()
}

fn bits(number: f64) -> Option<u64> {
    Some(number.to_bits())
}

#[test]
fn parse_manifest_rejects_duplicate_names() {
    let raw = r#"{
        "schema": "rvllm.apple_metal_model_suite_manifest.v1",
        "cases": [
            {"name":"same","model_dir":"/tmp/a","prompt":"Hello"},
            {"name":"same","model_dir":"/tmp/b","prompt":"Hello"}
        ]
    }"#;
    let err = parse_manifest(raw).expect_err("duplicate names must fail");
    assert!(err.contains("duplicate case name"));
}

#[test]
fn parse_manifest_accepts_minimal_case() {
    let raw = r#"{
        "schema": "rvllm.apple_metal_model_suite_manifest.v1",
        "cases": [
            {"name":"e2b","model_dir":"/tmp/model","prompt":"Hello"}
        ]
    }"#;
    let cases = parse_manifest(raw).expect("manifest should parse");
    assert_eq!(cases.len(), 1);
    assert_eq!(cases[0].max_new_tokens, 1);
    assert_eq!(cases[0].max_total_tokens, DEFAULT_MAX_TOTAL_TOKENS);
    assert!(cases[0].required);
    assert_eq!(cases[0].min_tok_per_s, None);
    assert_eq!(cases[0].max_prefill_ms, None);
    assert_eq!(cases[0].max_decode_ms, None);
}

#[test]
fn parse_manifest_accepts_optional_missing_case_marker() {
    let raw = r#"{
        "schema": "rvllm.apple_metal_model_suite_manifest.v1",
        "cases": [
            {"name":"missing","model_dir":"/tmp/model","prompt":"Hello","required":false}
        ]
    }"#;
    let cases = parse_manifest(raw).expect("manifest should parse");
    assert!(!cases[0].required);
}

#[test]
fn parse_manifest_rejects_expected_error_contract() {
    let raw = r#"{
        "schema": "rvllm.apple_metal_model_suite_manifest.v1",
        "cases": [
            {
                "name":"moe",
                "model_dir":"/tmp/model",
                "prompt":"Hello",
                "expected_error_contains":"unsupported MoE marker"
            }
        ]
    }"#;
    let err = parse_manifest(raw).expect_err("expected_error_contains must be rejected");
    assert!(err.contains("expected_error_contains"));
}

#[test]
fn parse_manifest_accepts_performance_gates() {
    let raw = r#"{
        "schema": "rvllm.apple_metal_model_suite_manifest.v1",
        "cases": [
            {
                "name":"e2b",
                "model_dir":"/tmp/model",
                "prompt":"Hello",
                "min_tok_per_s":20.0,
                "max_prefill_ms":500.0,
                "max_decode_ms":250.0
            }
        ]
    }"#;
    let cases = parse_manifest(raw).expect("performance gates should parse");
    assert_eq!(cases[0].min_tok_per_s, bits(20.0));
    assert_eq!(cases[0].max_prefill_ms, bits(500.0));
    assert_eq!(cases[0].max_decode_ms, bits(250.0));
}

#[test]
fn parse_manifest_rejects_nonpositive_performance_gate() {
    for field in ["min_tok_per_s", "max_prefill_ms", "max_decode_ms"] {
        let raw = format!(
            r#"{{
                "schema": "rvllm.apple_metal_model_suite_manifest.v1",
                "cases": [
                    {{"name":"e2b","model_dir":"/tmp/model","prompt":"Hello","{field}":0}}
                ]
            }}"#
        );
        let err = parse_manifest(&raw).expect_err("zero performance gate must fail");
        assert!(err.contains(field), "{err}");
        assert!(err.contains("finite and positive"), "{err}");
    }
}

fn gated() -> SuiteCase {
    SuiteCase {
        name: "e2b".to_owned(),
        model_dir: "/tmp/model".to_owned(),
        prompt: "Hello".to_owned(),
        max_new_tokens: 4,
        max_total_tokens: 16,
        required: true,
        large_model_opt_in: false,
        no_bos: false,
        hf_reference: None,
        timeout_seconds: 60,
        min_tok_per_s: bits(20.0),
        max_prefill_ms: bits(500.0),
        max_decode_ms: bits(250.0),
    }
}

#[test]
fn performance_gates_fail_closed_on_regression_or_missing_metric() {
    let case = gated();
    assert!(performance_gate_failures(
        &value("{\"tok_per_s\":25.0,\"prefill_ms\":400.0,\"decode_ms\":160.0}"),
        &case,
    )
    .is_empty());
    let slow = performance_gate_failures(
        &value("{\"tok_per_s\":12.0,\"prefill_ms\":600.0,\"decode_ms\":300.0}"),
        &case,
    );
    assert_eq!(slow.len(), 3);
    let missing = performance_gate_failures(&value("{}"), &case);
    assert_eq!(missing.len(), 3);
}

#[test]
fn gate_failures_say_what_was_measured() {
    let mixed = value("{\"tok_per_s\":12,\"prefill_ms\":500,\"decode_ms\":\"fast\"}");
    let failures = performance_gate_failures(&mixed, &gated());
    assert_eq!(failures.len(), 2);
    assert_eq!(
        failures[0],
        GateFailure::BelowMinimum {
            metric: Metric::TokPerS,
            actual: 12.0_f64.to_bits(),
            minimum: 20.0_f64.to_bits()
        }
    );
    assert_eq!(failures[1], GateFailure::Missing { metric: Metric::DecodeMs });
    assert_eq!(Metric::DecodeMs.name(), "decode_ms");
}

#[test]
fn manifests_name_what_they_lack() {
    let error = |raw: &str| parse_manifest(raw).unwrap_err();
    assert_eq!(error("{}"), "manifest missing schema");
    assert!(error("{").starts_with("parse manifest json: "));
    let empty = r#"{"schema":"rvllm.apple_metal_model_suite_manifest.v1","cases":[]}"#;
    assert!(!error(empty).is_empty());
    let case = value("{\"name\":\"\",\"model_dir\":\"/m\",\"prompt\":\"x\"}");
    assert!(parse_case(0, &case, &vec![]).is_err());
    let zero = value("{\"name\":\"a\",\"model_dir\":\"/m\",\"prompt\":\"x\",\"timeout_seconds\":0}");
    assert!(parse_case(0, &zero, &vec![]).is_err());
    assert!(required_string(&case, "prompt", 0).is_ok());
    assert!(required_string(&case, "absent", 3).unwrap_err().contains("absent"));
    assert_eq!(optional_bool(&value("{\"b\":true}"), "b"), Some(true));
    assert_eq!(optional_usize(&value("{\"n\":3}"), "n"), Ok(Some(3)));
    assert!(optional_usize(&value("{\"n\":-3}"), "n").is_err());
}

#[test]
fn arguments_need_a_manifest() {
    let parsed = parse_args(&strings(&["--manifest", "m.json", "--json"])).unwrap();
    assert_eq!(parsed.manifest, "m.json");
    assert!(parsed.json_output && parsed.report.is_none());
    let reported =
        parse_args(&strings(&["--report", "r.json", "--manifest", "m.json"])).unwrap();
    assert_eq!(reported.report.as_deref(), Some("r.json"));
    assert!(parse_args(&strings(&[])).is_err());
    assert!(parse_args(&strings(&["--manifest"])).is_err());
    assert!(parse_args(&strings(&["--what"])).is_err());
    assert!(usage().starts_with("usage: rvllm_metal_model_suite"));
}

#[test]
fn commands_carry_the_case() {
    let mut case = gated();
    case.no_bos = true;
    case.large_model_opt_in = true;
    case.hf_reference = Some("/ref.json".into());
    assert_eq!(
        case_command("/bin/infer", &case),
        [
            "/bin/infer",
            "--model-dir",
            "/tmp/model",
            "--prompt",
            "Hello",
            "--max-new-tokens",
            "4",
            "--max-total-tokens",
            "16",
            "--json",
            "--large-model-opt-in",
            "--no-bos",
            "--hf-reference",
            "/ref.json"
        ]
    );
    assert_eq!(case_start(&case, true, false), CaseStart::MissingReference);
    assert_eq!(case_start(&case, false, true), CaseStart::MissingModel);
    assert_eq!(case_start(&case, true, true).status(), "pass");
    case.required = false;
    assert_eq!(case_start(&case, false, true).status(), "skip_missing_model");
}

#[test]
fn verdicts_need_a_report_that_matches() {
    let good = value("{\"tok_per_s\":25.0,\"prefill_ms\":400.0,\"decode_ms\":160.0}");
    let mut differs = good.clone();
    differs["hf_reference"] = value("{\"matched\":false}");
    let case = gated();
    assert_eq!(case_verdict(false, true, Some(&good), &case), "pass");
    assert_eq!(case_verdict(true, true, Some(&good), &case), "fail");
    assert_eq!(case_verdict(false, false, Some(&good), &case), "fail");
    assert_eq!(case_verdict(false, true, None, &case), "fail");
    assert_eq!(case_verdict(false, true, Some(&differs), &case), "fail");
    assert_eq!(case_verdict(false, true, Some(&value("{}")), &case), "fail");
    let summary = summarize_suite(&strings(&["pass", "skip_missing_model", "pass"]));
    assert_eq!((summary.passed, summary.skipped, summary.status), (2, 1, "pass"));
    assert_eq!(summarize_suite(&strings(&["pass", "fail"])).status, "fail");
}

#[test]
fn reports_are_found_in_the_output() {
    let found = parse_json_from_stdout("loading\n{\"a\":1}").unwrap();
    assert_eq!(found["a"], 1);
    assert_eq!(
        parse_json_from_stdout("nothing").unwrap_err(),
        "stdout did not contain a JSON object"
    );
    assert!(parse_json_from_stdout("x {").is_err());
}

#[test]
fn running_cases_are_collected_killed_or_polled() {
    assert_eq!(wait_step(true, 9, 5), WaitStep::Collect);
    assert_eq!(wait_step(false, 5, 5), WaitStep::Kill);
    assert_eq!(wait_step(false, 4, 5), WaitStep::Poll);
}
