//! Summaries of MLX stage benchmarks.
use rvllm_runtime::mlx::stage_identity::{
    argument, optional_string, parse_job_identity, parse_u64_argument, require_input_hash,
    JobIdentity, SealedInput,
};
use rvllm_runtime::mlx::stage_receipt::{
    case_keys, coverage_error, expected_keys, finite_nonnegative, validate_receipt,
};
use rvllm_runtime::mlx::stage_summary::{
    check_report, group_cases, observed_names, parse_conditions, Activity,
};
use serde_json::Value;

const MLX_COMMIT: &str = "c215b6f88cf0fee0b0895623e4046cda797ef397";
const MLX_LM_COMMIT: &str = "87b7b583a697537aa68f47130b40884700b5f55f";

fn value(text: &str) -> Value {
    serde_json::from_str(text).unwrap()
}

fn strings(list: &[&str]) -> Vec<String> {
    list.iter().map(|s| s.to_string()).collect()
}

fn receipt(lengths: &[u64]) -> Value {
    let planned: Vec<Value> = expected_keys(&lengths.to_vec())
        .iter()
        .map(|key| {
            let mut members = serde_json::Map::new();
            members.insert("prompt_or_context_tokens".into(), Value::from(key.length));
            members.insert("mode".into(), Value::from(key.mode.clone()));
            members.insert("category".into(), Value::from(key.category.clone()));
            let variant = key.variant.clone().map_or(Value::Null, Value::from);
            members.insert("variant".into(), variant);
            Value::Object(members)
        })
        .collect();
    let cases: Vec<Value> = planned
        .iter()
        .cloned()
        .map(|mut case| {
            case["timing"] = value("{\"total_ms\":10.0,\"mean_ms\":0.1}");
            case
        })
        .collect();
    let mut whole = value(&format!(
        "{{\"schema\":\"rvllm.mlx_gemma4_stage_microbenchmark.v1\",\
         \"status\":\"measured_microbenchmark_not_normal_route\",\
         \"model\":{{\"path\":\"/model/q4\",\"requested_weight_bits\":4,\
         \"config_exposed_weight_bits\":4,\"config_sha256\":\"config-hash\",\
         \"model_index_sha256\":\"index-hash\"}},\
         \"mlx_lm_source\":{{\"source_root\":\"/mlx-lm\",\"commit\":\"{MLX_LM_COMMIT}\",\
         \"working_tree_matches_commit\":true,\"referenced_path_sha256\":\"gemma-hash\"}},\
         \"mlx_protocol_source\":{{\"source_root\":\"/mlx\",\"commit\":\"{MLX_COMMIT}\",\
         \"working_tree_matches_commit\":true,\"referenced_path_sha256\":\"time-hash\"}},\
         \"protocol\":{{\"warmups\":5,\"iterations\":100}}}}"
    ));
    whole["planned_cases"] = Value::Array(planned);
    whole["cases"] = Value::Array(cases);
    whole
}

fn seal(path: &str, sha256: &str) -> SealedInput {
    SealedInput { path: path.into(), sha256: sha256.into() }
}

fn job() -> JobIdentity {
    JobIdentity {
        id: "job".into(),
        model: "/model/q4".into(),
        bits: 4,
        lengths: vec![256],
        mlx_source: "/mlx".into(),
        mlx_lm_source: "/mlx-lm".into(),
        input_hashes: vec![
            seal("/model/q4/config.json", "config-hash"),
            seal("/model/q4/model.safetensors.index.json", "index-hash"),
            seal("/mlx-lm/mlx_lm/models/gemma4_text.py", "gemma-hash"),
            seal("/mlx/benchmarks/python/time_utils.py", "time-hash"),
        ],
    }
}

fn agreed() -> Vec<bool> {
    vec![true; 64]
}

#[test]
fn validates_complete_stage_matrix() {
    let (cases, iterations) = validate_receipt(&receipt(&[256]), &job(), &agreed()).unwrap();
    assert_eq!(cases.len(), 22);
    assert_eq!(iterations, 100);
    assert_eq!(f64::from_bits(cases[0].total_ms), 10.0);
    assert_eq!(f64::from_bits(cases[0].mean_ms), 0.1);
}

#[test]
fn rejects_missing_duplicate_and_negative_cases() {
    let mut missing = receipt(&[256]);
    missing["cases"].as_array_mut().unwrap().pop();
    assert!(validate_receipt(&missing, &job(), &agreed())
        .unwrap_err()
        .contains("coverage mismatch"));

    let mut duplicate = receipt(&[256]);
    let first = duplicate["cases"][0].clone();
    duplicate["cases"].as_array_mut().unwrap().push(first);
    assert!(validate_receipt(&duplicate, &job(), &agreed())
        .unwrap_err()
        .contains("duplicate case"));

    let mut negative = receipt(&[256]);
    negative["cases"][0]["timing"]["mean_ms"] = Value::from(-1.0);
    assert!(validate_receipt(&negative, &job(), &agreed())
        .unwrap_err()
        .contains("non-negative"));
}

#[test]
fn means_that_do_not_agree_are_refused() {
    let mut agrees = agreed();
    agrees[3] = false;
    assert!(validate_receipt(&receipt(&[256]), &job(), &agrees).is_err());
}

#[test]
fn rejects_model_identity_and_strict_json_duplicates() {
    let mut wrong = receipt(&[256]);
    wrong["model"]["path"] = Value::from("/different");
    assert!(validate_receipt(&wrong, &job(), &agreed())
        .unwrap_err()
        .contains("model identity"));

    let mut wrong_commit = receipt(&[256]);
    wrong_commit["mlx_protocol_source"]["commit"] = Value::from("untrusted");
    assert!(validate_receipt(&wrong_commit, &job(), &agreed())
        .unwrap_err()
        .contains("MLX source root"));
}

fn manifest() -> Value {
    value(
        "{\"id\":\"job\",\"command\":{\"cwd\":\"/workspace/v3\",\"args\":[\
         \"tools/mlx_gemma4_stage_bench.py\",\"--model\",\"/model/q4\",\"--weight-bits\",\"4\",\
         \"--lengths\",\"256\",\"--mlx-source\",\"/mlx\",\"--mlx-lm-source\",\"/mlx-lm\"]},\
         \"inputs\":[]}",
    )
}

#[test]
fn requires_the_invoked_stage_tool_to_be_sealed() {
    let mut job = manifest();
    assert!(parse_job_identity(&job).unwrap_err().contains("do not seal stage tool"));
    job["inputs"] = value(
        "[{\"path\":\"/workspace/v3/tools/mlx_gemma4_stage_bench.py\",\"sha256\":\"sealed\"}]",
    );
    assert_eq!(parse_job_identity(&job).unwrap().bits, 4);
}

#[test]
fn identities_name_their_faults() {
    let mut other = manifest();
    other["command"]["args"][0] = Value::from("tools/other.py");
    assert!(parse_job_identity(&other).unwrap_err().contains("does not invoke"));
    let args = strings(&["--a", "1", "--b=2", "--c", "x"]);
    assert_eq!(argument(&args, "--b"), Ok("2".to_string()));
    assert_eq!(parse_u64_argument(&args, "--a"), Ok(1));
    assert!(parse_u64_argument(&args, "--c").is_err());
    assert!(argument(&args, "--d").is_err());
    assert!(argument(&strings(&["--a", "1", "--a=2"]), "--a").is_err());
    assert!(require_input_hash(&job(), "/model/q4/config.json", "config-hash").is_ok());
    assert!(require_input_hash(&job(), "/model/q4/config.json", "other").is_err());
    assert!(require_input_hash(&job(), "/unsealed", "x").is_err());
    assert_eq!(optional_string(&value("{\"v\":null}"), "v"), Ok(None));
    assert_eq!(optional_string(&value("{\"v\":\"t\"}"), "v"), Ok(Some("t".into())));
    assert!(optional_string(&value("{\"v\":1}"), "v").is_err());
}

#[test]
fn keys_and_numbers_name_their_faults() {
    let keys = expected_keys(&vec![256]);
    assert!(coverage_error("cases", &keys, &vec![]).starts_with("cases"));
    assert!(case_keys(&vec![value("{}")], false).is_err());
    assert_eq!(
        finite_nonnegative(&value("{\"n\":1.5}"), "n").map(f64::from_bits),
        Ok(1.5)
    );
    assert!(finite_nonnegative(&value("{\"n\":\"1\"}"), "n").is_err());
    assert!(finite_nonnegative(&value("{}"), "n").is_err());
}

fn conditions(text: &str) -> Result<Activity, String> {
    let documents = text
        .lines()
        .map(|line| serde_json::from_str(line).map_err(|e| e.to_string()))
        .collect();
    parse_conditions("conditions.jsonl", text, &documents)
}

#[test]
fn preserves_observed_process_counts() {
    let activity = conditions(
        "{\"observed_processes\":[]}\n\
         {\"observed_processes\":[{\"pid\":7,\"name\":\"cargo\"}]}\n\
         {\"observed_processes\":[{\"pid\":8,\"name\":\"cargo\"},{\"pid\":9,\"name\":\"cargo\"}]}\n",
    )
    .unwrap();
    assert_eq!(activity.samples, 3);
    assert_eq!(activity.samples_with_processes, 2);
    assert_eq!(activity.processes.len(), 1);
    let cargo = &activity.processes[0];
    assert_eq!(
        (cargo.name.as_str(), cargo.sample_count, cargo.max_instances),
        ("cargo", 2, 2)
    );
}

#[test]
fn journals_with_faults_are_refused() {
    assert!(conditions("{\"observed_processes\":[{\"pid\":1}]}\n").is_err());
    assert!(conditions("{\n").is_err());
    let sample = value("{\"observed_processes\":[{\"pid\":1,\"name\":\"b\"},{\"pid\":2,\"name\":\"a\"}]}");
    assert_eq!(observed_names(&sample).unwrap(), ["b", "a"]);
}

#[test]
fn reports_must_be_of_their_job() {
    let good = value("{\"id\":\"job\",\"status\":\"succeeded\",\"exit_code\":0}");
    assert!(check_report(&good, "other").is_err());
    let failed = value("{\"id\":\"job\",\"status\":\"failed\",\"exit_code\":0}");
    assert!(check_report(&failed, "job").is_err());
}

#[test]
fn groups_hold_each_timing_once() {
    let (cases, iterations) = validate_receipt(&receipt(&[256]), &job(), &agreed()).unwrap();
    let mut grouped = vec![];
    assert!(group_cases(&mut grouped, 4, "job", &cases, iterations).is_ok());
    assert_eq!(grouped.len(), 22);
    assert!(group_cases(&mut grouped, 4, "again", &cases, iterations).is_err());
    let mut wider = vec![];
    assert!(group_cases(&mut wider, 4, "job", &cases, iterations).is_ok());
    assert!(group_cases(&mut wider, 8, "job", &cases, iterations).is_ok());
    assert_eq!(wider.len(), 44);
}
