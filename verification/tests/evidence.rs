//! Verification of Metal artifact evidence.
use rvllm_runtime::evidence::{
    artifact_paths, digest, exact_keys, string, verify_artifact, verify_capture, verify_report,
    ReadFile,
};
use serde_json::Value;
use sha2::Digest as _;

fn value(text: &str) -> Value {
    serde_json::from_str(text).unwrap()
}

fn sha(bytes: &[u8]) -> String {
    format!("{:x}", sha2::Sha256::digest(bytes))
}

#[test]
fn exact_keys_reject_extension_fields() {
    let object = value("{\"a\":1,\"b\":2}");
    assert!(exact_keys(&object, &["a"], "sample").is_err());
    assert!(exact_keys(&object, &["b", "a"], "sample").is_ok());
    assert_eq!(
        exact_keys(&object, &["a"], "sample").unwrap_err(),
        "sample fields differ: expected {\"a\"}, got {\"a\", \"b\"}"
    );
    assert_eq!(
        exact_keys(&value("[]"), &["a"], "sample").unwrap_err(),
        "sample must be an object"
    );
}

#[test]
fn digest_shape_is_strict() {
    assert!(digest(&"a".repeat(64), "test").is_ok());
    assert!(digest(&"g".repeat(64), "test").is_err());
    assert!(digest(&"a".repeat(63), "test").is_err());
}

const FILES: [&str; 11] = [
    "source", "air", "lib", "collector", "metal", "metallib", "objdump", "compile", "link",
    "tables", "asm",
];

fn files() -> Vec<ReadFile> {
    FILES
        .iter()
        .map(|name| ReadFile {
            path: format!("/e/{name}"),
            content: Ok(name.as_bytes().to_vec()),
        })
        .collect()
}

fn artifact(name: &str) -> String {
    let digest = sha(name.as_bytes());
    format!("{{\"path\":\"/e/{name}\",\"bytes\":{},\"sha256\":\"{digest}\"}}", name.len())
}

fn capture(name: &str) -> String {
    let own = artifact(name);
    format!("{{\"artifact\":{own},\"exit_code\":0,\"status\":\"captured\"}}")
}

fn tool(name: &str) -> String {
    format!("{{\"identity\":{},\"version\":\"1\"}}", artifact(name))
}

fn report() -> Value {
    let properties = value("{\"name\":\"GPU\",\"cores\":40}");
    let identity = sha(&serde_json::to_vec(&properties).unwrap());
    let claim = |status: &str| format!("{{\"reason\":\"r\",\"status\":\"{status}\"}}");
    let (unavailable, unverified) = (claim("unavailable"), claim("unverified"));
    value(&format!(
        "{{\"schema\":\"rvllm.metal_artifact_evidence.v1\",\"status\":\"captured\",\
         \"scope\":\"rvLLM artifact evidence only; contains no MLX trace or performance claim\",\
         \"source\":{},\"air\":{},\"metallib\":{},\"collector\":{},\
         \"toolchain\":{{\"compile_argv\":[\"a\"],\"compile_capture\":{},\"link_argv\":[\"b\"],\
         \"link_capture\":{},\"metal\":{},\"metal_objdump\":{},\"metallib\":{},\
         \"sdk_path\":\"/sdk\",\"sdk_version\":\"15\"}},\
         \"device\":{{\"identity_sha256\":\"{identity}\",\"public_properties\":{properties}}},\
         \"pipeline_resources\":[{{\"kernel\":\"k\",\"max_total_threads_per_threadgroup\":1024,\
         \"provenance\":\"public MTLComputePipelineState getters on the sealed metallib\",\
         \"static_threadgroup_memory_bytes\":0,\"thread_execution_width\":32}}],\
         \"compiler_artifacts\":{{\"build_tables\":{},\"disassembly\":{},\"interpretation\":\"x\"}},\
         \"claims\":{{\"low_bit_unpack_machine_arithmetic\":{unverified},\
         \"occupancy\":{unavailable},\"register_count\":{unavailable},\
         \"register_residency\":{unavailable},\"simd_matrix_machine_lowering\":{unverified}}}}}",
        artifact("source"),
        artifact("air"),
        artifact("lib"),
        artifact("collector"),
        capture("compile"),
        capture("link"),
        tool("metal"),
        tool("objdump"),
        tool("metallib"),
        capture("tables"),
        capture("asm"),
    ))
}

#[test]
fn complete_reports_are_verified() {
    assert_eq!(verify_report(&files(), &report()), Ok(()));
    let mut named = artifact_paths(&report());
    named.sort();
    let mut all: Vec<String> = FILES.iter().map(|name| format!("/e/{name}")).collect();
    all.sort();
    assert_eq!(named, all);
}

#[test]
fn reports_fail_closed() {
    let refused = |pointer: &str, bad: Value| {
        let mut changed = report();
        *changed.pointer_mut(pointer).unwrap() = bad;
        verify_report(&files(), &changed).unwrap_err()
    };
    assert_eq!(
        refused("/status", Value::from("partial")),
        "report schema/status is not a captured v1 artifact"
    );
    assert_eq!(
        refused("/scope", Value::from("all")),
        "report scope is not the fail-closed rvLLM-only scope"
    );
    assert_eq!(refused("/air/bytes", Value::from(9)), "air byte length does not match");
    assert_eq!(
        refused("/air/sha256", Value::from("0".repeat(64))),
        "air SHA-256 does not match"
    );
    assert_eq!(
        refused("/device/public_properties/cores", Value::from(39)),
        "device identity does not match its public properties"
    );
    assert_eq!(
        refused("/claims/occupancy/status", Value::from("measured")),
        "claims.occupancy is not fail-closed"
    );
    assert_eq!(
        refused("/claims/simd_matrix_machine_lowering/status", Value::from("unavailable")),
        "claims.simd_matrix_machine_lowering is not fail-closed"
    );
    assert_eq!(
        refused("/pipeline_resources", value("[]")),
        "pipeline_resources must not be empty"
    );
    assert_eq!(
        refused("/pipeline_resources/0/thread_execution_width", Value::from(0)),
        "pipeline k has invalid thread_execution_width"
    );
    assert_eq!(
        refused("/toolchain/compile_capture/exit_code", Value::from(1)),
        "toolchain.compile_capture status disagrees with its exit code"
    );
    assert_eq!(
        refused("/toolchain/metal/version", Value::from("")),
        "toolchain.metal.version is empty"
    );
    assert_eq!(
        refused("/toolchain/link_argv", value("[1]")),
        "toolchain.link_argv must contain strings"
    );
}

#[test]
fn artifacts_are_what_their_digests_say() {
    let mut own = value(&artifact("air"));
    assert!(verify_artifact(&files(), &own, "air").is_ok());
    own["sha256"] = Value::from(sha(b"air").to_ascii_uppercase());
    assert!(verify_artifact(&files(), &own, "air").is_ok());
    own["sha256"] = Value::from("x");
    assert_eq!(
        verify_artifact(&files(), &own, "air").unwrap_err(),
        "air.sha256 is not a SHA-256 digest"
    );
    let gone = vec![ReadFile { path: "/e/air".into(), content: Err("gone".into()) }];
    assert_eq!(
        verify_artifact(&gone, &value(&artifact("air")), "air").unwrap_err(),
        "read /e/air: gone"
    );
    let mut kept = value(&capture("asm"));
    assert!(verify_capture(&files(), &kept, "c").is_ok());
    kept["status"] = Value::from("lost");
    assert_eq!(verify_capture(&files(), &kept, "c").unwrap_err(), "c.status is invalid");
    kept["status"] = Value::from("unavailable");
    kept["exit_code"] = Value::Null;
    assert!(verify_capture(&files(), &kept, "c").is_ok());
    kept["exit_code"] = Value::from("0");
    assert_eq!(
        verify_capture(&files(), &kept, "c").unwrap_err(),
        "c.exit_code must be an integer or null"
    );
    assert_eq!(string(&value("{\"s\":1}"), "s").unwrap_err(), "s must be a string");
}
