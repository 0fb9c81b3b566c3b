//! Receipts and batches of cache provisioning.
use rvllm_runtime::disagg::cache_batch::{
    batch_part, batch_totals, child_args, BatchCall, BatchReply, BatchStatus, CacheBatch,
    PartRecord,
};
use rvllm_runtime::disagg::cache_receipt::{
    journal_event, unsigned, validate_part, validate_receipt, PartIdentity, ValidatedPart,
};
use serde_json::Value;

fn value(text: &str) -> Value {
    serde_json::from_str(text).unwrap()
}

fn receipt(inspect: bool) -> Value {
    let schema = if inspect {
        "rvllm.ane_cache_inspection.v1"
    } else {
        "rvllm.ane_cache_provision.v1"
    };
    let policy = if inspect { "require-existing" } else { "bounded-reuse-or-compile" };
    let most = if inspect { 0 } else { 2 };
    value(&format!(
        "{{\"schema\":\"{schema}\",\"part\":\"QueryKeyValue\",\"model_dir\":\"/model\",\
         \"global_context_capacity\":1024,\"inference_evaluations\":0,\"programs_prepared\":1,\
         \"compiler_calls\":0,\"cache_policy\":\"{policy}\",\"maximum_explicit_compiles\":{most},\
         \"entries\":[{{\"name\":\"QueryKeyValue/layer/0\",\"available\":true}},\
         {{\"name\":\"QueryKeyValue/layer/1\",\"available\":false}}]}}"
    ))
}

fn event(stage: &str, model: &str) -> String {
    format!("{{\"stage\":\"{stage}\",\"model_id\":\"{model}\"}}\n")
}

fn journal() -> String {
    [
        ("descriptor_created", "a"),
        ("load_begin", "a"),
        ("load_completed", "a"),
        ("unload_begin", "a"),
        ("unload_completed", "a"),
        ("unload_returned", "a"),
        ("descriptor_created", "b"),
    ]
    .into_iter()
    .map(|(stage, model)| event(stage, model))
    .collect()
}

fn identity(inspect: bool) -> PartIdentity {
    PartIdentity {
        model: "/model".into(),
        capacity: 1024,
        part: "QueryKeyValue".into(),
        count: 2,
        inspect,
    }
}

fn check(report: &Value, events: &str) -> Result<ValidatedPart, String> {
    validate_part(report, events, &identity(true))
}

#[test]
fn inspection_distinguishes_missing_graphs_from_failed_visits() {
    let r = receipt(true);
    let good = check(&r, &journal()).unwrap();
    assert_eq!(good.available, 1);
    assert_eq!(good.missing, vec!["QueryKeyValue/layer/1".to_string()]);
    for stage in ["compile_begin", "evaluate_begin", "unload_failed"] {
        let events = journal() + &event(stage, "a");
        assert!(check(&r, &events).is_err());
    }
    assert!(check(&r, &journal().replace("unload_completed", "unrelated")).is_err());
    assert!(check(&r, &journal().replace("unload_returned", "unrelated")).is_err());
    let wrong_identity: String = journal()
        .lines()
        .map(|line| {
            let mut event = value(line);
            if event["stage"] == "unload_completed" {
                event["model_id"] = Value::from("b");
            }
            event.to_string() + "\n"
        })
        .collect();
    assert!(check(&r, &wrong_identity).is_err());
}

#[test]
fn mismatched_or_incomplete_child_receipts_are_rejected() {
    for (key, bad) in [
        ("part", Value::from("Output")),
        ("model_dir", Value::from("/other")),
        ("global_context_capacity", Value::from(64)),
        ("inference_evaluations", Value::from(1)),
        ("compiler_calls", Value::from(1)),
        ("programs_prepared", Value::from(2)),
    ] {
        let mut r = receipt(true);
        r[key] = bad;
        assert!(check(&r, &journal()).is_err(), "accepted {key}");
    }
    let mut r = receipt(true);
    r["entries"][1]["name"] = Value::from("QueryKeyValue/layer/0");
    assert!(check(&r, &journal()).is_err());
    assert!(validate_part(&receipt(false), &journal(), &identity(false)).is_err());
}

#[test]
fn preparation_requires_completed_compiles_and_unloads() {
    let mut r = receipt(false);
    r["programs_prepared"] = Value::from(2);
    r["compiler_calls"] = Value::from(1);
    let mut events = journal();
    for stage in [
        "compile_begin",
        "compile_completed",
        "load_begin",
        "load_completed",
        "unload_begin",
        "unload_completed",
        "unload_returned",
    ] {
        events += &event(stage, "b");
    }
    let check = |events: &str| validate_part(&r, events, &identity(false));
    let valid = check(&events).unwrap();
    assert_eq!(valid.compiler_calls, 1);
    assert_eq!(valid.successful_unloads, 2);
    assert!(check(&events.replace("compile_completed", "incomplete")).is_err());
    assert!(check(&events.replace("unload_returned", "incomplete")).is_err());
}

#[test]
fn receipt_fields_and_journal_lines_name_what_is_missing() {
    assert_eq!(unsigned(&value("{\"n\":7}"), "n"), Ok(7));
    assert_eq!(
        unsigned(&value("{\"n\":-7}"), "n"),
        Err("missing cache receipt field n".to_string())
    );
    let event = journal_event(&value("{\"stage\":\"load_begin\",\"model_id\":\"m\"}")).unwrap();
    assert_eq!((event.stage.as_str(), event.model_id.as_str()), ("load_begin", "m"));
    assert_eq!(
        journal_event(&value("{\"model_id\":\"m\"}")).unwrap_err(),
        "cache journal stage missing"
    );
}

#[test]
fn inspections_of_compiling_children_are_refused() {
    let mut r = receipt(true);
    r["maximum_explicit_compiles"] = Value::from(2);
    assert!(check(&r, &journal()).is_err());
}

fn part(available: u64, compiled: u64) -> ValidatedPart {
    ValidatedPart {
        available,
        missing: vec![],
        compiler_calls: compiled,
        successful_unloads: 0,
        journal_events: vec![],
    }
}

#[test]
fn child_arguments_name_one_operation() {
    assert_eq!(
        child_args("/model", true, "qkv", 1024, "/out/qkv"),
        [
            "--model-dir",
            "/model",
            "--inspect-ane-cache",
            "qkv",
            "--context-capacity",
            "1024",
            "--output-dir",
            "/out/qkv"
        ]
    );
    assert_eq!(child_args("/model", false, "qkv", 64, "/out")[2], "--prepare-ane-cache");
    assert_eq!((batch_part(0).flag, batch_part(0).count), ("qkv", 48));
    assert_eq!((0..4).map(|i| batch_part(i).count).sum::<usize>(), 162);
}

#[test]
fn batches_run_every_part_and_report_the_total() {
    let (mut batch, mut call) = CacheBatch::run_all();
    let mut ran = Vec::new();
    loop {
        let reply = match call {
            BatchCall::Save { .. } => BatchReply::Saved(Ok(())),
            BatchCall::IsCancelled => BatchReply::Cancelled(false),
            BatchCall::RunPart { index } => {
                ran.push(index);
                BatchReply::Ran(Ok(part(batch_part(index).count as u64, 1)))
            }
            BatchCall::Completed => break,
            BatchCall::Failed { error } => panic!("{error}"),
        };
        call = batch.resume(reply);
    }
    assert_eq!(ran, [0, 1, 2, 3]);
    let totals = batch_totals(batch.records(), BatchStatus::Complete);
    assert_eq!((totals.available, totals.compiled, totals.all_available), (162, 4, true));
    assert!(!batch_totals(batch.records(), BatchStatus::Failed).all_available);
}

#[test]
fn a_failed_part_ends_its_batch() {
    let (mut batch, mut call) = CacheBatch::run_all();
    let mut statuses = Vec::new();
    let error = loop {
        let reply = match call {
            BatchCall::Save { status, .. } => {
                statuses.push(status.name());
                BatchReply::Saved(Ok(()))
            }
            BatchCall::IsCancelled => BatchReply::Cancelled(false),
            BatchCall::RunPart { .. } => BatchReply::Ran(Err("child failed".into())),
            BatchCall::Completed => panic!("completed"),
            BatchCall::Failed { error } => break error,
        };
        call = batch.resume(reply);
    };
    assert!(error.contains("child failed"), "{error}");
    assert_eq!(statuses.last(), Some(&"failed"));
    assert_eq!(batch.records().len(), 1);
    assert!(matches!(batch.records()[0], PartRecord::Failed(_)));
}

#[test]
fn receipts_are_read_before_they_are_validated() {
    let report = receipt(false);
    let bytes = serde_json::to_vec(&report).unwrap();
    let parsed = validate_part(&report, &journal(), &identity(false));
    let read = validate_receipt(&bytes, &journal(), &identity(false));
    assert_eq!(format!("{parsed:?}"), format!("{read:?}"));
    let broken = serde_json::from_slice::<Value>(b"{").unwrap_err().to_string();
    assert_eq!(
        validate_receipt(b"{", &journal(), &identity(false)).unwrap_err(),
        broken
    );
}
