//! Jobs, pins, gates and verdicts of the experiment queue.
use rvllm_runtime::queue::census::{
    audit_pins, check_identity, pending_jobs, resolves, CensusJob, ResultEntry,
};
use rvllm_runtime::queue::desk::{
    check_submission, dependencies_ready, dependency_state, job_path, manifests, parse_command,
    quarantine_manifest, read_json, report_file, stopped, successful_result, usage, DependencyState, Entry, Place,
    QueueCommand, ReportFile,
};
use rvllm_runtime::queue::gate::{
    controls_match, probe_blocked, probe_ready, sample_age, slots_idle, IdleCheck, ProbeCache,
    ProbeCall, SlotsAnswer,
};
use rvllm_runtime::queue::job::{
    pin_present, read_file, valid_id, verify_pin, Conditions, Directories, IdleLlamaServer,
    Invocation, Job, Pin, PinnedFile, Purpose, Submission, SubmissionFile,
};
use rvllm_runtime::queue::processes::{blockers, parse_processes};
use rvllm_runtime::queue::qualification::{check_paths, check_source, qualification_jobs, qualify};
use rvllm_runtime::queue::trial::{
    conclude, expand_output, gate_after_probe, gate_before_probe, last_gate, launch_arguments,
    launch_environment, phase_eligible, purpose_accepts_ineligible, Elapsed, Ending, Status,
    Watch,
};
use serde_json::Value;
use sha2::Digest as _;

fn value(text: &str) -> Value {
    serde_json::from_str(text).unwrap()
}

fn strings(list: &[&str]) -> Vec<String> {
    list.iter().map(|s| s.to_string()).collect()
}

fn conditions() -> Conditions {
    Conditions {
        power_source: "ac".into(),
        low_power_mode: Some(true),
        pmset_power_mode: Some(1),
        thermal_state: Some(0),
        minimum_free_bytes: 1,
        disk_path: "/".into(),
        quiet_process_names: strings(&["cargo"]),
        observe_process_names: vec![],
        idle_llama_servers: vec![],
    }
}

fn observation() -> Value {
    value(
        "{\"age_ms\":1.0,\"observer_journal_error\":null,\"sample\":{\"controls\":{\
         \"power_source\":\"ac\",\"low_power_mode\":true,\"pmset_power_mode\":1,\"thermal_state\":0,\
         \"available_cpus\":null,\"cpu_speed_limit_percent\":null,\"scheduler_limit_percent\":null}}}",
    )
}

fn job(id: &str) -> Job {
    Job {
        schema: "rvllm.experiment_job.v1".into(),
        id: id.into(),
        purpose: Purpose::Timing,
        command: Invocation {
            executable: Pin { path: "/unused".into(), sha256: "0".repeat(64) },
            cwd: "/".into(),
            args: vec![],
            env: vec![],
        },
        validator: None,
        inputs: vec![],
        kernel_game_submission: None,
        after: vec![],
        conditions: conditions(),
        stable_seconds: 1,
        max_wait_seconds: 10,
        max_run_seconds: 10,
    }
}

fn dirs() -> Directories {
    Directories { disk_path: true, command_cwd: true, validator_cwd: true }
}

#[test]
fn gate_rejects_unknown_restricted_stale_and_changed_power() {
    let original = observation();
    assert!(controls_match(&original, &conditions()));
    for (pointer, bad) in [
        ("/age_ms", Value::from(2501)),
        ("/observer_journal_error", Value::from("io")),
        ("/sample/controls/power_source", Value::from("battery")),
        ("/sample/controls/thermal_state", Value::from(1)),
        ("/sample/controls/low_power_mode", Value::from(false)),
        ("/sample/controls/cpu_speed_limit_percent", Value::from(80)),
        ("/sample/controls/available_cpus", Value::from(0)),
    ] {
        let mut changed = original.clone();
        *changed.pointer_mut(pointer).unwrap() = bad;
        assert!(!controls_match(&changed, &conditions()), "{pointer}");
    }
}

#[test]
fn ages_are_bounded_on_both_sides() {
    for (age, fresh) in [
        ("0", true),
        ("-0.0", true),
        ("2500", true),
        ("2500.0", true),
        ("2500.0000001", false),
        ("-1", false),
        ("\"1\"", false),
    ] {
        let mut changed = observation();
        changed["age_ms"] = value(age);
        assert_eq!(controls_match(&changed, &conditions()), fresh, "{age}");
    }
}

#[test]
fn unpinned_jobs_accept_every_known_thermal_state_but_never_unknown() {
    let mut c = conditions();
    c.thermal_state = None;
    let mut seen = observation();
    assert!(controls_match(&seen, &c));
    for state in [1, 2, 3] {
        seen["sample"]["controls"]["thermal_state"] = Value::from(state);
        assert!(controls_match(&seen, &c));
    }
    for state in [Value::from(4), Value::Null] {
        seen["sample"]["controls"]["thermal_state"] = state;
        assert!(!controls_match(&seen, &c));
    }
}

#[test]
fn unpinned_power_modes_accept_known_values_but_never_unknown() {
    let mut c = conditions();
    c.low_power_mode = None;
    c.pmset_power_mode = None;
    let mut seen = observation();
    for low_power_mode in [false, true] {
        seen["sample"]["controls"]["low_power_mode"] = Value::from(low_power_mode);
        for mode in 0..=2 {
            seen["sample"]["controls"]["pmset_power_mode"] = Value::from(mode);
            assert!(controls_match(&seen, &c));
        }
    }
    for mode in [Value::from(3), Value::Null] {
        seen["sample"]["controls"]["pmset_power_mode"] = mode;
        assert!(!controls_match(&seen, &c));
    }
    seen["sample"]["controls"]["pmset_power_mode"] = Value::from(1);
    seen["sample"]["controls"]["low_power_mode"] = Value::Null;
    assert!(!controls_match(&seen, &c));
}

#[test]
fn exploratory_timing_retains_ineligible_data_without_weakening_timing() {
    assert!(purpose_accepts_ineligible(Purpose::ExploratoryTiming));
    assert!(purpose_accepts_ineligible(Purpose::Correctness));
    assert!(purpose_accepts_ineligible(Purpose::Preparation));
    assert!(!purpose_accepts_ineligible(Purpose::Timing));
}

/// This process, in no listing below.
const ME: u32 = 999;

#[test]
fn only_owned_trial_descendants_are_exempt_from_activity_gate() {
    let processes = parse_processes(
        "11 1 /usr/bin/cargo\n22 1 /tmp/trial\n23 22 /tmp/cargo\n24 23 /tmp/cargo\n",
    )
    .unwrap();
    let found = blockers(&processes, &strings(&["cargo"]), ME, Some(22));
    assert_eq!(found.len(), 1);
    assert_eq!((found[0].pid, found[0].name.as_str()), (11, "cargo"));
    assert!(parse_processes("bad process").is_err());
}

#[test]
fn process_listings_name_their_faults() {
    let error = |text: &str| parse_processes(text).unwrap_err();
    assert_eq!(error("12"), "missing process parent");
    assert_eq!(error("x 1 /a"), "invalid digit found in string");
    assert_eq!(error("12 1"), "missing process command");
    assert_eq!(error("12 1 /"), "missing process name");
    assert_eq!(error("4294967296 1 /a"), "number too large to fit in target type");
    let found = parse_processes("  7  1   /opt/My App/run it \n\n \n").unwrap();
    assert_eq!(found.len(), 1);
    assert_eq!((found[0].pid, found[0].parent), (7, 1));
    assert_eq!(found[0].name, "run it");
}

#[test]
fn children_of_the_queue_still_compete_with_its_trial() {
    let processes = parse_processes("30 999 /tmp/cargo\n31 30 /tmp/cargo\n999 1 /tmp/cargo\n")
        .unwrap();
    let names = strings(&["cargo"]);
    let pids = |trial| -> Vec<u32> {
        blockers(&processes, &names, ME, trial).iter().map(|s| s.pid).collect()
    };
    assert_eq!(pids(None), [30, 31]);
    assert_eq!(pids(Some(30)), Vec::<u32>::new());
    assert_eq!(pids(Some(44)), [30, 31]);
}

#[test]
fn shared_raw_samples_keep_job_policies_and_child_ownership_separate() {
    let now = 5;
    let mut cache = ProbeCache::new();
    cache.record_processes(
        now,
        parse_processes("11 1 /tmp/cargo\n22 1 /tmp/llama-server\n").unwrap(),
    );
    cache.idle.push(IdleCheck { pid: 22, port: 8093, started: now, idle: true });
    let mut c = conditions();
    c.quiet_process_names = strings(&["cargo", "llama-server"]);
    c.observe_process_names = strings(&["cargo", "llama-server"]);
    c.idle_llama_servers = vec![IdleLlamaServer { pid: 22, port: 8093 }];
    let seen = cache.activity(&c, ME, None);
    assert_eq!(seen.competing.len(), 1);
    assert_eq!((seen.competing[0].pid, seen.competing[0].name.as_str()), (11, "cargo"));
    assert_eq!(seen.observed.len(), 2);
    c.idle_llama_servers.clear();
    let owned = cache.activity(&c, ME, Some(11)).competing;
    assert_eq!(owned.len(), 1);
    assert_eq!((owned[0].pid, owned[0].name.as_str()), (22, "llama-server"));
    assert_eq!(cache.activity(&c, ME, None).competing.len(), 2);
    c.quiet_process_names.clear();
    assert!(cache.activity(&c, ME, None).competing.is_empty());
    assert_eq!(cache.activity(&c, ME, None).observed.len(), 2);
    assert_eq!(cache.processes.as_ref().unwrap().started, now);
}

#[test]
fn servers_are_sampled_once_and_only_where_they_run() {
    let mut cache = ProbeCache::new();
    let mut c = conditions();
    let server = IdleLlamaServer { pid: 22, port: 8093 };
    let absent = IdleLlamaServer { pid: 23, port: 8094 };
    c.idle_llama_servers = vec![server, absent];
    assert_eq!(cache.next_probe(&c), Some(ProbeCall::Processes));
    cache.record_processes(9, parse_processes("22 1 /tmp/llama-server\n").unwrap());
    assert_eq!(cache.next_probe(&c), Some(ProbeCall::Slots { server, present: true }));
    let output = b"[{\"is_processing\":false}]".to_vec();
    cache.record_idle(server, true, 4, Some(SlotsAnswer { success: true, output }));
    assert_eq!(
        cache.next_probe(&c),
        Some(ProbeCall::Slots { server: absent, present: false })
    );
    cache.record_idle(absent, false, 12, None);
    assert_eq!(cache.next_probe(&c), None);
    let seen = cache.activity(&c, ME, None);
    assert_eq!(seen.oldest, 4);
    assert_eq!(seen.checks.iter().map(|k| k.idle).collect::<Vec<_>>(), [true, false]);
    cache.record_disk("/a//b", 3, 77);
    assert_eq!(cache.disk("/a/./b"), Some((3, 77)));
    assert_eq!(cache.disk("/a"), None);
}

#[test]
fn readiness_needs_every_check() {
    let mut cache = ProbeCache::new();
    cache.record_processes(1_000, parse_processes("11 1 /tmp/sh\n").unwrap());
    let c = conditions();
    let activity = cache.activity(&c, ME, None);
    let ready = |disk, began, now| probe_ready(&observation(), disk, &c, &activity, began, now);
    assert!(ready((1_000, 1), 1_000, 2_500_001_000));
    assert!(!ready((1_000, 0), 1_000, 1_000));
    assert!(!ready((999, 1), 1_000, 2_500_001_000));
    assert!(!ready((1_000, 1), 999, 2_500_001_000));
    assert!(probe_blocked(&observation(), 0, &c));
    assert!(!probe_blocked(&observation(), 1, &c));
    let mut stale = observation();
    stale["age_ms"] = Value::from(2501);
    assert!(probe_blocked(&stale, 1, &c));
}

#[test]
fn shared_samples_expire_without_extending_observation_time() {
    let start = 1_000_000_000_u64;
    let millis = 1_000_000_u64;
    assert_eq!(sample_age(start, start), Some(0));
    assert_eq!(sample_age(start, start + 2500 * millis), Some(2500 * millis));
    assert_eq!(sample_age(start, start + 2501 * millis), None);
    assert_eq!(sample_age(start + millis, start), None);
}

fn pinned(path: &str, bytes: &[u8]) -> Pin {
    Pin { path: path.into(), sha256: format!("{:x}", sha2::Sha256::digest(bytes)) }
}

#[test]
fn hashes_and_exclusive_locks_prevent_changed_or_duplicate_execution() {
    let pin = pinned("/queue/binary", b"before");
    verify_pin(&pin, &read_file(b"before")).unwrap();
    let changed = read_file(b"after");
    pin_present(&pin, changed.is_file).unwrap();
    assert!(verify_pin(&pin, &changed).is_err());
    assert_eq!(
        pin_present(&pin, false),
        Err("missing pinned file: /queue/binary".to_string())
    );
}

#[test]
fn pins_are_absolute_files_with_digests() {
    let upper = Pin {
        path: "/b".into(),
        sha256: pinned("/b", b"x").sha256.to_ascii_uppercase(),
    };
    assert!(verify_pin(&upper, &read_file(b"x")).is_ok());
    let relative = pinned("b", b"x");
    assert_eq!(
        verify_pin(&relative, &read_file(b"x")),
        Err("missing or changed pinned file: b".to_string())
    );
    let gone = PinnedFile { is_file: false, digest: Err("gone".into()) };
    assert_eq!(
        verify_pin(&pinned("/b", b"x"), &gone),
        Err("missing or changed pinned file: /b".to_string())
    );
    let unreadable = PinnedFile { is_file: true, digest: Err("denied".into()) };
    assert_eq!(verify_pin(&pinned("/b", b"x"), &unreadable), Err("denied".to_string()));
}

#[test]
fn malformed_ids_and_unrecognized_manifest_fields_are_rejected() {
    for id in ["", "../escape", "space id", "/abs", "a.json"] {
        assert!(!valid_id(id));
    }
    assert!(valid_id("02-baseline_A"));
    assert!(valid_id(&"a".repeat(96)));
    assert!(!valid_id(&"a".repeat(97)));
    assert!(!valid_id("caf\u{e9}"));
}

#[test]
fn jobs_are_validated_in_order() {
    let ok = job("second");
    assert!(ok.validate(dirs()).is_ok());
    let bounds = "invalid job identity, conditions or bounded durations";
    let refused = |change: &dyn Fn(&mut Job)| {
        let mut bad = job("second");
        change(&mut bad);
        bad.validate(dirs()).unwrap_err()
    };
    assert_eq!(refused(&|j| j.schema.push('x')), bounds);
    assert_eq!(refused(&|j| j.id = "a b".into()), bounds);
    assert_eq!(refused(&|j| j.conditions.power_source = "solar".into()), bounds);
    assert_eq!(refused(&|j| j.conditions.pmset_power_mode = Some(3)), bounds);
    assert_eq!(refused(&|j| j.conditions.thermal_state = Some(4)), bounds);
    assert_eq!(refused(&|j| j.conditions.disk_path = "x".into()), bounds);
    assert_eq!(refused(&|j| j.stable_seconds = 601), bounds);
    assert_eq!(refused(&|j| j.max_wait_seconds = 86401), bounds);
    assert_eq!(refused(&|j| j.max_run_seconds = 0), bounds);
    assert_eq!(refused(&|j| j.max_run_seconds = 3601), bounds);
    assert_eq!(refused(&|j| j.conditions.quiet_process_names = strings(&["a/b"])), bounds);
    assert_eq!(refused(&|j| j.conditions.observe_process_names = strings(&[""])), bounds);
    let server = |pid, port| IdleLlamaServer { pid, port };
    assert_eq!(refused(&|j| j.conditions.idle_llama_servers = vec![server(1, 0)]), bounds);
    assert_eq!(refused(&|j| j.conditions.idle_llama_servers = vec![server(1, 1); 5]), bounds);
    let dependency = "invalid, repeated or self dependency";
    assert_eq!(refused(&|j| j.after = strings(&["second"])), dependency);
    assert_eq!(refused(&|j| j.after = strings(&["a", "a"])), dependency);
    assert_eq!(refused(&|j| j.after = strings(&["a b"])), dependency);
    let call = "invalid command directory, argument or environment";
    assert_eq!(refused(&|j| j.command.cwd = "x".into()), call);
    assert_eq!(refused(&|j| j.command.args = strings(&["a\0"])), call);
    assert_eq!(refused(&|j| j.command.env = vec![("A=B".into(), "".into())]), call);
    assert_eq!(refused(&|j| j.command.env = vec![("".into(), "".into())]), call);
    assert_eq!(refused(&|j| j.command.env = vec![("A".into(), "\0".into())]), call);
    assert_eq!(
        refused(&|j| j.command.executable.sha256 = "0".repeat(63)),
        "invalid executable pin"
    );
    assert_eq!(
        refused(&|j| j.inputs = vec![Pin { path: "x".into(), sha256: "0".repeat(64) }]),
        "invalid input pin"
    );
    let no_disk = Directories { disk_path: false, ..dirs() };
    assert_eq!(job("second").validate(no_disk).unwrap_err(), bounds);
    let no_cwd = Directories { command_cwd: false, ..dirs() };
    assert_eq!(job("second").validate(no_cwd).unwrap_err(), call);
}

fn sealed() -> (Job, SubmissionFile, Vec<PinnedFile>) {
    let digest = |name: &str| format!("{:x}", sha2::Sha256::digest(name));
    let mut sealed = job("sealed");
    sealed.command.executable = pinned("/bin/exe", b"exe");
    sealed.kernel_game_submission = Some(pinned("/in/submission.json", b"submission"));
    let names = ["tree", "source", "model", "reference", "workload", "oracle"];
    sealed.inputs = names
        .iter()
        .map(|n| Pin { path: format!("/in/{n}"), sha256: digest(n).to_ascii_uppercase() })
        .collect();
    sealed.command.args = strings(&[
        "--kernel-game-submission",
        "/in//submission.json",
        "--kernel-game-source-tree",
        "/in/tree",
        "--kernel-game-oracle",
        "/in/oracle",
    ]);
    sealed.command.env = vec![("RVLLM_METAL_RESEARCH".into(), "candidate".into())];
    let submission = Submission {
        candidate: "candidate".into(),
        executable: pinned("", b"exe").sha256,
        source_tree: digest("tree"),
        generated_source: digest("source"),
        model: digest("model"),
        reference: digest("reference"),
        workload: digest("workload"),
        oracle: digest("oracle"),
        metallib: None,
    };
    let mut files = vec![read_file(b"exe")];
    files.extend(names.iter().map(|n| read_file(n.as_bytes())));
    let file = SubmissionFile {
        file: read_file(b"submission"),
        parsed: Ok(submission),
        fault: None,
    };
    (sealed, file, files)
}

#[test]
fn sealed_submissions_bind_the_queued_command() {
    let (sealed_job, file, files) = sealed();
    assert_eq!(sealed_job.verify_files(&files, &Some(file)), Ok(()));
    assert!(sealed_job.files_present(&vec![true; 8]).is_ok());
    let mut present = vec![true; 8];
    present[7] = false;
    assert_eq!(
        sealed_job.files_present(&present),
        Err("missing pinned file: /in/submission.json".to_string())
    );
    let refused = |change: &dyn Fn(&mut Job, &mut SubmissionFile)| {
        let (mut job, mut file, files) = sealed();
        change(&mut job, &mut file);
        job.verify_files(&files, &Some(file)).unwrap_err()
    };
    assert_eq!(
        refused(&|_, f| f.parsed = Err("bad".into())),
        "invalid kernel-game submission: bad"
    );
    assert_eq!(refused(&|_, f| f.fault = Some("unsealed".into())), "unsealed");
    assert_eq!(
        refused(&|_, f| f.parsed.as_mut().unwrap().executable = "0".repeat(64)),
        "kernel-game executable identity differs from queued executable"
    );
    let unbound = "queued command is not bound to the sealed kernel-game candidate";
    assert_eq!(refused(&|j, _| j.command.env.clear()), unbound);
    assert_eq!(refused(&|j, _| j.command.args[1] = "/in/other".into()), unbound);
    let missing = refused(&|_, f| f.parsed.as_mut().unwrap().metallib = Some("ff".into()));
    assert_eq!(missing, "kernel-game required artifact ff is not a queued input pin");
    assert_eq!(
        refused(&|j, _| j.command.args[5] = "/in/tree".into()),
        "queued command omits its pinned source-tree or oracle binding"
    );
}

#[test]
fn idle_server_exception_requires_all_explicit_slots_idle() {
    assert!(slots_idle(br#"[{"id":0,"is_processing":false}]"#));
    for bytes in [
        b"[]".as_slice(),
        b"{}",
        b"invalid",
        br#"[{"is_processing":true}]"#,
        br#"[{"id":0}]"#,
        br#"[{"is_processing":false},{"is_processing":true}]"#,
    ] {
        assert!(!slots_idle(bytes));
    }
}

#[test]
fn failed_dependency_blocks_downstream_work() {
    let reports = vec![ReportFile::Read(value("{\"status\":\"failed\"}"))];
    let state = dependency_state(&strings(&["first"]), &reports).unwrap();
    assert!(matches!(state, DependencyState::Failed(id) if id == "first"));
}

#[test]
fn condition_rejected_dependency_allows_downstream_work() {
    let report = "{\"status\":\"rejected\",\"sampled_conditions_eligible\":false}";
    let reports = vec![ReportFile::Read(value(report))];
    let state = dependency_state(&strings(&["first"]), &reports).unwrap();
    assert!(matches!(state, DependencyState::Ready));
}

#[test]
fn unreported_dependencies_are_waited_for() {
    let after = strings(&["a", "b"]);
    let done = || ReportFile::Read(value("{\"status\":\"succeeded\"}"));
    let waiting = dependency_state(&after, &vec![done(), ReportFile::Absent]).unwrap();
    assert!(matches!(waiting, DependencyState::Waiting));
    let error = dependency_state(&after, &vec![ReportFile::Unreadable("io".into()), done()]);
    assert_eq!(error.unwrap_err(), "io");
}

#[test]
fn dependency_report_must_identify_its_job() {
    let report = value(
        "{\"schema\":\"rvllm.experiment_result.v1\",\"id\":\"another-job\",\"status\":\"succeeded\"}",
    );
    assert!(
        dependencies_ready(&strings(&["first"]), &vec![ReportFile::Read(report)]).is_err(),
        "a result for another job must not satisfy this dependency"
    );
    let own = value(
        "{\"schema\":\"rvllm.experiment_result.v1\",\"id\":\"first\",\"status\":\"succeeded\"}",
    );
    assert_eq!(dependencies_ready(&strings(&["first"]), &vec![ReportFile::Read(own)]), Ok(true));
    assert_eq!(
        dependencies_ready(&strings(&["first"]), &vec![ReportFile::Absent]),
        Ok(false)
    );
    let failed = value(
        "{\"schema\":\"rvllm.experiment_result.v1\",\"id\":\"first\",\"status\":\"failed\"}",
    );
    assert_eq!(
        successful_result("first", &ReportFile::Read(failed)),
        Err("job first has failed or incomplete output; no replay".to_string())
    );
}

#[test]
fn quarantine_preserves_manifest_and_report_identities() {
    let hash = |bytes: &[u8]| format!("{:x}", sha2::Sha256::digest(bytes));
    let report = Some(b"{\"status\":\"failed\"}".to_vec());
    let receipt =
        quarantine_manifest("/q", "second", "test failure", false, b"manifest", &report).unwrap();
    assert_eq!(receipt.reason, "test failure");
    assert_eq!(receipt.manifest_path, "/q/quarantined-jobs/second.json");
    assert_eq!(receipt.manifest_sha256, hash(b"manifest"));
    let (path, digest) = receipt.report.unwrap();
    assert_eq!(path, "/q/results/second/report.json");
    assert_eq!(digest, hash(b"{\"status\":\"failed\"}"));
    let again = quarantine_manifest("/q", "second", "retry", true, b"manifest", &None);
    assert_eq!(
        again.unwrap_err(),
        "quarantine identity already exists for second"
    );
}

#[test]
fn last_gate_refusal_prevents_spawn_after_output_setup() {
    assert_eq!(
        last_gate(Err("stale launch gate".into())),
        Err("stale launch gate".to_string())
    );
    assert_eq!(
        last_gate(Ok(false)),
        Err("launch gate lost after attempt setup; no trial started".to_string())
    );
    assert!(last_gate(Ok(true)).is_ok());
}

#[test]
fn gates_look_at_stops_and_deadlines_twice() {
    let at = |seconds, nanos| Elapsed { seconds, nanos };
    assert_eq!(gate_before_probe("j", at(10, 0), 10, false), Ok(true));
    assert_eq!(gate_before_probe("j", at(10, 0), 10, true), Ok(false));
    assert_eq!(
        gate_before_probe("j", at(10, 1), 10, false),
        Err("job j expired before launch; no trial started".to_string())
    );
    assert_eq!(gate_after_probe("j", Ok(true), false, at(1, 0), 10), Ok(true));
    assert_eq!(gate_after_probe("j", Ok(true), true, at(11, 0), 10), Ok(false));
    assert!(gate_after_probe("j", Ok(true), false, at(11, 0), 10).is_err());
    assert_eq!(
        gate_after_probe("j", Err("probe".into()), true, at(1, 0), 10),
        Err("probe".to_string())
    );
}

#[test]
fn output_placeholder_expands_in_environment_values() {
    let mut call = job("j").command;
    call.env = vec![("RVLLM_QUEUE_OUTPUT_TEST".into(), "{output}/receipt.json".into())];
    call.args = strings(&["--out={output}", "{output}{output}", "{outpu}"]);
    let env = launch_environment(&call, "/q/results/j");
    assert_eq!(
        env,
        vec![
            ("PATH".to_string(), "/usr/bin:/bin:/usr/sbin:/sbin".to_string()),
            ("LANG".to_string(), "C".to_string()),
            ("RVLLM_QUEUE_OUTPUT_TEST".to_string(), "/q/results/j/receipt.json".to_string()),
        ]
    );
    assert_eq!(launch_arguments(&call, "/d"), ["--out=/d", "/d/d", "{outpu}"]);
    let text = "a{{output}b{output";
    assert_eq!(expand_output(text, "X"), text.replace("{output}", "X"));
}

#[test]
fn trials_are_watched_without_being_killed() {
    let mut watch = Watch::new();
    assert!(!watch.observe(Some(true)));
    for i in 0..40 {
        assert_eq!(watch.observe(if i % 2 == 0 { Some(false) } else { None }), i < 32);
    }
    assert_eq!(watch.violations, 32);
    assert!(!watch.tick(Elapsed { seconds: 10, nanos: 0 }, 10));
    assert!(watch.tick(Elapsed { seconds: 10, nanos: 1 }, 10));
    assert!(!watch.tick(Elapsed { seconds: 99, nanos: 1 }, 10));
    assert!(watch.overdue);
}

#[test]
fn verdicts_reject_timings_under_other_conditions() {
    let good = Ending {
        purpose: Purpose::Timing,
        watch: Watch { violations: 0, overdue: false },
        exit_success: true,
        files_unchanged: true,
        phase_eligible: true,
    };
    assert_eq!(conclude(&good, None), Status::Succeeded);
    assert_eq!(conclude(&good, Some(true)), Status::Succeeded);
    assert_eq!(conclude(&good, Some(false)), Status::Failed);
    let disturbed = Ending { phase_eligible: false, ..good };
    assert_eq!(conclude(&disturbed, None), Status::Rejected);
    assert!(conclude(&disturbed, None).settles());
    let explored = Ending { purpose: Purpose::ExploratoryTiming, ..disturbed };
    assert_eq!(conclude(&explored, None), Status::Succeeded);
    assert!(!explored.eligible());
    let changed = Ending { files_unchanged: false, ..good };
    assert_eq!(conclude(&changed, None).text(), "failed");
    let crashed = Ending { exit_success: false, ..disturbed };
    assert_eq!(conclude(&crashed, None), Status::Failed);
    let overdue = Ending { watch: Watch { violations: 0, overdue: true }, ..good };
    assert_eq!(conclude(&overdue, None), Status::Failed);
}

#[test]
fn phases_are_judged_by_the_thermal_condition() {
    let eligible = value("{\"sampled_controls_eligible\":true}");
    let not = value("{\"sampled_controls_eligible\":false}");
    let mut c = conditions();
    assert!(phase_eligible(&eligible, &c, false) && !phase_eligible(&not, &c, true));
    c.thermal_state = None;
    assert!(phase_eligible(&eligible, &c, false) && phase_eligible(&not, &c, true));
    c.thermal_state = Some(1);
    assert!(!phase_eligible(&eligible, &c, false) && phase_eligible(&not, &c, true));
}

#[test]
fn command_lines_are_read_or_answered_with_the_usage() {
    let parse = |list: &[&str]| parse_command(&strings(list));
    assert!(matches!(
        parse(&["submit", "/q", "job.json"]),
        Ok(QueueCommand::Submit { job }) if job == "job.json"
    ));
    assert!(matches!(
        parse(&["run", "/q", "/lock"]),
        Ok(QueueCommand::Run { lock, idle_seconds: Some(300) }) if lock == "/lock"
    ));
    assert!(matches!(
        parse(&["run", "/q", "/lock", "86400"]),
        Ok(QueueCommand::Run { idle_seconds: Some(86400), .. })
    ));
    assert!(matches!(
        parse(&["daemon", "/q", "/lock"]),
        Ok(QueueCommand::Run { idle_seconds: None, .. })
    ));
    assert!(matches!(parse(&["stop", "/q"]), Ok(QueueCommand::Stop)));
    assert!(matches!(parse(&["status", "/q"]), Ok(QueueCommand::Status)));
    let error = |list: &[&str]| parse(list).unwrap_err();
    assert_eq!(error(&["stop"]), usage());
    assert_eq!(error(&["stop", "/q", "x"]), usage());
    assert_eq!(error(&["stop", "q"]), "queue path must be absolute");
    assert_eq!(error(&["run", "/q", "lock"]), "global lock must be absolute");
    assert_eq!(error(&["daemon", "/q", "lock"]), "global lock must be absolute");
    assert_eq!(error(&["run", "/q", "/l", "86401"]), "idle time must be <= 86400 seconds");
    assert_eq!(error(&["run", "/q", "/l", "x"]), "invalid digit found in string");
}

#[test]
fn submissions_are_new_and_follow_their_dependencies() {
    let none: Vec<String> = vec![];
    assert!(check_submission(false, false, false, &none, &vec![]).is_ok());
    for taken in [(true, false, false), (false, true, false), (false, false, true)] {
        assert_eq!(
            check_submission(taken.0, taken.1, taken.2, &none, &vec![]),
            Err("job id already exists".to_string())
        );
    }
    let after = strings(&["a", "b"]);
    assert_eq!(
        check_submission(false, false, false, &after, &vec![true, false]),
        Err("submit dependency b first".to_string())
    );
    assert_eq!(job_path("/q", Place::Manifest, "a"), "/q/jobs/a.json");
    assert_eq!(job_path("/q", Place::Result, "a"), "/q/results/a");
    assert_eq!(job_path("/q/", Place::Receipt, "a"), "/q/quarantined-jobs/a.receipt.json");
}

#[test]
fn manifests_are_listed_in_order() {
    let entry = |name: &str, is_file| Entry { name: name.into(), is_file };
    let entries = vec![
        entry("b.json", true),
        entry("a.json", true),
        entry("c.json", false),
        entry(".json", true),
        entry("d.txt", true),
        entry("e.json.tmp", true),
        entry("json", true),
    ];
    assert_eq!(manifests(&entries), ["a.json", "b.json"]);
    assert!(stopped(true, false) && stopped(false, true) && !stopped(false, false));
}

fn census_job(id: &str, after: &[&str], report: ReportFile) -> CensusJob {
    let mut own = job(id);
    own.after = strings(after);
    CensusJob { job: own, dirs: dirs(), report, saved_matches: Ok(true) }
}

fn success(id: &str, purpose: &str) -> ReportFile {
    ReportFile::Read(value(&format!(
        "{{\"schema\":\"rvllm.experiment_result.v1\",\"id\":\"{id}\",\"status\":\"succeeded\",\
         \"purpose\":\"{purpose}\"}}"
    )))
}

#[test]
fn a_census_finds_the_pending_jobs_or_what_does_not_fit() {
    let entry = |name: &str, is_dir| ResultEntry { name: name.into(), is_dir };
    let jobs = || {
        vec![
            census_job("a", &[], success("a", "timing")),
            census_job("b", &["a"], ReportFile::Absent),
            census_job("c", &["b"], ReportFile::Absent),
        ]
    };
    assert_eq!(pending_jobs(&jobs(), &vec![entry("a", true)]), Ok(vec![1, 2]));
    assert_eq!(
        pending_jobs(&jobs(), &vec![entry("z", true)]),
        Err("orphan or non-directory result z; review required".to_string())
    );
    assert!(pending_jobs(&jobs(), &vec![entry("a", false)]).is_err());
    let mut cyclic = jobs();
    cyclic[1].job.after = strings(&["c"]);
    assert_eq!(
        pending_jobs(&cyclic, &vec![]),
        Err("cyclic pending dependencies; no trial started".to_string())
    );
    let mut missing = jobs();
    missing[2].job.after = strings(&["x"]);
    assert_eq!(
        pending_jobs(&missing, &vec![]),
        Err("job c has a missing dependency".to_string())
    );
    let mut policy = jobs();
    policy[0].report = success("a", "preparation");
    assert_eq!(
        pending_jobs(&policy, &vec![]),
        Err("result policy differs from manifest a".to_string())
    );
    let mut changed = jobs();
    changed[0].saved_matches = Ok(false);
    assert_eq!(
        pending_jobs(&changed, &vec![]),
        Err("attempted manifest a changed; no replay".to_string())
    );
    let mut invalid = jobs();
    invalid[1].job.max_run_seconds = 0;
    assert!(pending_jobs(&invalid, &vec![]).is_err());
    assert!(resolves(&vec![vec![0]], &vec![true]));
    assert!(!resolves(&vec![vec![0]], &vec![false]));
}

#[test]
fn manifests_bear_their_jobs_identity() {
    let own = job("a");
    assert!(check_identity("/q/jobs/a.json", &Some("a".into()), &own, false).is_ok());
    assert_eq!(
        check_identity("/q/jobs/b.json", &Some("b".into()), &own, false),
        Err("manifest filename/identity mismatch: /q/jobs/b.json".to_string())
    );
    assert_eq!(
        check_identity("/q/jobs/a.json", &Some("a".into()), &own, true),
        Err("duplicate job identity".to_string())
    );
}

#[test]
fn audits_hash_every_pin_again() {
    let mut own = job("a");
    own.command.executable = pinned("/e", b"e");
    own.inputs = vec![pinned("/i", b"i"), pinned("/k", b"k")];
    let hash = |bytes: &[u8]| Ok(format!("{:x}", sha2::Sha256::digest(bytes)));
    let digests = vec![hash(b"e"), hash(b"other"), Err("io".to_string())];
    assert_eq!(audit_pins(&own, &digests), [true, false, false]);
}

#[test]
fn qualification_runs_harmless_fixtures_only() {
    let (blocked, ready, dependent) =
        qualification_jobs("/out", &"1".repeat(64), &"2".repeat(64), &conditions());
    assert_eq!(blocked.conditions.minimum_free_bytes, u64::MAX);
    assert_eq!(ready.command.executable.path, "/usr/bin/true");
    assert_eq!(dependent.command.executable.path, "/usr/bin/touch");
    assert_eq!(dependent.command.args, ["/out/STOP"]);
    assert_eq!(dependent.after, ["01-ready"]);
    for fixture in [&blocked, &ready, &dependent] {
        assert!(fixture.validate(dirs()).is_ok());
    }
    let report = |id: &str, eligible: bool| {
        ReportFile::Read(value(&format!(
            "{{\"schema\":\"rvllm.experiment_result.v1\",\"id\":\"{id}\",\"status\":\"succeeded\",\
             \"purpose\":\"preparation\",\"sampled_conditions_eligible\":{eligible}}}"
        )))
    };
    let stop = || report("02-dependent-stop", false);
    assert!(qualify(false, true, &report("01-ready", false), &stop()).is_ok());
    assert!(qualify(true, true, &report("01-ready", false), &stop()).is_err());
    assert_eq!(
        qualify(false, true, &report("01-ready", true), &stop()),
        Err("host fixture claimed timing eligibility".to_string())
    );
    assert_eq!(
        qualify(false, true, &ReportFile::Absent, &stop()),
        Err("host fixture did not execute".to_string())
    );
    assert!(check_paths("/a", "/b", "/c").is_ok());
    assert!(check_paths("/a", "b", "/c").is_err());
    assert!(check_source("x", "x").is_ok() && check_source("x", "y").is_err());
}

#[test]
fn report_files_are_absent_unreadable_or_read() {
    assert!(matches!(report_file(&None), ReportFile::Absent));
    assert!(matches!(
        report_file(&Some(Err("denied".into()))),
        ReportFile::Unreadable(message) if message == "denied"
    ));
    let broken = read_json(b"{").unwrap_err();
    assert!(matches!(
        report_file(&Some(Ok(b"{".to_vec()))),
        ReportFile::Unreadable(message) if message == broken
    ));
    assert!(matches!(
        report_file(&Some(Ok(b"{\"status\":\"succeeded\"}".to_vec()))),
        ReportFile::Read(report) if report["status"] == "succeeded"
    ));
}
