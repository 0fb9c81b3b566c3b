//! The queue's worker and its launch protocol.
use rvllm_runtime::queue::desk::ReportFile;
use rvllm_runtime::queue::job::{Conditions, Directories, Invocation, Job, Pin, Purpose};
use rvllm_runtime::queue::prelaunch::{Call, Observation, Prelaunch, Reply};
use rvllm_runtime::queue::selection::{select, Sample};
use rvllm_runtime::queue::worker::{Pending, StateNote, Worker, WorkerCall, WorkerReply};

/// Runs a verification with a host that replies from lists.
struct Host {
    observations: Vec<Observation>,
    completes_after: usize,
    verification: Result<Result<(), String>, ()>,
    observed: usize,
    started: bool,
    joined: bool,
}

fn host(observations: Vec<Observation>) -> Host {
    Host {
        observations,
        completes_after: 0,
        verification: Ok(Ok(())),
        observed: 0,
        started: false,
        joined: false,
    }
}

fn verify(host: &mut Host) -> Observation {
    let (mut protocol, mut call) = Prelaunch::begin();
    let mut waited = 0;
    loop {
        let reply = match call {
            Call::Observe => {
                let observation = host.observations[host.observed].clone();
                host.observed += 1;
                Reply::Observed { observation }
            }
            Call::StartVerifier => {
                host.started = true;
                Reply::Started
            }
            Call::WaitForVerifier => {
                waited += 1;
                Reply::Waited { completed: waited > host.completes_after }
            }
            Call::JoinVerifier => {
                host.joined = true;
                match &host.verification {
                    Ok(outcome) => Reply::Joined { outcome: outcome.clone() },
                    Err(()) => Reply::Panicked,
                }
            }
            Call::Decide { outcome } => return outcome,
        };
        call = protocol.resume(reply);
    }
}

#[test]
fn initial_refusal_does_not_start_verification() {
    let mut h = host(vec![Ok(false)]);
    assert_eq!(verify(&mut h), Ok(false));
    assert!(!h.started);
}

#[test]
fn initial_observer_error_does_not_start_verification() {
    let mut h = host(vec![Err("probe failed".into())]);
    assert_eq!(verify(&mut h), Err("probe failed".into()));
    assert!(!h.started);
}

#[test]
fn successful_verification_requires_a_final_observation() {
    let mut h = host(vec![Ok(true), Ok(false)]);
    assert_eq!(verify(&mut h), Ok(false));
    assert!(h.observed >= 2);
}

#[test]
fn pending_verification_is_observed_without_waiting_for_completion() {
    let mut h = host(vec![Ok(true), Ok(true), Ok(true)]);
    h.completes_after = 1;
    assert_eq!(verify(&mut h), Ok(true));
    assert!(h.observed >= 3);
}

#[test]
fn loss_of_readiness_joins_the_verifier_before_returning() {
    let mut h = host(vec![Ok(true), Ok(false)]);
    h.completes_after = 9;
    assert_eq!(verify(&mut h), Ok(false));
    assert!(h.joined);
    assert_eq!(h.observed, 2);
}

#[test]
fn observer_error_joins_the_verifier_before_returning() {
    let mut h = host(vec![Ok(true), Err("probe failed".into())]);
    h.completes_after = 9;
    assert_eq!(verify(&mut h), Err("probe failed".into()));
    assert!(h.joined);
    assert_eq!(h.observed, 2);
}

#[test]
fn pin_failure_is_not_downgraded_to_a_retry() {
    let mut h = host(vec![Ok(true); 9]);
    h.verification = Ok(Err("changed pin".into()));
    assert_eq!(verify(&mut h), Err("changed pin".into()));
}

#[test]
fn verifier_panic_is_reported_without_detaching_the_thread() {
    let mut h = host(vec![Ok(true); 9]);
    h.verification = Err(());
    assert_eq!(
        verify(&mut h),
        Err("prelaunch pin verifier panicked; no trial started".into())
    );
    assert!(h.joined);
}

const SECOND: u64 = 1_000_000_000;

fn job(id: &str, after: &[&str]) -> Job {
    Job {
        schema: "rvllm.experiment_job.v1".into(),
        id: id.into(),
        purpose: Purpose::Timing,
        command: Invocation {
            executable: Pin { path: "/e".into(), sha256: "0".repeat(64) },
            cwd: "/".into(),
            args: vec![],
            env: vec![],
        },
        validator: None,
        inputs: vec![],
        kernel_game_submission: None,
        after: after.iter().map(|s| s.to_string()).collect(),
        conditions: Conditions {
            power_source: "ac".into(),
            low_power_mode: None,
            pmset_power_mode: None,
            thermal_state: None,
            minimum_free_bytes: 1,
            disk_path: "/".into(),
            quiet_process_names: vec![],
            observe_process_names: vec![],
            idle_llama_servers: vec![],
        },
        stable_seconds: 0,
        max_wait_seconds: 10,
        max_run_seconds: 10,
    }
}

fn report(status: &str) -> ReportFile {
    ReportFile::Read(serde_json::from_str(&format!("{{\"status\":\"{status}\"}}")).unwrap())
}

/// A queue in memory: jobs, their results, and what the worker did.
struct Queue {
    jobs: Vec<Job>,
    results: Vec<(String, String)>,
    ready: bool,
    execution: Result<Option<bool>, String>,
    stop_after: usize,
    now: u64,
    log: Vec<String>,
}

fn queue(jobs: Vec<Job>) -> Queue {
    Queue {
        jobs,
        results: vec![],
        ready: true,
        execution: Ok(Some(true)),
        stop_after: 99,
        now: 0,
        log: vec![],
    }
}

impl Queue {
    fn result(&self, id: &str) -> ReportFile {
        match self.results.iter().find(|(own, _)| own == id) {
            Some((_, status)) => report(status),
            None => ReportFile::Absent,
        }
    }

    fn copy(&self, id: &str) -> Job {
        let own = self.jobs.iter().find(|own| own.id == id).unwrap();
        let after: Vec<&str> = own.after.iter().map(|s| s.as_str()).collect();
        job(&own.id, &after)
    }

    fn run(&mut self, idle_seconds: Option<u64>) -> Result<(), String> {
        let (mut worker, mut call) = Worker::begin(idle_seconds, self.now);
        let mut queries = 0;
        let mut listing: Vec<String> = vec![];
        for _ in 0..200 {
            let reply = match call {
                WorkerCall::QueryStop => {
                    queries += 1;
                    WorkerReply::Stop { stopped: queries > self.stop_after }
                }
                WorkerCall::ReadModified => {
                    let stamp = Ok(self.jobs.len() as u64);
                    WorkerReply::Modified { stamp, now: self.now }
                }
                WorkerCall::ListManifests => {
                    listing = self.jobs.iter().map(|own| own.id.clone()).collect();
                    WorkerReply::Manifests { count: Ok(listing.len()) }
                }
                WorkerCall::ReadManifest { index } => {
                    let own = self.copy(&listing[index]);
                    let result = self.result(&own.id);
                    WorkerReply::Manifest { job: Ok(own), result }
                }
                WorkerCall::Inspect => {
                    let own = worker.job().unwrap();
                    let reports = own.after.iter().map(|id| self.result(id)).collect();
                    let dirs =
                        Directories { disk_path: true, command_cwd: true, validator_cwd: true };
                    WorkerReply::Inspected { dirs, reports, now: self.now }
                }
                WorkerCall::StartMonitor => {
                    self.log.push("monitor".into());
                    WorkerReply::Monitor { outcome: Ok(()) }
                }
                WorkerCall::Probe => {
                    WorkerReply::Probed { ready: Ok(self.ready), now: self.now }
                }
                WorkerCall::SaveState { note } => {
                    self.log.push(format!("{note:?}"));
                    WorkerReply::Saved { outcome: Ok(()), now: self.now }
                }
                WorkerCall::Execute { started } => {
                    let id = worker.job().unwrap().id.clone();
                    self.log.push(format!("run {id} since {started}"));
                    match self.execution {
                        Ok(Some(true)) => self.results.push((id, "succeeded".into())),
                        Ok(Some(false)) => self.results.push((id, "failed".into())),
                        _ => {}
                    }
                    WorkerReply::Executed { outcome: self.execution.clone() }
                }
                WorkerCall::Quarantine { index, reason } => {
                    let id = worker.job().unwrap().id.clone();
                    self.log.push(format!("quarantine {id}: {reason}"));
                    assert_eq!(index.is_none(), reason == "trial or validator failed");
                    self.jobs.retain(|own| own.id != id);
                    WorkerReply::Quarantined { outcome: Ok(()) }
                }
                WorkerCall::Sleep => {
                    self.now += SECOND;
                    WorkerReply::Slept
                }
                WorkerCall::Finish => return Ok(()),
                WorkerCall::Fail { error } => return Err(error),
            };
            call = worker.resume(reply);
        }
        panic!("the worker did not end: {:?}", self.log)
    }
}

#[test]
fn stopped_worker_returns_before_observer_or_manifest_reads() {
    let mut q = queue(vec![job("must-not-read", &[])]);
    q.stop_after = 0;
    assert_eq!(q.run(Some(0)), Ok(()));
    assert_eq!(q.log, ["Stopped"]);
    assert_eq!(format!("{:?}", StateNote::Stopped), "Stopped");
}

#[test]
fn idle_worker_does_not_start_a_power_observer() {
    let mut q = queue(vec![]);
    assert_eq!(q.run(Some(0)), Ok(()));
    assert_eq!(q.log, ["Idle"]);
}

#[test]
fn jobs_run_in_the_order_of_their_dependencies() {
    let mut q = queue(vec![job("a", &["b"]), job("b", &[])]);
    assert_eq!(q.run(Some(2)), Ok(()));
    assert_eq!(
        q.log,
        ["monitor", "Starting", "run b since 0", "Starting", "run a since 0", "Idle"]
    );
}

#[test]
fn waiting_jobs_expire() {
    let mut q = queue(vec![job("a", &[])]);
    q.ready = false;
    assert_eq!(
        q.run(None),
        Err("job a expired waiting for conditions; no trial started".to_string())
    );
    assert_eq!(q.now, 11 * SECOND);
}

#[test]
fn failures_halt_a_run() {
    let mut q = queue(vec![job("a", &[])]);
    q.execution = Ok(Some(false));
    assert_eq!(
        q.run(Some(5)),
        Err("job a failed; queue stopped without retry".to_string())
    );
    let mut again = queue(vec![job("a", &[])]);
    again.results = vec![("a".into(), "running".into())];
    assert_eq!(
        again.run(Some(5)),
        Err("job a has failed or incomplete output; no replay".to_string())
    );
    let mut behind = queue(vec![job("b", &["a"])]);
    behind.results = vec![("a".into(), "failed".into())];
    assert_eq!(
        behind.run(Some(5)),
        Err("dependency a did not succeed; queue stopped".to_string())
    );
    let mut broken = queue(vec![job("a", &[])]);
    broken.execution = Err("disk full".into());
    assert_eq!(broken.run(None), Err("disk full".to_string()));
}

#[test]
fn daemons_quarantine_and_go_on() {
    let mut q = queue(vec![job("a", &[])]);
    q.execution = Ok(Some(false));
    q.stop_after = 4;
    assert_eq!(q.run(None), Ok(()));
    assert_eq!(q.log[2], "run a since 0");
    assert_eq!(q.log[3], "quarantine a: trial or validator failed");
    assert_eq!(q.log.last().unwrap(), "Stopped");
    let mut failed = queue(vec![job("b", &["a"])]);
    failed.results = vec![("a".into(), "failed".into())];
    failed.stop_after = 3;
    assert_eq!(failed.run(None), Ok(()));
    assert_eq!(failed.log[0], "quarantine b: dependency a did not succeed");
}

#[test]
fn a_stop_between_probe_and_launch_starts_nothing() {
    let mut q = queue(vec![job("a", &[])]);
    q.stop_after = 1;
    assert_eq!(q.run(Some(5)), Ok(()));
    assert_eq!(q.log, ["monitor", "Stopped"]);
}

fn sample(dependencies: bool, now: u64, conditions: bool) -> Sample {
    Sample { dependencies: Ok(dependencies), now, conditions: Ok(conditions), observed: now }
}

#[test]
fn selection_takes_the_first_ready_job() {
    let jobs = vec![job("a", &["x"]), job("b", &[]), job("c", &[])];
    let mut waiting = vec![];
    let samples =
        vec![sample(false, 0, true), sample(true, 0, false), sample(true, 0, true)];
    let (selected, pending) = select(&jobs, &samples, &mut waiting).unwrap();
    assert_eq!(selected, Some(2));
    assert!(matches!(&pending[0], Pending::Dependencies { id } if id == "a"));
    assert!(matches!(&pending[1], Pending::Conditions { id, wait_seconds: 0 } if id == "b"));
    assert_eq!(pending.len(), 3);
    let late = vec![
        sample(false, 0, true),
        sample(true, 10 * SECOND, false),
        sample(true, 10 * SECOND, false),
    ];
    let (selected, pending) = select(&jobs, &late, &mut waiting).unwrap();
    assert_eq!(selected, None);
    assert!(matches!(&pending[1], Pending::Conditions { wait_seconds: 10, .. }));
    let expired = vec![
        sample(false, 0, true),
        sample(true, 10 * SECOND + 1, true),
        sample(true, 0, true),
    ];
    assert_eq!(
        select(&jobs, &expired, &mut waiting).unwrap_err(),
        "job b expired waiting for conditions; no trial started"
    );
}
