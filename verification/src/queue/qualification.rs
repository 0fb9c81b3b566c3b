//! Qualification of the host's scheduling with harmless programs: one job that can
//! never be ready, one that is, and one behind it that stops the queue.
use crate::json::{bool_at, json_model, member_flag, member_text, text_at};
use crate::paths::{is_absolute, join_path, joined, path_is_absolute};
use crate::queue::desk::{result_of, successful_result, ReportFile};
use crate::queue::job::{Conditions, IdleLlamaServer, Invocation, Job, Pin, Purpose};
use crate::text::{same, texts, told};
use vstd::prelude::*;

verus! {

pub open spec fn paths_outcome(output: Seq<char>, lock: Seq<char>, conditions: Seq<char>) -> Result<
    (),
    Seq<char>,
> {
    if is_absolute(output) && is_absolute(lock) && is_absolute(conditions) {
        Ok(())
    } else {
        Err("qualification paths must be absolute"@)
    }
}

pub fn check_paths(output: &str, global_lock: &str, conditions_job: &str) -> (r: Result<(), String>)
    ensures
        told(r) == paths_outcome(output@, global_lock@, conditions_job@),
{
    if path_is_absolute(output) && path_is_absolute(global_lock) && path_is_absolute(
        conditions_job,
    ) {
        Ok(())
    } else {
        Err("qualification paths must be absolute".to_owned())
    }
}

fn copy_texts(v: &Vec<String>) -> (r: Vec<String>)
    ensures
        texts(r@) == texts(v@),
{
    let mut out: Vec<String> = Vec::new();
    let mut i: usize = 0;
    while i < v.len()
        invariant
            i <= v@.len(),
            out@.len() == i,
            forall|j: int| 0 <= j < i ==> (#[trigger] out@[j])@ == v@[j]@,
        decreases v@.len() - i,
    {
        out.push(v[i].as_str().to_owned());
        i = i + 1;
    }
    assert(texts(out@) =~= texts(v@));
    out
}

fn copy_servers(v: &Vec<IdleLlamaServer>) -> (r: Vec<IdleLlamaServer>)
    ensures
        r@ == v@,
{
    let mut out: Vec<IdleLlamaServer> = Vec::new();
    let mut i: usize = 0;
    while i < v.len()
        invariant
            i <= v@.len(),
            out@ == v@.take(i as int),
        decreases v@.len() - i,
    {
        out.push(v[i]);
        assert(out@ =~= v@.take(i + 1));
        i = i + 1;
    }
    assert(v@.take(i as int) =~= v@);
    out
}

/// Whether conditions are those of another job, but for the free space that they
/// ask for.
pub open spec fn same_conditions(c: Conditions, of: Conditions, minimum_free_bytes: u64) -> bool {
    &&& c.power_source@ == of.power_source@
    &&& c.low_power_mode == of.low_power_mode
    &&& c.pmset_power_mode == of.pmset_power_mode
    &&& c.thermal_state == of.thermal_state
    &&& c.minimum_free_bytes == minimum_free_bytes
    &&& c.disk_path@ == of.disk_path@
    &&& texts(c.quiet_process_names@) == texts(of.quiet_process_names@)
    &&& texts(c.observe_process_names@) == texts(of.observe_process_names@)
    &&& c.idle_llama_servers@ == of.idle_llama_servers@
}

fn copy_conditions(of: &Conditions, minimum_free_bytes: u64) -> (r: Conditions)
    ensures
        same_conditions(r, *of, minimum_free_bytes),
{
    Conditions {
        power_source: of.power_source.as_str().to_owned(),
        low_power_mode: of.low_power_mode,
        pmset_power_mode: of.pmset_power_mode,
        thermal_state: of.thermal_state,
        minimum_free_bytes,
        disk_path: of.disk_path.as_str().to_owned(),
        quiet_process_names: copy_texts(&of.quiet_process_names),
        observe_process_names: copy_texts(&of.observe_process_names),
        idle_llama_servers: copy_servers(&of.idle_llama_servers),
    }
}

/// Whether a job only runs a program of the system, in the output directory.
pub open spec fn is_fixture(
    job: Job,
    id: Seq<char>,
    program: Seq<char>,
    digest: Seq<char>,
    args: Seq<Seq<char>>,
    output: Seq<char>,
    after: Seq<Seq<char>>,
) -> bool {
    &&& job.schema@ == "rvllm.experiment_job.v1"@
    &&& job.id@ == id
    &&& job.purpose == Purpose::Preparation
    &&& job.command.executable.path@ == program
    &&& job.command.executable.sha256@ == digest
    &&& job.command.cwd@ == output
    &&& texts(job.command.args@) == args
    &&& job.command.env@.len() == 0
    &&& job.validator is None
    &&& job.inputs@.len() == 0
    &&& job.kernel_game_submission is None
    &&& texts(job.after@) == after
    &&& job.stable_seconds == 2
    &&& job.max_wait_seconds == 30
    &&& job.max_run_seconds == 5
}

fn fixture(
    id: &str,
    program: &str,
    digest: &str,
    args: Vec<String>,
    output: &str,
    after: Vec<String>,
    conditions: Conditions,
) -> (r: Job)
    ensures
        is_fixture(r, id@, program@, digest@, texts(args@), output@, texts(after@)),
        r.conditions == conditions,
{
    Job {
        schema: "rvllm.experiment_job.v1".to_owned(),
        id: id.to_owned(),
        purpose: Purpose::Preparation,
        command: Invocation {
            executable: Pin { path: program.to_owned(), sha256: digest.to_owned() },
            cwd: output.to_owned(),
            args,
            env: Vec::new(),
        },
        validator: None,
        inputs: Vec::new(),
        kernel_game_submission: None,
        after,
        conditions,
        stable_seconds: 2,
        max_wait_seconds: 30,
        max_run_seconds: 5,
    }
}

/// The three jobs of a qualification: one that asks for more space than any disk
/// has, one that runs under the given conditions, and one after it that leaves a
/// stop behind.
pub fn qualification_jobs(
    output: &str,
    true_digest: &str,
    touch_digest: &str,
    conditions: &Conditions,
) -> (r: (Job, Job, Job))
    ensures
        is_fixture(
            r.0,
            "00-unready-control"@,
            "/usr/bin/true"@,
            true_digest@,
            Seq::empty(),
            output@,
            Seq::empty(),
        ),
        same_conditions(r.0.conditions, *conditions, u64::MAX),
        is_fixture(
            r.1,
            "01-ready"@,
            "/usr/bin/true"@,
            true_digest@,
            Seq::empty(),
            output@,
            Seq::empty(),
        ),
        same_conditions(r.1.conditions, *conditions, conditions.minimum_free_bytes),
        is_fixture(
            r.2,
            "02-dependent-stop"@,
            "/usr/bin/touch"@,
            touch_digest@,
            seq![joined(output@, "STOP"@)],
            output@,
            seq!["01-ready"@],
        ),
        same_conditions(r.2.conditions, *conditions, conditions.minimum_free_bytes),
{
    let none: Vec<String> = Vec::new();
    assert(texts(none@) =~= Seq::empty());
    let blocked = fixture(
        "00-unready-control",
        "/usr/bin/true",
        true_digest,
        copy_texts(&none),
        output,
        copy_texts(&none),
        copy_conditions(conditions, u64::MAX),
    );
    let ready = fixture(
        "01-ready",
        "/usr/bin/true",
        true_digest,
        copy_texts(&none),
        output,
        copy_texts(&none),
        copy_conditions(conditions, conditions.minimum_free_bytes),
    );
    let mut args: Vec<String> = Vec::new();
    args.push(join_path(output, "STOP"));
    assert(texts(args@) =~= seq![joined(output@, "STOP"@)]);
    let mut after: Vec<String> = Vec::new();
    after.push("01-ready".to_owned());
    assert(texts(after@) =~= seq!["01-ready"@]);
    let dependent = fixture(
        "02-dependent-stop",
        "/usr/bin/touch",
        touch_digest,
        args,
        output,
        after,
        copy_conditions(conditions, conditions.minimum_free_bytes),
    );
    (blocked, ready, dependent)
}

/// Whether a fixture ran, and claims no eligibility.
pub open spec fn fixture_outcome(id: Seq<char>, report: ReportFile) -> Result<(), Seq<char>> {
    match result_of(id, report) {
        Err(message) => Err(message),
        Ok(false) => Err("host fixture did not execute"@),
        Ok(true) => if text_at(json_model(report->Read_0), "purpose"@) != Some("preparation"@)
            || bool_at(json_model(report->Read_0), "sampled_conditions_eligible"@) != Some(false) {
            Err("host fixture claimed timing eligibility"@)
        } else {
            Ok(())
        },
    }
}

/// Whether a qualification passed: the blocked job did not run, the queue was
/// stopped, and both others ran, claiming no eligibility.
pub open spec fn qualification_outcome(
    blocked_ran: bool,
    stopped: bool,
    ready: ReportFile,
    dependent: ReportFile,
) -> Result<(), Seq<char>> {
    if blocked_ran || !stopped {
        Err("blocked job ran or dependent stop did not finish"@)
    } else if fixture_outcome("01-ready"@, ready) is Err {
        fixture_outcome("01-ready"@, ready)
    } else {
        fixture_outcome("02-dependent-stop"@, dependent)
    }
}

fn check_fixture(id: &str, report: &ReportFile) -> (r: Result<(), String>)
    ensures
        told(r) == fixture_outcome(id@, *report),
{
    match successful_result(id, report) {
        Err(message) => {
            return Err(message);
        },
        Ok(found) => {
            if !found {
                return Err("host fixture did not execute".to_owned());
            }
        },
    }
    if let ReportFile::Read(value) = report {
        let purpose = match member_text(value, "purpose") {
            Some(text) => same(text, "preparation"),
            None => false,
        };
        let ineligible = match member_flag(value, "sampled_conditions_eligible") {
            Some(b) => !b,
            None => false,
        };
        if !purpose || !ineligible {
            return Err("host fixture claimed timing eligibility".to_owned());
        }
    }
    Ok(())
}

/// The verdict of a qualification.
pub fn qualify(blocked_ran: bool, stopped: bool, ready: &ReportFile, dependent: &ReportFile) -> (r:
    Result<(), String>)
    ensures
        told(r) == qualification_outcome(blocked_ran, stopped, *ready, *dependent),
{
    if blocked_ran || !stopped {
        return Err("blocked job ran or dependent stop did not finish".to_owned());
    }
    match check_fixture("01-ready", ready) {
        Ok(_) => check_fixture("02-dependent-stop", dependent),
        Err(message) => Err(message),
    }
}

pub open spec fn source_outcome(before: Seq<char>, after: Seq<char>) -> Result<(), Seq<char>> {
    if after != before {
        Err("conditions source changed during qualification"@)
    } else {
        Ok(())
    }
}

/// Checks that the job whose conditions were taken is still the same file.
pub fn check_source(before: &str, after: &str) -> (r: Result<(), String>)
    ensures
        told(r) == source_outcome(before@, after@),
{
    if !same(after, before) {
        return Err("conditions source changed during qualification".to_owned());
    }
    Ok(())
}

} // verus!
