//! What a queue takes on: its jobs, the files they pin and the commands it obeys.
use crate::paths::{is_absolute, joined, same_path};
use crate::queue::desk::{
    command_of, dependencies_from, has_json_extension, is_manifest, last_dot, manifest_names,
    place_of, report_identity, result_of, results_from, submission_allowed, unsubmitted_from,
    CommandModel, DependencyModel, Entry, Place, ReportFile,
};
use crate::queue::job::{
    all_pins, call_outcome, files_outcome, input_with, is_id, job_outcome, pin_outcome, pins_from,
    presence_from, program_pins, required_digests, submission_outcome, unpinned_from, Conditions,
    Directories, Invocation, Job, Pin, PinnedFile, Submission, SubmissionFile,
};
use crate::json::{json_model, text_at};
use crate::text::{lowered, numeral};
use crate::queue::qualification::{
    fixture_outcome, is_fixture, qualification_outcome, same_conditions, source_outcome,
};
use vstd::prelude::*;

verus! {

// ---------------------------------------------------------------------------
// Jobs
// ---------------------------------------------------------------------------

/// A job that is accepted has a short plain name, known conditions and bounded times;
/// its directories are there, and it depends on other jobs, each once.
pub proof fn accepted_jobs_are_bounded(job: Job, dirs: Directories, i: int, j: int)
    requires
        job_outcome(job, dirs) is Ok,
    ensures
        job.schema@ == "rvllm.experiment_job.v1"@,
        0 < job.id@.len() <= 96,
        0 <= i < job.id@.len() ==> {
            let c = job.id@[i];
            ('0' <= c && c <= '9') || ('a' <= c && c <= 'z') || ('A' <= c && c <= 'Z') || c == '-'
                || c == '_'
        },
        job.stable_seconds <= 600,
        job.max_wait_seconds <= 86400,
        0 < job.max_run_seconds <= 3600,
        dirs.disk_path && dirs.command_cwd,
        job.validator is Some ==> dirs.validator_cwd,
        ({
            let c = job.conditions;
            &&& c.power_source@ == "ac"@ || c.power_source@ == "battery"@
            &&& c.pmset_power_mode is Some ==> c.pmset_power_mode->0 <= 2
            &&& c.thermal_state is Some ==> c.thermal_state->0 <= 3
            &&& is_absolute(c.disk_path@)
            &&& c.idle_llama_servers@.len() <= 4
            &&& 0 <= i < c.idle_llama_servers@.len() ==> c.idle_llama_servers@[i].pid > 0
                && c.idle_llama_servers@[i].port > 0
            &&& 0 <= i < c.quiet_process_names@.len() ==> c.quiet_process_names@[i]@.len() > 0
                && !c.quiet_process_names@[i]@.contains('/')
            &&& 0 <= i < c.observe_process_names@.len() ==> c.observe_process_names@[i]@.len() > 0
                && !c.observe_process_names@[i]@.contains('/')
        }),
        0 <= i < job.after@.len() ==> is_id(job.after@[i]@) && job.after@[i]@ != job.id@,
        0 <= i < job.after@.len() && 0 <= j < job.after@.len() && i != j ==> job.after@[i]@
            != job.after@[j]@,
{
    if 0 <= i < job.id@.len() {
        assert(crate::queue::job::is_id_char(job.id@[i]));
    }
    let c = job.conditions;
    if 0 <= i < c.idle_llama_servers@.len() {
        let _ = c.idle_llama_servers@[i];
    }
    if 0 <= i < job.after@.len() && 0 <= j < job.after@.len() && i != j {
        if i < j {
            assert(job.after@[i]@ != job.after@[j]@);
        } else {
            assert(job.after@[j]@ != job.after@[i]@);
        }
    }
}

/// A command that is accepted runs in an absolute directory; its variables are named,
/// nothing in it holds a null, and its program is pinned.
pub proof fn accepted_commands_are_plain(call: Invocation, is_dir: bool, i: int)
    requires
        call_outcome(call, is_dir) is Ok,
    ensures
        is_dir && is_absolute(call.cwd@),
        is_absolute(call.executable.path@),
        call.executable.sha256@.len() == 64,
        0 <= i < call.args@.len() ==> !call.args@[i]@.contains('\0'),
        0 <= i < call.env@.len() ==> {
            &&& call.env@[i].0@.len() > 0
            &&& !call.env@[i].0@.contains('=')
            &&& !call.env@[i].0@.contains('\0')
            &&& !call.env@[i].1@.contains('\0')
        },
{
    if 0 <= i < call.env@.len() {
        assert(crate::queue::job::variable_sound(call.env@[i]));
    }
    if 0 <= i < call.args@.len() {
        assert(!crate::queue::job::holds(call.args@[i]@, '\0'));
    }
}

/// A pin holds where its file is there with the digest pinned, written in either
/// case, and nowhere else.
pub proof fn pins_hold_by_digest(pin: Pin, file: PinnedFile, hash: String)
    requires
        file.digest == Ok::<String, String>(hash),
        is_absolute(pin.path@),
        crate::text::is_digest(pin.sha256@),
    ensures
        pin_outcome(pin, file) is Ok <==> file.is_file && hash@ == lowered(pin.sha256@),
{
}

proof fn pins_hold_from(pins: Seq<Pin>, files: Seq<PinnedFile>, i: int)
    requires
        0 <= i <= pins.len() == files.len(),
    ensures
        pins_from(pins, files, i) is Ok <==> forall|k: int|
            i <= k < pins.len() ==> pin_outcome(#[trigger] pins[k], files[k]) is Ok,
    decreases pins.len() - i,
{
    if i < pins.len() {
        pins_hold_from(pins, files, i + 1);
        if pins_from(pins, files, i) is Ok {
            assert forall|k: int| i <= k < pins.len() implies pin_outcome(
                #[trigger] pins[k],
                files[k],
            ) is Ok by {
                if k > i {
                    assert(i + 1 <= k);
                }
            }
        }
    }
}

/// A job's files hold together: every pin of its program, its validator and its inputs,
/// and its submission where it has one.
pub proof fn every_pin_is_checked(
    job: Job,
    files: Seq<PinnedFile>,
    found: Option<SubmissionFile>,
    k: int,
)
    requires
        files.len() == program_pins(job).len(),
        files_outcome(job, files, found) is Ok,
    ensures
        pin_outcome(job.command.executable, files[0]) is Ok,
        job.validator is Some ==> pin_outcome(job.validator->0.executable, files[1]) is Ok,
        0 <= k < job.inputs@.len() ==> ({
            let first: int = if job.validator is Some {
                2
            } else {
                1
            };
            &&& files.len() == job.inputs@.len() + first
            &&& pin_outcome(job.inputs@[k], files[k + first]) is Ok
        }),
        job.kernel_game_submission is Some ==> {
            let pin = job.kernel_game_submission->0;
            &&& found is Some
            &&& pin_outcome(pin, found->0.file) is Ok
            &&& found->0.parsed is Ok
            &&& found->0.fault is None
            &&& submission_outcome(job, pin, found->0.parsed->Ok_0) is Ok
        },
{
    pins_hold_from(program_pins(job), files, 0);
    let pins = program_pins(job);
    assert(pins[0] == job.command.executable);
    if job.validator is Some {
        assert(pins[1] == job.validator->0.executable);
        if 0 <= k < job.inputs@.len() {
            assert(pins[k + 2] == job.inputs@[k]);
        }
    } else if 0 <= k < job.inputs@.len() {
        assert(pins[k + 1] == job.inputs@[k]);
    }
}

/// Every pin of a job must be present, the submission's among them.
pub proof fn every_pin_must_be_present(job: Job, present: Seq<bool>, k: int)
    requires
        present.len() == all_pins(job).len(),
        0 <= k < present.len(),
    ensures
        presence_from(all_pins(job), present, 0) is Ok ==> present[k],
        !present.contains(false) ==> presence_from(all_pins(job), present, 0) is Ok,
        all_pins(job).len() == 1 + job.inputs@.len() + (if job.validator is Some {
            1nat
        } else {
            0nat
        }) + (if job.kernel_game_submission is Some {
            1nat
        } else {
            0nat
        }),
{
    presence_holds_from(all_pins(job), present, 0);
    if !present.contains(false) {
        assert forall|i: int| 0 <= i < present.len() implies #[trigger] present[i] by {
            if !present[i] {
                assert(present.contains(false));
            }
        }
    }
}

proof fn presence_holds_from(pins: Seq<Pin>, present: Seq<bool>, i: int)
    requires
        0 <= i <= pins.len() == present.len(),
    ensures
        presence_from(pins, present, i) is Ok <==> forall|k: int|
            i <= k < pins.len() ==> #[trigger] present[k],
    decreases pins.len() - i,
{
    if i < pins.len() {
        presence_holds_from(pins, present, i + 1);
        if presence_from(pins, present, i) is Ok {
            assert forall|k: int| i <= k < pins.len() implies #[trigger] present[k] by {
                if k > i {
                    assert(i + 1 <= k);
                }
            }
        }
    }
}

proof fn input_found(inputs: Seq<Pin>, digest: Seq<char>, i: int)
    requires
        0 <= i <= inputs.len(),
    ensures
        match input_with(inputs, digest, i) {
            Some(k) => i <= k < inputs.len() && lowered(inputs[k].sha256@) == lowered(digest),
            None => forall|k: int|
                i <= k < inputs.len() ==> lowered((#[trigger] inputs[k]).sha256@) != lowered(digest),
        },
    decreases inputs.len() - i,
{
    if i < inputs.len() && lowered(inputs[i].sha256@) != lowered(digest) {
        input_found(inputs, digest, i + 1);
    }
}

proof fn required_found(required: Seq<Seq<char>>, inputs: Seq<Pin>, i: int)
    requires
        0 <= i <= required.len(),
    ensures
        unpinned_from(required, inputs, i) is Ok <==> forall|k: int|
            i <= k < required.len() ==> input_with(inputs, #[trigger] required[k], 0) is Some,
    decreases required.len() - i,
{
    if i < required.len() {
        required_found(required, inputs, i + 1);
        if unpinned_from(required, inputs, i) is Ok {
            assert forall|k: int| i <= k < required.len() implies input_with(
                inputs,
                #[trigger] required[k],
                0,
            ) is Some by {
                if k > i {
                    assert(i + 1 <= k);
                }
            }
        }
    }
}

/// Whether one of a job's inputs is pinned under a digest, in either case.
pub open spec fn pinned_under(inputs: Seq<Pin>, digest: Seq<char>) -> bool {
    exists|k: int| 0 <= k < inputs.len() && lowered((#[trigger] inputs[k]).sha256@) == lowered(digest)
}

/// A job that is bound to a submission runs its executable, is told of the submission
/// and the candidate, and pins everything that the submission names: its source tree,
/// its generated source, its model, its reference, its workload, its oracle and its
/// library.
pub proof fn bound_jobs_pin_the_submission(job: Job, pin: Pin, s: Submission)
    requires
        submission_outcome(job, pin, s) is Ok,
    ensures
        s.executable@ == lowered(job.command.executable.sha256@),
        exists|i: int|
            0 <= i < job.command.args@.len() - 1 && (#[trigger] job.command.args@[i])@
                == "--kernel-game-submission"@ && same_path(job.command.args@[i + 1]@, pin.path@),
        exists|i: int|
            0 <= i < job.command.env@.len() && (#[trigger] job.command.env@[i]).0@
                == "RVLLM_METAL_RESEARCH"@ && job.command.env@[i].1@ == s.candidate@,
        pinned_under(job.inputs@, s.source_tree@),
        pinned_under(job.inputs@, s.generated_source@),
        pinned_under(job.inputs@, s.model@),
        pinned_under(job.inputs@, s.reference@),
        pinned_under(job.inputs@, s.workload@),
        pinned_under(job.inputs@, s.oracle@),
        s.metallib is Some ==> pinned_under(job.inputs@, s.metallib->0@),
{
    let required = required_digests(s);
    required_found(required, job.inputs@, 0);
    assert(required[0] == s.source_tree@ && required[1] == s.generated_source@);
    assert(required[2] == s.model@ && required[3] == s.reference@);
    assert(required[4] == s.workload@ && required[5] == s.oracle@);
    assert(s.metallib is Some ==> required[6] == s.metallib->0@);
    assert forall|k: int| 0 <= k < required.len() implies pinned_under(
        job.inputs@,
        #[trigger] required[k],
    ) by {
        input_found(job.inputs@, required[k], 0);
        let at = input_with(job.inputs@, required[k], 0)->0;
        assert(lowered(job.inputs@[at].sha256@) == lowered(required[k]));
    }
}

// ---------------------------------------------------------------------------
// The desk
// ---------------------------------------------------------------------------

proof fn commands_differ()
    ensures
        "submit"@.len() == 6 && "submit"@[1] == 'u',
        "run"@.len() == 3,
        "daemon"@.len() == 6 && "daemon"@[1] == 'a',
        "stop"@.len() == 4,
        "status"@.len() == 6 && "status"@[1] == 't',
{
    reveal_strlit("submit");
    reveal_strlit("run");
    reveal_strlit("daemon");
    reveal_strlit("stop");
    reveal_strlit("status");
}

/// A command names an absolute queue and does what its word says: a run waits for the
/// seconds given or for three hundred, a daemon without end.
pub proof fn commands_do_what_they_say(queue: Seq<char>, x: Seq<char>, idle: Seq<char>)
    requires
        is_absolute(queue),
    ensures
        command_of(seq!["submit"@, queue, x]) == Ok::<CommandModel, Seq<char>>(
            (CommandModel::Submit { job: x }),
        ),
        is_absolute(x) ==> command_of(seq!["run"@, queue, x]) == Ok::<CommandModel, Seq<char>>(
            (CommandModel::Run { lock: x, idle_seconds: Some(300) }),
        ),
        is_absolute(x) ==> command_of(seq!["daemon"@, queue, x]) == Ok::<CommandModel, Seq<char>>(
            (CommandModel::Run { lock: x, idle_seconds: None }),
        ),
        !is_absolute(x) ==> command_of(seq!["run"@, queue, x]) is Err && command_of(
            seq!["daemon"@, queue, x],
        ) is Err,
        is_absolute(x) ==> match numeral(idle, u64::MAX as nat) {
            Ok(n) => if n <= 86400 {
                command_of(seq!["run"@, queue, x, idle]) == Ok::<CommandModel, Seq<char>>(
                    (CommandModel::Run { lock: x, idle_seconds: Some(n as u64) }),
                )
            } else {
                command_of(seq!["run"@, queue, x, idle]) is Err
            },
            Err(_) => command_of(seq!["run"@, queue, x, idle]) is Err,
        },
        command_of(seq!["stop"@, queue]) == Ok::<CommandModel, Seq<char>>(CommandModel::Stop),
        command_of(seq!["status"@, queue]) == Ok::<CommandModel, Seq<char>>(CommandModel::Status),
{
    commands_differ();
    let submit = seq!["submit"@, queue, x];
    assert(submit[0] == "submit"@ && submit[1] == queue && submit[2] == x && submit.len() == 3);
    let run = seq!["run"@, queue, x];
    assert(run[0] == "run"@ && run[1] == queue && run[2] == x && run.len() == 3);
    let daemon = seq!["daemon"@, queue, x];
    assert(daemon[0] == "daemon"@ && daemon[1] == queue && daemon[2] == x && daemon.len() == 3);
    let timed = seq!["run"@, queue, x, idle];
    assert(timed[0] == "run"@ && timed[1] == queue && timed[2] == x && timed[3] == idle);
    let stop = seq!["stop"@, queue];
    assert(stop[0] == "stop"@ && stop[1] == queue && stop.len() == 2);
    let status = seq!["status"@, queue];
    assert(status[0] == "status"@ && status[1] == queue && status.len() == 2);
}

/// What a queue keeps of a job lies under the job's name: its manifest and its results
/// apart, and what is quarantined apart from both, the receipt beside the manifest.
pub proof fn jobs_have_their_places(queue: Seq<char>, id: Seq<char>)
    ensures
        place_of(queue, Place::Manifest, id) == joined(joined(queue, "jobs"@), id + ".json"@),
        place_of(queue, Place::Report, id) == joined(
            place_of(queue, Place::Result, id),
            "report.json"@,
        ),
        place_of(queue, Place::Result, id) == joined(joined(queue, "results"@), id),
        place_of(queue, Place::Quarantined, id) == joined(
            joined(queue, "quarantined-jobs"@),
            id + ".json"@,
        ),
        place_of(queue, Place::Receipt, id) == joined(
            joined(queue, "quarantined-jobs"@),
            id + ".receipt.json"@,
        ),
{
}

proof fn submitted_from(after: Seq<Seq<char>>, submitted: Seq<bool>, i: int)
    requires
        0 <= i <= after.len() == submitted.len(),
    ensures
        unsubmitted_from(after, submitted, i) is Ok <==> forall|k: int|
            i <= k < after.len() ==> #[trigger] submitted[k],
    decreases after.len() - i,
{
    if i < after.len() {
        submitted_from(after, submitted, i + 1);
        if unsubmitted_from(after, submitted, i) is Ok {
            assert forall|k: int| i <= k < after.len() implies #[trigger] submitted[k] by {
                if k > i {
                    assert(i + 1 <= k);
                }
            }
        }
    }
}

/// A job may be submitted where its name is free and everything that it comes after was
/// submitted before it.
pub proof fn submissions_come_after_their_dependencies(
    taken: bool,
    after: Seq<Seq<char>>,
    submitted: Seq<bool>,
)
    requires
        submitted.len() == after.len(),
    ensures
        submission_allowed(taken, after, submitted) is Ok <==> !taken && forall|k: int|
            0 <= k < after.len() ==> #[trigger] submitted[k],
{
    submitted_from(after, submitted, 0);
}

proof fn dot_found(name: Seq<char>, end: int)
    requires
        0 <= end <= name.len(),
    ensures
        -1 <= last_dot(name, end) < end || (end == 0 && last_dot(name, end) == -1),
        last_dot(name, end) >= 0 ==> name[last_dot(name, end)] == '.',
        forall|i: int| last_dot(name, end) < i < end ==> #[trigger] name[i] != '.',
    decreases end,
{
    if end > 0 && name[end - 1] != '.' {
        dot_found(name, end - 1);
    }
}

/// A manifest's name has something before its last dot and the format's name after it.
pub proof fn manifests_end_in_their_format(stem: Seq<char>, suffix: Seq<char>)
    requires
        forall|i: int| 0 <= i < suffix.len() ==> #[trigger] suffix[i] != '.',
    ensures
        has_json_extension(stem + "."@ + suffix) <==> stem.len() > 0 && suffix == "json"@,
{
    reveal_strlit(".");
    assert("."@.len() == 1 && "."@[0] == '.');
    let name = stem + "."@ + suffix;
    dot_found(name, name.len() as int);
    let dot = last_dot(name, name.len() as int);
    let at = stem.len() as int;
    assert(name[at] == '.');
    assert(dot == at) by {
        if dot < at {
            assert(name[at] != '.');
        }
        if dot > at {
            assert(name[dot] == suffix[dot - at - 1]);
        }
    }
    assert(name.subrange(at + 1, name.len() as int) =~= suffix);
}

/// Dependencies are looked at in order: one without a report waits, one that failed
/// fails the job by its name, and a report that cannot be read is an error.
pub proof fn dependencies_are_looked_at_in_order(
    after: Seq<Seq<char>>,
    reports: Seq<ReportFile>,
    i: int,
)
    requires
        0 <= i < after.len() == reports.len(),
    ensures
        ({
            let r = dependencies_from(after, reports, i);
            match reports[i] {
                ReportFile::Absent => r == Ok::<DependencyModel, Seq<char>>(
                    DependencyModel::Waiting,
                ),
                ReportFile::Unreadable(e) => r == Err::<DependencyModel, Seq<char>>(e@),
                ReportFile::Read(value) => {
                    let status = text_at(json_model(value), "status"@);
                    if status == Some("succeeded"@) || status == Some("rejected"@) {
                        r == dependencies_from(after, reports, i + 1)
                    } else {
                        r == Ok::<DependencyModel, Seq<char>>(DependencyModel::Failed(after[i]))
                    }
                },
            }
        }),
        dependencies_from(after, reports, after.len() as int) == Ok::<DependencyModel, Seq<char>>(
            DependencyModel::Ready,
        ),
{
}

/// A result counts where its report is of the job and of success; without a report it
/// does not yet, and any other report is an error.
pub proof fn results_are_of_their_job(id: Seq<char>, report: ReportFile)
    ensures
        result_of(id, report) == Ok::<bool, Seq<char>>(true) <==> {
            &&& report is Read
            &&& text_at(json_model(report->Read_0), "schema"@) == Some(
                "rvllm.experiment_result.v1"@,
            )
            &&& text_at(json_model(report->Read_0), "id"@) == Some(id)
            &&& text_at(json_model(report->Read_0), "status"@) == Some("succeeded"@)
        },
        result_of(id, report) == Ok::<bool, Seq<char>>(false) <==> report is Absent,
{
}

/// Everything that a job comes after must count before the job is ready.
pub proof fn readiness_takes_every_result(
    after: Seq<Seq<char>>,
    reports: Seq<ReportFile>,
    i: int,
)
    requires
        0 <= i <= after.len() == reports.len(),
    ensures
        results_from(after, reports, i) == Ok::<bool, Seq<char>>(true) <==> forall|k: int|
            i <= k < after.len() ==> result_of(#[trigger] after[k], reports[k]) == Ok::<
                bool,
                Seq<char>,
            >(true),
    decreases after.len() - i,
{
    if i < after.len() {
        readiness_takes_every_result(after, reports, i + 1);
        if results_from(after, reports, i) == Ok::<bool, Seq<char>>(true) {
            assert forall|k: int| i <= k < after.len() implies result_of(
                #[trigger] after[k],
                reports[k],
            ) == Ok::<bool, Seq<char>>(true) by {
                if k > i {
                    assert(i + 1 <= k);
                }
            }
        }
    }
}

/// The manifests of a directory are its files in the format, by name.
pub proof fn manifests_are_files_of_the_format(entries: Seq<Entry>, name: Seq<char>)
    ensures
        manifest_names(entries).contains(name) <==> exists|i: int|
            0 <= i < entries.len() && (#[trigger] entries[i]).name@ == name && entries[i].is_file
                && has_json_extension(name),
{
    if manifest_names(entries).contains(name) {
        let i = choose|i: int|
            0 <= i < entries.len() && is_manifest(#[trigger] entries[i]) && entries[i].name@ == name;
        assert(entries[i].name@ == name);
    }
    if exists|i: int|
        0 <= i < entries.len() && (#[trigger] entries[i]).name@ == name && entries[i].is_file
            && has_json_extension(name) {
        let i = choose|i: int|
            0 <= i < entries.len() && (#[trigger] entries[i]).name@ == name && entries[i].is_file
                && has_json_extension(name);
        assert(is_manifest(entries[i]));
    }
}

/// A quarantined report is named by its place and by its digest; one that is absent has
/// neither.
pub proof fn quarantined_reports_are_identified(queue: Seq<char>, id: Seq<char>, bytes: Seq<u8>)
    ensures
        report_identity(queue, id, Some(bytes)) == Some(
            (
                joined(joined(joined(queue, "results"@), id), "report.json"@),
                crate::hash::sha256_hex(bytes),
            ),
        ),
        report_identity(queue, id, None) is None,
{
}

// ---------------------------------------------------------------------------
// Qualification
// ---------------------------------------------------------------------------

/// A fixture counts where it succeeded under its own name, as a preparation that claims
/// no eligibility.
pub proof fn fixtures_claim_nothing(id: Seq<char>, report: ReportFile)
    ensures
        fixture_outcome(id, report) is Ok <==> {
            &&& report is Read
            &&& ({
                let r = json_model(report->Read_0);
                &&& text_at(r, "schema"@) == Some("rvllm.experiment_result.v1"@)
                &&& text_at(r, "id"@) == Some(id)
                &&& text_at(r, "status"@) == Some("succeeded"@)
                &&& text_at(r, "purpose"@) == Some("preparation"@)
                &&& crate::json::bool_at(r, "sampled_conditions_eligible"@) == Some(false)
            })
        },
{
}

/// A host qualifies where the job that could not run did not, the stop was obeyed, and
/// both of the other fixtures count.
pub proof fn hosts_qualify_by_their_fixtures(
    blocked_ran: bool,
    stopped: bool,
    ready: ReportFile,
    dependent: ReportFile,
    before: Seq<char>,
    after: Seq<char>,
)
    ensures
        qualification_outcome(blocked_ran, stopped, ready, dependent) is Ok <==> {
            &&& !blocked_ran
            &&& stopped
            &&& fixture_outcome("01-ready"@, ready) is Ok
            &&& fixture_outcome("02-dependent-stop"@, dependent) is Ok
        },
        source_outcome(before, after) is Ok <==> before == after,
{
}

/// A fixture's conditions are those of the job it was made from, but for the space that
/// it asks for.
pub proof fn fixtures_keep_their_conditions(c: Conditions, of: Conditions, free: u64, i: int)
    requires
        same_conditions(c, of, free),
    ensures
        c.minimum_free_bytes == free,
        c.power_source@ == of.power_source@ && c.disk_path@ == of.disk_path@,
        c.low_power_mode == of.low_power_mode && c.pmset_power_mode == of.pmset_power_mode,
        c.thermal_state == of.thermal_state,
        c.idle_llama_servers@ == of.idle_llama_servers@,
        c.quiet_process_names@.len() == of.quiet_process_names@.len(),
        c.observe_process_names@.len() == of.observe_process_names@.len(),
        0 <= i < c.quiet_process_names@.len() ==> c.quiet_process_names@[i]@
            == of.quiet_process_names@[i]@,
        0 <= i < c.observe_process_names@.len() ==> c.observe_process_names@[i]@
            == of.observe_process_names@[i]@,
{
    assert(crate::text::texts(c.quiet_process_names@).len() == crate::text::texts(
        of.quiet_process_names@,
    ).len());
    assert(crate::text::texts(c.observe_process_names@).len() == crate::text::texts(
        of.observe_process_names@,
    ).len());
    if 0 <= i < c.quiet_process_names@.len() {
        assert(crate::text::texts(c.quiet_process_names@)[i] == crate::text::texts(
            of.quiet_process_names@,
        )[i]);
    }
    if 0 <= i < c.observe_process_names@.len() {
        assert(crate::text::texts(c.observe_process_names@)[i] == crate::text::texts(
            of.observe_process_names@,
        )[i]);
    }
}

/// A fixture is a preparation without a validator, inputs or variables; it runs for five
/// seconds at most, waits for thirty and is stable for two.
pub proof fn fixtures_are_short_preparations(
    job: Job,
    id: Seq<char>,
    program: Seq<char>,
    digest: Seq<char>,
    args: Seq<Seq<char>>,
    output: Seq<char>,
    after: Seq<Seq<char>>,
)
    requires
        is_fixture(job, id, program, digest, args, output, after),
    ensures
        job.schema@ == "rvllm.experiment_job.v1"@,
        job.id@ == id,
        job.purpose is Preparation,
        job.command.executable.path@ == program && job.command.executable.sha256@ == digest,
        job.command.cwd@ == output,
        crate::text::texts(job.command.args@) == args && crate::text::texts(job.after@) == after,
        job.command.env@.len() == 0 && job.inputs@.len() == 0,
        job.validator is None && job.kernel_game_submission is None,
        job.stable_seconds == 2 && job.max_wait_seconds == 30 && job.max_run_seconds == 5,
{
}

} // verus!
