//! The queue's desk: its command line, what it accepts, which manifests it
//! holds, how dependencies stand, and what is quarantined.
use crate::hash::{sha256_hex, sha256_text};
use crate::json::{json_bytes_document, json_model, member_text, parse_bytes, parsed, text_at};
use crate::order::{insert_text, listing};
use crate::paths::{is_absolute, join_path, joined, path_is_absolute};
use crate::text::{cat2, cat3, chars_of, fault_text, numeral, parse_numeral, same, texts, told};
use vstd::prelude::*;

verus! {

/// What a quarantine receipt claims.
pub const QUARANTINE_CLAIM: &'static str = "Quarantine preserves terminal evidence and prevents replay; independent jobs may continue.";

// ---------------------------------------------------------------------------
// The command line
// ---------------------------------------------------------------------------

/// What the queue is asked to do.
#[derive(Debug)]
pub enum QueueCommand {
    Submit { job: String },
    /// Run until idle for some seconds; a daemon runs until it is stopped.
    Run { lock: String, idle_seconds: Option<u64> },
    Stop,
    Status,
}

pub enum CommandModel {
    Submit { job: Seq<char> },
    Run { lock: Seq<char>, idle_seconds: Option<u64> },
    Stop,
    Status,
}

impl View for QueueCommand {
    type V = CommandModel;

    open spec fn view(&self) -> CommandModel {
        match *self {
            QueueCommand::Submit { job } => CommandModel::Submit { job: job@ },
            QueueCommand::Run { lock, idle_seconds } => CommandModel::Run {
                lock: lock@,
                idle_seconds,
            },
            QueueCommand::Stop => CommandModel::Stop,
            QueueCommand::Status => CommandModel::Status,
        }
    }
}

pub open spec fn usage_text() -> Seq<char> {
    "usage: rvllm_experiment_queue submit QUEUE JOB.json | run QUEUE GLOBAL_LOCK [IDLE_SECONDS] | daemon QUEUE GLOBAL_LOCK | status QUEUE | stop QUEUE"@
}

pub fn usage() -> (r: &'static str)
    ensures
        r@ == usage_text(),
{
    "usage: rvllm_experiment_queue submit QUEUE JOB.json | run QUEUE GLOBAL_LOCK [IDLE_SECONDS] | daemon QUEUE GLOBAL_LOCK | status QUEUE | stop QUEUE"
}

pub open spec fn run_command(args: Seq<Seq<char>>) -> Result<CommandModel, Seq<char>> {
    if !is_absolute(args[2]) {
        Err("global lock must be absolute"@)
    } else if args.len() == 3 {
        Ok(CommandModel::Run { lock: args[2], idle_seconds: Some(300) })
    } else {
        match numeral(args[3], u64::MAX as nat) {
            Err(fault) => Err(fault_text(fault)),
            Ok(idle) => if idle > 86400 {
                Err("idle time must be <= 86400 seconds"@)
            } else {
                Ok(CommandModel::Run { lock: args[2], idle_seconds: Some(idle as u64) })
            },
        }
    }
}

/// What a command line asks for, without the program's name. Its second argument
/// is the queue.
pub open spec fn command_of(args: Seq<Seq<char>>) -> Result<CommandModel, Seq<char>> {
    if args.len() < 2 {
        Err(usage_text())
    } else if !is_absolute(args[1]) {
        Err("queue path must be absolute"@)
    } else if args[0] == "submit"@ && args.len() == 3 {
        Ok(CommandModel::Submit { job: args[2] })
    } else if args[0] == "run"@ && (args.len() == 3 || args.len() == 4) {
        run_command(args)
    } else if args[0] == "daemon"@ && args.len() == 3 {
        if !is_absolute(args[2]) {
            Err("global lock must be absolute"@)
        } else {
            Ok(CommandModel::Run { lock: args[2], idle_seconds: None })
        }
    } else if args[0] == "stop"@ && args.len() == 2 {
        Ok(CommandModel::Stop)
    } else if args[0] == "status"@ && args.len() == 2 {
        Ok(CommandModel::Status)
    } else {
        Err(usage_text())
    }
}

pub open spec fn command_told(r: Result<QueueCommand, String>) -> Result<CommandModel, Seq<char>> {
    match r {
        Ok(command) => Ok(command@),
        Err(e) => Err(e@),
    }
}

/// Reads a command line, without the program's name.
pub fn parse_command(args: &Vec<String>) -> (r: Result<QueueCommand, String>)
    ensures
        command_told(r) == command_of(texts(args@)),
{
    let ghost all = texts(args@);
    if args.len() < 2 {
        return Err(usage().to_owned());
    }
    assert(all[0] == args@[0]@ && all[1] == args@[1]@);
    if !path_is_absolute(args[1].as_str()) {
        return Err("queue path must be absolute".to_owned());
    }
    let verb = args[0].as_str();
    if same(verb, "submit") && args.len() == 3 {
        return Ok(QueueCommand::Submit { job: args[2].as_str().to_owned() });
    }
    if same(verb, "run") && (args.len() == 3 || args.len() == 4) {
        if !path_is_absolute(args[2].as_str()) {
            return Err("global lock must be absolute".to_owned());
        }
        if args.len() == 3 {
            return Ok(
                QueueCommand::Run { lock: args[2].as_str().to_owned(), idle_seconds: Some(300) },
            );
        }
        assert(all[3] == args@[3]@);
        return match parse_numeral(args[3].as_str(), u64::MAX) {
            Err(fault) => Err(fault.text().to_owned()),
            Ok(idle) => {
                if idle > 86400 {
                    Err("idle time must be <= 86400 seconds".to_owned())
                } else {
                    Ok(
                        QueueCommand::Run {
                            lock: args[2].as_str().to_owned(),
                            idle_seconds: Some(idle),
                        },
                    )
                }
            },
        };
    }
    if same(verb, "daemon") && args.len() == 3 {
        if !path_is_absolute(args[2].as_str()) {
            return Err("global lock must be absolute".to_owned());
        }
        return Ok(QueueCommand::Run { lock: args[2].as_str().to_owned(), idle_seconds: None });
    }
    if same(verb, "stop") && args.len() == 2 {
        return Ok(QueueCommand::Stop);
    }
    if same(verb, "status") && args.len() == 2 {
        return Ok(QueueCommand::Status);
    }
    Err(usage().to_owned())
}

// ---------------------------------------------------------------------------
// Submission
// ---------------------------------------------------------------------------

/// Where a queue keeps things of a job.
#[derive(Clone, Copy, Debug, PartialEq, Eq, Structural)]
pub enum Place {
    Manifest,
    Result,
    Report,
    Quarantined,
    Receipt,
}

pub open spec fn place_of(queue: Seq<char>, place: Place, id: Seq<char>) -> Seq<char> {
    match place {
        Place::Manifest => joined(joined(queue, "jobs"@), id + ".json"@),
        Place::Result => joined(joined(queue, "results"@), id),
        Place::Report => joined(joined(joined(queue, "results"@), id), "report.json"@),
        Place::Quarantined => joined(joined(queue, "quarantined-jobs"@), id + ".json"@),
        Place::Receipt => joined(joined(queue, "quarantined-jobs"@), id + ".receipt.json"@),
    }
}

/// The path at which a queue keeps something of a job.
pub fn job_path(queue: &str, place: Place, id: &str) -> (r: String)
    ensures
        r@ == place_of(queue@, place, id@),
{
    match place {
        Place::Manifest => {
            let dir = join_path(queue, "jobs");
            let name = cat2(id, ".json");
            join_path(dir.as_str(), name.as_str())
        },
        Place::Result => {
            let dir = join_path(queue, "results");
            join_path(dir.as_str(), id)
        },
        Place::Report => {
            let dir = join_path(queue, "results");
            let own = join_path(dir.as_str(), id);
            join_path(own.as_str(), "report.json")
        },
        Place::Quarantined => {
            let dir = join_path(queue, "quarantined-jobs");
            let name = cat2(id, ".json");
            join_path(dir.as_str(), name.as_str())
        },
        Place::Receipt => {
            let dir = join_path(queue, "quarantined-jobs");
            let name = cat2(id, ".receipt.json");
            join_path(dir.as_str(), name.as_str())
        },
    }
}

/// The first dependency without a manifest, from `i` on.
pub open spec fn unsubmitted_from(after: Seq<Seq<char>>, submitted: Seq<bool>, i: int) -> Result<
    (),
    Seq<char>,
>
    decreases after.len() - i,
{
    if i >= after.len() || i >= submitted.len() {
        Ok(())
    } else if !submitted[i] {
        Err("submit dependency "@ + after[i] + " first"@)
    } else {
        unsubmitted_from(after, submitted, i + 1)
    }
}

pub open spec fn submission_allowed(taken: bool, after: Seq<Seq<char>>, submitted: Seq<bool>) -> Result<
    (),
    Seq<char>,
> {
    if taken {
        Err("job id already exists"@)
    } else {
        unsubmitted_from(after, submitted, 0)
    }
}

/// Checks that a job may be submitted: its identity is new, be it as a manifest, a
/// result or in quarantine, and each of its dependencies has a manifest.
pub fn check_submission(
    manifest_exists: bool,
    result_exists: bool,
    quarantined: bool,
    after: &Vec<String>,
    submitted: &Vec<bool>,
) -> (r: Result<(), String>)
    requires
        submitted@.len() == after@.len(),
    ensures
        told(r) == submission_allowed(
            manifest_exists || result_exists || quarantined,
            texts(after@),
            submitted@,
        ),
{
    if manifest_exists || result_exists || quarantined {
        return Err("job id already exists".to_owned());
    }
    let ghost all = texts(after@);
    let mut i: usize = 0;
    while i < after.len()
        invariant
            i <= after@.len() == submitted@.len(),
            !manifest_exists && !result_exists && !quarantined,
            all == texts(after@),
            unsubmitted_from(all, submitted@, 0) == unsubmitted_from(all, submitted@, i as int),
        decreases after@.len() - i,
    {
        assert(all[i as int] == after@[i as int]@);
        if !submitted[i] {
            return Err(cat3("submit dependency ", after[i].as_str(), " first"));
        }
        i = i + 1;
    }
    Ok(())
}

// ---------------------------------------------------------------------------
// Manifests
// ---------------------------------------------------------------------------

/// The index of the last dot of a name before `end`, or minus one.
pub open spec fn last_dot(name: Seq<char>, end: int) -> int
    decreases end,
{
    if end <= 0 {
        -1
    } else if name[end - 1] == '.' {
        end - 1
    } else {
        last_dot(name, end - 1)
    }
}

/// Whether a file's name ends in `.json`, behind something else.
pub open spec fn has_json_extension(name: Seq<char>) -> bool {
    let dot = last_dot(name, name.len() as int);
    dot > 0 && name.subrange(dot + 1, name.len() as int) == "json"@
}

fn ends_in_json(name: &str) -> (r: bool)
    ensures
        r == has_json_extension(name@),
{
    let chars = chars_of(name);
    let mut end: usize = chars.len();
    while end > 0 && chars[end - 1] != '.'
        invariant
            end <= chars@.len(),
            chars@ == name@,
            last_dot(name@, name@.len() as int) == last_dot(name@, end as int),
        decreases end,
    {
        end = end - 1;
    }
    if end <= 1 {
        return false;
    }
    let extension = crate::text::text_between(&chars, end, chars.len());
    same(extension.as_str(), "json")
}

/// An entry of a directory.
#[derive(Debug)]
pub struct Entry {
    pub name: String,
    pub is_file: bool,
}

pub open spec fn is_manifest(entry: Entry) -> bool {
    entry.is_file && has_json_extension(entry.name@)
}

/// The names of the manifests among some entries.
pub open spec fn manifest_names(entries: Seq<Entry>) -> Set<Seq<char>> {
    Set::new(
        |name: Seq<char>|
            exists|i: int|
                0 <= i < entries.len() && is_manifest(#[trigger] entries[i]) && entries[i].name@
                    == name,
    )
}

/// The manifests of a queue, in the order of their names.
pub fn manifests(entries: &Vec<Entry>) -> (r: Vec<String>)
    ensures
        texts(r@) == listing(manifest_names(entries@)),
        crate::order::ascending(texts(r@)),
        texts(r@).to_set() == manifest_names(entries@),
{
    let mut names: Vec<String> = Vec::new();
    let mut i: usize = 0;
    proof {
        assert(texts(names@) =~= Seq::empty());
        assert(texts(names@).to_set() =~= manifest_names(entries@.take(0)));
    }
    while i < entries.len()
        invariant
            i <= entries@.len(),
            crate::order::ascending(texts(names@)),
            texts(names@).to_set() == manifest_names(entries@.take(i as int)),
        decreases entries@.len() - i,
    {
        let ghost before = manifest_names(entries@.take(i as int));
        let ghost next = entries@.take(i + 1);
        assert(next =~= entries@.take(i as int).push(entries@[i as int]));
        if entries[i].is_file && ends_in_json(entries[i].name.as_str()) {
            insert_text(&mut names, entries[i].name.as_str());
            proof {
                let own = entries@[i as int].name@;
                assert forall|name: Seq<char>| before.insert(own).contains(name)
                    == manifest_names(next).contains(name) by {
                    if before.contains(name) {
                        let k = choose|k: int|
                            0 <= k < i && is_manifest(#[trigger] entries@.take(i as int)[k])
                                && entries@.take(i as int)[k].name@ == name;
                        assert(next[k] == entries@.take(i as int)[k]);
                    }
                    if name == own {
                        assert(next[i as int] == entries@[i as int]);
                    }
                    if manifest_names(next).contains(name) && name != own {
                        let k = choose|k: int|
                            0 <= k < next.len() && is_manifest(#[trigger] next[k]) && next[k].name@
                                == name;
                        assert(entries@.take(i as int)[k] == next[k]);
                    }
                }
                assert(before.insert(own) =~= manifest_names(next));
            }
        } else {
            proof {
                assert forall|name: Seq<char>| before.contains(name) == manifest_names(
                    next,
                ).contains(name) by {
                    if before.contains(name) {
                        let k = choose|k: int|
                            0 <= k < i && is_manifest(#[trigger] entries@.take(i as int)[k])
                                && entries@.take(i as int)[k].name@ == name;
                        assert(next[k] == entries@.take(i as int)[k]);
                    }
                    if manifest_names(next).contains(name) {
                        let k = choose|k: int|
                            0 <= k < next.len() && is_manifest(#[trigger] next[k]) && next[k].name@
                                == name;
                        assert(entries@.take(i as int)[k] == next[k]);
                    }
                }
                assert(before =~= manifest_names(next));
            }
        }
        i = i + 1;
    }
    assert(entries@.take(i as int) =~= entries@);
    proof {
        crate::order::listing_of_ascending(texts(names@));
    }
    names
}

// ---------------------------------------------------------------------------
// Dependencies
// ---------------------------------------------------------------------------

/// The report of a job as it was found.
#[derive(Debug)]
pub enum ReportFile {
    Absent,
    Unreadable(String),
    Read(serde_json::Value),
}

/// Reads a document of the queue.
pub fn read_json(bytes: &[u8]) -> (r: Result<serde_json::Value, String>)
    ensures
        parsed(r) == json_bytes_document(bytes@),
{
    parse_bytes(bytes)
}

/// The report that a file holds: nothing where there is no file, and an error
/// where it could not be read or is no JSON document.
pub fn report_file(content: &Option<Result<Vec<u8>, String>>) -> (r: ReportFile)
    ensures
        match *content {
            None => r is Absent,
            Some(Err(message)) => r is Unreadable && r->Unreadable_0@ == message@,
            Some(Ok(bytes)) => match json_bytes_document(bytes@) {
                Ok(document) => r is Read && json_model(r->Read_0) == document,
                Err(message) => r is Unreadable && r->Unreadable_0@ == message,
            },
        },
{
    match content {
        None => ReportFile::Absent,
        Some(Err(message)) => ReportFile::Unreadable(message.as_str().to_owned()),
        Some(Ok(bytes)) => match read_json(bytes.as_slice()) {
            Ok(report) => ReportFile::Read(report),
            Err(message) => ReportFile::Unreadable(message),
        },
    }
}

/// Whether a status lets the queue go on: a trial that its conditions rejected
/// is settled too.
pub open spec fn settled(status: Option<Seq<char>>) -> bool {
    status == Some("succeeded"@) || status == Some("rejected"@)
}

/// Whether a report's status lets the queue go on.
pub fn is_settled(report: &serde_json::Value) -> (r: bool)
    ensures
        r == settled(text_at(json_model(*report), "status"@)),
{
    match member_text(report, "status") {
        Some(status) => same(status, "succeeded") || same(status, "rejected"),
        None => false,
    }
}

/// How the dependencies of a job stand.
#[derive(Debug)]
pub enum DependencyState {
    Ready,
    Waiting,
    Failed(String),
}

pub enum DependencyModel {
    Ready,
    Waiting,
    Failed(Seq<char>),
}

impl View for DependencyState {
    type V = DependencyModel;

    open spec fn view(&self) -> DependencyModel {
        match *self {
            DependencyState::Ready => DependencyModel::Ready,
            DependencyState::Waiting => DependencyModel::Waiting,
            DependencyState::Failed(id) => DependencyModel::Failed(id@),
        }
    }
}

/// How the dependencies from `i` on stand: the first that is not settled
/// decides.
pub open spec fn dependencies_from(after: Seq<Seq<char>>, reports: Seq<ReportFile>, i: int) -> Result<
    DependencyModel,
    Seq<char>,
>
    decreases after.len() - i,
{
    if i >= after.len() || i >= reports.len() {
        Ok(DependencyModel::Ready)
    } else {
        match reports[i] {
            ReportFile::Absent => Ok(DependencyModel::Waiting),
            ReportFile::Unreadable(message) => Err(message@),
            ReportFile::Read(report) => if settled(text_at(json_model(report), "status"@)) {
                dependencies_from(after, reports, i + 1)
            } else {
                Ok(DependencyModel::Failed(after[i]))
            },
        }
    }
}

pub open spec fn state_told(r: Result<DependencyState, String>) -> Result<
    DependencyModel,
    Seq<char>,
> {
    match r {
        Ok(state) => Ok(state@),
        Err(e) => Err(e@),
    }
}

/// How the dependencies of a job stand, from their reports in order.
pub fn dependency_state(after: &Vec<String>, reports: &Vec<ReportFile>) -> (r: Result<
    DependencyState,
    String,
>)
    requires
        reports@.len() == after@.len(),
    ensures
        state_told(r) == dependencies_from(texts(after@), reports@, 0),
{
    let ghost all = texts(after@);
    let mut i: usize = 0;
    while i < after.len()
        invariant
            i <= after@.len() == reports@.len(),
            all == texts(after@),
            dependencies_from(all, reports@, 0) == dependencies_from(all, reports@, i as int),
        decreases after@.len() - i,
    {
        assert(all[i as int] == after@[i as int]@);
        match &reports[i] {
            ReportFile::Absent => {
                return Ok(DependencyState::Waiting);
            },
            ReportFile::Unreadable(message) => {
                return Err(message.as_str().to_owned());
            },
            ReportFile::Read(report) => {
                if !is_settled(report) {
                    return Ok(DependencyState::Failed(after[i].as_str().to_owned()));
                }
            },
        }
        i = i + 1;
    }
    Ok(DependencyState::Ready)
}

proof fn ready_from(after: Seq<Seq<char>>, reports: Seq<ReportFile>, from: int, i: int)
    requires
        0 <= from <= i < after.len(),
        reports.len() == after.len(),
        dependencies_from(after, reports, from) == Ok::<DependencyModel, Seq<char>>(
            DependencyModel::Ready,
        ),
    ensures
        reports[i] is Read && settled(text_at(json_model(reports[i]->Read_0), "status"@)),
    decreases i - from,
{
    if from < i {
        ready_from(after, reports, from + 1, i);
    }
}

/// A job is ready only where every dependency has a settled report.
pub proof fn ready_dependencies_are_settled(after: Seq<Seq<char>>, reports: Seq<ReportFile>, i: int)
    requires
        0 <= i < after.len(),
        reports.len() == after.len(),
        dependencies_from(after, reports, 0) == Ok::<DependencyModel, Seq<char>>(
            DependencyModel::Ready,
        ),
    ensures
        reports[i] is Read && settled(text_at(json_model(reports[i]->Read_0), "status"@)),
{
    ready_from(after, reports, 0, i);
}

/// Whether a report is that of a job that succeeded: nothing where there is
/// none, and an error where it is another job's or did not succeed.
pub open spec fn result_of(id: Seq<char>, report: ReportFile) -> Result<bool, Seq<char>> {
    match report {
        ReportFile::Absent => Ok(false),
        ReportFile::Unreadable(message) => Err(message@),
        ReportFile::Read(value) => if text_at(json_model(value), "schema"@) != Some(
            "rvllm.experiment_result.v1"@,
        ) || text_at(json_model(value), "id"@) != Some(id) {
            Err("result "@ + id + " does not identify its job"@)
        } else if text_at(json_model(value), "status"@) != Some("succeeded"@) {
            Err("job "@ + id + " has failed or incomplete output; no replay"@)
        } else {
            Ok(true)
        },
    }
}

fn text_is(value: &serde_json::Value, key: &str, wanted: &str) -> (r: bool)
    ensures
        r == (text_at(json_model(*value), key@) == Some(wanted@)),
{
    match member_text(value, key) {
        Some(text) => same(text, wanted),
        None => false,
    }
}

/// Whether a job has a successful result of its own.
pub fn successful_result(id: &str, report: &ReportFile) -> (r: Result<bool, String>)
    ensures
        told(r) == result_of(id@, *report),
{
    match report {
        ReportFile::Absent => Ok(false),
        ReportFile::Unreadable(message) => Err(message.as_str().to_owned()),
        ReportFile::Read(value) => {
            if !text_is(value, "schema", "rvllm.experiment_result.v1") || !text_is(value, "id", id) {
                return Err(cat3("result ", id, " does not identify its job"));
            }
            if !text_is(value, "status", "succeeded") {
                return Err(cat3("job ", id, " has failed or incomplete output; no replay"));
            }
            Ok(true)
        },
    }
}

/// Whether every dependency from `i` on has a successful result of its own.
pub open spec fn results_from(after: Seq<Seq<char>>, reports: Seq<ReportFile>, i: int) -> Result<
    bool,
    Seq<char>,
>
    decreases after.len() - i,
{
    if i >= after.len() || i >= reports.len() {
        Ok(true)
    } else {
        match result_of(after[i], reports[i]) {
            Ok(true) => results_from(after, reports, i + 1),
            other => other,
        }
    }
}

/// Whether every dependency of a job has a successful result; a result of
/// another job satisfies none.
pub fn dependencies_ready(after: &Vec<String>, reports: &Vec<ReportFile>) -> (r: Result<bool, String>)
    requires
        reports@.len() == after@.len(),
    ensures
        told(r) == results_from(texts(after@), reports@, 0),
{
    let ghost all = texts(after@);
    let mut i: usize = 0;
    while i < after.len()
        invariant
            i <= after@.len() == reports@.len(),
            all == texts(after@),
            results_from(all, reports@, 0) == results_from(all, reports@, i as int),
        decreases after@.len() - i,
    {
        assert(all[i as int] == after@[i as int]@);
        match successful_result(after[i].as_str(), &reports[i]) {
            Ok(found) => {
                if !found {
                    return Ok(false);
                }
            },
            Err(message) => {
                return Err(message);
            },
        }
        i = i + 1;
    }
    Ok(true)
}

/// Whether the queue is asked to stop: by a signal, or by a stop file.
pub fn stopped(signalled: bool, stop_file: bool) -> (r: bool)
    ensures
        r == (signalled || stop_file),
{
    signalled || stop_file
}

// ---------------------------------------------------------------------------
// Quarantine
// ---------------------------------------------------------------------------

/// The receipt of a quarantined manifest: the evidence and its digests.
#[derive(Debug)]
pub struct QuarantineReceipt {
    pub id: String,
    pub reason: String,
    pub manifest_path: String,
    pub manifest_sha256: String,
    pub report: Option<(String, String)>,
}

pub open spec fn report_pair(report: Option<(String, String)>) -> Option<(Seq<char>, Seq<char>)> {
    match report {
        Some(pair) => Some((pair.0@, pair.1@)),
        None => None,
    }
}

pub open spec fn report_identity(queue: Seq<char>, id: Seq<char>, report: Option<Seq<u8>>) -> Option<
    (Seq<char>, Seq<char>),
> {
    match report {
        Some(bytes) => Some((place_of(queue, Place::Report, id), sha256_hex(bytes))),
        None => None,
    }
}

pub open spec fn bytes_of(bytes: Option<Vec<u8>>) -> Option<Seq<u8>> {
    match bytes {
        Some(b) => Some(b@),
        None => None,
    }
}

/// Quarantines a manifest: its identity must be new there. The receipt binds the
/// manifest, under its new path, and the report, where there is one.
pub fn quarantine_manifest(
    queue: &str,
    id: &str,
    reason: &str,
    taken: bool,
    manifest: &[u8],
    report: &Option<Vec<u8>>,
) -> (r: Result<QuarantineReceipt, String>)
    ensures
        r is Err == taken,
        match r {
            Err(e) => e@ == "quarantine identity already exists for "@ + id@,
            Ok(receipt) => {
                &&& receipt.id@ == id@
                &&& receipt.reason@ == reason@
                &&& receipt.manifest_path@ == place_of(queue@, Place::Quarantined, id@)
                &&& receipt.manifest_sha256@ == sha256_hex(manifest@)
                &&& report_pair(receipt.report) == report_identity(queue@, id@, bytes_of(*report))
            },
        },
{
    if taken {
        return Err(cat2("quarantine identity already exists for ", id));
    }
    let report_entry: Option<(String, String)> = match report {
        Some(bytes) => {
            let path = job_path(queue, Place::Report, id);
            let digest = sha256_text(bytes.as_slice());
            Some((path, digest))
        },
        None => None,
    };
    Ok(
        QuarantineReceipt {
            id: id.to_owned(),
            reason: reason.to_owned(),
            manifest_path: job_path(queue, Place::Quarantined, id),
            manifest_sha256: sha256_text(manifest),
            report: report_entry,
        },
    )
}

} // verus!
