//! The queue's worker: which job it takes up next, when it waits, rests, stops or
//! halts, and what is quarantined on the way.
use crate::queue::desk::{
    dependencies_from, dependency_state, is_settled, settled, DependencyModel, DependencyState,
    ReportFile,
};
use crate::queue::job::{job_outcome, Directories, Job};
use crate::json::{json_model, text_at};
use crate::text::{cat3, same, texts};
use vstd::prelude::*;

verus! {

/// The nanoseconds of a second.
pub const SECOND: u64 = 1_000_000_000;

/// What the state file says.
#[derive(Clone, Copy, Debug, PartialEq, Eq, Structural)]
pub enum StateNote {
    Stopped,
    /// The selected job is about to start.
    Starting,
    Idle,
    Waiting,
}

/// Why a job is not run yet.
#[derive(Debug)]
pub enum Pending {
    Dependencies { id: String },
    Conditions { id: String, wait_seconds: u64 },
}

pub enum PendingModel {
    Dependencies { id: Seq<char> },
    Conditions { id: Seq<char>, wait_seconds: u64 },
}

impl View for Pending {
    type V = PendingModel;

    open spec fn view(&self) -> PendingModel {
        match *self {
            Pending::Dependencies { id } => PendingModel::Dependencies { id: id@ },
            Pending::Conditions { id, wait_seconds } => PendingModel::Conditions {
                id: id@,
                wait_seconds,
            },
        }
    }
}

/// What follows a quarantine.
#[derive(Clone, Copy, Debug, PartialEq, Eq, Structural)]
pub enum Aftermath {
    NextManifest,
    NextPass,
}

/// What the worker waits for.
#[derive(Clone, Copy, Debug, PartialEq, Eq, Structural)]
pub enum WorkerStage {
    StopCheck,
    Modified,
    Listing,
    Reading,
    Inspecting,
    StartingMonitor,
    Probing,
    Confirming,
    Announcing,
    Executing,
    Quarantining { next: Aftermath },
    Resting,
    Sleeping,
    Stopping,
    Ended,
}

/// What the host does next.
#[derive(Debug)]
pub enum WorkerCall {
    /// Look whether a stop was requested.
    QueryStop,
    /// Read when the jobs directory was modified.
    ReadModified,
    ListManifests,
    /// Read a manifest and the result of its job.
    ReadManifest { index: usize },
    /// Look at the directories of the current job, and at the reports of its
    /// dependencies.
    Inspect,
    StartMonitor,
    /// Sample the conditions of the current job.
    Probe,
    SaveState { note: StateNote },
    /// Run the current job, which has waited since `started`.
    Execute { started: u64 },
    /// Quarantine the current job's manifest: the one at an index, or that of its
    /// identity.
    Quarantine { index: Option<usize>, reason: String },
    Sleep,
    Finish,
    Fail { error: String },
}

pub enum WorkerCallModel {
    QueryStop,
    ReadModified,
    ListManifests,
    ReadManifest { index: usize },
    Inspect,
    StartMonitor,
    Probe,
    SaveState { note: StateNote },
    Execute { started: u64 },
    Quarantine { index: Option<usize>, reason: Seq<char> },
    Sleep,
    Finish,
    Fail { error: Seq<char> },
}

impl View for WorkerCall {
    type V = WorkerCallModel;

    open spec fn view(&self) -> WorkerCallModel {
        match *self {
            WorkerCall::QueryStop => WorkerCallModel::QueryStop,
            WorkerCall::ReadModified => WorkerCallModel::ReadModified,
            WorkerCall::ListManifests => WorkerCallModel::ListManifests,
            WorkerCall::ReadManifest { index } => WorkerCallModel::ReadManifest { index },
            WorkerCall::Inspect => WorkerCallModel::Inspect,
            WorkerCall::StartMonitor => WorkerCallModel::StartMonitor,
            WorkerCall::Probe => WorkerCallModel::Probe,
            WorkerCall::SaveState { note } => WorkerCallModel::SaveState { note },
            WorkerCall::Execute { started } => WorkerCallModel::Execute { started },
            WorkerCall::Quarantine { index, reason } => WorkerCallModel::Quarantine {
                index,
                reason: reason@,
            },
            WorkerCall::Sleep => WorkerCallModel::Sleep,
            WorkerCall::Finish => WorkerCallModel::Finish,
            WorkerCall::Fail { error } => WorkerCallModel::Fail { error: error@ },
        }
    }
}

/// What the host replies. Times are in nanoseconds.
#[derive(Debug)]
pub enum WorkerReply {
    Stop { stopped: bool },
    Modified { stamp: Result<u64, String>, now: u64 },
    Manifests { count: Result<usize, String> },
    Manifest { job: Result<Job, String>, result: ReportFile },
    Inspected { dirs: Directories, reports: Vec<ReportFile>, now: u64 },
    Monitor { outcome: Result<(), String> },
    Probed { ready: Result<bool, String>, now: u64 },
    Saved { outcome: Result<(), String>, now: u64 },
    Executed { outcome: Result<Option<bool>, String> },
    Quarantined { outcome: Result<(), String> },
    Slept,
}

// ---------------------------------------------------------------------------
// Waiting
// ---------------------------------------------------------------------------

/// How long something lasted.
pub open spec fn lasted(since: u64, now: u64) -> nat {
    if now < since {
        0
    } else {
        (now - since) as nat
    }
}

pub open spec fn waiting_since(waiting: Seq<(Seq<char>, u64)>, id: Seq<char>, i: int) -> Option<u64>
    decreases waiting.len() - i,
{
    if i >= waiting.len() {
        None
    } else if waiting[i].0 == id {
        Some(waiting[i].1)
    } else {
        waiting_since(waiting, id, i + 1)
    }
}

/// The waiting jobs once a job waits too; one that already does keeps its time.
pub open spec fn joined_by(waiting: Seq<(Seq<char>, u64)>, id: Seq<char>, now: u64) -> Seq<
    (Seq<char>, u64),
> {
    if waiting_since(waiting, id, 0) is Some {
        waiting
    } else {
        waiting.push((id, now))
    }
}

/// The waiting jobs without one of them, from `i` on.
pub open spec fn left_by(waiting: Seq<(Seq<char>, u64)>, id: Seq<char>, i: int) -> Seq<
    (Seq<char>, u64),
>
    decreases waiting.len() - i,
{
    if i >= waiting.len() {
        Seq::empty()
    } else if waiting[i].0 == id {
        left_by(waiting, id, i + 1)
    } else {
        seq![waiting[i]] + left_by(waiting, id, i + 1)
    }
}

pub open spec fn waits(v: Seq<(String, u64)>) -> Seq<(Seq<char>, u64)> {
    Seq::new(v.len(), |i: int| (v[i].0@, v[i].1))
}

pub open spec fn pendings(v: Seq<Pending>) -> Seq<PendingModel> {
    Seq::new(v.len(), |i: int| v[i]@)
}

pub proof fn newcomer_waits(waiting: Seq<(Seq<char>, u64)>, id: Seq<char>, now: u64, i: int)
    requires
        0 <= i <= waiting.len(),
        waiting_since(waiting, id, i) is None,
    ensures
        waiting_since(waiting.push((id, now)), id, i) == Some(now),
    decreases waiting.len() - i,
{
    if i < waiting.len() {
        newcomer_waits(waiting, id, now, i + 1);
    }
}

fn find_waiting(waiting: &Vec<(String, u64)>, id: &str) -> (r: Option<u64>)
    ensures
        r == waiting_since(waits(waiting@), id@, 0),
{
    let ghost all = waits(waiting@);
    let mut i: usize = 0;
    while i < waiting.len()
        invariant
            i <= waiting@.len(),
            all == waits(waiting@),
            waiting_since(all, id@, 0) == waiting_since(all, id@, i as int),
        decreases waiting@.len() - i,
    {
        assert(all[i as int] == (waiting@[i as int].0@, waiting@[i as int].1));
        if same(waiting[i].0.as_str(), id) {
            return Some(waiting[i].1);
        }
        i = i + 1;
    }
    None
}

pub fn enter_waiting(waiting: &mut Vec<(String, u64)>, id: &str, now: u64) -> (r: u64)
    ensures
        waits(final(waiting)@) == joined_by(waits(old(waiting)@), id@, now),
        waiting_since(waits(final(waiting)@), id@, 0) == Some(r),
{
    match find_waiting(waiting, id) {
        Some(since) => since,
        None => {
            let ghost before = waiting@;
            waiting.push((id.to_owned(), now));
            proof {
                assert(waits(waiting@) =~= waits(before).push((id@, now)));
                newcomer_waits(waits(before), id@, now, 0);
            }
            now
        },
    }
}

fn leave_waiting(waiting: &mut Vec<(String, u64)>, id: &str)
    ensures
        waits(final(waiting)@) == left_by(waits(old(waiting)@), id@, 0),
{
    let ghost all = waits(waiting@);
    let mut kept: Vec<(String, u64)> = Vec::new();
    let mut i: usize = 0;
    assert(waits(kept@) + left_by(all, id@, 0) =~= left_by(all, id@, 0));
    while i < waiting.len()
        invariant
            i <= waiting@.len(),
            all == waits(waiting@),
            waits(kept@) + left_by(all, id@, i as int) == left_by(all, id@, 0),
        decreases waiting@.len() - i,
    {
        assert(all[i as int] == (waiting@[i as int].0@, waiting@[i as int].1));
        let ghost rest = left_by(all, id@, i + 1);
        if !same(waiting[i].0.as_str(), id) {
            let ghost before = kept@;
            kept.push((waiting[i].0.as_str().to_owned(), waiting[i].1));
            proof {
                assert(waits(kept@) =~= waits(before).push(all[i as int]));
                assert(waits(before) + (seq![all[i as int]] + rest) =~= waits(kept@) + rest);
            }
        }
        i = i + 1;
    }
    assert(waits(kept@) + Seq::<(Seq<char>, u64)>::empty() =~= waits(kept@));
    *waiting = kept;
}

pub fn elapsed_nanos(since: u64, now: u64) -> (r: u64)
    ensures
        r == lasted(since, now),
{
    if now < since {
        0
    } else {
        now - since
    }
}

// ---------------------------------------------------------------------------
// The worker
// ---------------------------------------------------------------------------

/// The worker between two calls.
#[derive(Debug)]
pub struct Worker {
    /// How long to rest before it ends; a daemon never does.
    idle_seconds: Option<u64>,
    waiting: Vec<(String, u64)>,
    monitoring: bool,
    idle_since: u64,
    idle_modified: Option<u64>,
    modified: u64,
    pending: Vec<Pending>,
    manifests: usize,
    next: usize,
    job: Option<Job>,
    stage: WorkerStage,
}

pub struct WorkerModel {
    pub idle_seconds: Option<u64>,
    pub waiting: Seq<(Seq<char>, u64)>,
    pub monitoring: bool,
    pub idle_since: u64,
    pub idle_modified: Option<u64>,
    pub modified: u64,
    pub pending: Seq<PendingModel>,
    pub manifests: usize,
    pub next: usize,
    pub job: Option<Job>,
    pub stage: WorkerStage,
}

impl View for Worker {
    type V = WorkerModel;

    closed spec fn view(&self) -> WorkerModel {
        WorkerModel {
            idle_seconds: self.idle_seconds,
            waiting: waits(self.waiting@),
            monitoring: self.monitoring,
            idle_since: self.idle_since,
            idle_modified: self.idle_modified,
            modified: self.modified,
            pending: pendings(self.pending@),
            manifests: self.manifests,
            next: self.next,
            job: self.job,
            stage: self.stage,
        }
    }
}

impl WorkerModel {
    pub open spec fn id(self) -> Seq<char> {
        self.job->0.id@
    }

    /// Since when the current job waits.
    pub open spec fn started(self) -> Option<u64> {
        waiting_since(self.waiting, self.id(), 0)
    }

    /// A current job is there where it is needed, and so is its waiting time.
    pub open spec fn well_formed(self) -> bool {
        match self.stage {
            WorkerStage::Reading => self.next < self.manifests,
            WorkerStage::Inspecting => self.job is Some && self.next < self.manifests,
            WorkerStage::StartingMonitor | WorkerStage::Probing => self.job is Some
                && self.started() is Some && self.next < self.manifests,
            WorkerStage::Confirming
            | WorkerStage::Announcing
            | WorkerStage::Executing => self.job is Some && self.started() is Some,
            WorkerStage::Quarantining { next } => self.job is Some && (next
                == Aftermath::NextManifest ==> self.next < self.manifests),
            _ => true,
        }
    }

    /// Whether a reply answers the last call.
    pub open spec fn expects(self, reply: WorkerReply) -> bool {
        match self.stage {
            WorkerStage::StopCheck | WorkerStage::Confirming => reply is Stop,
            WorkerStage::Modified => reply is Modified,
            WorkerStage::Listing => reply is Manifests,
            WorkerStage::Reading => reply is Manifest,
            WorkerStage::Inspecting => reply is Inspected && reply->reports@.len()
                == self.job->0.after@.len(),
            WorkerStage::StartingMonitor => reply is Monitor,
            WorkerStage::Probing => reply is Probed,
            WorkerStage::Announcing | WorkerStage::Resting | WorkerStage::Stopping => reply is Saved,
            WorkerStage::Executing => reply is Executed,
            WorkerStage::Quarantining { .. } => reply is Quarantined,
            WorkerStage::Sleeping => reply is Slept,
            WorkerStage::Ended => false,
        }
    }

    pub open spec fn at(self, stage: WorkerStage) -> WorkerModel {
        WorkerModel { stage, ..self }
    }

    pub open spec fn failed(self, error: Seq<char>) -> (WorkerModel, WorkerCallModel) {
        (self.at(WorkerStage::Ended), WorkerCallModel::Fail { error })
    }

    /// A new pass begins with a look for a stop.
    pub open spec fn restart(self) -> (WorkerModel, WorkerCallModel) {
        (self.at(WorkerStage::StopCheck), WorkerCallModel::QueryStop)
    }

    /// The manifest that is due, or the end of the pass.
    pub open spec fn advance(self) -> (WorkerModel, WorkerCallModel) {
        if self.next < self.manifests {
            (
                self.at(WorkerStage::Reading),
                WorkerCallModel::ReadManifest { index: self.next },
            )
        } else {
            (
                self.at(WorkerStage::Resting),
                WorkerCallModel::SaveState {
                    note: if self.pending.len() == 0 {
                        StateNote::Idle
                    } else {
                        StateNote::Waiting
                    },
                },
            )
        }
    }

    pub open spec fn skip(self) -> (WorkerModel, WorkerCallModel) {
        WorkerModel { next: (self.next + 1) as usize, ..self }.advance()
    }

    pub open spec fn quarantine(self, reason: Seq<char>, next: Aftermath) -> (
        WorkerModel,
        WorkerCallModel,
    ) {
        (
            self.at(WorkerStage::Quarantining { next }),
            WorkerCallModel::Quarantine {
                index: if next == Aftermath::NextManifest {
                    Some(self.next)
                } else {
                    None
                },
                reason,
            },
        )
    }

    /// Ends once it was idle long enough, and sleeps otherwise.
    pub open spec fn rest(self, now: u64) -> (WorkerModel, WorkerCallModel) {
        if self.idle_seconds is Some && lasted(self.idle_since, now) >= self.idle_seconds->0
            * SECOND {
            (self.at(WorkerStage::Ended), WorkerCallModel::Finish)
        } else {
            (self.at(WorkerStage::Sleeping), WorkerCallModel::Sleep)
        }
    }

    pub open spec fn read(self, job: Job, result: ReportFile) -> (WorkerModel, WorkerCallModel) {
        match result {
            ReportFile::Absent => (
                WorkerModel { job: Some(job), stage: WorkerStage::Inspecting, ..self },
                WorkerCallModel::Inspect,
            ),
            ReportFile::Unreadable(message) => self.failed(message@),
            ReportFile::Read(report) => if settled(text_at(json_model(report), "status"@)) {
                self.skip()
            } else if self.idle_seconds is None {
                WorkerModel { job: Some(job), ..self }.quarantine(
                    "terminal failed or incomplete result"@,
                    Aftermath::NextManifest,
                )
            } else {
                self.failed(
                    "job "@ + job.id@ + " has failed or incomplete output; no replay"@,
                )
            },
        }
    }

    pub open spec fn inspected(self, dirs: Directories, reports: Seq<ReportFile>, now: u64) -> (
        WorkerModel,
        WorkerCallModel,
    ) {
        let job = self.job->0;
        match job_outcome(job, dirs) {
            Err(message) => self.failed(message),
            Ok(_) => match dependencies_from(texts(job.after@), reports, 0) {
                Err(message) => self.failed(message),
                Ok(DependencyModel::Waiting) => WorkerModel {
                    pending: self.pending.push(PendingModel::Dependencies { id: job.id@ }),
                    ..self
                }.skip(),
                Ok(DependencyModel::Failed(dependency)) => if self.idle_seconds is None {
                    self.quarantine(
                        "dependency "@ + dependency + " did not succeed"@,
                        Aftermath::NextManifest,
                    )
                } else {
                    self.failed(
                        "dependency "@ + dependency + " did not succeed; queue stopped"@,
                    )
                },
                Ok(DependencyModel::Ready) => self.admitted(job, now),
            },
        }
    }

    /// A job whose dependencies are settled starts to wait for its conditions.
    pub open spec fn admitted(self, job: Job, now: u64) -> (WorkerModel, WorkerCallModel) {
        let m = WorkerModel { waiting: joined_by(self.waiting, job.id@, now), ..self };
        if lasted(m.started()->0, now) > job.max_wait_seconds * SECOND {
            m.failed("job "@ + job.id@ + " expired waiting for conditions; no trial started"@)
        } else if !m.monitoring {
            (m.at(WorkerStage::StartingMonitor), WorkerCallModel::StartMonitor)
        } else {
            (m.at(WorkerStage::Probing), WorkerCallModel::Probe)
        }
    }

    pub open spec fn probed(self, ready: bool, now: u64) -> (WorkerModel, WorkerCallModel) {
        let m = WorkerModel {
            pending: self.pending.push(
                PendingModel::Conditions {
                    id: self.id(),
                    wait_seconds: (lasted(self.started()->0, now) / SECOND as nat) as u64,
                },
            ),
            ..self
        };
        if ready {
            (
                WorkerModel { idle_since: now, stage: WorkerStage::Confirming, ..m },
                WorkerCallModel::QueryStop,
            )
        } else {
            m.skip()
        }
    }

    pub open spec fn executed(self, outcome: Option<bool>) -> (WorkerModel, WorkerCallModel) {
        match outcome {
            None => self.restart(),
            Some(true) => WorkerModel {
                waiting: left_by(self.waiting, self.id(), 0),
                ..self
            }.restart(),
            Some(false) => if self.idle_seconds is None {
                self.quarantine("trial or validator failed"@, Aftermath::NextPass)
            } else {
                self.failed("job "@ + self.id() + " failed; queue stopped without retry"@)
            },
        }
    }

    /// The end of a pass that selected nothing: without pending work the observer
    /// is dropped, and the next pass waits until the jobs directory changes.
    pub open spec fn rested(self, now: u64) -> (WorkerModel, WorkerCallModel) {
        if self.pending.len() == 0 {
            WorkerModel {
                monitoring: false,
                idle_modified: Some(self.modified),
                ..self
            }.rest(now)
        } else {
            WorkerModel { idle_modified: None, idle_since: now, ..self }.rest(now)
        }
    }

    pub open spec fn modified_at(self, stamp: u64, now: u64) -> (WorkerModel, WorkerCallModel) {
        if self.idle_modified == Some(stamp) {
            self.rest(now)
        } else {
            (
                WorkerModel {
                    modified: stamp,
                    pending: Seq::empty(),
                    stage: WorkerStage::Listing,
                    ..self
                },
                WorkerCallModel::ListManifests,
            )
        }
    }

    /// The worker and its call after a reply.
    pub open spec fn resumed(self, reply: WorkerReply) -> (WorkerModel, WorkerCallModel) {
        match (self.stage, reply) {
            (WorkerStage::StopCheck, WorkerReply::Stop { stopped }) => if stopped {
                (
                    self.at(WorkerStage::Stopping),
                    WorkerCallModel::SaveState { note: StateNote::Stopped },
                )
            } else {
                (self.at(WorkerStage::Modified), WorkerCallModel::ReadModified)
            },
            (WorkerStage::Stopping, WorkerReply::Saved { outcome, now }) => match outcome {
                Err(message) => self.failed(message@),
                Ok(_) => (self.at(WorkerStage::Ended), WorkerCallModel::Finish),
            },
            (WorkerStage::Modified, WorkerReply::Modified { stamp, now }) => match stamp {
                Err(message) => self.failed(message@),
                Ok(stamp) => self.modified_at(stamp, now),
            },
            (WorkerStage::Listing, WorkerReply::Manifests { count }) => match count {
                Err(message) => self.failed(message@),
                Ok(count) => WorkerModel { manifests: count, next: 0, ..self }.advance(),
            },
            (WorkerStage::Reading, WorkerReply::Manifest { job, result }) => match job {
                Err(message) => self.failed(message@),
                Ok(job) => self.read(job, result),
            },
            (WorkerStage::Inspecting, WorkerReply::Inspected { dirs, reports, now }) =>
                self.inspected(dirs, reports@, now),
            (WorkerStage::StartingMonitor, WorkerReply::Monitor { outcome }) => match outcome {
                Err(message) => self.failed(message@),
                Ok(_) => (
                    WorkerModel { monitoring: true, stage: WorkerStage::Probing, ..self },
                    WorkerCallModel::Probe,
                ),
            },
            (WorkerStage::Probing, WorkerReply::Probed { ready, now }) => match ready {
                Err(message) => self.failed(message@),
                Ok(ready) => self.probed(ready, now),
            },
            (WorkerStage::Confirming, WorkerReply::Stop { stopped }) => if stopped {
                self.restart()
            } else {
                (
                    self.at(WorkerStage::Announcing),
                    WorkerCallModel::SaveState { note: StateNote::Starting },
                )
            },
            (WorkerStage::Announcing, WorkerReply::Saved { outcome, now }) => match outcome {
                Err(message) => self.failed(message@),
                Ok(_) => (
                    self.at(WorkerStage::Executing),
                    WorkerCallModel::Execute { started: self.started()->0 },
                ),
            },
            (WorkerStage::Executing, WorkerReply::Executed { outcome }) => match outcome {
                Err(message) => self.failed(message@),
                Ok(outcome) => self.executed(outcome),
            },
            (WorkerStage::Quarantining { next }, WorkerReply::Quarantined { outcome }) =>
                match outcome {
                    Err(message) => self.failed(message@),
                    Ok(_) => match next {
                        Aftermath::NextManifest => self.skip(),
                        Aftermath::NextPass => WorkerModel {
                            waiting: left_by(self.waiting, self.id(), 0),
                            ..self
                        }.restart(),
                    },
                },
            (WorkerStage::Resting, WorkerReply::Saved { outcome, now }) => match outcome {
                Err(message) => self.failed(message@),
                Ok(_) => self.rested(now),
            },
            (WorkerStage::Sleeping, WorkerReply::Slept) => self.restart(),
            _ => self.restart(),
        }
    }
}

/// The worker before its first pass.
pub open spec fn hired(idle_seconds: Option<u64>, now: u64) -> WorkerModel {
    WorkerModel {
        idle_seconds,
        waiting: Seq::empty(),
        monitoring: false,
        idle_since: now,
        idle_modified: None,
        modified: 0,
        pending: Seq::empty(),
        manifests: 0,
        next: 0,
        job: None,
        stage: WorkerStage::StopCheck,
    }
}

impl Worker {
    /// The job that is at hand.
    pub fn job(&self) -> (r: Option<&Job>)
        ensures
            match r {
                Some(job) => self@.job == Some(*job),
                None => self@.job is None,
            },
    {
        match &self.job {
            Some(job) => Some(job),
            None => None,
        }
    }

    /// What the last scan found.
    pub fn pending(&self) -> (r: &Vec<Pending>)
        ensures
            pendings(r@) == self@.pending,
    {
        &self.pending
    }

    /// Starts with a look for a stop: a stopped queue needs no observer.
    pub fn begin(idle_seconds: Option<u64>, now: u64) -> (r: (Worker, WorkerCall))
        ensures
            r.0@ == hired(idle_seconds, now),
            r.1@ == WorkerCallModel::QueryStop,
            r.0@.well_formed(),
    {
        let worker = Worker {
            idle_seconds,
            waiting: Vec::new(),
            monitoring: false,
            idle_since: now,
            idle_modified: None,
            modified: 0,
            pending: Vec::new(),
            manifests: 0,
            next: 0,
            job: None,
            stage: WorkerStage::StopCheck,
        };
        assert(worker@.waiting =~= Seq::empty());
        assert(worker@.pending =~= Seq::empty());
        (worker, WorkerCall::QueryStop)
    }

    fn fail(&mut self, error: String) -> (call: WorkerCall)
        ensures
            (final(self)@, call@) == old(self)@.failed(error@),
    {
        self.stage = WorkerStage::Ended;
        WorkerCall::Fail { error }
    }

    fn restart(&mut self) -> (call: WorkerCall)
        ensures
            (final(self)@, call@) == old(self)@.restart(),
    {
        self.stage = WorkerStage::StopCheck;
        WorkerCall::QueryStop
    }

    fn advance(&mut self) -> (call: WorkerCall)
        ensures
            (final(self)@, call@) == old(self)@.advance(),
    {
        if self.next < self.manifests {
            self.stage = WorkerStage::Reading;
            WorkerCall::ReadManifest { index: self.next }
        } else {
            self.stage = WorkerStage::Resting;
            WorkerCall::SaveState {
                note: if self.pending.len() == 0 {
                    StateNote::Idle
                } else {
                    StateNote::Waiting
                },
            }
        }
    }

    fn skip(&mut self) -> (call: WorkerCall)
        requires
            old(self)@.next < old(self)@.manifests,
        ensures
            (final(self)@, call@) == old(self)@.skip(),
    {
        self.next = self.next + 1;
        self.advance()
    }

    fn quarantine(&mut self, reason: String, next: Aftermath) -> (call: WorkerCall)
        ensures
            (final(self)@, call@) == old(self)@.quarantine(reason@, next),
    {
        let index = match next {
            Aftermath::NextManifest => Some(self.next),
            Aftermath::NextPass => None,
        };
        self.stage = WorkerStage::Quarantining { next };
        WorkerCall::Quarantine { index, reason }
    }

    fn rest(&mut self, now: u64) -> (call: WorkerCall)
        ensures
            (final(self)@, call@) == old(self)@.rest(now),
    {
        let idle: u64 = elapsed_nanos(self.idle_since, now);
        let over = match self.idle_seconds {
            Some(seconds) => idle / SECOND >= seconds,
            None => false,
        };
        if over {
            self.stage = WorkerStage::Ended;
            WorkerCall::Finish
        } else {
            self.stage = WorkerStage::Sleeping;
            WorkerCall::Sleep
        }
    }

    fn note(&mut self, pending: Pending)
        ensures
            final(self)@ == (WorkerModel {
                pending: old(self)@.pending.push(pending@),
                ..old(self)@
            }),
    {
        let ghost before = self.pending@;
        self.pending.push(pending);
        assert(pendings(self.pending@) =~= pendings(before).push(pending@));
    }

    fn read(&mut self, job: Job, result: ReportFile) -> (call: WorkerCall)
        requires
            old(self)@.next < old(self)@.manifests,
        ensures
            (final(self)@, call@) == old(self)@.read(job, result),
    {
        match result {
            ReportFile::Absent => {
                self.job = Some(job);
                self.stage = WorkerStage::Inspecting;
                WorkerCall::Inspect
            },
            ReportFile::Unreadable(message) => self.fail(message),
            ReportFile::Read(report) => {
                if is_settled(&report) {
                    return self.skip();
                }
                if self.idle_seconds.is_none() {
                    self.job = Some(job);
                    return self.quarantine(
                        "terminal failed or incomplete result".to_owned(),
                        Aftermath::NextManifest,
                    );
                }
                let error = cat3(
                    "job ",
                    job.id.as_str(),
                    " has failed or incomplete output; no replay",
                );
                self.fail(error)
            },
        }
    }

    fn let_in(&mut self, id: &str, max_wait_seconds: u64, now: u64) -> (call: WorkerCall)
        requires
            old(self)@.job is Some,
            old(self)@.id() == id@,
            old(self)@.job->0.max_wait_seconds == max_wait_seconds,
        ensures
            (final(self)@, call@) == old(self)@.admitted(old(self)@.job->0, now),
            final(self)@.started() is Some,
    {
        let started: u64 = enter_waiting(&mut self.waiting, id, now);
        let waited: u64 = elapsed_nanos(started, now);
        if waited / SECOND > max_wait_seconds || (waited / SECOND == max_wait_seconds && waited
            % SECOND > 0) {
            let error = cat3("job ", id, " expired waiting for conditions; no trial started");
            return self.fail(error);
        }
        if !self.monitoring {
            self.stage = WorkerStage::StartingMonitor;
            return WorkerCall::StartMonitor;
        }
        self.stage = WorkerStage::Probing;
        WorkerCall::Probe
    }

    fn inspect(&mut self, dirs: Directories, reports: &Vec<ReportFile>, now: u64) -> (call:
        WorkerCall)
        requires
            old(self)@.job is Some,
            old(self)@.next < old(self)@.manifests,
            reports@.len() == old(self)@.job->0.after@.len(),
        ensures
            (final(self)@, call@) == old(self)@.inspected(dirs, reports@, now),
            final(self)@.well_formed(),
    {
        let (checked, state, id, max_wait): (
            Result<(), String>,
            Result<DependencyState, String>,
            String,
            u64,
        ) = match &self.job {
            Some(job) => (
                job.validate(dirs),
                dependency_state(&job.after, reports),
                job.id.as_str().to_owned(),
                job.max_wait_seconds,
            ),
            None => (Ok(()), Ok(DependencyState::Waiting), String::new(), 0),
        };
        match checked {
            Err(message) => {
                return self.fail(message);
            },
            Ok(_) => {},
        }
        match state {
            Err(message) => self.fail(message),
            Ok(DependencyState::Waiting) => {
                self.note(Pending::Dependencies { id });
                self.skip()
            },
            Ok(DependencyState::Failed(dependency)) => {
                if self.idle_seconds.is_none() {
                    let reason = cat3("dependency ", dependency.as_str(), " did not succeed");
                    return self.quarantine(reason, Aftermath::NextManifest);
                }
                let error = cat3(
                    "dependency ",
                    dependency.as_str(),
                    " did not succeed; queue stopped",
                );
                self.fail(error)
            },
            Ok(DependencyState::Ready) => self.let_in(id.as_str(), max_wait, now),
        }
    }

    fn current_id(&self) -> (r: String)
        requires
            self@.job is Some,
        ensures
            r@ == self@.id(),
    {
        match &self.job {
            Some(job) => job.id.as_str().to_owned(),
            None => String::new(),
        }
    }

    fn probe_taken(&mut self, ready: bool, now: u64) -> (call: WorkerCall)
        requires
            old(self)@.job is Some,
            old(self)@.started() is Some,
            old(self)@.next < old(self)@.manifests,
        ensures
            (final(self)@, call@) == old(self)@.probed(ready, now),
            final(self)@.well_formed(),
    {
        let id = self.current_id();
        let started: u64 = match find_waiting(&self.waiting, id.as_str()) {
            Some(started) => started,
            None => 0,
        };
        let wait_seconds: u64 = elapsed_nanos(started, now) / SECOND;
        self.note(Pending::Conditions { id, wait_seconds });
        if ready {
            self.idle_since = now;
            self.stage = WorkerStage::Confirming;
            return WorkerCall::QueryStop;
        }
        self.skip()
    }

    fn leave(&mut self) -> (call: WorkerCall)
        requires
            old(self)@.job is Some,
        ensures
            (final(self)@, call@) == (WorkerModel {
                waiting: left_by(old(self)@.waiting, old(self)@.id(), 0),
                ..old(self)@
            }).restart(),
    {
        let id = self.current_id();
        leave_waiting(&mut self.waiting, id.as_str());
        self.restart()
    }

    fn execution_ended(&mut self, outcome: Option<bool>) -> (call: WorkerCall)
        requires
            old(self)@.job is Some,
        ensures
            (final(self)@, call@) == old(self)@.executed(outcome),
            final(self)@.well_formed(),
    {
        match outcome {
            None => self.restart(),
            Some(true) => self.leave(),
            Some(false) => {
                if self.idle_seconds.is_none() {
                    return self.quarantine(
                        "trial or validator failed".to_owned(),
                        Aftermath::NextPass,
                    );
                }
                let id = self.current_id();
                let error = cat3("job ", id.as_str(), " failed; queue stopped without retry");
                self.fail(error)
            },
        }
    }

    fn end_pass(&mut self, now: u64) -> (call: WorkerCall)
        ensures
            (final(self)@, call@) == old(self)@.rested(now),
    {
        if self.pending.len() == 0 {
            self.monitoring = false;
            self.idle_modified = Some(self.modified);
        } else {
            self.idle_modified = None;
            self.idle_since = now;
        }
        self.rest(now)
    }

    fn modification_read(&mut self, stamp: u64, now: u64) -> (call: WorkerCall)
        ensures
            (final(self)@, call@) == old(self)@.modified_at(stamp, now),
    {
        let unchanged = match self.idle_modified {
            Some(known) => known == stamp,
            None => false,
        };
        if unchanged {
            return self.rest(now);
        }
        self.modified = stamp;
        self.pending = Vec::new();
        assert(pendings(self.pending@) =~= Seq::empty());
        self.stage = WorkerStage::Listing;
        WorkerCall::ListManifests
    }

    /// Takes the reply to the last call, and makes the next one.
    pub fn resume(&mut self, reply: WorkerReply) -> (call: WorkerCall)
        requires
            old(self)@.well_formed(),
            old(self)@.expects(reply),
        ensures
            (final(self)@, call@) == old(self)@.resumed(reply),
            final(self)@.well_formed(),
    {
        match self.stage {
            WorkerStage::StopCheck => match reply {
                WorkerReply::Stop { stopped: true } => {
                    self.stage = WorkerStage::Stopping;
                    WorkerCall::SaveState { note: StateNote::Stopped }
                },
                _ => {
                    self.stage = WorkerStage::Modified;
                    WorkerCall::ReadModified
                },
            },
            WorkerStage::Stopping => match reply {
                WorkerReply::Saved { outcome: Err(message), now: _ } => self.fail(message),
                _ => {
                    self.stage = WorkerStage::Ended;
                    WorkerCall::Finish
                },
            },
            WorkerStage::Modified => match reply {
                WorkerReply::Modified { stamp: Err(message), now: _ } => self.fail(message),
                WorkerReply::Modified { stamp: Ok(stamp), now } => self.modification_read(
                    stamp,
                    now,
                ),
                _ => self.restart(),
            },
            WorkerStage::Listing => match reply {
                WorkerReply::Manifests { count: Err(message) } => self.fail(message),
                WorkerReply::Manifests { count: Ok(count) } => {
                    self.manifests = count;
                    self.next = 0;
                    self.advance()
                },
                _ => self.restart(),
            },
            WorkerStage::Reading => match reply {
                WorkerReply::Manifest { job: Err(message), result: _ } => self.fail(message),
                WorkerReply::Manifest { job: Ok(job), result } => self.read(job, result),
                _ => self.restart(),
            },
            WorkerStage::Inspecting => match reply {
                WorkerReply::Inspected { dirs, reports, now } => self.inspect(dirs, &reports, now),
                _ => self.restart(),
            },
            WorkerStage::StartingMonitor => match reply {
                WorkerReply::Monitor { outcome: Err(message) } => self.fail(message),
                _ => {
                    self.monitoring = true;
                    self.stage = WorkerStage::Probing;
                    WorkerCall::Probe
                },
            },
            WorkerStage::Probing => match reply {
                WorkerReply::Probed { ready: Err(message), now: _ } => self.fail(message),
                WorkerReply::Probed { ready: Ok(ready), now } => self.probe_taken(ready, now),
                _ => self.restart(),
            },
            WorkerStage::Confirming => match reply {
                WorkerReply::Stop { stopped: false } => {
                    self.stage = WorkerStage::Announcing;
                    WorkerCall::SaveState { note: StateNote::Starting }
                },
                _ => self.restart(),
            },
            WorkerStage::Announcing => match reply {
                WorkerReply::Saved { outcome: Err(message), now: _ } => self.fail(message),
                _ => {
                    let id = self.current_id();
                    let started: u64 = match find_waiting(&self.waiting, id.as_str()) {
                        Some(started) => started,
                        None => 0,
                    };
                    self.stage = WorkerStage::Executing;
                    WorkerCall::Execute { started }
                },
            },
            WorkerStage::Executing => match reply {
                WorkerReply::Executed { outcome: Err(message) } => self.fail(message),
                WorkerReply::Executed { outcome: Ok(outcome) } => self.execution_ended(outcome),
                _ => self.restart(),
            },
            WorkerStage::Quarantining { next } => match reply {
                WorkerReply::Quarantined { outcome: Err(message) } => self.fail(message),
                _ => match next {
                    Aftermath::NextManifest => self.skip(),
                    Aftermath::NextPass => self.leave(),
                },
            },
            WorkerStage::Resting => match reply {
                WorkerReply::Saved { outcome: Err(message), now: _ } => self.fail(message),
                WorkerReply::Saved { outcome: Ok(_), now } => self.end_pass(now),
                _ => self.restart(),
            },
            WorkerStage::Sleeping => self.restart(),
            WorkerStage::Ended => self.restart(),
        }
    }
}

} // verus!
