//! What holds of the worker whatever the host replies.
use crate::json::{json_model, text_at};
use crate::queue::desk::{dependencies_from, settled, DependencyModel, ReportFile};
use crate::queue::job::{job_outcome, Job};
use crate::queue::worker::{
    hired, lasted, StateNote, WorkerCallModel, WorkerModel, WorkerReply, WorkerStage, SECOND,
};
use crate::text::texts;
use vstd::prelude::*;

verus! {

/// The worker and its call after some replies.
pub open spec fn worked(idle_seconds: Option<u64>, start: u64, replies: Seq<WorkerReply>) -> (
    WorkerModel,
    WorkerCallModel,
)
    decreases replies.len(),
{
    if replies.len() == 0 {
        (hired(idle_seconds, start), WorkerCallModel::QueryStop)
    } else {
        worked(idle_seconds, start, replies.drop_last()).0.resumed(replies.last())
    }
}

/// Whether every reply answers the call before it.
pub open spec fn answering(idle_seconds: Option<u64>, start: u64, replies: Seq<WorkerReply>) -> bool
    decreases replies.len(),
{
    replies.len() > 0 ==> answering(idle_seconds, start, replies.drop_last()) && worked(
        idle_seconds,
        start,
        replies.drop_last(),
    ).0.expects(replies.last())
}

pub open spec fn said_ready(reply: WorkerReply) -> bool {
    reply is Probed && reply->ready == Ok::<bool, String>(true)
}

pub open spec fn said_no_stop(reply: WorkerReply) -> bool {
    reply is Stop && !reply->stopped
}

proof fn selection_trace(idle_seconds: Option<u64>, start: u64, replies: Seq<WorkerReply>)
    requires
        answering(idle_seconds, start, replies),
    ensures
        ({
            let (m, call) = worked(idle_seconds, start, replies);
            let n = replies.len();
            &&& m.well_formed()
            &&& m.idle_seconds == idle_seconds
            &&& m.stage == WorkerStage::Confirming ==> n >= 1 && said_ready(replies[n - 1])
            &&& m.stage == WorkerStage::Announcing ==> n >= 2 && said_no_stop(replies[n - 1])
                && said_ready(replies[n - 2])
            &&& m.stage == WorkerStage::Executing ==> n >= 3 && replies[n - 1] is Saved
                && said_no_stop(replies[n - 2]) && said_ready(replies[n - 3])
            &&& call is Execute ==> m.stage == WorkerStage::Executing
        }),
    decreases replies.len(),
{
    if replies.len() > 0 {
        let before = replies.drop_last();
        selection_trace(idle_seconds, start, before);
        let m = worked(idle_seconds, start, before).0;
        let n = replies.len();
        assert(replies[n - 1] == replies.last());
        if n >= 2 {
            assert(before[n - 2] == replies[n - 2]);
        }
        if n >= 3 {
            assert(before[n - 3] == replies[n - 3]);
        }
        resuming_keeps_form(m, replies.last());
    }
}

proof fn resuming_keeps_form(m: WorkerModel, reply: WorkerReply)
    requires
        m.well_formed(),
        m.expects(reply),
    ensures
        m.resumed(reply).0.well_formed(),
        m.resumed(reply).0.idle_seconds == m.idle_seconds,
{
    if m.stage == WorkerStage::Inspecting {
        waiting_jobs_have_a_time(m.waiting, m.job->0.id@, reply->Inspected_now);
    }
}

proof fn waiting_jobs_have_a_time(waiting: Seq<(Seq<char>, u64)>, id: Seq<char>, now: u64)
    ensures
        crate::queue::worker::waiting_since(
            crate::queue::worker::joined_by(waiting, id, now),
            id,
            0,
        ) is Some,
{
    if crate::queue::worker::waiting_since(waiting, id, 0) is None {
        crate::queue::worker::newcomer_waits(waiting, id, now, 0);
    }
}

/// A job is run only right after its conditions were sampled as ready, no stop
/// was seen since, and the start was written down.
pub proof fn executions_are_gated(idle_seconds: Option<u64>, start: u64, replies: Seq<WorkerReply>)
    requires
        answering(idle_seconds, start, replies),
        worked(idle_seconds, start, replies).1 is Execute,
    ensures
        replies.len() >= 3,
        replies.last() is Saved,
        said_no_stop(replies[replies.len() - 2]),
        said_ready(replies[replies.len() - 3]),
{
    selection_trace(idle_seconds, start, replies);
}

/// A failed or incomplete result is never replayed: its job is quarantined by a
/// daemon and halts any other worker.
pub proof fn failed_results_are_not_replayed(m: WorkerModel, job: Job, report: serde_json::Value)
    requires
        !settled(text_at(json_model(report), "status"@)),
    ensures
        m.read(job, ReportFile::Read(report)).1 is Quarantine || m.read(
            job,
            ReportFile::Read(report),
        ).1 is Fail,
        m.idle_seconds is None ==> m.read(job, ReportFile::Read(report)).1 is Quarantine,
        m.idle_seconds is Some ==> m.executed(Some(false)).1 is Fail,
        m.idle_seconds is None ==> m.executed(Some(false)).1 is Quarantine,
{
}

/// The power observer is started only for a valid job whose dependencies are
/// settled and whose wait has not expired; a pass that leaves nothing pending
/// drops it.
pub proof fn observers_start_for_ready_jobs_only(m: WorkerModel, reply: WorkerReply, now: u64)
    requires
        m.well_formed(),
        m.expects(reply),
    ensures
        m.resumed(reply).1 is StartMonitor ==> {
            &&& m.stage == WorkerStage::Inspecting
            &&& !m.monitoring
            &&& job_outcome(m.job->0, reply->dirs) is Ok
            &&& dependencies_from(texts(m.job->0.after@), reply->reports@, 0) == Ok::<
                DependencyModel,
                Seq<char>,
            >(DependencyModel::Ready)
        },
        m.pending.len() == 0 ==> !m.rested(now).0.monitoring,
{
}

/// A stop that is seen at the start of a pass ends the worker with nothing read.
pub proof fn stops_end_the_worker(m: WorkerModel, now: u64)
    requires
        m.stage == WorkerStage::StopCheck,
    ensures
        m.resumed(WorkerReply::Stop { stopped: true }).1 == (WorkerCallModel::SaveState {
            note: StateNote::Stopped,
        }),
        m.resumed(WorkerReply::Stop { stopped: true }).0.resumed(
            WorkerReply::Saved { outcome: Ok(()), now },
        ).1 == WorkerCallModel::Finish,
{
}

/// A job that waited longer than it may is not run.
pub proof fn expired_jobs_are_not_run(m: WorkerModel, job: Job, now: u64)
    requires
        m.job == Some(job),
        m.started() is Some,
        lasted(m.started()->0, now) > job.max_wait_seconds * SECOND,
    ensures
        m.admitted(job, now).1 is Fail,
{
}

} // verus!
