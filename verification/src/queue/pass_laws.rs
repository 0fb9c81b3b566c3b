//! How a worker passes over its queue: what it visits, for how long it waits and when
//! it ends.
use crate::queue::condition_laws::jobs_wait_from_when_they_first_did;
use crate::queue::desk::{dependencies_from, settled, DependencyModel};
use crate::queue::job::job_outcome;
use crate::queue::worker::{
    lasted, left_by, waiting_since, Aftermath, PendingModel, WorkerCallModel, WorkerModel,
    WorkerReply, WorkerStage,
};
use crate::json::{json_model, text_at};
use crate::text::texts;
use vstd::prelude::*;

verus! {

/// What has lasted since a time and what the time was make up the present; a clock
/// that went back has seen nothing pass.
pub proof fn durations_add_up(since: u64, now: u64)
    ensures
        since <= now ==> since + lasted(since, now) == now,
        now < since ==> lasted(since, now) == 0,
{
}

proof fn gone_from(waiting: Seq<(Seq<char>, u64)>, id: Seq<char>, other: Seq<char>, i: int)
    requires
        0 <= i <= waiting.len(),
    ensures
        waiting_since(left_by(waiting, id, i), other, 0) == if other == id {
            None
        } else {
            waiting_since(waiting, other, i)
        },
    decreases waiting.len() - i,
{
    if i < waiting.len() {
        gone_from(waiting, id, other, i + 1);
        let rest = left_by(waiting, id, i + 1);
        if waiting[i].0 != id {
            let all = seq![waiting[i]] + rest;
            assert(all[0] == waiting[i]);
            shifted(waiting[i], rest, other, 0);
        }
    }
}

proof fn shifted(first: (Seq<char>, u64), rest: Seq<(Seq<char>, u64)>, other: Seq<char>, i: int)
    requires
        0 <= i <= rest.len(),
    ensures
        waiting_since(seq![first] + rest, other, i + 1) == waiting_since(rest, other, i),
    decreases rest.len() - i,
{
    if i < rest.len() {
        assert((seq![first] + rest)[i + 1] == rest[i]);
        shifted(first, rest, other, i + 1);
    }
}

/// A job that leaves no longer waits; every other waits as it did.
pub proof fn leaving_ends_one_wait(waiting: Seq<(Seq<char>, u64)>, id: Seq<char>, other: Seq<char>)
    ensures
        waiting_since(left_by(waiting, id, 0), id, 0) is None,
        other != id ==> waiting_since(left_by(waiting, id, 0), other, 0) == waiting_since(
            waiting,
            other,
            0,
        ),
{
    gone_from(waiting, id, id, 0);
    gone_from(waiting, id, other, 0);
}

/// Manifests are visited from the first to the last, each once: a listing begins with
/// the first, and a job that is passed over is followed by the next. After the last the
/// worker notes whether anything is pending.
pub proof fn manifests_are_visited_in_order(m: WorkerModel, reply: WorkerReply)
    requires
        m.well_formed(),
        m.expects(reply),
    ensures
        ({
            let (next, call) = m.resumed(reply);
            &&& call matches WorkerCallModel::ReadManifest { index } ==> {
                &&& index == next.next && index < next.manifests
                &&& reply is Manifests ==> index == 0 && next.manifests == reply->count->Ok_0
                &&& !(reply is Manifests) ==> index == m.next + 1 && next.manifests == m.manifests
            }
            &&& reply is Manifests && reply->count is Ok && reply->count->Ok_0 > 0 ==> call
                is ReadManifest
            &&& call matches WorkerCallModel::SaveState { note } ==> {
                &&& note is Idle || note is Waiting ==> next.next >= next.manifests
                &&& note is Idle ==> next.pending.len() == 0
                &&& note is Waiting ==> next.pending.len() > 0
                &&& note is Starting ==> m.stage is Confirming
                &&& note is Stopped ==> m.stage is StopCheck
            }
        }),
{
}

/// A job whose result is settled is passed over; one without a result is looked into;
/// one that cannot be read ends the worker.
pub proof fn settled_jobs_are_passed_over(m: WorkerModel, reply: WorkerReply)
    requires
        m.well_formed(),
        m.stage is Reading,
        m.expects(reply),
    ensures
        ({
            let (next, call) = m.resumed(reply);
            let job = reply->job;
            let result = reply->result;
            &&& job matches Err(e) ==> call == (WorkerCallModel::Fail { error: e@ })
            &&& job is Ok && result is Absent ==> call is Inspect && next.job == Some(job->Ok_0)
            &&& job is Ok && result is Unreadable ==> call is Fail
            &&& job is Ok && result is Read && settled(
                text_at(json_model(result->Read_0), "status"@),
            ) ==> {
                &&& next.next == m.next + 1
                &&& next.waiting == m.waiting && next.pending == m.pending
                &&& call is ReadManifest || call is SaveState
            }
        }),
{
}

/// A job that waits for others is noted so and passed over; one that waits for its
/// conditions is noted with the seconds it has waited, and passed over unless they hold.
pub proof fn passes_note_what_is_pending(m: WorkerModel, reply: WorkerReply)
    requires
        m.well_formed(),
        m.expects(reply),
    ensures
        ({
            let (next, call) = m.resumed(reply);
            let id = m.job->0.id@;
            &&& m.stage is Inspecting && job_outcome(m.job->0, reply->dirs) is Ok
                && dependencies_from(texts(m.job->0.after@), reply->reports@, 0) == Ok::<
                DependencyModel,
                Seq<char>,
            >(DependencyModel::Waiting) ==> next.pending == m.pending.push(
                (PendingModel::Dependencies { id }),
            ) && next.next == m.next + 1 && next.waiting == m.waiting
            &&& m.stage is Probing && reply->ready is Ok ==> {
                &&& next.pending.len() == m.pending.len() + 1
                &&& next.pending.last() matches PendingModel::Conditions { id: named, wait_seconds }
                    && named == id && wait_seconds * 1_000_000_000 <= lasted(
                    m.started()->0,
                    reply->Probed_now,
                ) < (wait_seconds + 1) * 1_000_000_000
                &&& reply->ready == Ok::<bool, String>(true) ==> call is QueryStop && next.stage
                    is Confirming && next.job == m.job && next.idle_since == reply->Probed_now
                &&& reply->ready == Ok::<bool, String>(false) ==> next.next == m.next + 1
            }
        }),
{
}

/// A job runs with the time since which it has waited; once it ran it no longer waits,
/// and one whose launch was called off keeps its place.
pub proof fn runs_end_the_wait(m: WorkerModel, reply: WorkerReply, other: Seq<char>)
    requires
        m.well_formed(),
        m.expects(reply),
    ensures
        ({
            let (next, call) = m.resumed(reply);
            let id = m.job->0.id@;
            &&& call matches WorkerCallModel::Execute { started } ==> waiting_since(
                m.waiting,
                id,
                0,
            ) == Some(started) && m.stage is Announcing
            &&& m.stage is Executing && reply->Executed_outcome == Ok::<Option<bool>, String>(
                Some(true),
            ) ==> {
                &&& waiting_since(next.waiting, id, 0) is None
                &&& other != id ==> waiting_since(next.waiting, other, 0) == waiting_since(
                    m.waiting,
                    other,
                    0,
                )
                &&& call is QueryStop
            }
            &&& m.stage is Executing && reply->Executed_outcome == Ok::<Option<bool>, String>(None)
                ==> next.waiting == m.waiting && call is QueryStop
            &&& m.stage is Confirming && reply == (WorkerReply::Stop { stopped: true })
                ==> next.waiting == m.waiting && call is QueryStop && next.stage is StopCheck
        }),
{
    leaving_ends_one_wait(m.waiting, m.job->0.id@, other);
}

/// A job waits from the pass on which its dependencies were first met.
pub proof fn waits_begin_when_dependencies_are_met(m: WorkerModel, reply: WorkerReply)
    requires
        m.well_formed(),
        m.stage is Inspecting,
        m.expects(reply),
        job_outcome(m.job->0, reply->dirs) is Ok,
        dependencies_from(texts(m.job->0.after@), reply->reports@, 0) == Ok::<
            DependencyModel,
            Seq<char>,
        >(DependencyModel::Ready),
    ensures
        ({
            let (next, call) = m.resumed(reply);
            let id = m.job->0.id@;
            let since = match waiting_since(m.waiting, id, 0) {
                Some(t) => t,
                None => reply->Inspected_now,
            };
            &&& waiting_since(next.waiting, id, 0) == Some(since)
            &&& call is Fail <==> lasted(since, reply->Inspected_now)
                > m.job->0.max_wait_seconds * 1_000_000_000
            &&& !(call is Fail) && m.monitoring ==> call is Probe
            &&& !(call is Fail) && !m.monitoring ==> call is StartMonitor
        }),
{
    jobs_wait_from_when_they_first_did(
        m.waiting,
        m.job->0.id@,
        reply->Inspected_now,
        m.job->0.id@,
    );
}

/// A worker ends when it has rested for the seconds it was given, never before; without
/// such a limit it ends only when it is stopped or something fails.
pub proof fn workers_rest_before_they_end(m: WorkerModel, reply: WorkerReply)
    requires
        m.well_formed(),
        m.expects(reply),
    ensures
        ({
            let (next, call) = m.resumed(reply);
            &&& call is Finish ==> m.stage is Stopping || (m.idle_seconds is Some && (m.stage
                is Resting || m.stage is Modified))
            &&& m.stage is Resting && reply->Saved_outcome is Ok && m.pending.len() == 0 ==> {
                &&& !next.monitoring
                &&& next.idle_modified == Some(m.modified)
                &&& next.idle_since == m.idle_since
                &&& call is Finish <==> m.idle_seconds is Some && lasted(
                    m.idle_since,
                    reply->Saved_now,
                ) >= m.idle_seconds->0 * 1_000_000_000
                &&& !(call is Finish) ==> call is Sleep
            }
            &&& m.stage is Resting && reply->Saved_outcome is Ok && m.pending.len() > 0 ==> {
                &&& next.monitoring == m.monitoring
                &&& next.idle_modified is None
                &&& next.idle_since == reply->Saved_now
                &&& call is Finish <==> m.idle_seconds == Some(0u64)
            }
            &&& m.stage is Sleeping ==> call is QueryStop
            &&& next.idle_seconds == m.idle_seconds
        }),
{
}

/// Nothing is listed while the jobs are as they were when the worker last found nothing
/// to do; a change starts a new pass, with nothing pending.
pub proof fn unchanged_jobs_are_not_listed_again(m: WorkerModel, stamp: u64, now: u64)
    requires
        m.stage is Modified,
    ensures
        ({
            let (next, call) = m.resumed((WorkerReply::Modified { stamp: Ok(stamp), now }));
            &&& call is ListManifests <==> m.idle_modified != Some(stamp)
            &&& call is ListManifests ==> next.modified == stamp && next.pending.len() == 0
                && next.waiting == m.waiting
            &&& !(call is ListManifests) ==> call is Sleep || call is Finish
        }),
{
}

/// What cannot be read, saved, started or run ends the worker with its reason.
pub proof fn errors_end_the_worker(m: WorkerModel, e: String, now: u64)
    requires
        m.well_formed(),
    ensures
        ({
            let failure = (WorkerCallModel::Fail { error: e@ });
            &&& m.stage is Modified ==> m.resumed(
                (WorkerReply::Modified { stamp: Err(e), now }),
            ).1 == failure
            &&& m.stage is Listing ==> m.resumed((WorkerReply::Manifests { count: Err(e) })).1
                == failure
            &&& m.stage is StartingMonitor ==> m.resumed(
                (WorkerReply::Monitor { outcome: Err(e) }),
            ).1 == failure
            &&& m.stage is Probing ==> m.resumed((WorkerReply::Probed { ready: Err(e), now })).1
                == failure
            &&& m.stage is Announcing || m.stage is Resting || m.stage is Stopping ==> m.resumed(
                (WorkerReply::Saved { outcome: Err(e), now }),
            ).1 == failure
            &&& m.stage is Executing ==> m.resumed((WorkerReply::Executed { outcome: Err(e) })).1
                == failure
            &&& m.stage is Quarantining ==> m.resumed(
                (WorkerReply::Quarantined { outcome: Err(e) }),
            ).1 == failure
        }),
{
}

/// A job that is quarantined is the one at hand; the pass goes on with the next
/// manifest, or begins anew where it had run.
pub proof fn quarantines_are_of_the_job_at_hand(m: WorkerModel, reply: WorkerReply)
    requires
        m.well_formed(),
        m.expects(reply),
    ensures
        ({
            let (next, call) = m.resumed(reply);
            &&& call matches WorkerCallModel::Quarantine { index, .. } ==> {
                &&& m.idle_seconds is None
                &&& index is Some ==> index == Some(m.next) && (m.stage is Reading || m.stage
                    is Inspecting)
                &&& index is None <==> m.stage is Executing
                &&& next.next == m.next
            }
            &&& m.stage == (WorkerStage::Quarantining { next: Aftermath::NextManifest })
                && reply->Quarantined_outcome is Ok ==> next.next == m.next + 1 && next.waiting
                == m.waiting
            &&& m.stage == (WorkerStage::Quarantining { next: Aftermath::NextPass })
                && reply->Quarantined_outcome is Ok ==> call is QueryStop && waiting_since(
                next.waiting,
                m.job->0.id@,
                0,
            ) is None
        }),
{
    leaving_ends_one_wait(m.waiting, m.job->0.id@, m.job->0.id@);
}

} // verus!
