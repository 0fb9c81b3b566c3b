//! What a census of a queue's jobs finds.
use crate::json::{at2, bool_of, json_model, text_at};
use crate::queue::census::{
    all_known, identity_outcome, ids, index_from, orphans_from, pin_matches, places, purpose_name,
    standing, unfinished_from, CensusJob, ResultEntry,
};
use crate::queue::job::{is_id, job_outcome, Pin, Purpose};
use crate::text::lowered;
use vstd::prelude::*;

verus! {

proof fn found_at(ids: Seq<Seq<char>>, id: Seq<char>, i: int)
    requires
        0 <= i <= ids.len(),
    ensures
        match index_from(ids, id, i) {
            Some(k) => i <= k < ids.len() && ids[k] == id && forall|j: int|
                i <= j < k ==> #[trigger] ids[j] != id,
            None => forall|j: int| i <= j < ids.len() ==> #[trigger] ids[j] != id,
        },
    decreases ids.len() - i,
{
    if i < ids.len() && ids[i] != id {
        found_at(ids, id, i + 1);
    }
}

/// A job's place is that of the first of its name; a dependency's place is that of the
/// job that bears its name.
pub proof fn places_are_by_name(jobs: Seq<CensusJob>, after: Seq<String>, k: int)
    requires
        0 <= k < after.len(),
        jobs.len() <= usize::MAX,
        all_known(ids(jobs), after),
    ensures
        places(ids(jobs), after).len() == after.len(),
        places(ids(jobs), after)[k] < jobs.len(),
        jobs[places(ids(jobs), after)[k] as int].job.id@ == after[k]@,
{
    found_at(ids(jobs), after[k]@, 0);
    assert(index_from(ids(jobs), after[k]@, 0) is Some);
}

/// Every result lies in a directory of a job that the queue holds.
pub proof fn results_belong_to_jobs(entries: Seq<ResultEntry>, jobs: Seq<CensusJob>, i: int)
    requires
        0 <= i <= entries.len(),
    ensures
        orphans_from(entries, ids(jobs), i) is Ok <==> forall|k: int|
            i <= k < entries.len() ==> (#[trigger] entries[k]).is_dir && exists|j: int|
                0 <= j < jobs.len() && (#[trigger] jobs[j]).job.id@ == entries[k].name@,
    decreases entries.len() - i,
{
    if i < entries.len() {
        results_belong_to_jobs(entries, jobs, i + 1);
        found_at(ids(jobs), entries[i].name@, 0);
        if index_from(ids(jobs), entries[i].name@, 0) is Some {
            let j = index_from(ids(jobs), entries[i].name@, 0)->0;
            assert(jobs[j].job.id@ == entries[i].name@);
        } else {
            assert forall|j: int| 0 <= j < jobs.len() implies (#[trigger] jobs[j]).job.id@
                != entries[i].name@ by {
                assert(ids(jobs)[j] == jobs[j].job.id@);
            }
        }
        if orphans_from(entries, ids(jobs), i) is Ok {
            assert forall|k: int| i <= k < entries.len() implies (#[trigger] entries[k]).is_dir
                && exists|j: int|
                0 <= j < jobs.len() && (#[trigger] jobs[j]).job.id@ == entries[k].name@ by {
                if k > i {
                    assert(i + 1 <= k);
                }
            }
        }
    }
}

/// A job is finished where its report is of its own success, under its own purpose,
/// validated where it has a validator, and left by the manifest that is there now; one
/// without a report is unfinished where it is valid. Anything else is an error.
pub proof fn jobs_stand_by_their_report(entry: CensusJob)
    ensures
        standing(entry) == Ok::<bool, Seq<char>>(false) <==> entry.report is Absent && job_outcome(
            entry.job,
            entry.dirs,
        ) is Ok,
        standing(entry) == Ok::<bool, Seq<char>>(true) <==> {
            &&& entry.report is Read
            &&& ({
                let report = json_model(entry.report->Read_0);
                &&& text_at(report, "schema"@) == Some("rvllm.experiment_result.v1"@)
                &&& text_at(report, "id"@) == Some(entry.job.id@)
                &&& text_at(report, "status"@) == Some("succeeded"@)
                &&& text_at(report, "purpose"@) == Some(purpose_name(entry.job.purpose))
                &&& entry.job.validator is Some ==> at2(report, "validation"@, "success"@) is Some
                    && bool_of(at2(report, "validation"@, "success"@)->0) == Some(true)
            })
            &&& entry.saved_matches == Ok::<bool, String>(true)
        },
{
}

/// The purposes are told apart by their names.
pub proof fn purposes_have_their_names(purpose: Purpose)
    ensures
        purpose_name(purpose) == "timing"@ <==> purpose is Timing,
        purpose_name(purpose) == "exploratory_timing"@ <==> purpose is ExploratoryTiming,
        purpose_name(purpose) == "correctness"@ <==> purpose is Correctness,
        purpose_name(purpose) == "preparation"@ <==> purpose is Preparation,
{
    reveal_strlit("timing");
    reveal_strlit("exploratory_timing");
    reveal_strlit("correctness");
    reveal_strlit("preparation");
    assert("timing"@.len() == 6 && "exploratory_timing"@.len() == 18);
    assert("correctness"@.len() == 11 && "correctness"@[0] == 'c');
    assert("preparation"@.len() == 11 && "preparation"@[0] == 'p');
}

/// A manifest is of the job that its file is named after, once.
pub proof fn manifests_are_named_after_their_job(
    path: Seq<char>,
    stem: Option<Seq<char>>,
    schema: Seq<char>,
    id: Seq<char>,
    known: bool,
)
    ensures
        identity_outcome(path, stem, schema, id, known) is Ok <==> {
            &&& schema == "rvllm.experiment_job.v1"@
            &&& is_id(id)
            &&& stem == Some(id)
            &&& !known
        },
{
}

/// What a census finds pending is in the order of the jobs, each once.
pub proof fn pending_jobs_are_in_order(completed: Seq<bool>, i: int, a: int, b: int)
    requires
        0 <= i <= completed.len() <= usize::MAX,
        0 <= a < b < unfinished_from(completed, i).len(),
    ensures
        i <= unfinished_from(completed, i)[a] < unfinished_from(completed, i)[b],
        unfinished_from(completed, i)[b] < completed.len(),
        !completed[unfinished_from(completed, i)[a] as int],
        !completed[unfinished_from(completed, i)[b] as int],
    decreases completed.len() - i,
{
    unfinished_bounds(completed, i, a);
    unfinished_bounds(completed, i, b);
    if i < completed.len() {
        let rest = unfinished_from(completed, i + 1);
        if completed[i] {
            pending_jobs_are_in_order(completed, i + 1, a, b);
        } else if a > 0 {
            pending_jobs_are_in_order(completed, i + 1, a - 1, b - 1);
        } else {
            unfinished_bounds(completed, i + 1, b - 1);
        }
    }
}

proof fn unfinished_bounds(completed: Seq<bool>, i: int, a: int)
    requires
        0 <= i <= completed.len() <= usize::MAX,
        0 <= a < unfinished_from(completed, i).len(),
    ensures
        i <= unfinished_from(completed, i)[a] < completed.len(),
        !completed[unfinished_from(completed, i)[a] as int],
    decreases completed.len() - i,
{
    if i < completed.len() {
        if completed[i] {
            unfinished_bounds(completed, i + 1, a);
        } else if a > 0 {
            unfinished_bounds(completed, i + 1, a - 1);
        }
    }
}

/// A pin matches a file that could be read and has the digest pinned, in either case.
pub proof fn audited_pins_match_by_digest(pin: Pin, digest: Result<String, String>)
    ensures
        pin_matches(pin, digest) <==> digest is Ok && digest->Ok_0@ == lowered(pin.sha256@),
{
}

} // verus!
