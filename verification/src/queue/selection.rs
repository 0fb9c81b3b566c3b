//! The selection of a job from a census: the first pending job whose dependencies
//! are settled and whose conditions hold.
use crate::queue::job::Job;
use crate::queue::worker::{
    elapsed_nanos, enter_waiting, joined_by, lasted, pendings, waiting_since, waits, Pending,
    PendingModel, SECOND,
};
use crate::text::cat3;
use vstd::prelude::*;

verus! {

/// What was seen of a pending job: whether its dependencies are ready, and
/// whether its conditions hold. Times are in nanoseconds.
#[derive(Debug)]
pub struct Sample {
    pub dependencies: Result<bool, String>,
    pub now: u64,
    pub conditions: Result<bool, String>,
    pub observed: u64,
}

/// A selection: the jobs that wait, those that are pending, and the place of the
/// selected one.
pub struct SelectionModel {
    pub waiting: Seq<(Seq<char>, u64)>,
    pub pending: Seq<PendingModel>,
    pub selected: Option<usize>,
}

/// The selection from the job at `i` on.
pub open spec fn selection_from(
    jobs: Seq<Job>,
    samples: Seq<Sample>,
    i: int,
    waiting: Seq<(Seq<char>, u64)>,
    pending: Seq<PendingModel>,
) -> Result<SelectionModel, Seq<char>>
    decreases jobs.len() - i,
{
    if i >= jobs.len() || i >= samples.len() {
        Ok(SelectionModel { waiting, pending, selected: None })
    } else {
        let id = jobs[i].id@;
        match samples[i].dependencies {
            Err(message) => Err(message@),
            Ok(false) => selection_from(
                jobs,
                samples,
                i + 1,
                waiting,
                pending.push(PendingModel::Dependencies { id }),
            ),
            Ok(true) => {
                let entered = joined_by(waiting, id, samples[i].now);
                let started = waiting_since(entered, id, 0)->0;
                if lasted(started, samples[i].now) > jobs[i].max_wait_seconds * SECOND {
                    Err("job "@ + id + " expired waiting for conditions; no trial started"@)
                } else {
                    match samples[i].conditions {
                        Err(message) => Err(message@),
                        Ok(hold) => {
                            let noted = pending.push(
                                PendingModel::Conditions {
                                    id,
                                    wait_seconds: (lasted(started, samples[i].observed)
                                        / SECOND as nat) as u64,
                                },
                            );
                            if hold {
                                Ok(
                                    SelectionModel {
                                        waiting: entered,
                                        pending: noted,
                                        selected: Some(i as usize),
                                    },
                                )
                            } else {
                                selection_from(jobs, samples, i + 1, entered, noted)
                            }
                        },
                    }
                }
            },
        }
    }
}

/// Selects the first pending job that is ready, and tells which are not. The
/// waiting jobs keep their times over several selections.
pub fn select(jobs: &Vec<Job>, samples: &Vec<Sample>, waiting: &mut Vec<(String, u64)>) -> (r: Result<
    (Option<usize>, Vec<Pending>),
    String,
>)
    requires
        samples@.len() == jobs@.len(),
    ensures
        match r {
            Ok(found) => selection_from(jobs@, samples@, 0, waits(old(waiting)@), Seq::empty())
                == Ok::<SelectionModel, Seq<char>>(
                SelectionModel {
                    waiting: waits(final(waiting)@),
                    pending: pendings(found.1@),
                    selected: found.0,
                },
            ),
            Err(e) => selection_from(jobs@, samples@, 0, waits(old(waiting)@), Seq::empty())
                == Err::<SelectionModel, Seq<char>>(e@),
        },
{
    let ghost start = waits(waiting@);
    let mut pending: Vec<Pending> = Vec::new();
    let mut i: usize = 0;
    assert(pendings(pending@) =~= Seq::empty());
    while i < jobs.len()
        invariant
            i <= jobs@.len() == samples@.len(),
            start == waits(old(waiting)@),
            selection_from(jobs@, samples@, 0, start, Seq::empty()) == selection_from(
                jobs@,
                samples@,
                i as int,
                waits(waiting@),
                pendings(pending@),
            ),
        decreases jobs@.len() - i,
    {
        let id = jobs[i].id.as_str();
        let sample = &samples[i];
        match &sample.dependencies {
            Err(message) => {
                return Err(message.as_str().to_owned());
            },
            Ok(ready) => {
                if !*ready {
                    let ghost before = pending@;
                    pending.push(Pending::Dependencies { id: id.to_owned() });
                    assert(pendings(pending@) =~= pendings(before).push(
                        PendingModel::Dependencies { id: id@ },
                    ));
                    i = i + 1;
                    continue ;
                }
            },
        }
        let started: u64 = enter_waiting(waiting, id, sample.now);
        let waited: u64 = elapsed_nanos(started, sample.now);
        if waited / SECOND > jobs[i].max_wait_seconds || (waited / SECOND
            == jobs[i].max_wait_seconds && waited % SECOND > 0) {
            return Err(cat3("job ", id, " expired waiting for conditions; no trial started"));
        }
        match &sample.conditions {
            Err(message) => {
                return Err(message.as_str().to_owned());
            },
            Ok(hold) => {
                let wait_seconds: u64 = elapsed_nanos(started, sample.observed) / SECOND;
                let ghost before = pending@;
                pending.push(Pending::Conditions { id: id.to_owned(), wait_seconds });
                assert(pendings(pending@) =~= pendings(before).push(
                    PendingModel::Conditions { id: id@, wait_seconds },
                ));
                if *hold {
                    return Ok((Some(i), pending));
                }
            },
        }
        i = i + 1;
    }
    Ok((None, pending))
}

/// A selected job is one whose dependencies are ready and whose conditions hold.
pub proof fn selected_jobs_are_ready(
    jobs: Seq<Job>,
    samples: Seq<Sample>,
    i: int,
    waiting: Seq<(Seq<char>, u64)>,
    pending: Seq<PendingModel>,
)
    requires
        0 <= i,
        jobs.len() <= usize::MAX,
        selection_from(jobs, samples, i, waiting, pending) is Ok,
        selection_from(jobs, samples, i, waiting, pending)->Ok_0.selected is Some,
    ensures
        ({
            let k = selection_from(jobs, samples, i, waiting, pending)->Ok_0.selected->0;
            &&& i <= k < jobs.len()
            &&& k < samples.len()
            &&& samples[k as int].dependencies == Ok::<bool, String>(true)
            &&& samples[k as int].conditions == Ok::<bool, String>(true)
        }),
    decreases jobs.len() - i,
{
    if i < jobs.len() && i < samples.len() {
        let id = jobs[i].id@;
        match samples[i].dependencies {
            Ok(false) => {
                selected_jobs_are_ready(
                    jobs,
                    samples,
                    i + 1,
                    waiting,
                    pending.push(PendingModel::Dependencies { id }),
                );
            },
            Ok(true) => {
                let entered = joined_by(waiting, id, samples[i].now);
                let started = waiting_since(entered, id, 0)->0;
                let noted = pending.push(
                    PendingModel::Conditions {
                        id,
                        wait_seconds: (lasted(started, samples[i].observed) / SECOND as nat) as u64,
                    },
                );
                if samples[i].conditions == Ok::<bool, String>(false) {
                    selected_jobs_are_ready(jobs, samples, i + 1, entered, noted);
                }
            },
            _ => {},
        }
    }
}

} // verus!
