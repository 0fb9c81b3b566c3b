//! A census of the whole queue, before any job is selected: every manifest and
//! every result must fit, and the pending jobs must have an order.
use crate::json::{as_flag, at2, bool_of, json_model, member2, member_text, text_at, JsonModel};
use crate::queue::desk::{result_of, successful_result, ReportFile};
use crate::queue::job::{
    is_id, job_outcome, program_pins, valid_id, Directories, Job, Pin, Purpose,
};
use crate::text::{cat2, cat3, lower_text, lowered, opt_text, same, told};
use vstd::prelude::*;

verus! {

// ---------------------------------------------------------------------------
// Order
// ---------------------------------------------------------------------------

/// Whether the dependencies of a graph stay inside it.
pub open spec fn inside(deps: Seq<Seq<usize>>) -> bool {
    forall|i: int, k: int|
        0 <= i < deps.len() && 0 <= k < deps[i].len() ==> #[trigger] deps[i][k] < deps.len()
}

/// Whether a rank orders the jobs that are not completed: each dependency of one
/// of them is completed or has a lower rank.
pub open spec fn orders(deps: Seq<Seq<usize>>, completed: Seq<bool>, rank: spec_fn(int) -> nat) -> bool {
    forall|i: int, k: int|
        0 <= i < deps.len() && !completed[i] && 0 <= k < deps[i].len() ==> completed[(
        #[trigger] deps[i][k]) as int] || rank(deps[i][k] as int) < rank(i)
}

/// Whether the pending jobs can be run in some order.
pub open spec fn resolvable(deps: Seq<Seq<usize>>, completed: Seq<bool>) -> bool {
    exists|rank: spec_fn(int) -> nat| orders(deps, completed, rank)
}

pub open spec fn lists_of(deps: Seq<Vec<usize>>) -> Seq<Seq<usize>> {
    Seq::new(deps.len(), |i: int| deps[i]@)
}

pub open spec fn all_resolved(deps: Seq<usize>, resolved: Seq<bool>) -> bool {
    forall|k: int| 0 <= k < deps.len() ==> resolved[#[trigger] deps[k] as int]
}

fn are_resolved(deps: &Vec<usize>, resolved: &Vec<bool>) -> (r: bool)
    requires
        forall|k: int| 0 <= k < deps@.len() ==> #[trigger] deps@[k] < resolved@.len(),
    ensures
        r == all_resolved(deps@, resolved@),
{
    let mut k: usize = 0;
    while k < deps.len()
        invariant
            k <= deps@.len(),
            forall|j: int| 0 <= j < deps@.len() ==> #[trigger] deps@[j] < resolved@.len(),
            forall|j: int| 0 <= j < k ==> resolved@[#[trigger] deps@[j] as int],
        decreases deps@.len() - k,
    {
        if !resolved[deps[k]] {
            assert(!resolved@[deps@[k as int] as int]);
            return false;
        }
        k = k + 1;
    }
    true
}

/// The resolved jobs are ordered by when each was resolved.
pub open spec fn ordered_so_far(
    deps: Seq<Seq<usize>>,
    completed: Seq<bool>,
    resolved: Seq<bool>,
    rank: Map<int, nat>,
    clock: nat,
) -> bool {
    &&& forall|i: int| 0 <= i < completed.len() && completed[i] ==> #[trigger] resolved[i]
    &&& forall|i: int| rank.dom().contains(i) ==> #[trigger] rank[i] < clock
    &&& forall|i: int|
        0 <= i < deps.len() && #[trigger] resolved[i] && !completed[i] ==> rank.dom().contains(i)
    &&& forall|i: int, k: int|
        0 <= i < deps.len() && resolved[i] && !completed[i] && 0 <= k < deps[i].len()
            ==> completed[(#[trigger] deps[i][k]) as int] || (resolved[deps[i][k] as int]
            && rank[deps[i][k] as int] < rank[i])
}

/// A closed set holds every job of a graph that a rank orders.
proof fn closed_sets_are_complete(
    deps: Seq<Seq<usize>>,
    completed: Seq<bool>,
    resolved: Seq<bool>,
    rank: spec_fn(int) -> nat,
    i: int,
)
    requires
        completed.len() == deps.len(),
        resolved.len() == deps.len(),
        inside(deps),
        orders(deps, completed, rank),
        forall|j: int| 0 <= j < deps.len() && completed[j] ==> #[trigger] resolved[j],
        forall|j: int|
            0 <= j < deps.len() && !(#[trigger] resolved[j]) ==> !all_resolved(deps[j], resolved),
        0 <= i < deps.len(),
    ensures
        resolved[i],
    decreases rank(i),
{
    if !resolved[i] {
        assert(!all_resolved(deps[i], resolved));
        let k = choose|k: int| 0 <= k < deps[i].len() && !resolved[#[trigger] deps[i][k] as int];
        let j = deps[i][k] as int;
        assert(deps[i][k] < deps.len());
        assert(completed[j] || rank(j) < rank(i));
        if !completed[j] {
            closed_sets_are_complete(deps, completed, resolved, rank, j);
        }
        assert(resolved[j]);
    }
}

fn all_marked(marks: &Vec<bool>) -> (r: bool)
    ensures
        r == forall|i: int| 0 <= i < marks@.len() ==> #[trigger] marks@[i],
{
    let mut i: usize = 0;
    while i < marks.len()
        invariant
            i <= marks@.len(),
            forall|j: int| 0 <= j < i ==> #[trigger] marks@[j],
        decreases marks@.len() - i,
    {
        if !marks[i] {
            assert(!marks@[i as int]);
            return false;
        }
        i = i + 1;
    }
    true
}

/// Whether the pending jobs of a graph can be run in some order. Dependencies are
/// given by their place in the graph.
pub fn resolves(deps: &Vec<Vec<usize>>, completed: &Vec<bool>) -> (r: bool)
    requires
        completed@.len() == deps@.len(),
        inside(lists_of(deps@)),
    ensures
        r == resolvable(lists_of(deps@), completed@),
{
    let ghost graph = lists_of(deps@);
    let ghost mut rank: Map<int, nat> = Map::empty();
    let ghost mut clock: nat = 0;
    let mut resolved: Vec<bool> = Vec::new();
    while resolved.len() < completed.len()
        invariant
            resolved@.len() <= completed@.len(),
            resolved@ == completed@.take(resolved@.len() as int),
        decreases completed@.len() - resolved@.len(),
    {
        let next = completed[resolved.len()];
        resolved.push(next);
        assert(resolved@ =~= completed@.take(resolved@.len() as int));
    }
    assert(resolved@ =~= completed@);
    let mut grew = true;
    while grew
        invariant
            graph == lists_of(deps@),
            inside(graph),
            completed@.len() == deps@.len(),
            resolved@.len() == deps@.len(),
            ordered_so_far(graph, completed@, resolved@, rank, clock),
            !grew ==> forall|j: int|
                0 <= j < graph.len() && !(#[trigger] resolved@[j]) ==> !all_resolved(
                    graph[j],
                    resolved@,
                ),
        decreases
            crate::queue::processes::unmarked(resolved@),
            if grew {
                1nat
            } else {
                0
            },
    {
        grew = false;
        let ghost before = resolved@;
        let mut i: usize = 0;
        while i < deps.len()
            invariant
                i <= deps@.len(),
                graph == lists_of(deps@),
                inside(graph),
                completed@.len() == deps@.len(),
                resolved@.len() == deps@.len(),
                ordered_so_far(graph, completed@, resolved@, rank, clock),
                grew ==> crate::queue::processes::unmarked(resolved@)
                    < crate::queue::processes::unmarked(before),
                !grew ==> resolved@ == before,
                !grew ==> forall|j: int|
                    0 <= j < i && !(#[trigger] resolved@[j]) ==> !all_resolved(graph[j], resolved@),
            decreases deps@.len() - i,
        {
            assert(graph[i as int] == deps@[i as int]@);
            assert forall|k: int| 0 <= k < deps@[i as int]@.len() implies #[trigger] deps@[i as int]@[k]
                < resolved@.len() by {
                assert(graph[i as int][k] < graph.len());
            }
            if !resolved[i] && are_resolved(&deps[i], &resolved) {
                proof {
                    crate::queue::processes::marking_decreases(resolved@, i as int);
                    let next = resolved@.update(i as int, true);
                    let ranked = rank.insert(i as int, clock);
                    assert forall|x: int, k: int|
                        0 <= x < graph.len() && next[x] && !completed@[x] && 0 <= k < graph[x].len() implies completed@[(
                    #[trigger] graph[x][k]) as int] || (next[graph[x][k] as int] && ranked[graph[x][k] as int]
                        < ranked[x]) by {
                        let y = graph[x][k] as int;
                        assert(graph[x][k] < graph.len());
                        if x == i {
                            assert(resolved@[y]);
                            assert(y != i);
                            if !completed@[y] {
                                assert(rank.dom().contains(y));
                                assert(rank[y] < clock);
                            }
                        } else {
                            assert(resolved@[x]);
                            if !completed@[y] {
                                assert(resolved@[y] && rank[y] < rank[x]);
                                assert(y != i);
                            }
                        }
                    }
                    rank = ranked;
                    clock = clock + 1;
                }
                resolved.set(i, true);
                grew = true;
            }
            i = i + 1;
        }
    }
    let all = all_marked(&resolved);
    proof {
        if all {
            let order = |x: int| rank[x];
            assert(orders(graph, completed@, order)) by {
                assert forall|x: int, k: int|
                    0 <= x < graph.len() && !completed@[x] && 0 <= k < graph[x].len() implies completed@[(
                #[trigger] graph[x][k]) as int] || order(graph[x][k] as int) < order(x) by {
                    assert(resolved@[x]);
                }
            }
        } else {
            let i = choose|i: int| 0 <= i < resolved@.len() && !(#[trigger] resolved@[i]);
            if resolvable(graph, completed@) {
                let order = choose|order: spec_fn(int) -> nat| orders(graph, completed@, order);
                closed_sets_are_complete(graph, completed@, resolved@, order, i);
            }
        }
    }
    all
}

// ---------------------------------------------------------------------------
// Manifests and results
// ---------------------------------------------------------------------------

pub open spec fn identity_outcome(
    path: Seq<char>,
    stem: Option<Seq<char>>,
    schema: Seq<char>,
    id: Seq<char>,
    known: bool,
) -> Result<(), Seq<char>> {
    if schema != "rvllm.experiment_job.v1"@ || !is_id(id) || stem != Some(id) {
        Err("manifest filename/identity mismatch: "@ + path)
    } else if known {
        Err("duplicate job identity"@)
    } else {
        Ok(())
    }
}

/// Checks that a manifest's file bears its job's identity, which no other
/// manifest bears.
pub fn check_identity(path: &str, stem: &Option<String>, job: &Job, known: bool) -> (r: Result<
    (),
    String,
>)
    ensures
        told(r) == identity_outcome(path@, opt_text(*stem), job.schema@, job.id@, known),
{
    let named = match stem {
        Some(stem) => same(stem.as_str(), job.id.as_str()),
        None => false,
    };
    if !same(job.schema.as_str(), "rvllm.experiment_job.v1") || !valid_id(job.id.as_str())
        || !named {
        return Err(cat2("manifest filename/identity mismatch: ", path));
    }
    if known {
        return Err("duplicate job identity".to_owned());
    }
    Ok(())
}

/// A job in the census: which of its directories exist, its report, and whether
/// the manifest that was attempted is the one that is queued.
#[derive(Debug)]
pub struct CensusJob {
    pub job: Job,
    pub dirs: Directories,
    pub report: ReportFile,
    pub saved_matches: Result<bool, String>,
}

/// An entry of the results directory.
#[derive(Debug)]
pub struct ResultEntry {
    pub name: String,
    pub is_dir: bool,
}

pub open spec fn ids(jobs: Seq<CensusJob>) -> Seq<Seq<char>> {
    Seq::new(jobs.len(), |i: int| jobs[i].job.id@)
}

/// The place of a job by its identity, from `i` on.
pub open spec fn index_from(ids: Seq<Seq<char>>, id: Seq<char>, i: int) -> Option<int>
    decreases ids.len() - i,
{
    if i >= ids.len() {
        None
    } else if ids[i] == id {
        Some(i)
    } else {
        index_from(ids, id, i + 1)
    }
}

fn find_job(jobs: &Vec<CensusJob>, id: &str) -> (r: Option<usize>)
    ensures
        match r {
            Some(k) => k < jobs@.len() && index_from(ids(jobs@), id@, 0) == Some(k as int),
            None => index_from(ids(jobs@), id@, 0) is None,
        },
{
    let ghost all = ids(jobs@);
    let mut i: usize = 0;
    while i < jobs.len()
        invariant
            i <= jobs@.len(),
            all == ids(jobs@),
            index_from(all, id@, 0) == index_from(all, id@, i as int),
        decreases jobs@.len() - i,
    {
        assert(all[i as int] == jobs@[i as int].job.id@);
        if same(jobs[i].job.id.as_str(), id) {
            return Some(i);
        }
        i = i + 1;
    }
    None
}

/// The first result without a job or that is no directory, from `i` on.
pub open spec fn orphans_from(entries: Seq<ResultEntry>, ids: Seq<Seq<char>>, i: int) -> Result<
    (),
    Seq<char>,
>
    decreases entries.len() - i,
{
    if i >= entries.len() {
        Ok(())
    } else if !entries[i].is_dir || index_from(ids, entries[i].name@, 0) is None {
        Err("orphan or non-directory result "@ + entries[i].name@ + "; review required"@)
    } else {
        orphans_from(entries, ids, i + 1)
    }
}

fn check_results(entries: &Vec<ResultEntry>, jobs: &Vec<CensusJob>) -> (r: Result<(), String>)
    ensures
        told(r) == orphans_from(entries@, ids(jobs@), 0),
{
    let mut i: usize = 0;
    while i < entries.len()
        invariant
            i <= entries@.len(),
            orphans_from(entries@, ids(jobs@), 0) == orphans_from(entries@, ids(jobs@), i as int),
        decreases entries@.len() - i,
    {
        let name = entries[i].name.as_str();
        if !entries[i].is_dir || find_job(jobs, name).is_none() {
            return Err(cat3("orphan or non-directory result ", name, "; review required"));
        }
        i = i + 1;
    }
    Ok(())
}

pub open spec fn purpose_name(purpose: Purpose) -> Seq<char> {
    match purpose {
        Purpose::Timing => "timing"@,
        Purpose::ExploratoryTiming => "exploratory_timing"@,
        Purpose::Correctness => "correctness"@,
        Purpose::Preparation => "preparation"@,
    }
}

impl Purpose {
    /// The purpose as manifests and reports write it.
    pub fn name(self) -> (r: &'static str)
        ensures
            r@ == purpose_name(self),
    {
        match self {
            Purpose::Timing => "timing",
            Purpose::ExploratoryTiming => "exploratory_timing",
            Purpose::Correctness => "correctness",
            Purpose::Preparation => "preparation",
        }
    }
}

/// Whether a report follows its job's policy: the purpose, and a validation that
/// succeeded where the job has a validator.
pub open spec fn policy_kept(job: Job, report: JsonModel) -> bool {
    &&& text_at(report, "purpose"@) == Some(purpose_name(job.purpose))
    &&& job.validator is Some ==> match at2(report, "validation"@, "success"@) {
        Some(v) => bool_of(v) == Some(true),
        None => false,
    }
}

fn keeps_policy(job: &Job, report: &serde_json::Value) -> (r: bool)
    ensures
        r == policy_kept(*job, json_model(*report)),
{
    let purpose = match member_text(report, "purpose") {
        Some(text) => same(text, job.purpose.name()),
        None => false,
    };
    if !purpose {
        return false;
    }
    if job.validator.is_none() {
        return true;
    }
    match member2(report, "validation", "success") {
        Some(v) => match as_flag(v) {
            Some(b) => b,
            None => false,
        },
        None => false,
    }
}

/// Whether a job is completed; an error where its result or its manifest does not
/// fit.
pub open spec fn standing(entry: CensusJob) -> Result<bool, Seq<char>> {
    match result_of(entry.job.id@, entry.report) {
        Err(message) => Err(message),
        Ok(false) => match job_outcome(entry.job, entry.dirs) {
            Err(message) => Err(message),
            Ok(_) => Ok(false),
        },
        Ok(true) => if !policy_kept(entry.job, json_model(entry.report->Read_0)) {
            Err("result policy differs from manifest "@ + entry.job.id@)
        } else {
            match entry.saved_matches {
                Err(message) => Err(message@),
                Ok(same) => if !same {
                    Err("attempted manifest "@ + entry.job.id@ + " changed; no replay"@)
                } else {
                    Ok(true)
                },
            }
        },
    }
}

fn job_standing(entry: &CensusJob) -> (r: Result<bool, String>)
    ensures
        told(r) == standing(*entry),
{
    let id = entry.job.id.as_str();
    match successful_result(id, &entry.report) {
        Err(message) => {
            return Err(message);
        },
        Ok(found) => {
            if !found {
                return match entry.job.validate(entry.dirs) {
                    Err(message) => Err(message),
                    Ok(_) => Ok(false),
                };
            }
        },
    }
    match &entry.report {
        ReportFile::Read(report) => {
            if !keeps_policy(&entry.job, report) {
                return Err(cat2("result policy differs from manifest ", id));
            }
        },
        _ => {},
    }
    match &entry.saved_matches {
        Err(message) => Err(message.as_str().to_owned()),
        Ok(matches) => {
            if !*matches {
                return Err(cat3("attempted manifest ", id, " changed; no replay"));
            }
            Ok(true)
        },
    }
}

/// Whether every dependency of a job has a place in the census.
pub open spec fn all_known(ids: Seq<Seq<char>>, after: Seq<String>) -> bool {
    forall|k: int| 0 <= k < after.len() ==> index_from(ids, (#[trigger] after[k])@, 0) is Some
}

/// The places of a job's dependencies.
pub open spec fn places(ids: Seq<Seq<char>>, after: Seq<String>) -> Seq<usize> {
    Seq::new(after.len(), |k: int| index_from(ids, after[k]@, 0)->0 as usize)
}

fn dependency_places(jobs: &Vec<CensusJob>, after: &Vec<String>) -> (r: Option<Vec<usize>>)
    ensures
        match r {
            Some(list) => all_known(ids(jobs@), after@) && list@ == places(ids(jobs@), after@)
                && forall|k: int| 0 <= k < list@.len() ==> #[trigger] list@[k] < jobs@.len(),
            None => !all_known(ids(jobs@), after@),
        },
{
    let mut list: Vec<usize> = Vec::new();
    let mut i: usize = 0;
    while i < after.len()
        invariant
            i <= after@.len(),
            list@.len() == i,
            forall|k: int| 0 <= k < i ==> index_from(ids(jobs@), (#[trigger] after@[k])@, 0) is Some,
            forall|k: int|
                0 <= k < i ==> #[trigger] list@[k] == places(ids(jobs@), after@)[k] && list@[k]
                    < jobs@.len(),
        decreases after@.len() - i,
    {
        match find_job(jobs, after[i].as_str()) {
            Some(k) => {
                list.push(k);
            },
            None => {
                assert(index_from(ids(jobs@), after@[i as int]@, 0) is None);
                return None;
            },
        }
        i = i + 1;
    }
    assert(list@ =~= places(ids(jobs@), after@));
    Some(list)
}

/// Which jobs are completed, from `i` on: the first that does not fit, or lacks a
/// dependency, decides.
pub open spec fn standings_from(jobs: Seq<CensusJob>, i: int, done: Seq<bool>) -> Result<
    Seq<bool>,
    Seq<char>,
>
    decreases jobs.len() - i,
{
    if i >= jobs.len() {
        Ok(done)
    } else {
        match standing(jobs[i]) {
            Err(message) => Err(message),
            Ok(completed) => if !all_known(ids(jobs), jobs[i].job.after@) {
                Err("job "@ + jobs[i].job.id@ + " has a missing dependency"@)
            } else {
                standings_from(jobs, i + 1, done.push(completed))
            },
        }
    }
}

/// The dependencies of all jobs, by their places.
pub open spec fn graph_of(jobs: Seq<CensusJob>) -> Seq<Seq<usize>> {
    Seq::new(jobs.len(), |i: int| places(ids(jobs), jobs[i].job.after@))
}

/// The places of the jobs that are not completed, from `i` on.
pub open spec fn unfinished_from(completed: Seq<bool>, i: int) -> Seq<usize>
    decreases completed.len() - i,
{
    if i >= completed.len() {
        Seq::empty()
    } else if completed[i] {
        unfinished_from(completed, i + 1)
    } else {
        seq![i as usize] + unfinished_from(completed, i + 1)
    }
}

/// The pending jobs of a queue.
pub open spec fn census(jobs: Seq<CensusJob>, results: Seq<ResultEntry>) -> Result<
    Seq<usize>,
    Seq<char>,
> {
    match orphans_from(results, ids(jobs), 0) {
        Err(message) => Err(message),
        Ok(_) => match standings_from(jobs, 0, Seq::empty()) {
            Err(message) => Err(message),
            Ok(completed) => if !resolvable(graph_of(jobs), completed) {
                Err("cyclic pending dependencies; no trial started"@)
            } else {
                Ok(unfinished_from(completed, 0))
            },
        },
    }
}

pub open spec fn census_told(r: Result<Vec<usize>, String>) -> Result<Seq<usize>, Seq<char>> {
    match r {
        Ok(list) => Ok(list@),
        Err(e) => Err(e@),
    }
}

fn unfinished(completed: &Vec<bool>) -> (r: Vec<usize>)
    ensures
        r@ == unfinished_from(completed@, 0),
{
    let mut list: Vec<usize> = Vec::new();
    let mut i: usize = 0;
    assert(list@ + unfinished_from(completed@, 0) =~= unfinished_from(completed@, 0));
    while i < completed.len()
        invariant
            i <= completed@.len(),
            list@ + unfinished_from(completed@, i as int) == unfinished_from(completed@, 0),
        decreases completed@.len() - i,
    {
        let ghost rest = unfinished_from(completed@, i + 1);
        if !completed[i] {
            let ghost before = list@;
            list.push(i);
            assert(before + (seq![i] + rest) =~= list@ + rest);
        }
        i = i + 1;
    }
    assert(list@ + Seq::<usize>::empty() =~= list@);
    list
}

/// The places of the pending jobs, after a census of every manifest and every
/// result. The jobs come in the order of their identities.
pub fn pending_jobs(jobs: &Vec<CensusJob>, results: &Vec<ResultEntry>) -> (r: Result<
    Vec<usize>,
    String,
>)
    ensures
        census_told(r) == census(jobs@, results@),
{
    match check_results(results, jobs) {
        Ok(_) => {},
        Err(message) => {
            return Err(message);
        },
    }
    let mut completed: Vec<bool> = Vec::new();
    let mut graph: Vec<Vec<usize>> = Vec::new();
    let mut i: usize = 0;
    assert(completed@ =~= Seq::empty());
    while i < jobs.len()
        invariant
            i <= jobs@.len(),
            completed@.len() == i,
            graph@.len() == i,
            orphans_from(results@, ids(jobs@), 0) is Ok,
            standings_from(jobs@, 0, Seq::empty()) == standings_from(jobs@, i as int, completed@),
            forall|k: int|
                0 <= k < i ==> (#[trigger] graph@[k])@ == places(ids(jobs@), jobs@[k].job.after@),
            forall|k: int, j: int|
                0 <= k < i && 0 <= j < graph@[k]@.len() ==> #[trigger] graph@[k]@[j] < jobs@.len(),
        decreases jobs@.len() - i,
    {
        let done = match job_standing(&jobs[i]) {
            Ok(done) => done,
            Err(message) => {
                return Err(message);
            },
        };
        match dependency_places(jobs, &jobs[i].job.after) {
            Some(list) => {
                graph.push(list);
            },
            None => {
                return Err(cat3("job ", jobs[i].job.id.as_str(), " has a missing dependency"));
            },
        }
        completed.push(done);
        i = i + 1;
    }
    assert(lists_of(graph@) =~= graph_of(jobs@));
    if !resolves(&graph, &completed) {
        return Err("cyclic pending dependencies; no trial started".to_owned());
    }
    Ok(unfinished(&completed))
}

proof fn standings_extend(jobs: Seq<CensusJob>, i: int, done: Seq<bool>)
    requires
        0 <= i <= jobs.len(),
        done.len() == i,
        standings_from(jobs, i, done) is Ok,
    ensures
        standings_from(jobs, i, done)->Ok_0.len() == jobs.len(),
        standings_from(jobs, i, done)->Ok_0.take(i) == done,
        forall|k: int|
            i <= k < jobs.len() ==> standing(#[trigger] jobs[k]) == Ok::<bool, Seq<char>>(
                standings_from(jobs, i, done)->Ok_0[k],
            ),
    decreases jobs.len() - i,
{
    if i < jobs.len() {
        let next = done.push(standing(jobs[i])->Ok_0);
        standings_extend(jobs, i + 1, next);
        let all = standings_from(jobs, i, done)->Ok_0;
        assert(all.take(i + 1) == next);
        assert(all[i] == next[i]) by {
            assert(all.take(i + 1)[i] == next[i]);
        }
        assert(all.take(i) =~= done) by {
            assert forall|k: int| 0 <= k < i implies all[k] == done[k] by {
                assert(all.take(i + 1)[k] == next[k]);
            }
        }
    } else {
        assert(done.take(i) =~= done);
    }
}

proof fn unfinished_members(completed: Seq<bool>, i: int, k: usize)
    requires
        0 <= i <= completed.len(),
        completed.len() <= usize::MAX,
    ensures
        unfinished_from(completed, i).contains(k) == (i <= k < completed.len()
            && !completed[k as int]),
    decreases completed.len() - i,
{
    if i < completed.len() {
        unfinished_members(completed, i + 1, k);
        let rest = unfinished_from(completed, i + 1);
        if !completed[i] {
            let whole = seq![i as usize] + rest;
            assert(whole[0] == i as usize);
            if rest.contains(k) {
                let j = choose|j: int| 0 <= j < rest.len() && rest[j] == k;
                assert(whole[j + 1] == k);
            }
            if whole.contains(k) && k != i {
                let j = choose|j: int| 0 <= j < whole.len() && whole[j] == k;
                assert(rest[j - 1] == k);
            }
        }
    }
}

/// A census that is accepted hides nothing: a job is pending exactly where it has
/// no successful result of its own, every other job's result is one that its
/// manifest made, and the pending jobs can be run in an order that respects their
/// dependencies.
pub proof fn accepted_censuses_hide_nothing(jobs: Seq<CensusJob>, results: Seq<ResultEntry>, k: usize)
    requires
        census(jobs, results) is Ok,
        k < jobs.len() <= usize::MAX,
    ensures
        standing(jobs[k as int]) is Ok,
        census(jobs, results)->Ok_0.contains(k) == (standing(jobs[k as int])->Ok_0 == false),
        resolvable(graph_of(jobs), standings_from(jobs, 0, Seq::empty())->Ok_0),
{
    let completed = standings_from(jobs, 0, Seq::empty())->Ok_0;
    standings_extend(jobs, 0, Seq::empty());
    unfinished_members(completed, 0, k);
    assert(standing(jobs[k as int]) == Ok::<bool, Seq<char>>(completed[k as int]));
}

// ---------------------------------------------------------------------------
// Audit
// ---------------------------------------------------------------------------

/// Whether a file's digest is the one that is pinned.
pub open spec fn pin_matches(pin: Pin, digest: Result<String, String>) -> bool {
    match digest {
        Ok(hash) => hash@ == lowered(pin.sha256@),
        Err(_) => false,
    }
}

/// Which pins of a job's programs and inputs match the digests of their files.
pub fn audit_pins(job: &Job, digests: &Vec<Result<String, String>>) -> (r: Vec<bool>)
    requires
        digests@.len() == program_pins(*job).len(),
    ensures
        r@.len() == digests@.len(),
        forall|i: int|
            0 <= i < r@.len() ==> #[trigger] r@[i] == pin_matches(
                program_pins(*job)[i],
                digests@[i],
            ),
{
    let mut matches: Vec<bool> = Vec::new();
    let mut i: usize = 0;
    while i < digests.len()
        invariant
            i <= digests@.len(),
            digests@.len() == program_pins(*job).len(),
            matches@.len() == i,
            forall|k: int|
                0 <= k < i ==> #[trigger] matches@[k] == pin_matches(
                    program_pins(*job)[k],
                    digests@[k],
                ),
        decreases digests@.len() - i,
    {
        let pin = job.program_pin(i);
        let wanted = lower_text(pin.sha256.as_str());
        let found = match &digests[i] {
            Ok(hash) => same(hash.as_str(), wanted.as_str()),
            Err(_) => false,
        };
        matches.push(found);
        i = i + 1;
    }
    matches
}

} // verus!
