//! The summary of completed stage microbenchmark jobs: their evidence, the
//! processes seen while they ran, and their timings grouped by case.
use crate::json::{
    array_of, at, copy_value, elements, integer_at, is_null, json_model, member, member_integer,
    models, JsonModel,
};
use crate::mlx::queue_summary::{
    non_null, push_sample_controls, push_unique_stratum, strata_of,
};
use crate::mlx::stage_identity::{
    boolean, boolean_at, identity_of, identity_told, object_at, object_field, parse_job_identity,
    string, string_at, unsigned, unsigned_at, IdentityModel, JobIdentity,
};
use crate::mlx::stage_receipt::{
    parsed_models, receipt_of, validate_receipt, KeyModel, ParsedCase, ParsedModel,
};
use crate::order::{
    before_irreflexive, before_total, before_transitive, comes_before, text_before,
};
use crate::text::{
    cat2, cat4, cat5, decimal, decimal_text, lines, lines_of, same, texts, told, trim_text, trimmed,
};
use vstd::prelude::*;

verus! {

/// What a summary claims.
pub const SUMMARY_CLAIM: &'static str = "Validated isolated MLX operator timings only; not end-to-end inference, framework comparison, or promotion evidence.";

// ---------------------------------------------------------------------------
// Observed processes
// ---------------------------------------------------------------------------

/// The names of the first processes of a sample.
pub open spec fn process_names(items: Seq<JsonModel>, i: int, names: Seq<Seq<char>>) -> Result<
    Seq<Seq<char>>,
    Seq<char>,
>
    decreases items.len() - i,
{
    if i >= items.len() {
        Ok(names)
    } else {
        match string_at(items[i], "name"@) {
            Err(message) => Err(message),
            Ok(name) => if name.len() == 0 {
                Err("invalid observed process identity"@)
            } else {
                match unsigned_at(items[i], "pid"@) {
                    Err(message) => Err(message),
                    Ok(pid) => if pid == 0 {
                        Err("invalid observed process identity"@)
                    } else {
                        process_names(items, i + 1, names.push(name))
                    },
                }
            },
        }
    }
}

/// The processes that a sample observed; a sample without the member observed
/// none.
pub open spec fn sample_names(sample: JsonModel) -> Result<Seq<Seq<char>>, Seq<char>> {
    match at(sample, "observed_processes"@) {
        None => Ok(Seq::empty()),
        Some(value) => match array_of(value) {
            None => Err("observed_processes is not an array"@),
            Some(items) => process_names(items, 0, Seq::empty()),
        },
    }
}

pub open spec fn names_told(r: Result<Vec<String>, String>) -> Result<Seq<Seq<char>>, Seq<char>> {
    match r {
        Ok(names) => Ok(texts(names@)),
        Err(e) => Err(e@),
    }
}

pub fn observed_names(sample: &serde_json::Value) -> (r: Result<Vec<String>, String>)
    ensures
        names_told(r) == sample_names(json_model(*sample)),
{
    let mut names: Vec<String> = Vec::new();
    assert(texts(names@) =~= Seq::empty());
    let value = match member(sample, "observed_processes") {
        None => {
            return Ok(names);
        },
        Some(value) => value,
    };
    let items = match elements(value) {
        None => {
            return Err("observed_processes is not an array".to_owned());
        },
        Some(items) => items,
    };
    let ghost all = models(items@);
    let mut i: usize = 0;
    while i < items.len()
        invariant
            i <= items@.len(),
            all == models(items@),
            sample_names(json_model(*sample)) == process_names(all, i as int, texts(names@)),
        decreases items@.len() - i,
    {
        assert(all[i as int] == json_model(items@[i as int]));
        let name = match string(&items[i], "name") {
            Ok(name) => name,
            Err(message) => {
                return Err(message);
            },
        };
        if name.is_empty() {
            return Err("invalid observed process identity".to_owned());
        }
        let pid: u64 = match unsigned(&items[i], "pid") {
            Ok(pid) => pid,
            Err(message) => {
                return Err(message);
            },
        };
        if pid == 0 {
            return Err("invalid observed process identity".to_owned());
        }
        let ghost before = names@;
        names.push(name.to_owned());
        assert(texts(names@) =~= texts(before).push(name@));
        i = i + 1;
    }
    Ok(names)
}

/// How often a name occurs among the first of a sample.
pub open spec fn instances(names: Seq<Seq<char>>, name: Seq<char>, count: int) -> nat
    decreases count,
{
    if count <= 0 {
        0
    } else {
        instances(names, name, count - 1) + if names[count - 1] == name {
            1nat
        } else {
            0nat
        }
    }
}

pub open spec fn instances_in(names: Seq<Seq<char>>, name: Seq<char>) -> nat {
    instances(names, name, names.len() as int)
}

/// In how many of the first samples a name occurs.
pub open spec fn samples_with(samples: Seq<Seq<Seq<char>>>, name: Seq<char>, count: int) -> nat
    decreases count,
{
    if count <= 0 {
        0
    } else {
        samples_with(samples, name, count - 1) + if instances_in(samples[count - 1], name) > 0 {
            1nat
        } else {
            0nat
        }
    }
}

/// The most instances of a name in one of the first samples.
pub open spec fn most_instances(samples: Seq<Seq<Seq<char>>>, name: Seq<char>, count: int) -> nat
    decreases count,
{
    if count <= 0 {
        0
    } else {
        let before = most_instances(samples, name, count - 1);
        let here = instances_in(samples[count - 1], name);
        if here > before {
            here
        } else {
            before
        }
    }
}

/// How many of the first samples observed a process.
pub open spec fn busy_samples(samples: Seq<Seq<Seq<char>>>, count: int) -> nat
    decreases count,
{
    if count <= 0 {
        0
    } else {
        busy_samples(samples, count - 1) + if samples[count - 1].len() > 0 {
            1nat
        } else {
            0nat
        }
    }
}

/// A process that samples observed.
#[derive(Debug)]
pub struct ObservedProcess {
    pub name: String,
    pub sample_count: u64,
    pub max_instances: u64,
}

/// The activity that a conditions journal records.
#[derive(Debug)]
pub struct Activity {
    pub samples: usize,
    pub samples_with_processes: usize,
    pub processes: Vec<ObservedProcess>,
}

/// Every process of the samples once, by name in ascending order, with its
/// counts.
pub open spec fn tallies(processes: Seq<ObservedProcess>, samples: Seq<Seq<Seq<char>>>) -> bool {
    &&& forall|i: int, j: int|
        0 <= i < j < processes.len() ==> text_before(
            (#[trigger] processes[i]).name@,
            (#[trigger] processes[j]).name@,
        )
    &&& forall|i: int|
        0 <= i < processes.len() ==> {
            let p = #[trigger] processes[i];
            &&& p.sample_count == samples_with(samples, p.name@, samples.len() as int)
            &&& p.max_instances == most_instances(samples, p.name@, samples.len() as int)
            &&& p.sample_count > 0
        }
    &&& forall|name: Seq<char>|
        samples_with(samples, name, samples.len() as int) > 0 ==> exists|i: int|
            0 <= i < processes.len() && #[trigger] processes[i].name@ == name
}

fn count_name(names: &Vec<String>, name: &str) -> (r: u64)
    ensures
        r == instances_in(texts(names@), name@),
        r <= names@.len(),
{
    let ghost all = texts(names@);
    let mut count: u64 = 0;
    let mut i: usize = 0;
    while i < names.len()
        invariant
            i <= names@.len(),
            all == texts(names@),
            count == instances(all, name@, i as int),
            count <= i,
        decreases names@.len() - i,
    {
        assert(all[i as int] == names@[i as int]@);
        if same(names[i].as_str(), name) {
            count = count + 1;
        }
        i = i + 1;
    }
    count
}

proof fn instances_positive(names: Seq<Seq<char>>, name: Seq<char>, count: int)
    requires
        0 <= count <= names.len(),
    ensures
        instances(names, name, count) > 0 <==> exists|i: int|
            0 <= i < count && #[trigger] names[i] == name,
    decreases count,
{
    if count > 0 {
        instances_positive(names, name, count - 1);
        if names[count - 1] == name {
            assert(names[count - 1] == name);
        }
    }
}

proof fn prefix_counts(samples: Seq<Seq<Seq<char>>>, more: Seq<Seq<char>>, name: Seq<char>, count: int)
    requires
        0 <= count <= samples.len(),
    ensures
        samples_with(samples.push(more), name, count) == samples_with(samples, name, count),
        most_instances(samples.push(more), name, count) == most_instances(samples, name, count),
        busy_samples(samples.push(more), count) == busy_samples(samples, count),
    decreases count,
{
    if count > 0 {
        prefix_counts(samples, more, name, count - 1);
        assert(samples.push(more)[count - 1] == samples[count - 1]);
    }
}

proof fn most_bounds_with(samples: Seq<Seq<Seq<char>>>, name: Seq<char>, count: int)
    requires
        0 <= count <= samples.len(),
    ensures
        samples_with(samples, name, count) <= count,
        samples_with(samples, name, count) == 0 ==> most_instances(samples, name, count) == 0,
    decreases count,
{
    if count > 0 {
        most_bounds_with(samples, name, count - 1);
    }
}

/// Every known process with its counts over the samples, without regard to
/// order.
spec fn tallied(processes: Seq<ObservedProcess>, samples: Seq<Seq<Seq<char>>>) -> bool {
    &&& forall|i: int|
        0 <= i < processes.len() ==> {
            let p = #[trigger] processes[i];
            &&& p.sample_count == samples_with(samples, p.name@, samples.len() as int)
            &&& p.max_instances == most_instances(samples, p.name@, samples.len() as int)
        }
}

spec fn ordered(processes: Seq<ObservedProcess>) -> bool {
    forall|i: int, j: int|
        0 <= i < j < processes.len() ==> text_before(
            (#[trigger] processes[i]).name@,
            (#[trigger] processes[j]).name@,
        )
}

spec fn knows(processes: Seq<ObservedProcess>, name: Seq<char>) -> bool {
    exists|i: int| 0 <= i < processes.len() && #[trigger] processes[i].name@ == name
}

/// Adds a process of no samples yet, in its place, unless it is known.
fn know_process(processes: &mut Vec<ObservedProcess>, name: &str, Ghost(samples): Ghost<
    Seq<Seq<Seq<char>>>,
>)
    requires
        ordered(old(processes)@),
        tallied(old(processes)@, samples),
        knows(old(processes)@, name@) || samples_with(samples, name@, samples.len() as int) == 0,
    ensures
        ordered(final(processes)@),
        tallied(final(processes)@, samples),
        forall|other: Seq<char>|
            knows(final(processes)@, other) <==> knows(old(processes)@, other) || other == name@,
{
    let mut i: usize = 0;
    while i < processes.len() && comes_before(processes[i].name.as_str(), name)
        invariant
            i <= processes@.len(),
            processes@ == old(processes)@,
            forall|j: int| 0 <= j < i ==> text_before((#[trigger] processes@[j]).name@, name@),
        decreases processes@.len() - i,
    {
        i = i + 1;
    }
    if i < processes.len() && same(processes[i].name.as_str(), name) {
        assert(processes@[i as int].name@ == name@);
        return;
    }
    let ghost before = processes@;
    proof {
        if knows(before, name@) {
            let k = choose|k: int| 0 <= k < before.len() && #[trigger] before[k].name@ == name@;
            if k < i {
                assert(text_before(before[k].name@, name@));
                before_irreflexive(name@, 0);
            } else if k > i {
                assert(text_before(before[i as int].name@, before[k].name@));
            }
        }
        assert(!knows(before, name@));
        most_bounds_with(samples, name@, samples.len() as int);
        assert forall|j: int| i <= j < before.len() implies text_before(
            name@,
            (#[trigger] before[j]).name@,
        ) by {
            assert(before[j].name@ != name@);
            if j == i {
                before_total(name@, before[j].name@, 0);
            } else {
                before_total(name@, before[i as int].name@, 0);
                assert(before[i as int].name@ != name@);
                assert(text_before(before[i as int].name@, before[j].name@));
                before_transitive(name@, before[i as int].name@, before[j].name@, 0);
            }
        }
    }
    processes.insert(
        i,
        ObservedProcess { name: name.to_owned(), sample_count: 0, max_instances: 0 },
    );
    proof {
        let after = processes@;
        let fresh = after[i as int];
        assert forall|a: int, b: int| 0 <= a < b < after.len() implies text_before(
            (#[trigger] after[a]).name@,
            (#[trigger] after[b]).name@,
        ) by {
            let x = if a < i {
                a
            } else {
                a - 1
            };
            let y = if b < i {
                b
            } else {
                b - 1
            };
            if a != i {
                assert(after[a] == before[x]);
            }
            if b != i {
                assert(after[b] == before[y]);
            }
        }
        assert forall|k: int| 0 <= k < after.len() implies {
            let p = #[trigger] after[k];
            &&& p.sample_count == samples_with(samples, p.name@, samples.len() as int)
            &&& p.max_instances == most_instances(samples, p.name@, samples.len() as int)
        } by {
            if k < i {
                assert(after[k] == before[k]);
            } else if k > i {
                assert(after[k] == before[k - 1]);
            }
        }
        assert forall|other: Seq<char>| knows(after, other) <==> knows(before, other) || other
            == name@ by {
            if knows(before, other) {
                let k = choose|k: int| 0 <= k < before.len() && #[trigger] before[k].name@ == other;
                if k < i {
                    assert(after[k].name@ == other);
                } else {
                    assert(after[k + 1].name@ == other);
                }
            }
            if other == name@ {
                assert(after[i as int].name@ == other);
            }
            if knows(after, other) && other != name@ {
                let k = choose|k: int| 0 <= k < after.len() && #[trigger] after[k].name@ == other;
                if k < i {
                    assert(before[k].name@ == other);
                } else {
                    assert(before[k - 1].name@ == other);
                }
            }
        }
    }
}

/// Counts one more sample.
fn tally_sample(
    processes: &mut Vec<ObservedProcess>,
    names: &Vec<String>,
    Ghost(samples): Ghost<Seq<Seq<Seq<char>>>>,
)
    requires
        ordered(old(processes)@),
        tallied(old(processes)@, samples),
        samples.len() < u64::MAX,
        forall|name: Seq<char>|
            samples_with(samples, name, samples.len() as int) > 0 ==> knows(old(processes)@, name),
    ensures
        ordered(final(processes)@),
        tallied(final(processes)@, samples.push(texts(names@))),
        forall|name: Seq<char>|
            samples_with(samples.push(texts(names@)), name, samples.len() as int + 1) > 0
                ==> #[trigger] knows(final(processes)@, name),
        forall|name: Seq<char>| #[trigger]
            knows(final(processes)@, name) ==> knows(old(processes)@, name) || instances_in(
                texts(names@),
                name,
            ) > 0,
{
    let ghost known = processes@;
    let ghost all = texts(names@);
    let mut i: usize = 0;
    while i < names.len()
        invariant
            i <= names@.len(),
            all == texts(names@),
            ordered(processes@),
            tallied(processes@, samples),
            forall|name: Seq<char>|
                samples_with(samples, name, samples.len() as int) > 0 ==> knows(known, name),
            forall|name: Seq<char>| #[trigger]
                knows(processes@, name) <==> knows(known, name) || instances(all, name, i as int)
                    > 0,
        decreases names@.len() - i,
    {
        assert(all[i as int] == names@[i as int]@);
        know_process(processes, names[i].as_str(), Ghost(samples));
        i = i + 1;
    }
    let ghost grown = processes@;
    let ghost more = samples.push(all);
    let mut k: usize = 0;
    while k < processes.len()
        invariant
            k <= processes@.len(),
            all == texts(names@),
            processes@.len() == grown.len(),
            ordered(processes@),
            more == samples.push(all),
            samples.len() < u64::MAX,
            tallied(grown, samples),
            forall|j: int| 0 <= j < grown.len() ==> (#[trigger] processes@[j]).name == grown[j].name,
            forall|j: int| k <= j < grown.len() ==> #[trigger] processes@[j] == grown[j],
            forall|j: int|
                0 <= j < k ==> {
                    let p = #[trigger] processes@[j];
                    &&& p.sample_count == samples_with(more, p.name@, more.len() as int)
                    &&& p.max_instances == most_instances(more, p.name@, more.len() as int)
                },
        decreases processes@.len() - k,
    {
        let here: u64 = count_name(names, processes[k].name.as_str());
        let ghost before = processes@;
        proof {
            let name = before[k as int].name@;
            assert(before[k as int] == grown[k as int]);
            prefix_counts(samples, all, name, samples.len() as int);
            most_bounds_with(samples, name, samples.len() as int);
            assert(more[samples.len() as int] == all);
        }
        let name = processes[k].name.clone();
        let mut sample_count: u64 = processes[k].sample_count;
        let mut max_instances: u64 = processes[k].max_instances;
        if here > 0 {
            sample_count = sample_count + 1;
        }
        if here > max_instances {
            max_instances = here;
        }
        processes.set(k, ObservedProcess { name, sample_count, max_instances });
        proof {
            assert forall|a: int, b: int| 0 <= a < b < processes@.len() implies text_before(
                (#[trigger] processes@[a]).name@,
                (#[trigger] processes@[b]).name@,
            ) by {
                assert(processes@[a].name == before[a].name);
                assert(processes@[b].name == before[b].name);
            }
            assert forall|j: int| 0 <= j < grown.len() implies (#[trigger] processes@[j]).name
                == grown[j].name by {
                assert(before[j].name == grown[j].name);
            }
        }
        k = k + 1;
    }
    proof {
        assert forall|name: Seq<char>| #[trigger]
            knows(processes@, name) <==> knows(grown, name) by {
            if knows(processes@, name) {
                let j = choose|j: int|
                    0 <= j < processes@.len() && #[trigger] processes@[j].name@ == name;
                assert(grown[j].name@ == name);
            }
            if knows(grown, name) {
                let j = choose|j: int| 0 <= j < grown.len() && #[trigger] grown[j].name@ == name;
                assert(processes@[j].name@ == name);
            }
        }
        assert forall|name: Seq<char>|
            samples_with(more, name, samples.len() as int + 1) > 0 implies #[trigger] knows(
            processes@,
            name,
        ) by {
            prefix_counts(samples, all, name, samples.len() as int);
            assert(more[samples.len() as int] == all);
            assert(knows(grown, name));
        }
    }
}

/// The names of the samples of a journal's lines, from `i` on, after those
/// already read. Each line was read as a document, or failed to.
pub open spec fn journal_from(
    path: Seq<char>,
    text: Seq<Seq<char>>,
    documents: Seq<Result<JsonModel, Seq<char>>>,
    i: int,
    samples: Seq<Seq<Seq<char>>>,
) -> Result<Seq<Seq<Seq<char>>>, Seq<char>>
    decreases text.len() - i,
{
    if i >= text.len() {
        if samples.len() == 0 {
            Err("conditions journal contains no samples"@)
        } else {
            Ok(samples)
        }
    } else if trimmed(text[i]).len() == 0 {
        Err(path + " line "@ + decimal((i + 1) as nat) + " is blank"@)
    } else {
        match documents[i] {
            Err(message) => Err(path + " line "@ + decimal((i + 1) as nat) + ": "@ + message),
            Ok(document) => match sample_names(document) {
                Err(message) => Err(message),
                Ok(names) => journal_from(path, text, documents, i + 1, samples.push(names)),
            },
        }
    }
}

pub open spec fn documents_of(documents: Seq<Result<serde_json::Value, String>>) -> Seq<
    Result<JsonModel, Seq<char>>,
> {
    Seq::new(documents.len(), |i: int| crate::json::parsed(documents[i]))
}

/// Reads a conditions journal: `documents` holds what each line reads as.
pub fn parse_conditions(
    path: &str,
    text: &str,
    documents: &Vec<Result<serde_json::Value, String>>,
) -> (r: Result<Activity, String>)
    requires
        documents@.len() == lines(text@).len(),
        documents@.len() < u64::MAX,
    ensures
        match (
            journal_from(path@, lines(text@), documents_of(documents@), 0, Seq::empty()),
            r,
        ) {
            (Ok(samples), Ok(activity)) => {
                &&& activity.samples == samples.len()
                &&& activity.samples_with_processes == busy_samples(samples, samples.len() as int)
                &&& tallies(activity.processes@, samples)
            },
            (Err(message), Err(e)) => e@ == message,
            _ => false,
        },
{
    let rows = lines_of(text);
    let ghost all = lines(text@);
    let ghost docs = documents_of(documents@);
    let ghost mut samples: Seq<Seq<Seq<char>>> = Seq::empty();
    let mut count: usize = 0;
    let mut busy: usize = 0;
    let mut processes: Vec<ObservedProcess> = Vec::new();
    let mut i: usize = 0;
    while i < rows.len()
        invariant
            i <= rows@.len(),
            all == lines(text@),
            all == texts(rows@),
            docs == documents_of(documents@),
            documents@.len() == rows@.len(),
            documents@.len() < u64::MAX,
            journal_from(path@, all, docs, 0, Seq::empty()) == journal_from(
                path@,
                all,
                docs,
                i as int,
                samples,
            ),
            count == samples.len(),
            samples.len() == i,
            busy == busy_samples(samples, samples.len() as int),
            busy <= i,
            ordered(processes@),
            tallied(processes@, samples),
            forall|name: Seq<char>|
                samples_with(samples, name, samples.len() as int) > 0 ==> #[trigger] knows(
                    processes@,
                    name,
                ),
            forall|k: int| 0 <= k < processes@.len() ==> (#[trigger] processes@[k]).sample_count > 0,
        decreases rows@.len() - i,
    {
        assert(all[i as int] == rows@[i as int]@);
        let line = trim_text(rows[i].as_str());
        if line.as_str().is_empty() {
            let number = decimal_text(i as u64 + 1);
            return Err(cat4(path, " line ", number.as_str(), " is blank"));
        }
        assert(docs[i as int] == crate::json::parsed(documents@[i as int]));
        match &documents[i] {
            Err(message) => {
                let number = decimal_text(i as u64 + 1);
                return Err(cat5(path, " line ", number.as_str(), ": ", message.as_str()));
            },
            Ok(document) => {
                match observed_names(document) {
                    Err(message) => {
                        return Err(message);
                    },
                    Ok(names) => {
                        let ghost before = processes@;
                        tally_sample(&mut processes, &names, Ghost(samples));
                        if names.len() > 0 {
                            busy = busy + 1;
                        }
                        count = count + 1;
                        proof {
                            let next = samples.push(texts(names@));
                            prefix_counts(
                                samples,
                                texts(names@),
                                Seq::empty(),
                                samples.len() as int,
                            );
                            assert(next[samples.len() as int] == texts(names@));
                            assert forall|k: int| 0 <= k < processes@.len() implies (
                            #[trigger] processes@[k]).sample_count > 0 by {
                                let name = processes@[k].name@;
                                assert(knows(processes@, name));
                                prefix_counts(samples, texts(names@), name, samples.len() as int);
                                if knows(before, name) {
                                    let j = choose|j: int|
                                        0 <= j < before.len() && #[trigger] before[j].name@ == name;
                                    assert(before[j].sample_count > 0);
                                }
                            }
                            samples = next;
                        }
                    },
                }
            },
        }
        i = i + 1;
    }
    if count == 0 {
        return Err("conditions journal contains no samples".to_owned());
    }
    proof {
        assert forall|name: Seq<char>|
            samples_with(samples, name, samples.len() as int) > 0 implies exists|k: int|
            0 <= k < processes@.len() && #[trigger] processes@[k].name@ == name by {
            assert(knows(processes@, name));
        }
    }
    Ok(Activity { samples: count, samples_with_processes: busy, processes })
}

// ---------------------------------------------------------------------------
// Jobs
// ---------------------------------------------------------------------------

/// The evidence of one job.
#[derive(Debug)]
pub struct QueueEvidence {
    pub id: String,
    pub directory: String,
    pub weight_bits: u64,
    pub model: String,
    pub lengths: Vec<u64>,
    pub sampled_conditions_eligible: bool,
    pub sampled_controls_eligible: bool,
    pub comparison_stratum: Option<serde_json::Value>,
    pub observed_strata: Vec<serde_json::Value>,
    pub activity: Activity,
}

/// What a job's report must say: its identity and a successful end.
pub open spec fn report_outcome(report: JsonModel, id: Seq<char>) -> Result<(), Seq<char>> {
    match string_at(report, "id"@) {
        Err(message) => Err(message),
        Ok(found) => if found != id {
            Err("report/job identity mismatch: "@ + found + " != "@ + id)
        } else {
            match string_at(report, "status"@) {
                Err(message) => Err(message),
                Ok(status) => if status != "succeeded"@ || integer_at(report, "exit_code"@) != Some(
                    0i64,
                ) {
                    Err(id + " is not a terminal successful queue result"@)
                } else {
                    Ok(())
                },
            }
        },
    }
}

pub fn check_report(report: &serde_json::Value, id: &str) -> (r: Result<(), String>)
    ensures
        told(r) == report_outcome(json_model(*report), id@),
{
    let found = match string(report, "id") {
        Ok(text) => text,
        Err(message) => {
            return Err(message);
        },
    };
    if !same(found, id) {
        return Err(cat4("report/job identity mismatch: ", found, " != ", id));
    }
    let status = match string(report, "status") {
        Ok(text) => text,
        Err(message) => {
            return Err(message);
        },
    };
    let clean = match member_integer(report, "exit_code") {
        Some(code) => code == 0,
        None => false,
    };
    if !same(status, "succeeded") || !clean {
        return Err(cat2(id, " is not a terminal successful queue result"));
    }
    Ok(())
}

/// The identity of a job in its directory: `name` is the directory's own name.
pub open spec fn placed_identity(job: JsonModel, directory: Seq<char>, name: Option<Seq<char>>) -> Result<
    IdentityModel,
    Seq<char>,
> {
    match identity_of(job) {
        Err(message) => Err(message),
        Ok(identity) => match name {
            None => Err("non-UTF-8 job directory: "@ + directory),
            Some(name) => if name != identity.id {
                Err("directory/job identity mismatch: "@ + name + " != "@ + identity.id)
            } else {
                Ok(identity)
            },
        },
    }
}

pub fn identify_job(job: &serde_json::Value, directory: &str, name: Option<&str>) -> (r: Result<
    JobIdentity,
    String,
>)
    ensures
        identity_told(r) == placed_identity(
            json_model(*job),
            directory@,
            crate::json::opt_str(name),
        ),
{
    let identity = match parse_job_identity(job) {
        Ok(identity) => identity,
        Err(message) => {
            return Err(message);
        },
    };
    match name {
        None => Err(cat2("non-UTF-8 job directory: ", directory)),
        Some(name) => {
            if !same(name, identity.id.as_str()) {
                return Err(
                    cat4(
                        "directory/job identity mismatch: ",
                        name,
                        " != ",
                        identity.id.as_str(),
                    ),
                );
            }
            Ok(identity)
        },
    }
}

/// The conditions that a report records of its measurement.
#[derive(Debug)]
pub struct Conditions {
    pub sampled_conditions_eligible: bool,
    pub sampled_controls_eligible: bool,
    pub comparison_stratum: Option<serde_json::Value>,
    pub observed_strata: Vec<serde_json::Value>,
}

pub open spec fn conditions_outcome(report: JsonModel) -> Result<(bool, bool), Seq<char>> {
    match object_at(report, "measurement"@) {
        Err(message) => Err(message),
        Ok(measurement) => match boolean_at(report, "sampled_conditions_eligible"@) {
            Err(message) => Err(message),
            Ok(a) => match boolean_at(measurement, "sampled_controls_eligible"@) {
                Err(message) => Err(message),
                Ok(b) => Ok((a, b)),
            },
        },
    }
}

/// Reads the conditions of a report's measurement.
pub fn measured_conditions(report: &serde_json::Value) -> (r: Result<Conditions, String>)
    ensures
        match (conditions_outcome(json_model(*report)), r) {
            (Ok(flags), Ok(found)) => {
                let m = object_at(json_model(*report), "measurement"@)->Ok_0;
                &&& found.sampled_conditions_eligible == flags.0
                &&& found.sampled_controls_eligible == flags.1
                &&& models(found.observed_strata@) == strata_of(
                    Seq::empty(),
                    at(m, "comparison_stratum"@),
                    at(m, "start_host"@),
                    at(m, "end_host"@),
                    at(m, "power_samples"@),
                )
                &&& match found.comparison_stratum {
                    Some(value) => non_null(at(m, "comparison_stratum"@)) == Some(
                        json_model(value),
                    ),
                    None => non_null(at(m, "comparison_stratum"@)) is None,
                }
            },
            (Err(message), Err(e)) => e@ == message,
            _ => false,
        },
{
    let measurement = match object_field(report, "measurement") {
        Ok(measurement) => measurement,
        Err(message) => {
            return Err(message);
        },
    };
    let mut observed_strata: Vec<serde_json::Value> = Vec::new();
    assert(models(observed_strata@) =~= Seq::empty());
    let comparison = member(measurement, "comparison_stratum");
    push_unique_stratum(&mut observed_strata, comparison);
    push_unique_stratum(&mut observed_strata, member(measurement, "start_host"));
    push_unique_stratum(&mut observed_strata, member(measurement, "end_host"));
    push_sample_controls(&mut observed_strata, member(measurement, "power_samples"));
    let comparison_stratum = match comparison {
        Some(value) => {
            if is_null(value) {
                None
            } else {
                Some(copy_value(value))
            }
        },
        None => None,
    };
    let sampled_conditions_eligible = match boolean(report, "sampled_conditions_eligible") {
        Ok(flag) => flag,
        Err(message) => {
            return Err(message);
        },
    };
    let sampled_controls_eligible = match boolean(measurement, "sampled_controls_eligible") {
        Ok(flag) => flag,
        Err(message) => {
            return Err(message);
        },
    };
    Ok(
        Conditions {
            sampled_conditions_eligible,
            sampled_controls_eligible,
            comparison_stratum,
            observed_strata,
        },
    )
}

/// The lines of a conditions journal, with what each reads as.
#[derive(Debug)]
pub struct Journal {
    pub text: String,
    pub documents: Vec<Result<serde_json::Value, String>>,
}

/// One document for each line.
pub open spec fn journal_fits(journal: Result<Journal, String>) -> bool {
    match journal {
        Ok(j) => j.documents@.len() == lines(j.text@).len() && j.documents@.len() < u64::MAX,
        Err(_) => true,
    }
}

/// What a job's files say, where all of them are valid.
pub struct StageModel {
    pub identity: IdentityModel,
    pub cases: Seq<ParsedModel>,
    pub iterations: u64,
    pub samples: Seq<Seq<Seq<char>>>,
    pub sampled_conditions_eligible: bool,
    pub sampled_controls_eligible: bool,
}

/// What a job's directory holds, or the first fault: the job, its report, the
/// receipt, the journal and the conditions, in this order.
pub open spec fn stage_outcome(
    directory: Seq<char>,
    name: Option<Seq<char>>,
    job: Result<JsonModel, Seq<char>>,
    report: Result<JsonModel, Seq<char>>,
    receipt: Result<JsonModel, Seq<char>>,
    agrees: Seq<bool>,
    journal_path: Seq<char>,
    journal: Result<Journal, String>,
) -> Result<StageModel, Seq<char>> {
    match job {
        Err(message) => Err(message),
        Ok(job) => match placed_identity(job, directory, name) {
            Err(message) => Err(message),
            Ok(identity) => match report {
                Err(message) => Err(message),
                Ok(report) => match report_outcome(report, identity.id) {
                    Err(message) => Err(message),
                    Ok(_) => match receipt {
                        Err(message) => Err(message),
                        Ok(receipt) => match receipt_of(receipt, identity, agrees) {
                            Err(message) => Err(message),
                            Ok((cases, iterations)) => match journal {
                                Err(message) => Err(message@),
                                Ok(journal) => match journal_from(
                                    journal_path,
                                    lines(journal.text@),
                                    documents_of(journal.documents@),
                                    0,
                                    Seq::empty(),
                                ) {
                                    Err(message) => Err(message),
                                    Ok(samples) => match conditions_outcome(report) {
                                        Err(message) => Err(message),
                                        Ok((a, b)) => Ok(
                                            StageModel {
                                                identity,
                                                cases,
                                                iterations,
                                                samples,
                                                sampled_conditions_eligible: a,
                                                sampled_controls_eligible: b,
                                            },
                                        ),
                                    },
                                },
                            },
                        },
                    },
                },
            },
        },
    }
}

/// The evidence agrees with what the files say.
pub open spec fn evidences(evidence: QueueEvidence, stage: StageModel, directory: Seq<char>) -> bool {
    &&& evidence.id@ == stage.identity.id
    &&& evidence.directory@ == directory
    &&& evidence.weight_bits == stage.identity.bits
    &&& evidence.model@ == stage.identity.model
    &&& evidence.lengths@ == stage.identity.lengths
    &&& evidence.sampled_conditions_eligible == stage.sampled_conditions_eligible
    &&& evidence.sampled_controls_eligible == stage.sampled_controls_eligible
    &&& evidence.activity.samples == stage.samples.len()
    &&& evidence.activity.samples_with_processes == busy_samples(
        stage.samples,
        stage.samples.len() as int,
    )
    &&& tallies(evidence.activity.processes@, stage.samples)
}

/// The strata of the evidence are those of the report's measurement.
pub open spec fn strata_agree(evidence: QueueEvidence, report: JsonModel) -> bool {
    let m = object_at(report, "measurement"@)->Ok_0;
    &&& models(evidence.observed_strata@) == strata_of(
        Seq::empty(),
        at(m, "comparison_stratum"@),
        at(m, "start_host"@),
        at(m, "end_host"@),
        at(m, "power_samples"@),
    )
    &&& match evidence.comparison_stratum {
        Some(value) => non_null(at(m, "comparison_stratum"@)) == Some(json_model(value)),
        None => non_null(at(m, "comparison_stratum"@)) is None,
    }
}

/// A job's evidence, its measured cases and their iterations.
#[derive(Debug)]
pub struct StageJob {
    pub evidence: QueueEvidence,
    pub cases: Vec<ParsedCase>,
    pub iterations: u64,
}

/// Summarises one job's directory from what its files read as.
pub fn summarize_stage_job(
    directory: &str,
    name: Option<&str>,
    job: &Result<serde_json::Value, String>,
    report: &Result<serde_json::Value, String>,
    receipt: &Result<serde_json::Value, String>,
    agrees: &Vec<bool>,
    journal_path: &str,
    journal: &Result<Journal, String>,
) -> (r: Result<StageJob, String>)
    requires
        journal_fits(*journal),
    ensures
        match (
            stage_outcome(
                directory@,
                crate::json::opt_str(name),
                crate::json::parsed(*job),
                crate::json::parsed(*report),
                crate::json::parsed(*receipt),
                agrees@,
                journal_path@,
                *journal,
            ),
            r,
        ) {
            (Ok(stage), Ok(found)) => {
                &&& evidences(found.evidence, stage, directory@)
                &&& strata_agree(found.evidence, crate::json::parsed(*report)->Ok_0)
                &&& parsed_models(found.cases@) == stage.cases
                &&& found.iterations == stage.iterations
            },
            (Err(message), Err(e)) => e@ == message,
            _ => false,
        },
{
    let job = match job {
        Ok(value) => value,
        Err(message) => {
            return Err(message.clone());
        },
    };
    let identity = match identify_job(job, directory, name) {
        Ok(identity) => identity,
        Err(message) => {
            return Err(message);
        },
    };
    let report = match report {
        Ok(value) => value,
        Err(message) => {
            return Err(message.clone());
        },
    };
    match check_report(report, identity.id.as_str()) {
        Ok(_) => {},
        Err(message) => {
            return Err(message);
        },
    }
    let receipt = match receipt {
        Ok(value) => value,
        Err(message) => {
            return Err(message.clone());
        },
    };
    let measured = match validate_receipt(receipt, &identity, agrees) {
        Ok(measured) => measured,
        Err(message) => {
            return Err(message);
        },
    };
    let journal = match journal {
        Ok(journal) => journal,
        Err(message) => {
            return Err(message.clone());
        },
    };
    let activity = match parse_conditions(
        journal_path,
        journal.text.as_str(),
        &journal.documents,
    ) {
        Ok(activity) => activity,
        Err(message) => {
            return Err(message);
        },
    };
    let conditions = match measured_conditions(report) {
        Ok(conditions) => conditions,
        Err(message) => {
            return Err(message);
        },
    };
    Ok(
        StageJob {
            evidence: QueueEvidence {
                id: identity.id,
                directory: directory.to_owned(),
                weight_bits: identity.bits,
                model: identity.model,
                lengths: identity.lengths,
                sampled_conditions_eligible: conditions.sampled_conditions_eligible,
                sampled_controls_eligible: conditions.sampled_controls_eligible,
                comparison_stratum: conditions.comparison_stratum,
                observed_strata: conditions.observed_strata,
                activity,
            },
            cases: measured.0,
            iterations: measured.1,
        },
    )
}

// ---------------------------------------------------------------------------
// Grouping
// ---------------------------------------------------------------------------

/// A timing in the summary, under its weight bits and case.
#[derive(Debug)]
pub struct GroupedTiming {
    pub bits: u64,
    pub length: u64,
    pub mode: String,
    pub category: String,
    pub variant: String,
    pub total_ms: u64,
    pub mean_ms: u64,
    pub iterations: u64,
    pub job_id: String,
}

pub struct GroupKey {
    pub bits: u64,
    pub length: u64,
    pub mode: Seq<char>,
    pub category: Seq<char>,
    pub variant: Seq<char>,
}

pub struct TimingModel {
    pub key: GroupKey,
    pub total_ms: u64,
    pub mean_ms: u64,
    pub iterations: u64,
    pub job_id: Seq<char>,
}

pub open spec fn timing_model(t: GroupedTiming) -> TimingModel {
    TimingModel {
        key: GroupKey {
            bits: t.bits,
            length: t.length,
            mode: t.mode@,
            category: t.category@,
            variant: t.variant@,
        },
        total_ms: t.total_ms,
        mean_ms: t.mean_ms,
        iterations: t.iterations,
        job_id: t.job_id@,
    }
}

pub open spec fn timing_models(v: Seq<GroupedTiming>) -> Seq<TimingModel> {
    Seq::new(v.len(), |i: int| timing_model(v[i]))
}

/// Where a case is grouped; a case without a variant stands under `none`.
pub open spec fn group_key(bits: u64, key: KeyModel) -> GroupKey {
    GroupKey {
        bits,
        length: key.length,
        mode: key.mode,
        category: key.category,
        variant: match key.variant {
            Some(variant) => variant,
            None => "none"@,
        },
    }
}

pub open spec fn grouped_already(grouped: Seq<TimingModel>, key: GroupKey) -> bool {
    exists|i: int| 0 <= i < grouped.len() && (#[trigger] grouped[i]).key == key
}

/// The grouping after the cases from `i` on; a case that is already there is
/// refused.
pub open spec fn grouped_from(
    grouped: Seq<TimingModel>,
    bits: u64,
    id: Seq<char>,
    cases: Seq<ParsedModel>,
    iterations: u64,
    i: int,
) -> Result<Seq<TimingModel>, Seq<char>>
    decreases cases.len() - i,
{
    if i >= cases.len() {
        Ok(grouped)
    } else if grouped_already(grouped, group_key(bits, cases[i].key)) {
        Err("duplicate grouped case across jobs for "@ + id)
    } else {
        grouped_from(
            grouped.push(
                TimingModel {
                    key: group_key(bits, cases[i].key),
                    total_ms: cases[i].total_ms,
                    mean_ms: cases[i].mean_ms,
                    iterations,
                    job_id: id,
                },
            ),
            bits,
            id,
            cases,
            iterations,
            i + 1,
        )
    }
}

fn holds_group(
    grouped: &Vec<GroupedTiming>,
    bits: u64,
    length: u64,
    mode: &str,
    category: &str,
    variant: &str,
) -> (r: bool)
    ensures
        r == grouped_already(
            timing_models(grouped@),
            GroupKey { bits, length, mode: mode@, category: category@, variant: variant@ },
        ),
{
    let ghost all = timing_models(grouped@);
    let ghost key = GroupKey {
        bits,
        length,
        mode: mode@,
        category: category@,
        variant: variant@,
    };
    let mut i: usize = 0;
    while i < grouped.len()
        invariant
            i <= grouped@.len(),
            all == timing_models(grouped@),
            key == (GroupKey { bits, length, mode: mode@, category: category@, variant: variant@ }),
            forall|j: int| 0 <= j < i ==> (#[trigger] all[j]).key != key,
        decreases grouped@.len() - i,
    {
        let t = &grouped[i];
        assert(all[i as int] == timing_model(*t));
        if t.bits == bits && t.length == length && same(t.mode.as_str(), mode) && same(
            t.category.as_str(),
            category,
        ) && same(t.variant.as_str(), variant) {
            assert(all[i as int].key == key);
            return true;
        }
        assert(all[i as int].key != key);
        i = i + 1;
    }
    false
}

/// Adds a job's cases to the grouping.
pub fn group_cases(
    grouped: &mut Vec<GroupedTiming>,
    bits: u64,
    id: &str,
    cases: &Vec<ParsedCase>,
    iterations: u64,
) -> (r: Result<(), String>)
    ensures
        match r {
            Ok(_) => grouped_from(
                timing_models(old(grouped)@),
                bits,
                id@,
                parsed_models(cases@),
                iterations,
                0,
            ) == Ok::<Seq<TimingModel>, Seq<char>>(timing_models(final(grouped)@)),
            Err(e) => grouped_from(
                timing_models(old(grouped)@),
                bits,
                id@,
                parsed_models(cases@),
                iterations,
                0,
            ) == Err::<Seq<TimingModel>, Seq<char>>(e@),
        },
{
    let ghost start = timing_models(grouped@);
    let ghost all = parsed_models(cases@);
    let mut i: usize = 0;
    while i < cases.len()
        invariant
            i <= cases@.len(),
            all == parsed_models(cases@),
            start == timing_models(old(grouped)@),
            grouped_from(start, bits, id@, all, iterations, 0) == grouped_from(
                timing_models(grouped@),
                bits,
                id@,
                all,
                iterations,
                i as int,
            ),
        decreases cases@.len() - i,
    {
        let case = &cases[i];
        assert(all[i as int].key == case.key@);
        let variant = match &case.key.variant {
            Some(variant) => variant.clone(),
            None => "none".to_owned(),
        };
        let ghost key = group_key(bits, case.key@);
        if holds_group(
            grouped,
            bits,
            case.key.length,
            case.key.mode.as_str(),
            case.key.category.as_str(),
            variant.as_str(),
        ) {
            return Err(cat2("duplicate grouped case across jobs for ", id));
        }
        let ghost before = grouped@;
        let timing = GroupedTiming {
            bits,
            length: case.key.length,
            mode: case.key.mode.clone(),
            category: case.key.category.clone(),
            variant,
            total_ms: case.total_ms,
            mean_ms: case.mean_ms,
            iterations,
            job_id: id.to_owned(),
        };
        let ghost model = timing_model(timing);
        grouped.push(timing);
        assert(timing_models(grouped@) =~= timing_models(before).push(model));
        i = i + 1;
    }
    Ok(())
}

/// A grouping that is accepted holds each case of each weight size once.
pub proof fn grouping_has_no_repeats(
    grouped: Seq<TimingModel>,
    bits: u64,
    id: Seq<char>,
    cases: Seq<ParsedModel>,
    iterations: u64,
    i: int,
)
    requires
        grouped_from(grouped, bits, id, cases, iterations, i) is Ok,
        forall|a: int, b: int| 0 <= a < b < grouped.len() ==> grouped[a].key != grouped[b].key,
    ensures
        ({
            let after = grouped_from(grouped, bits, id, cases, iterations, i)->Ok_0;
            forall|a: int, b: int| 0 <= a < b < after.len() ==> after[a].key != after[b].key
        }),
    decreases cases.len() - i,
{
    if i < cases.len() {
        let key = group_key(bits, cases[i].key);
        let next = grouped.push(
            TimingModel {
                key,
                total_ms: cases[i].total_ms,
                mean_ms: cases[i].mean_ms,
                iterations,
                job_id: id,
            },
        );
        assert forall|a: int, b: int| 0 <= a < b < next.len() implies next[a].key
            != next[b].key by {
            if b == grouped.len() {
                assert(next[a] == grouped[a]);
                if grouped[a].key == key {
                    assert(grouped_already(grouped, key));
                }
            }
        }
        grouping_has_no_repeats(next, bits, id, cases, iterations, i + 1);
    }
}

} // verus!
