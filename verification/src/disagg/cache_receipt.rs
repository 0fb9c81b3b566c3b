//! The receipt and the driver journal of one cache preparation or inspection:
//! identity, bounds, the graphs visited, and complete graph lifecycles.
use crate::json::{
    array_at, bool_at, json_bytes_document, json_document, json_model, member_array, member_flag,
    member_natural, member_text, models, natural_at, parse_bytes, parse_text, text_at, JsonModel,
};
use crate::order::{
    ascending, insert_text, listing, listing_of_ascending, listings_are_unique,
};
use crate::text::{
    cat2, cat3, chars_of, decimal, decimal_text, has_prefix, lines, lines_of, same, texts, told,
};
use vstd::prelude::*;

verus! {

/// What the receipt of one part claims.
pub const VISIT_CLAIM: &'static str = "Per-entry availability only; cache entries can later be evicted. This is not full residency or numerical qualification.";

// ---------------------------------------------------------------------------
// Identity and bounds
// ---------------------------------------------------------------------------

pub open spec fn receipt_number(report: JsonModel, key: Seq<char>) -> Result<u64, Seq<char>> {
    match natural_at(report, key) {
        Some(n) => Ok(n),
        None => Err("missing cache receipt field "@ + key),
    }
}

pub fn unsigned(report: &serde_json::Value, key: &str) -> (r: Result<u64, String>)
    ensures
        told(r) == receipt_number(json_model(*report), key@),
{
    match member_natural(report, key) {
        Some(n) => Ok(n),
        None => Err(cat2("missing cache receipt field ", key)),
    }
}

/// What a receipt must be of.
#[derive(Debug)]
pub struct PartIdentity {
    pub model: String,
    pub capacity: usize,
    pub part: String,
    pub count: usize,
    pub inspect: bool,
}

pub struct PartModel {
    pub model: Seq<char>,
    pub capacity: usize,
    pub part: Seq<char>,
    pub count: usize,
    pub inspect: bool,
}

impl View for PartIdentity {
    type V = PartModel;

    open spec fn view(&self) -> PartModel {
        PartModel {
            model: self.model@,
            capacity: self.capacity,
            part: self.part@,
            count: self.count,
            inspect: self.inspect,
        }
    }
}

pub open spec fn identity_message() -> Seq<char> {
    "cache child receipt identity or work mismatch"@
}

pub open spec fn receipt_schema(inspect: bool) -> Seq<char> {
    if inspect {
        "rvllm.ane_cache_inspection.v1"@
    } else {
        "rvllm.ane_cache_provision.v1"@
    }
}

pub open spec fn receipt_policy(inspect: bool) -> Seq<char> {
    if inspect {
        "require-existing"@
    } else {
        "bounded-reuse-or-compile"@
    }
}

/// The compiler calls that a part allows: none when it is inspected, one for
/// each graph when it is prepared.
pub open spec fn allowed_compiles(p: PartModel) -> nat {
    if p.inspect {
        0
    } else {
        p.count as nat
    }
}

/// The receipt is of this part, and did no other work.
pub open spec fn receipt_identity(report: JsonModel, p: PartModel) -> Result<(), Seq<char>> {
    if text_at(report, "schema"@) != Some(receipt_schema(p.inspect)) || text_at(report, "part"@)
        != Some(p.part) || text_at(report, "model_dir"@) != Some(p.model) {
        Err(identity_message())
    } else {
        match receipt_number(report, "global_context_capacity"@) {
            Err(message) => Err(message),
            Ok(capacity) => if capacity != p.capacity {
                Err(identity_message())
            } else {
                match receipt_number(report, "inference_evaluations"@) {
                    Err(message) => Err(message),
                    Ok(evaluations) => if evaluations != 0 || text_at(report, "cache_policy"@)
                        != Some(receipt_policy(p.inspect)) {
                        Err(identity_message())
                    } else {
                        match receipt_number(report, "maximum_explicit_compiles"@) {
                            Err(message) => Err(message),
                            Ok(limit) => if limit != allowed_compiles(p) {
                                Err(identity_message())
                            } else {
                                Ok(())
                            },
                        }
                    },
                }
            },
        }
    }
}

fn text_is(report: &serde_json::Value, key: &str, text: &str) -> (r: bool)
    ensures
        r == (text_at(json_model(*report), key@) == Some(text@)),
{
    match member_text(report, key) {
        Some(found) => same(found, text),
        None => false,
    }
}

fn check_identity(report: &serde_json::Value, p: &PartIdentity) -> (r: Result<(), String>)
    ensures
        told(r) == receipt_identity(json_model(*report), p@),
{
    let schema = if p.inspect {
        "rvllm.ane_cache_inspection.v1"
    } else {
        "rvllm.ane_cache_provision.v1"
    };
    let policy = if p.inspect {
        "require-existing"
    } else {
        "bounded-reuse-or-compile"
    };
    if !text_is(report, "schema", schema) || !text_is(report, "part", p.part.as_str()) || !text_is(
        report,
        "model_dir",
        p.model.as_str(),
    ) {
        return Err("cache child receipt identity or work mismatch".to_owned());
    }
    let capacity: u64 = match unsigned(report, "global_context_capacity") {
        Ok(n) => n,
        Err(message) => {
            return Err(message);
        },
    };
    if capacity != p.capacity as u64 {
        return Err("cache child receipt identity or work mismatch".to_owned());
    }
    let evaluations: u64 = match unsigned(report, "inference_evaluations") {
        Ok(n) => n,
        Err(message) => {
            return Err(message);
        },
    };
    if evaluations != 0 || !text_is(report, "cache_policy", policy) {
        return Err("cache child receipt identity or work mismatch".to_owned());
    }
    let limit: u64 = match unsigned(report, "maximum_explicit_compiles") {
        Ok(n) => n,
        Err(message) => {
            return Err(message);
        },
    };
    let allowed: u64 = if p.inspect {
        0
    } else {
        p.count as u64
    };
    if limit != allowed {
        return Err("cache child receipt identity or work mismatch".to_owned());
    }
    Ok(())
}

/// The compiler calls and the programs of a receipt, within their bounds.
pub open spec fn receipt_work(report: JsonModel, p: PartModel) -> Result<(u64, u64), Seq<char>> {
    match receipt_number(report, "compiler_calls"@) {
        Err(message) => Err(message),
        Ok(compiled) => match receipt_number(report, "programs_prepared"@) {
            Err(message) => Err(message),
            Ok(available) => if available > p.count || compiled > allowed_compiles(p) {
                Err("cache child exceeded its graph or compilation bound"@)
            } else {
                Ok((compiled, available))
            },
        },
    }
}

fn check_work(report: &serde_json::Value, p: &PartIdentity) -> (r: Result<(u64, u64), String>)
    ensures
        told(r) == receipt_work(json_model(*report), p@),
{
    let compiled: u64 = match unsigned(report, "compiler_calls") {
        Ok(n) => n,
        Err(message) => {
            return Err(message);
        },
    };
    let available: u64 = match unsigned(report, "programs_prepared") {
        Ok(n) => n,
        Err(message) => {
            return Err(message);
        },
    };
    let allowed: u64 = if p.inspect {
        0
    } else {
        p.count as u64
    };
    if available > p.count as u64 || compiled > allowed {
        return Err("cache child exceeded its graph or compilation bound".to_owned());
    }
    Ok((compiled, available))
}

// ---------------------------------------------------------------------------
// Inspected entries
// ---------------------------------------------------------------------------

/// The name of a part's graph.
pub open spec fn graph_name_at(part: Seq<char>, count: int, i: int) -> Seq<char> {
    if part == "VocabularyAndAttention"@ && count >= 2 {
        if i == 0 {
            "attention/sliding"@
        } else if i == 1 {
            "attention/global"@
        } else {
            "vocabulary/"@ + decimal(((i - 2) * 16384) as nat)
        }
    } else {
        part + "/layer/"@ + decimal(i as nat)
    }
}

/// The names of a part's graphs.
pub open spec fn graph_names(part: Seq<char>, count: int) -> Set<Seq<char>> {
    Seq::new(count as nat, |i: int| graph_name_at(part, count, i)).to_set()
}

/// The rows of a vocabulary's graphs are addressable.
pub open spec fn rows_fit(part: Seq<char>, count: usize) -> bool {
    part == "VocabularyAndAttention"@ ==> count * 16384 <= usize::MAX
}

fn name_of_graph(part: &str, count: usize, i: usize) -> (r: String)
    requires
        i < count,
        rows_fit(part@, count),
    ensures
        r@ == graph_name_at(part@, count as int, i as int),
{
    if same(part, "VocabularyAndAttention") && count >= 2 {
        if i == 0 {
            "attention/sliding".to_owned()
        } else if i == 1 {
            "attention/global".to_owned()
        } else {
            let row = decimal_text(((i - 2) * 16384) as u64);
            cat2("vocabulary/", row.as_str())
        }
    } else {
        let layer = decimal_text(i as u64);
        cat3(part, "/layer/", layer.as_str())
    }
}

/// What the first entries say: their names, those that are missing, and how
/// many are present.
pub struct EntriesModel {
    pub names: Set<Seq<char>>,
    pub missing: Seq<Seq<char>>,
    pub present: nat,
}

pub open spec fn entries_from(items: Seq<JsonModel>, i: int, so_far: EntriesModel) -> Result<
    EntriesModel,
    Seq<char>,
>
    decreases items.len() - i,
{
    if i >= items.len() {
        Ok(so_far)
    } else {
        match text_at(items[i], "name"@) {
            None => Err("cache entry name missing"@),
            Some(name) => if so_far.names.contains(name) {
                Err("duplicate cache inspection entry"@)
            } else {
                match bool_at(items[i], "available"@) {
                    None => Err("cache availability flag missing"@),
                    Some(true) => entries_from(
                        items,
                        i + 1,
                        EntriesModel {
                            names: so_far.names.insert(name),
                            missing: so_far.missing,
                            present: so_far.present + 1,
                        },
                    ),
                    Some(false) => entries_from(
                        items,
                        i + 1,
                        EntriesModel {
                            names: so_far.names.insert(name),
                            missing: so_far.missing.push(name),
                            present: so_far.present,
                        },
                    ),
                }
            },
        }
    }
}

pub open spec fn no_entries() -> EntriesModel {
    EntriesModel { names: Seq::<Seq<char>>::empty().to_set(), missing: Seq::empty(), present: 0 }
}

/// The graphs that are missing, from an inspection's entries; a preparation
/// must have completed every graph.
pub open spec fn missing_graphs(report: JsonModel, p: PartModel, available: u64) -> Result<
    Seq<Seq<char>>,
    Seq<char>,
> {
    if !p.inspect {
        if available != p.count {
            Err("cache preparation did not complete every graph"@)
        } else {
            Ok(Seq::empty())
        }
    } else {
        match array_at(report, "entries"@) {
            None => Err("cache inspection entries missing"@),
            Some(items) => if items.len() != p.count {
                Err("cache inspection entry count mismatch"@)
            } else {
                match entries_from(items, 0, no_entries()) {
                    Err(message) => Err(message),
                    Ok(found) => if found.names != graph_names(p.part, p.count as int) {
                        Err("cache inspection visited unexpected graph names"@)
                    } else if found.present != available {
                        Err("cache availability totals disagree"@)
                    } else {
                        Ok(found.missing)
                    },
                }
            },
        }
    }
}

fn same_lists(a: &Vec<String>, b: &Vec<String>) -> (r: bool)
    ensures
        r == (texts(a@) == texts(b@)),
{
    if a.len() != b.len() {
        assert(texts(a@).len() != texts(b@).len());
        return false;
    }
    let mut i: usize = 0;
    while i < a.len()
        invariant
            i <= a@.len(),
            a@.len() == b@.len(),
            forall|j: int| 0 <= j < i ==> (#[trigger] a@[j])@ == b@[j]@,
        decreases a@.len() - i,
    {
        if !same(a[i].as_str(), b[i].as_str()) {
            assert(texts(a@)[i as int] != texts(b@)[i as int]);
            return false;
        }
        i = i + 1;
    }
    assert(texts(a@) =~= texts(b@));
    true
}

fn sorted_graph_names(part: &str, count: usize) -> (r: Vec<String>)
    requires
        rows_fit(part@, count),
    ensures
        ascending(texts(r@)),
        texts(r@).to_set() == graph_names(part@, count as int),
{
    let ghost all = Seq::new(count as nat, |i: int| graph_name_at(part@, count as int, i));
    let mut names: Vec<String> = Vec::new();
    let mut i: usize = 0;
    assert(texts(names@) =~= Seq::empty());
    assert(all.take(0).to_set() =~= texts(names@).to_set());
    while i < count
        invariant
            i <= count,
            rows_fit(part@, count),
            all == Seq::new(count as nat, |k: int| graph_name_at(part@, count as int, k)),
            ascending(texts(names@)),
            texts(names@).to_set() == all.take(i as int).to_set(),
        decreases count - i,
    {
        let name = name_of_graph(part, count, i);
        let _ = insert_text(&mut names, name.as_str());
        proof {
            let a = all.take(i as int);
            let b = all.take(i + 1);
            assert(b =~= a.push(all[i as int]));
            assert forall|t: Seq<char>| b.to_set().contains(t) == a.to_set().insert(
                all[i as int],
            ).contains(t) by {
                if a.contains(t) {
                    let k = choose|k: int| 0 <= k < a.len() && a[k] == t;
                    assert(b[k] == t);
                }
                if t == all[i as int] {
                    assert(b[i as int] == t);
                }
                if b.contains(t) && t != all[i as int] {
                    let k = choose|k: int| 0 <= k < b.len() && b[k] == t;
                    assert(a[k] == t);
                }
            }
            assert(b.to_set() =~= a.to_set().insert(all[i as int]));
        }
        i = i + 1;
    }
    assert(all.take(count as int) =~= all);
    names
}

fn check_entries(report: &serde_json::Value, p: &PartIdentity, available: u64) -> (r: Result<
    Vec<String>,
    String,
>)
    requires
        p.inspect ==> rows_fit(p.part@, p.count),
    ensures
        match (missing_graphs(json_model(*report), p@, available), r) {
            (Ok(missing), Ok(v)) => texts(v@) == missing,
            (Err(message), Err(e)) => e@ == message,
            _ => false,
        },
{
    let mut missing: Vec<String> = Vec::new();
    assert(texts(missing@) =~= Seq::empty());
    if !p.inspect {
        if available != p.count as u64 {
            return Err("cache preparation did not complete every graph".to_owned());
        }
        return Ok(missing);
    }
    let items = match member_array(report, "entries") {
        Some(items) => items,
        None => {
            return Err("cache inspection entries missing".to_owned());
        },
    };
    if items.len() != p.count {
        return Err("cache inspection entry count mismatch".to_owned());
    }
    let ghost all = models(items@);
    let mut names: Vec<String> = Vec::new();
    let mut present: u64 = 0;
    let mut i: usize = 0;
    assert(texts(names@) =~= Seq::<Seq<char>>::empty());
    while i < items.len()
        invariant
            i <= items@.len(),
            all == models(items@),
            items@.len() == p.count,
            p.inspect,
            array_at(json_model(*report), "entries"@) == Some(all),
            ascending(texts(names@)),
            present <= i,
            entries_from(all, 0, no_entries()) == entries_from(
                all,
                i as int,
                EntriesModel {
                    names: texts(names@).to_set(),
                    missing: texts(missing@),
                    present: present as nat,
                },
            ),
        decreases items@.len() - i,
    {
        assert(all[i as int] == json_model(items@[i as int]));
        let name = match member_text(&items[i], "name") {
            Some(name) => name,
            None => {
                return Err("cache entry name missing".to_owned());
            },
        };
        let ghost before = texts(names@);
        if !insert_text(&mut names, name) {
            assert(before.to_set().contains(name@));
            return Err("duplicate cache inspection entry".to_owned());
        }
        assert(!before.to_set().contains(name@));
        match member_flag(&items[i], "available") {
            None => {
                return Err("cache availability flag missing".to_owned());
            },
            Some(flag) => {
                if flag {
                    present = present + 1;
                } else {
                    let ghost earlier = missing@;
                    missing.push(name.to_owned());
                    assert(texts(missing@) =~= texts(earlier).push(name@));
                }
            },
        }
        i = i + 1;
    }
    let expected = sorted_graph_names(p.part.as_str(), p.count);
    let as_expected = same_lists(&names, &expected);
    proof {
        if texts(names@).to_set() == texts(expected@).to_set() {
            listings_are_unique(texts(names@), texts(expected@));
        }
    }
    if !as_expected {
        return Err("cache inspection visited unexpected graph names".to_owned());
    }
    if present != available {
        return Err("cache availability totals disagree".to_owned());
    }
    Ok(missing)
}

// ---------------------------------------------------------------------------
// The journal
// ---------------------------------------------------------------------------

/// One event of the driver's journal.
#[derive(Debug)]
pub struct JournalEvent {
    pub stage: String,
    pub model_id: String,
}

pub open spec fn event_models(events: Seq<JournalEvent>) -> Seq<(Seq<char>, Seq<char>)> {
    Seq::new(events.len(), |i: int| (events[i].stage@, events[i].model_id@))
}

pub open spec fn has_suffix(s: Seq<char>, suffix: Seq<char>) -> bool {
    s.len() >= suffix.len() && s.subrange(s.len() - suffix.len(), s.len() as int) == suffix
}

fn ends_with(s: &str, suffix: &str) -> (r: bool)
    ensures
        r == has_suffix(s@, suffix@),
{
    let chars = chars_of(s);
    let tail = chars_of(suffix);
    if chars.len() < tail.len() {
        return false;
    }
    let total: usize = chars.len();
    let start: usize = total - tail.len();
    let mut i: usize = 0;
    let ghost part = s@.subrange(s@.len() - suffix@.len(), s@.len() as int);
    while i < tail.len()
        invariant
            i <= tail@.len(),
            chars@ == s@,
            tail@ == suffix@,
            total == chars@.len(),
            start == total - tail@.len(),
            part == s@.subrange(s@.len() - suffix@.len(), s@.len() as int),
            forall|j: int| 0 <= j < i ==> part[j] == suffix@[j],
        decreases tail@.len() - i,
    {
        assert(part[i as int] == chars@[start + i]);
        if chars[start + i] != tail[i] {
            return false;
        }
        i = i + 1;
    }
    assert(part =~= suffix@);
    true
}

/// A failed operation or an evaluation, which no cache visit may record.
pub open spec fn forbidden(stage: Seq<char>) -> bool {
    has_suffix(stage, "_failed"@) || "evaluate_"@.is_prefix_of(stage)
}

/// The stages of a graph's life.
pub open spec fn lifecycle(stage: Seq<char>) -> bool {
    stage == "load_completed"@ || stage == "unload_completed"@ || stage == "unload_returned"@
}

/// The event of a journal line.
pub open spec fn event_of(document: Result<JsonModel, Seq<char>>) -> Result<
    (Seq<char>, Seq<char>),
    Seq<char>,
> {
    match document {
        Err(message) => Err("cache journal: "@ + message),
        Ok(event) => match text_at(event, "stage"@) {
            None => Err("cache journal stage missing"@),
            Some(stage) => match text_at(event, "model_id"@) {
                None => Err("cache journal model identity missing"@),
                Some(id) => if forbidden(stage) {
                    Err("cache child has forbidden journal event "@ + stage)
                } else if lifecycle(stage) && id.len() == 0 {
                    Err("cache lifecycle event has no model identity"@)
                } else {
                    Ok((stage, id))
                },
            },
        },
    }
}

/// The events of the lines from `i` on, after those already read.
pub open spec fn events_from(
    text: Seq<Seq<char>>,
    i: int,
    events: Seq<(Seq<char>, Seq<char>)>,
) -> Result<Seq<(Seq<char>, Seq<char>)>, Seq<char>>
    decreases text.len() - i,
{
    if i >= text.len() {
        Ok(events)
    } else {
        match event_of(json_document(text[i])) {
            Err(message) => Err(message),
            Ok(event) => events_from(text, i + 1, events.push(event)),
        }
    }
}

/// Reads one event from its document.
pub fn journal_event(event: &serde_json::Value) -> (r: Result<JournalEvent, String>)
    ensures
        match (event_of(Ok(json_model(*event))), r) {
            (Ok(pair), Ok(e)) => pair == (e.stage@, e.model_id@),
            (Err(message), Err(e)) => e@ == message,
            _ => false,
        },
{
    let stage = match member_text(event, "stage") {
        Some(stage) => stage,
        None => {
            return Err("cache journal stage missing".to_owned());
        },
    };
    let id = match member_text(event, "model_id") {
        Some(id) => id,
        None => {
            return Err("cache journal model identity missing".to_owned());
        },
    };
    if ends_with(stage, "_failed") || has_prefix(stage, "evaluate_") {
        return Err(cat2("cache child has forbidden journal event ", stage));
    }
    let in_life = same(stage, "load_completed") || same(stage, "unload_completed") || same(
        stage,
        "unload_returned",
    );
    if in_life && id.is_empty() {
        return Err("cache lifecycle event has no model identity".to_owned());
    }
    Ok(JournalEvent { stage: stage.to_owned(), model_id: id.to_owned() })
}

fn read_journal(journal: &str) -> (r: Result<Vec<JournalEvent>, String>)
    ensures
        match (events_from(lines(journal@), 0, Seq::empty()), r) {
            (Ok(events), Ok(v)) => events == event_models(v@),
            (Err(message), Err(e)) => e@ == message,
            _ => false,
        },
{
    let rows = lines_of(journal);
    let ghost all = lines(journal@);
    let mut events: Vec<JournalEvent> = Vec::new();
    let mut i: usize = 0;
    assert(event_models(events@) =~= Seq::empty());
    while i < rows.len()
        invariant
            i <= rows@.len(),
            all == lines(journal@),
            all == texts(rows@),
            events_from(all, 0, Seq::empty()) == events_from(all, i as int, event_models(events@)),
        decreases rows@.len() - i,
    {
        assert(all[i as int] == rows@[i as int]@);
        let document = match parse_text(rows[i].as_str()) {
            Ok(document) => document,
            Err(message) => {
                return Err(cat2("cache journal: ", message.as_str()));
            },
        };
        match journal_event(&document) {
            Ok(event) => {
                let ghost before = events@;
                let ghost pair = (event.stage@, event.model_id@);
                events.push(event);
                assert(event_models(events@) =~= event_models(before).push(pair));
            },
            Err(message) => {
                return Err(message);
            },
        }
        i = i + 1;
    }
    Ok(events)
}

/// How many of the first events are of a stage.
pub open spec fn stage_count(
    events: Seq<(Seq<char>, Seq<char>)>,
    stage: Seq<char>,
    count: int,
) -> nat
    decreases count,
{
    if count <= 0 {
        0
    } else {
        stage_count(events, stage, count - 1) + if events[count - 1].0 == stage {
            1nat
        } else {
            0nat
        }
    }
}

pub open spec fn count_of(events: Seq<(Seq<char>, Seq<char>)>, stage: Seq<char>) -> nat {
    stage_count(events, stage, events.len() as int)
}

/// How many of the first events are of a stage and a graph.
pub open spec fn graph_count(
    events: Seq<(Seq<char>, Seq<char>)>,
    stage: Seq<char>,
    id: Seq<char>,
    count: int,
) -> nat
    decreases count,
{
    if count <= 0 {
        0
    } else {
        graph_count(events, stage, id, count - 1) + if events[count - 1] == (stage, id) {
            1nat
        } else {
            0nat
        }
    }
}

/// A graph was unloaded, and the unload returned, exactly as often as it was
/// loaded.
pub open spec fn life_is_complete(events: Seq<(Seq<char>, Seq<char>)>, id: Seq<char>) -> bool {
    let n = events.len() as int;
    let loads = graph_count(events, "load_completed"@, id, n);
    &&& loads > 0
    &&& loads == graph_count(events, "unload_completed"@, id, n)
    &&& loads == graph_count(events, "unload_returned"@, id, n)
}

/// Every graph that has a lifecycle event has a complete life.
pub open spec fn lives_are_complete(events: Seq<(Seq<char>, Seq<char>)>) -> bool {
    forall|i: int|
        0 <= i < events.len() && lifecycle((#[trigger] events[i]).0) ==> life_is_complete(
            events,
            events[i].1,
        )
}

fn count_stage(events: &Vec<JournalEvent>, stage: &str) -> (r: u64)
    ensures
        r == count_of(event_models(events@), stage@),
{
    let ghost all = event_models(events@);
    let mut count: u64 = 0;
    let mut i: usize = 0;
    while i < events.len()
        invariant
            i <= events@.len(),
            all == event_models(events@),
            count == stage_count(all, stage@, i as int),
            count <= i,
        decreases events@.len() - i,
    {
        assert(all[i as int] == (events@[i as int].stage@, events@[i as int].model_id@));
        if same(events[i].stage.as_str(), stage) {
            count = count + 1;
        }
        i = i + 1;
    }
    count
}

fn count_graph(events: &Vec<JournalEvent>, stage: &str, id: &str) -> (r: u64)
    ensures
        r == graph_count(event_models(events@), stage@, id@, events@.len() as int),
{
    let ghost all = event_models(events@);
    let mut count: u64 = 0;
    let mut i: usize = 0;
    while i < events.len()
        invariant
            i <= events@.len(),
            all == event_models(events@),
            count == graph_count(all, stage@, id@, i as int),
            count <= i,
        decreases events@.len() - i,
    {
        assert(all[i as int] == (events@[i as int].stage@, events@[i as int].model_id@));
        if same(events[i].stage.as_str(), stage) && same(events[i].model_id.as_str(), id) {
            count = count + 1;
        }
        i = i + 1;
    }
    count
}

fn complete_lives(events: &Vec<JournalEvent>) -> (r: bool)
    ensures
        r == lives_are_complete(event_models(events@)),
{
    let ghost all = event_models(events@);
    let mut i: usize = 0;
    while i < events.len()
        invariant
            i <= events@.len(),
            all == event_models(events@),
            forall|j: int|
                0 <= j < i && lifecycle((#[trigger] all[j]).0) ==> life_is_complete(all, all[j].1),
        decreases events@.len() - i,
    {
        let stage = events[i].stage.as_str();
        let id = events[i].model_id.as_str();
        assert(all[i as int] == (stage@, id@));
        if same(stage, "load_completed") || same(stage, "unload_completed") || same(
            stage,
            "unload_returned",
        ) {
            let loads: u64 = count_graph(events, "load_completed", id);
            let unloads: u64 = count_graph(events, "unload_completed", id);
            let returns: u64 = count_graph(events, "unload_returned", id);
            if loads == 0 || loads != unloads || loads != returns {
                assert(!life_is_complete(all, all[i as int].1));
                return false;
            }
        }
        i = i + 1;
    }
    true
}

/// How often a stage occurs in a journal.
#[derive(Debug)]
pub struct StageCount {
    pub stage: String,
    pub count: u64,
}

pub open spec fn stage_set(events: Seq<(Seq<char>, Seq<char>)>) -> Set<Seq<char>> {
    Seq::new(events.len(), |i: int| events[i].0).to_set()
}

/// Every stage of the events once, in ascending order, with its count.
pub open spec fn stages_counted(
    counts: Seq<StageCount>,
    events: Seq<(Seq<char>, Seq<char>)>,
) -> bool {
    let stages = listing(stage_set(events));
    &&& counts.len() == stages.len()
    &&& forall|i: int|
        0 <= i < counts.len() ==> (#[trigger] counts[i]).stage@ == stages[i] && counts[i].count
            == count_of(events, stages[i])
}

fn count_stages(events: &Vec<JournalEvent>) -> (r: Vec<StageCount>)
    ensures
        stages_counted(r@, event_models(events@)),
{
    let ghost all = event_models(events@);
    let ghost names = Seq::new(all.len(), |i: int| all[i].0);
    let mut stages: Vec<String> = Vec::new();
    let mut i: usize = 0;
    assert(texts(stages@) =~= Seq::empty());
    assert(names.take(0).to_set() =~= texts(stages@).to_set());
    while i < events.len()
        invariant
            i <= events@.len(),
            all == event_models(events@),
            names == Seq::new(all.len(), |k: int| all[k].0),
            ascending(texts(stages@)),
            texts(stages@).to_set() == names.take(i as int).to_set(),
        decreases events@.len() - i,
    {
        assert(names[i as int] == events@[i as int].stage@);
        let _ = insert_text(&mut stages, events[i].stage.as_str());
        proof {
            let a = names.take(i as int);
            let b = names.take(i + 1);
            assert(b =~= a.push(names[i as int]));
            assert forall|t: Seq<char>| b.to_set().contains(t) == a.to_set().insert(
                names[i as int],
            ).contains(t) by {
                if a.contains(t) {
                    let k = choose|k: int| 0 <= k < a.len() && a[k] == t;
                    assert(b[k] == t);
                }
                if t == names[i as int] {
                    assert(b[i as int] == t);
                }
                if b.contains(t) && t != names[i as int] {
                    let k = choose|k: int| 0 <= k < b.len() && b[k] == t;
                    assert(a[k] == t);
                }
            }
            assert(b.to_set() =~= a.to_set().insert(names[i as int]));
        }
        i = i + 1;
    }
    proof {
        assert(names.take(names.len() as int) =~= names);
        listing_of_ascending(texts(stages@));
    }
    let ghost listed = texts(stages@);
    let mut counts: Vec<StageCount> = Vec::new();
    let mut k: usize = 0;
    while k < stages.len()
        invariant
            k <= stages@.len(),
            counts@.len() == k,
            all == event_models(events@),
            listed == texts(stages@),
            listed == listing(stage_set(all)),
            forall|j: int|
                0 <= j < k ==> (#[trigger] counts@[j]).stage@ == listed[j] && counts@[j].count
                    == count_of(all, listed[j]),
        decreases stages@.len() - k,
    {
        assert(listed[k as int] == stages@[k as int]@);
        let count: u64 = count_stage(events, stages[k].as_str());
        counts.push(StageCount { stage: stages[k].clone(), count });
        k = k + 1;
    }
    counts
}

// ---------------------------------------------------------------------------
// The whole receipt
// ---------------------------------------------------------------------------

/// What a validated visit did.
#[derive(Debug)]
pub struct ValidatedPart {
    pub available: u64,
    pub missing: Vec<String>,
    pub compiler_calls: u64,
    pub successful_unloads: u64,
    pub journal_events: Vec<StageCount>,
}

/// The journal agrees with the receipt: every call has its events, and every
/// graph a complete life.
pub open spec fn journal_agrees(
    events: Seq<(Seq<char>, Seq<char>)>,
    p: PartModel,
    compiled: u64,
    available: u64,
) -> bool {
    &&& count_of(events, "compile_begin"@) == compiled
    &&& count_of(events, "compile_completed"@) == compiled
    &&& count_of(events, "descriptor_created"@) == p.count
    &&& count_of(events, "load_begin"@) == available
    &&& count_of(events, "load_completed"@) == available
    &&& count_of(events, "unload_begin"@) == available
    &&& lives_are_complete(events)
}

/// What a receipt and its journal come to.
pub struct PartOutcome {
    pub compiled: u64,
    pub available: u64,
    pub missing: Seq<Seq<char>>,
    pub events: Seq<(Seq<char>, Seq<char>)>,
}

pub open spec fn part_outcome(report: JsonModel, journal: Seq<char>, p: PartModel) -> Result<
    PartOutcome,
    Seq<char>,
> {
    match receipt_identity(report, p) {
        Err(message) => Err(message),
        Ok(_) => match receipt_work(report, p) {
            Err(message) => Err(message),
            Ok((compiled, available)) => match missing_graphs(report, p, available) {
                Err(message) => Err(message),
                Ok(missing) => match events_from(lines(journal), 0, Seq::empty()) {
                    Err(message) => Err(message),
                    Ok(events) => if !journal_agrees(events, p, compiled, available) {
                        Err("cache receipt and successful graph lifecycles disagree"@)
                    } else {
                        Ok(PartOutcome { compiled, available, missing, events })
                    },
                },
            },
        },
    }
}

/// Validates the receipt and the journal of one part's visit.
pub fn validate_part(report: &serde_json::Value, journal: &str, p: &PartIdentity) -> (r: Result<
    ValidatedPart,
    String,
>)
    requires
        p.inspect ==> rows_fit(p.part@, p.count),
    ensures
        match (part_outcome(json_model(*report), journal@, p@), r) {
            (Ok(outcome), Ok(v)) => {
                &&& v.available == outcome.available
                &&& texts(v.missing@) == outcome.missing
                &&& v.compiler_calls == outcome.compiled
                &&& v.successful_unloads == count_of(outcome.events, "unload_completed"@)
                &&& stages_counted(v.journal_events@, outcome.events)
            },
            (Err(message), Err(e)) => e@ == message,
            _ => false,
        },
{
    match check_identity(report, p) {
        Ok(_) => {},
        Err(message) => {
            return Err(message);
        },
    }
    let work = match check_work(report, p) {
        Ok(work) => work,
        Err(message) => {
            return Err(message);
        },
    };
    let missing = match check_entries(report, p, work.1) {
        Ok(missing) => missing,
        Err(message) => {
            return Err(message);
        },
    };
    let events = match read_journal(journal) {
        Ok(events) => events,
        Err(message) => {
            return Err(message);
        },
    };
    if count_stage(&events, "compile_begin") != work.0 || count_stage(&events, "compile_completed")
        != work.0 || count_stage(&events, "descriptor_created") != p.count as u64 || count_stage(
        &events,
        "load_begin",
    ) != work.1 || count_stage(&events, "load_completed") != work.1 || count_stage(
        &events,
        "unload_begin",
    ) != work.1 || !complete_lives(&events) {
        return Err("cache receipt and successful graph lifecycles disagree".to_owned());
    }
    Ok(
        ValidatedPart {
            available: work.1,
            missing,
            compiler_calls: work.0,
            successful_unloads: count_stage(&events, "unload_completed"),
            journal_events: count_stages(&events),
        },
    )
}

/// What a part's visit left: its report as bytes, and the journal.
pub open spec fn receipt_outcome(report: Seq<u8>, journal: Seq<char>, p: PartModel) -> Result<
    PartOutcome,
    Seq<char>,
> {
    match json_bytes_document(report) {
        Err(message) => Err(message),
        Ok(document) => part_outcome(document, journal, p),
    }
}

/// Reads the report of one part's visit and validates it with the journal.
pub fn validate_receipt(report: &[u8], journal: &str, p: &PartIdentity) -> (r: Result<
    ValidatedPart,
    String,
>)
    requires
        p.inspect ==> rows_fit(p.part@, p.count),
    ensures
        match (receipt_outcome(report@, journal@, p@), r) {
            (Ok(outcome), Ok(v)) => {
                &&& v.available == outcome.available
                &&& texts(v.missing@) == outcome.missing
                &&& v.compiler_calls == outcome.compiled
                &&& v.successful_unloads == count_of(outcome.events, "unload_completed"@)
                &&& stages_counted(v.journal_events@, outcome.events)
            },
            (Err(message), Err(e)) => e@ == message,
            _ => false,
        },
{
    match parse_bytes(report) {
        Err(message) => Err(message),
        Ok(document) => validate_part(&document, journal, p),
    }
}

/// A validated inspection compiled nothing, and what it did not find present it
/// lists as missing.
pub proof fn inspections_never_compile(report: JsonModel, journal: Seq<char>, p: PartModel)
    requires
        p.inspect,
        part_outcome(report, journal, p) is Ok,
    ensures
        part_outcome(report, journal, p)->Ok_0.compiled == 0,
        part_outcome(report, journal, p)->Ok_0.available + part_outcome(
            report,
            journal,
            p,
        )->Ok_0.missing.len() == p.count,
{
    let items = array_at(report, "entries"@)->0;
    entries_add_up(items, 0, no_entries());
}

proof fn entries_add_up(items: Seq<JsonModel>, i: int, so_far: EntriesModel)
    requires
        0 <= i <= items.len(),
        entries_from(items, i, so_far) is Ok,
        so_far.present + so_far.missing.len() == i,
    ensures
        entries_from(items, i, so_far)->Ok_0.present + entries_from(
            items,
            i,
            so_far,
        )->Ok_0.missing.len() == items.len(),
    decreases items.len() - i,
{
    if i < items.len() {
        let name = text_at(items[i], "name"@)->0;
        if bool_at(items[i], "available"@) == Some(true) {
            entries_add_up(
                items,
                i + 1,
                EntriesModel {
                    names: so_far.names.insert(name),
                    missing: so_far.missing,
                    present: so_far.present + 1,
                },
            );
        } else {
            entries_add_up(
                items,
                i + 1,
                EntriesModel {
                    names: so_far.names.insert(name),
                    missing: so_far.missing.push(name),
                    present: so_far.present,
                },
            );
        }
    }
}

} // verus!
