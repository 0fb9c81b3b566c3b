//! What the receipts of cache visits hold, and how the visits follow one another.
use crate::ane::static_cache::{graph_at, graph_count, graph_name, part_label, AneStaticCachePart};
use crate::disagg::cache_batch::{
    available_sum, child_arguments, compiled_sum, part_flag, part_kind, record_available,
    record_compiled, records_after, PARTS, AfterSaveModel, BatchCallModel, BatchModel, BatchReply,
    BatchStageModel, BatchStatus, PartRecord,
};
use crate::disagg::cache_receipt::{
    count_of, entries_from, event_of, events_from, graph_name_at, life_is_complete, no_entries,
    part_outcome, EntriesModel, PartModel,
};
use crate::disagg::option_laws::part_names_stand_for_their_parts;
use crate::disagg::options::{default_options, options_from, CacheTarget, OptionsModel};
use crate::json::{array_at, bool_at, json_document, natural_at, text_at, JsonModel};
use crate::text::{decimal, lines, numeral_of_decimal};
use vstd::prelude::*;

verus! {

// ---------------------------------------------------------------------------
// Receipts
// ---------------------------------------------------------------------------

/// A receipt that is accepted is of the visit asked for: of its model, its part, its
/// capacity and its kind, with nothing evaluated and no more compiled than allowed;
/// the totals are those that it states.
pub proof fn accepted_receipts_are_of_the_visit(
    report: JsonModel,
    journal: Seq<char>,
    p: PartModel,
)
    requires
        part_outcome(report, journal, p) is Ok,
    ensures
        text_at(report, "model_dir"@) == Some(p.model),
        text_at(report, "part"@) == Some(p.part),
        natural_at(report, "global_context_capacity"@) is Some && natural_at(
            report,
            "global_context_capacity"@,
        )->0 == p.capacity,
        natural_at(report, "inference_evaluations"@) == Some(0u64),
        text_at(report, "schema"@) == Some(
            if p.inspect {
                "rvllm.ane_cache_inspection.v1"@
            } else {
                "rvllm.ane_cache_provision.v1"@
            },
        ),
        text_at(report, "cache_policy"@) == Some(
            if p.inspect {
                "require-existing"@
            } else {
                "bounded-reuse-or-compile"@
            },
        ),
        natural_at(report, "maximum_explicit_compiles"@) is Some && natural_at(
            report,
            "maximum_explicit_compiles"@,
        )->0 == if p.inspect {
            0
        } else {
            p.count as int
        },
        ({
            let found = part_outcome(report, journal, p)->Ok_0;
            &&& natural_at(report, "compiler_calls"@) == Some(found.compiled)
            &&& natural_at(report, "programs_prepared"@) == Some(found.available)
            &&& found.available <= p.count && found.compiled <= p.count
            &&& !p.inspect ==> found.available == p.count && found.missing.len() == 0
        }),
{
}

/// An event is counted once, under its own stage.
pub proof fn events_are_counted_once(
    events: Seq<(Seq<char>, Seq<char>)>,
    event: (Seq<char>, Seq<char>),
    stage: Seq<char>,
)
    ensures
        count_of(Seq::empty(), stage) == 0,
        count_of(events.push(event), stage) == count_of(events, stage) + if event.0 == stage {
            1nat
        } else {
            0nat
        },
{
    counted_alike(events, events.push(event), stage, events.len() as int);
}

proof fn counted_alike(
    a: Seq<(Seq<char>, Seq<char>)>,
    b: Seq<(Seq<char>, Seq<char>)>,
    stage: Seq<char>,
    n: int,
)
    requires
        0 <= n <= a.len(),
        n <= b.len(),
        forall|i: int| 0 <= i < n ==> a[i] == b[i],
    ensures
        crate::disagg::cache_receipt::stage_count(a, stage, n)
            == crate::disagg::cache_receipt::stage_count(b, stage, n),
    decreases n,
{
    if n > 0 {
        counted_alike(a, b, stage, n - 1);
    }
}

proof fn events_read_from(
    text: Seq<Seq<char>>,
    i: int,
    events: Seq<(Seq<char>, Seq<char>)>,
)
    requires
        0 <= i <= text.len(),
        events.len() == i,
        events_from(text, i, events) is Ok,
    ensures
        ({
            let all = events_from(text, i, events)->Ok_0;
            &&& all.len() == text.len()
            &&& forall|k: int| 0 <= k < i ==> all[k] == events[k]
            &&& forall|k: int|
                i <= k < text.len() ==> event_of(#[trigger] json_document(text[k])) == Ok::<
                    (Seq<char>, Seq<char>),
                    Seq<char>,
                >(all[k])
        }),
    decreases text.len() - i,
{
    if i < text.len() {
        let event = event_of(json_document(text[i]))->Ok_0;
        events_read_from(text, i + 1, events.push(event));
        assert(events.push(event)[i] == event);
        let all = events_from(text, i, events)->Ok_0;
        assert forall|k: int| 0 <= k < i implies all[k] == events[k] by {
            assert(events.push(event)[k] == events[k]);
        }
    }
}

/// The journal of an accepted receipt holds an event on each line, none of them a
/// failure or an evaluation; every graph was described once, every compilation and
/// every load that began was completed, and as many were unloaded as were loaded.
pub proof fn journals_balance(report: JsonModel, journal: Seq<char>, p: PartModel, k: int)
    requires
        part_outcome(report, journal, p) is Ok,
        0 <= k < lines(journal).len(),
    ensures
        ({
            let found = part_outcome(report, journal, p)->Ok_0;
            let e = found.events;
            &&& e.len() == lines(journal).len()
            &&& json_document(lines(journal)[k]) is Ok
            &&& text_at(json_document(lines(journal)[k])->Ok_0, "stage"@) == Some(e[k].0)
            &&& text_at(json_document(lines(journal)[k])->Ok_0, "model_id"@) == Some(e[k].1)
            &&& !"evaluate_"@.is_prefix_of(e[k].0)
            &&& !(e[k].0.len() >= 7 && e[k].0.subrange(e[k].0.len() - 7, e[k].0.len() as int)
                == "_failed"@)
            &&& count_of(e, "compile_begin"@) == found.compiled
            &&& count_of(e, "compile_completed"@) == found.compiled
            &&& count_of(e, "descriptor_created"@) == p.count
            &&& count_of(e, "load_begin"@) == found.available
            &&& count_of(e, "load_completed"@) == found.available
            &&& count_of(e, "unload_begin"@) == found.available
            &&& (e[k].0 == "load_completed"@ || e[k].0 == "unload_completed"@ || e[k].0
                == "unload_returned"@) ==> e[k].1.len() > 0 && life_is_complete(e, e[k].1)
        }),
{
    events_read_from(lines(journal), 0, Seq::empty());
    reveal_strlit("_failed");
    assert("_failed"@.len() == 7);
    let _ = json_document(lines(journal)[k]);
}

proof fn entries_read_from(items: Seq<JsonModel>, i: int, so_far: EntriesModel)
    requires
        0 <= i <= items.len(),
        so_far.names.finite(),
        so_far.names.len() == i,
        entries_from(items, i, so_far) is Ok,
    ensures
        ({
            let all = entries_from(items, i, so_far)->Ok_0;
            &&& all.names.finite() && all.names.len() == items.len()
            &&& all.present + all.missing.len() == so_far.present + so_far.missing.len()
                + items.len() - i
            &&& so_far.names.subset_of(all.names)
            &&& forall|k: int|
                i <= k < items.len() ==> text_at(#[trigger] items[k], "name"@) is Some && all.names
                    .contains(text_at(items[k], "name"@)->0)
            &&& forall|k: int|
                i <= k < items.len() && bool_at(#[trigger] items[k], "available"@) == Some(false)
                    ==> all.missing.contains(text_at(items[k], "name"@)->0)
            &&& forall|x: Seq<char>| so_far.missing.contains(x) ==> all.missing.contains(x)
            &&& forall|x: Seq<char>|
                #[trigger] all.missing.contains(x) && !so_far.missing.contains(x) ==> exists|k: int|
                    i <= k < items.len() && text_at(#[trigger] items[k], "name"@) == Some(x)
                        && bool_at(items[k], "available"@) == Some(false)
        }),
    decreases items.len() - i,
{
    if i < items.len() {
        let name = text_at(items[i], "name"@)->0;
        let next = if bool_at(items[i], "available"@) == Some(true) {
            EntriesModel {
                names: so_far.names.insert(name),
                missing: so_far.missing,
                present: so_far.present + 1,
            }
        } else {
            EntriesModel {
                names: so_far.names.insert(name),
                missing: so_far.missing.push(name),
                present: so_far.present,
            }
        };
        entries_read_from(items, i + 1, next);
        let all = entries_from(items, i, so_far)->Ok_0;
        assert(next.names.contains(name));
        assert(next.missing.len() > so_far.missing.len() ==> next.missing[so_far.missing.len() as int]
            == name);
        assert forall|x: Seq<char>| so_far.missing.contains(x) implies all.missing.contains(x) by {
            let j = choose|j: int| 0 <= j < so_far.missing.len() && so_far.missing[j] == x;
            assert(next.missing[j] == x);
        }
        assert forall|x: Seq<char>|
            #[trigger] all.missing.contains(x) && !so_far.missing.contains(x) implies exists|k: int|
            i <= k < items.len() && text_at(#[trigger] items[k], "name"@) == Some(x) && bool_at(
                items[k],
                "available"@,
            ) == Some(false) by {
            if next.missing.contains(x) {
                let j = choose|j: int| 0 <= j < next.missing.len() && next.missing[j] == x;
                assert(j == so_far.missing.len()) by {
                    if j < so_far.missing.len() {
                        assert(so_far.missing[j] == x);
                    }
                }
                assert(text_at(items[i], "name"@) == Some(x));
            } else {
                let k = choose|k: int|
                    i + 1 <= k < items.len() && text_at(#[trigger] items[k], "name"@) == Some(x)
                        && bool_at(items[k], "available"@) == Some(false);
                assert(text_at(items[k], "name"@) == Some(x));
            }
        }
    }
}

/// An accepted inspection names each graph of its part in exactly one entry, and is
/// missing exactly those whose entry says that they are not available.
pub proof fn inspections_account_for_every_graph(
    report: JsonModel,
    journal: Seq<char>,
    p: PartModel,
    name: Seq<char>,
)
    requires
        p.inspect,
        part_outcome(report, journal, p) is Ok,
    ensures
        array_at(report, "entries"@) is Some,
        ({
            let items = array_at(report, "entries"@)->0;
            let found = part_outcome(report, journal, p)->Ok_0;
            &&& items.len() == p.count
            &&& found.available + found.missing.len() == p.count
            &&& found.missing.contains(name) <==> exists|k: int|
                0 <= k < items.len() && text_at(#[trigger] items[k], "name"@) == Some(name)
                    && bool_at(items[k], "available"@) == Some(false)
            &&& forall|i: int|
                0 <= i < p.count ==> exists|k: int|
                    0 <= k < items.len() && text_at(#[trigger] items[k], "name"@) == Some(
                        #[trigger] graph_name_at(p.part, p.count as int, i),
                    )
        }),
{
    let items = array_at(report, "entries"@)->0;
    let found = part_outcome(report, journal, p)->Ok_0;
    assert(no_entries().names =~= Set::<Seq<char>>::empty());
    entries_read_from(items, 0, no_entries());
    let all = entries_from(items, 0, no_entries())->Ok_0;
    assert(all.missing == found.missing);
    if found.missing.contains(name) {
        assert(!no_entries().missing.contains(name));
    }
    assert forall|i: int| 0 <= i < p.count implies exists|k: int|
        0 <= k < items.len() && text_at(#[trigger] items[k], "name"@) == Some(
            #[trigger] graph_name_at(p.part, p.count as int, i),
        ) by {
        let names = Seq::new(p.count as nat, |j: int| graph_name_at(p.part, p.count as int, j));
        assert(names[i] == graph_name_at(p.part, p.count as int, i));
        assert(names.to_set().contains(names[i]));
        assert(all.names.contains(names[i]));
        named_by_an_entry(items, 0, no_entries(), names[i]);
    }
}

proof fn named_by_an_entry(items: Seq<JsonModel>, i: int, so_far: EntriesModel, x: Seq<char>)
    requires
        0 <= i <= items.len(),
        entries_from(items, i, so_far) is Ok,
        entries_from(items, i, so_far)->Ok_0.names.contains(x),
        !so_far.names.contains(x),
    ensures
        exists|k: int| i <= k < items.len() && text_at(#[trigger] items[k], "name"@) == Some(x),
    decreases items.len() - i,
{
    if i < items.len() {
        let name = text_at(items[i], "name"@)->0;
        let next = if bool_at(items[i], "available"@) == Some(true) {
            EntriesModel {
                names: so_far.names.insert(name),
                missing: so_far.missing,
                present: so_far.present + 1,
            }
        } else {
            EntriesModel {
                names: so_far.names.insert(name),
                missing: so_far.missing.push(name),
                present: so_far.present,
            }
        };
        if name == x {
            assert(text_at(items[i], "name"@) == Some(x));
        } else {
            named_by_an_entry(items, i + 1, next, x);
            let k = choose|k: int|
                i + 1 <= k < items.len() && text_at(#[trigger] items[k], "name"@) == Some(x);
            assert(text_at(items[k], "name"@) == Some(x));
        }
    }
}

/// A receipt's graphs bear the names under which a visit records them.
pub proof fn receipts_name_the_visited_graphs(part: AneStaticCachePart, i: int)
    requires
        part != AneStaticCachePart::AttentionTransposeFlags,
        0 <= i < graph_count(part),
    ensures
        graph_name_at(part_label(part), graph_count(part) as int, i) == graph_name(
            part,
            graph_at(part, i),
        ),
{
    reveal_strlit("QueryKeyValue");
    reveal_strlit("QueryKeyValueSlidingInt8");
    reveal_strlit("QueryKeyValueSlidingInt8Tiles4");
    reveal_strlit("Output");
    reveal_strlit("FeedForward");
    reveal_strlit("FeedForwardLut4");
    reveal_strlit("FeedForwardInt8");
    reveal_strlit("FeedForwardInt8Stacked");
    reveal_strlit("FeedForwardInt8Chunk4");
    reveal_strlit("FeedForwardInt8Down4");
    reveal_strlit("FeedForwardInt8Interleaved");
    reveal_strlit("VocabularyAndAttention");
    assert("VocabularyAndAttention"@.len() == 22 && "VocabularyAndAttention"@[0] == 'V');
    assert(part_label(part)[0] == 'V' <==> part == AneStaticCachePart::VocabularyAndAttention);
}

// ---------------------------------------------------------------------------
// Batches
// ---------------------------------------------------------------------------

/// The arguments of a part's process are read back as what the batch asks for: that
/// part of that model, at that capacity, inspected or prepared, reported there.
pub proof fn processes_are_asked_for_their_part(
    model: Seq<char>,
    inspect: bool,
    i: int,
    capacity: usize,
    directory: Seq<char>,
)
    requires
        0 <= i < PARTS,
    ensures
        options_from(
            child_arguments(model, inspect, part_flag(i), capacity, directory),
            0,
            default_options(),
        ) == Ok::<Option<OptionsModel>, Seq<char>>(
            Some(
                (OptionsModel {
                    model_dir: Some(model),
                    inspect_cache: inspect,
                    cache_target: Some(CacheTarget::Part(part_kind(i))),
                    context_capacity: capacity,
                    output_dir: Some(directory),
                    ..default_options()
                }),
            ),
        ),
{
    let args = child_arguments(model, inspect, part_flag(i), capacity, directory);
    let d0 = default_options();
    let d1 = OptionsModel { model_dir: Some(model), ..d0 };
    let d2 = OptionsModel {
        inspect_cache: inspect,
        cache_target: Some(CacheTarget::Part(part_kind(i))),
        ..d1
    };
    let d3 = OptionsModel { context_capacity: capacity, ..d2 };
    let d4 = OptionsModel { output_dir: Some(directory), ..d3 };
    part_names_stand_for_their_parts();
    numeral_of_decimal(capacity as nat, usize::MAX as nat);
    crate::disagg::option_laws::text_options_keep_their_text(d0, model);
    crate::disagg::option_laws::one_cache_operation_is_asked_for(d1, part_flag(i));
    crate::disagg::option_laws::count_options_keep_their_number(d2, decimal(capacity as nat));
    crate::disagg::option_laws::text_options_keep_their_text(d3, directory);
    no_help();
    assert(args.len() == 8);
    assert(options_from(args, 8, d4) == Ok::<Option<OptionsModel>, Seq<char>>(Some(d4)));
    assert(options_from(args, 6, d3) == options_from(args, 8, d4));
    assert(options_from(args, 4, d2) == options_from(args, 6, d3));
    assert(options_from(args, 2, d1) == options_from(args, 4, d2));
    assert(options_from(args, 0, d0) == options_from(args, 2, d1));
}

proof fn no_help()
    ensures
        "--model-dir"@ != "--help"@ && "--model-dir"@ != "-h"@,
        "--prepare-ane-cache"@ != "--help"@ && "--prepare-ane-cache"@ != "-h"@,
        "--inspect-ane-cache"@ != "--help"@ && "--inspect-ane-cache"@ != "-h"@,
        "--context-capacity"@ != "--help"@ && "--context-capacity"@ != "-h"@,
        "--output-dir"@ != "--help"@ && "--output-dir"@ != "-h"@,
{
    reveal_strlit("--help");
    reveal_strlit("-h");
    reveal_strlit("--model-dir");
    reveal_strlit("--prepare-ane-cache");
    reveal_strlit("--inspect-ane-cache");
    reveal_strlit("--context-capacity");
    reveal_strlit("--output-dir");
    assert("--help"@.len() == 6 && "-h"@.len() == 2);
    assert("--model-dir"@.len() == 11 && "--output-dir"@.len() == 12);
    assert("--prepare-ane-cache"@.len() == 19 && "--inspect-ane-cache"@.len() == 19);
    assert("--context-capacity"@.len() == 18);
}

/// A batch runs its parts in order, each once, and asks before each whether it was
/// cancelled; what a part left is recorded under its place, and a report is saved
/// after it.
pub proof fn batches_run_their_parts_in_order(
    m: BatchModel,
    reply: BatchReply,
    records: Seq<PartRecord>,
)
    requires
        m.well_formed(),
        m.expects(reply),
        records_after(m.records, records, reply),
    ensures
        ({
            let (next, call) = m.resumed(reply, records);
            &&& next.records == records
            &&& call matches BatchCallModel::RunPart { index } ==> index == m.records.len()
                && reply == BatchReply::Cancelled(false) && m.records.len() < PARTS
            &&& m.stage is AskingBefore && reply == BatchReply::Cancelled(false) ==> call
                is RunPart
            &&& reply is Ran ==> records.len() == m.records.len() + 1
            &&& !(reply is Ran) ==> records == m.records
            &&& reply matches BatchReply::Ran(Ok(_)) ==> call == (BatchCallModel::Save {
                status: BatchStatus::Running,
                error: None,
            })
            &&& m.stage is Saving && reply == BatchReply::Saved(Ok(())) ==> match m.stage->Saving_0 {
                AfterSaveModel::Continue => call is IsCancelled,
                AfterSaveModel::Fail(e) => call == (BatchCallModel::Failed { error: e }),
                AfterSaveModel::Finish => call is Completed,
            }
            &&& reply matches BatchReply::Saved(Err(e)) ==> call == (BatchCallModel::Failed {
                error: e@,
            })
        }),
{
}

/// A part that fails is reported with its error, as cancelled where the batch was;
/// a batch that is cancelled otherwise is reported so without one, runs no further
/// part and fails. Only one that was not cancelled at its end is complete.
pub proof fn failures_and_cancellations_end_a_batch(
    m: BatchModel,
    reply: BatchReply,
    records: Seq<PartRecord>,
)
    requires
        m.well_formed(),
        m.expects(reply),
        records_after(m.records, records, reply),
    ensures
        ({
            let (next, call) = m.resumed(reply, records);
            &&& reply matches BatchReply::Ran(Err(e)) ==> call is IsCancelled && next.stage
                == BatchStageModel::AskingAfterFailure(e@)
            &&& m.stage matches BatchStageModel::AskingAfterFailure(e) ==> {
                &&& next.stage == BatchStageModel::Saving(AfterSaveModel::Fail(e))
                &&& call matches BatchCallModel::Save { status, error } && error == Some(e)
                    && status == if reply == BatchReply::Cancelled(true) {
                    BatchStatus::Cancelled
                } else {
                    BatchStatus::Failed
                }
            }
            &&& (m.stage is AskingBefore || m.stage is AskingAtEnd) && reply
                == BatchReply::Cancelled(true) ==> {
                &&& call == (BatchCallModel::Save { status: BatchStatus::Cancelled, error: None })
                &&& next.stage matches BatchStageModel::Saving(after) && after is Fail
            }
            &&& call is Save && call->status == BatchStatus::Complete ==> m.stage is AskingAtEnd
                && reply == BatchReply::Cancelled(false) && records.len() == 4
            &&& m.stage is AskingAtEnd && reply == BatchReply::Cancelled(false) ==> call == (
            BatchCallModel::Save { status: BatchStatus::Complete, error: None })
        }),
{
}

/// A record adds what it has available and what it compiled to the batch's totals; a
/// failed part adds nothing.
pub proof fn records_add_up(records: Seq<PartRecord>, record: PartRecord)
    ensures
        ({
            let n = records.len() as int;
            let more = records.push(record);
            &&& available_sum(more, n + 1) == available_sum(records, n) + record_available(record)
            &&& compiled_sum(more, n + 1) == compiled_sum(records, n) + record_compiled(record)
            &&& available_sum(records, 0) == 0 && compiled_sum(records, 0) == 0
            &&& record matches PartRecord::Validated(v) ==> record_available(record)
                == v.available && record_compiled(record) == v.compiler_calls
            &&& record is Failed ==> record_available(record) == 0 && record_compiled(record) == 0
        }),
{
    summed_alike(records, records.push(record), records.len() as int);
}

proof fn summed_alike(a: Seq<PartRecord>, b: Seq<PartRecord>, n: int)
    requires
        0 <= n <= a.len(),
        n <= b.len(),
        forall|i: int| 0 <= i < n ==> a[i] == b[i],
    ensures
        available_sum(a, n) == available_sum(b, n),
        compiled_sum(a, n) == compiled_sum(b, n),
    decreases n,
{
    if n > 0 {
        summed_alike(a, b, n - 1);
    }
}

} // verus!
