//! What a prefill is checked for, and which references and prompts it takes.
use crate::disagg::prefill_case::{
    command_kept, dispatch_outcome, half_encoding, kernels_outcome, prefill_outcome,
    screen_verdict_of, two_digits, KernelChoice, PrefillAnswer, PrefillCounters,
};
use crate::disagg::prefill_screen::{screen_outcome, selection_outcome, PrefillScreenOptions, Selector};
use crate::disagg::references::{
    batch_outcome, id_items, id_list, indexed, line_meaning, longest, reference_in,
    text_budget_outcome, Reference,
};
use crate::json::{natural_of, text_at, JsonModel};
use crate::paths::file_name;
use crate::text::{decimal, trimmed};
use vstd::prelude::*;

verus! {

// ---------------------------------------------------------------------------
// Checks
// ---------------------------------------------------------------------------

/// A kernel is used where the environment asks for it or selects none of its kind, and
/// never with a coarser accumulation.
pub proof fn kernels_are_used_unless_another_is_selected(
    environment: KernelChoice,
    gemm: bool,
    attention: bool,
)
    ensures
        kernels_outcome(environment, gemm, attention) is Err
            <==> environment.quantized_bf16_accumulation,
        kernels_outcome(environment, gemm, attention) matches Ok(k) ==> {
            &&& !k.quantized_bf16_accumulation
            &&& k.prefill_mma32 <==> !gemm || environment.prefill_mma32
            &&& k.prefill_simd_attention <==> !attention || environment.prefill_simd_attention
        },
{
}

/// A report of dispatches holds what was requested, what was counted, and whether the
/// selection and its whole family were exercised, each in its place.
pub proof fn dispatches_are_reported_in_place(
    requested: Seq<char>,
    counts: Seq<u64>,
    selection: bool,
    family: bool,
    e: Seq<char>,
)
    ensures
        ({
            let r = dispatch_outcome(requested, Ok(counts), Ok(selection), Ok(family));
            &&& r is Ok
            &&& r->Ok_0.requested == requested
            &&& r->Ok_0.encoded_dispatches == counts
            &&& r->Ok_0.selection_exercised == selection
            &&& r->Ok_0.complete_family_exercised == family
        }),
        dispatch_outcome(requested, Err(e), Ok(selection), Ok(family)) is Err,
        dispatch_outcome(requested, Ok(counts), Err(e), Ok(family)) is Err,
        dispatch_outcome(requested, Ok(counts), Ok(selection), Err(e)) is Err,
{
}

/// A screen passes where every case exercised what it asked for.
pub proof fn screens_exercise_every_case(exercised: Seq<bool>)
    ensures
        screen_verdict_of(exercised) is Ok <==> !exercised.contains(false),
{
    if !exercised.contains(false) {
        assert forall|i: int| 0 <= i < exercised.len() implies #[trigger] exercised[i] by {
            if !exercised[i] {
                assert(exercised.contains(false));
            }
        }
    }
}

/// A prefill took one step in one command buffer and decoded nothing; it left its own
/// request at the end of its prompt.
pub proof fn prefills_take_one_command(
    before: PrefillCounters,
    after: PrefillCounters,
    owner: u64,
    prompt_len: usize,
    answer: PrefillAnswer,
)
    ensures
        command_kept(before, after, owner, prompt_len, answer) <==> {
            &&& after.prefill_steps - before.prefill_steps == 1
            &&& after.command_buffers - before.command_buffers == 1
            &&& after.decode_steps - before.decode_steps == 0
            &&& answer.req_id == owner
            &&& answer.next_position == prompt_len
        },
{
}

/// A prefill holds where its command was kept, its dispatch had no fault, it can capture
/// what it must, and its first token is the reference's.
pub proof fn prefills_hold_by_their_first_token(
    kept: bool,
    fault: Option<Seq<char>>,
    capture: bool,
    directory: bool,
    first: u32,
    expected: Option<u32>,
)
    ensures
        prefill_outcome(kept, fault, capture, directory, first, expected) is Ok <==> {
            &&& kept
            &&& fault is None
            &&& capture ==> directory
            &&& expected is Some ==> expected == Some(first)
        },
{
}

/// A number of two digits is never shorter, and is otherwise the number itself.
pub proof fn two_digits_are_padded_with_a_zero(n: nat)
    ensures
        two_digits(n).len() >= 2,
        n >= 10 ==> two_digits(n) == decimal(n),
        n < 10 ==> two_digits(n).len() == 2 && two_digits(n)[0] == '0' && two_digits(n).skip(1)
            == decimal(n),
{
    reveal_strlit("0");
    assert("0"@.len() == 1 && "0"@[0] == '0');
    crate::text_laws::decimals_are_shortest(n);
    if n < 10 {
        assert(decimal(n).len() == 1);
        assert(two_digits(n).skip(1) =~= decimal(n));
    } else {
        crate::text_laws::decimals_are_shortest(n / 10);
        assert(decimal(n).len() == decimal(n / 10).len() + 1);
    }
}

/// A number is written in two bytes, the lower first.
pub proof fn halves_are_two_bytes(values: Seq<u16>, i: int)
    requires
        0 <= i < values.len(),
    ensures
        half_encoding(values).len() == 2 * values.len(),
        half_encoding(values)[2 * i] + 256 * half_encoding(values)[2 * i + 1] == values[i],
{
    assert((2 * i) % 2 == 0 && (2 * i) / 2 == i);
    assert((2 * i + 1) % 2 == 1 && (2 * i + 1) / 2 == i);
}

/// A screen that only prefills takes one to sixteen references and a place to report to,
/// and nothing that decodes, compiles, prepares or keeps anything; without it anything
/// goes.
pub proof fn screens_take_references_alone(o: PrefillScreenOptions)
    ensures
        !o.enabled ==> screen_outcome(o) is Ok,
        o.enabled ==> (screen_outcome(o) is Ok <==> {
            &&& 1 <= o.reference_count <= 16
            &&& o.output_requested
            &&& !o.text_input && !o.interactive && !o.interleave && !o.retain_metal
            &&& !o.runtime_worker && !o.capture_ane && !o.cache_operation
            &&& !o.nonbaseline_ane && !o.nonbaseline_packing
            &&& o.compile_budget == 0
        }),
{
}

/// What was asked for by name is what was resolved; where nothing was, nothing was.
pub proof fn selections_are_resolved_as_asked(requested: Selector, resolved: u32)
    ensures
        selection_outcome(requested, resolved) is Ok <==> match requested {
            Selector::Parsed(asked) => asked == resolved,
            Selector::NotPresent => resolved == 0,
            _ => false,
        },
{
}

// ---------------------------------------------------------------------------
// References
// ---------------------------------------------------------------------------

/// A list of ids is an array of numbers of thirty-two bits, taken in order.
pub proof fn id_lists_are_taken_in_order(document: JsonModel, items: Seq<JsonModel>, i: int)
    requires
        document == JsonModel::Array(items),
    ensures
        id_list(document) is Ok <==> forall|k: int|
            0 <= k < items.len() ==> natural_of(#[trigger] items[k]) is Some && natural_of(
                items[k],
            )->0 < 0x1_0000_0000,
        id_list(document) is Ok ==> id_list(document)->Ok_0.len() == items.len(),
        id_list(document) is Ok && 0 <= i < items.len() ==> natural_of(items[i]) is Some
            && natural_of(items[i])->0 == id_list(document)->Ok_0[i],
{
    if id_list(document) is Ok && 0 <= i < items.len() {
        assert(natural_of(items[i]) is Some);
    }
}

/// A reference that is accepted is of the checkpoint's revision; its prompt and its
/// output are those that it lists, known tokens that fit the context, the output ending
/// where a sequence first ends, and as many tokens are asked for as it has.
pub proof fn references_are_of_the_checkpoint(
    path: Seq<char>,
    document: JsonModel,
    model_dir: Seq<char>,
    capacity: usize,
    eos: Seq<u32>,
    i: int,
)
    requires
        capacity < usize::MAX,
        reference_in(path, document, model_dir, capacity, eos) is Ok,
    ensures
        ({
            let r = reference_in(path, document, model_dir, capacity, eos)->Ok_0;
            &&& r.path == Some(path)
            &&& id_list(indexed(document, "prompt_token_ids"@)) == Ok::<Seq<u32>, Seq<char>>(r.prompt)
            &&& r.generated is Some
            &&& id_list(indexed(document, "generated_tokens"@)) == Ok::<Seq<u32>, Seq<char>>(
                r.generated->0,
            )
            &&& r.max_new_tokens == r.generated->0.len()
            &&& r.prompt.len() > 0 && r.generated->0.len() > 0
            &&& r.prompt.len() + r.generated->0.len() <= capacity + 1
            &&& 0 <= i < r.prompt.len() ==> r.prompt[i] < 262144
            &&& 0 <= i < r.generated->0.len() ==> r.generated->0[i] < 262144
            &&& 0 <= i && i + 1 < r.generated->0.len() ==> !eos.contains(r.generated->0[i])
            &&& file_name(model_dir) is Some
            &&& match text_at(document, "model_revision"@) {
                Some(revision) => file_name(model_dir) == Some(revision),
                None => text_at(document, "model_dir"@) is Some && file_name(
                    text_at(document, "model_dir"@)->0,
                ) == file_name(model_dir),
            }
        }),
{
    let r = reference_in(path, document, model_dir, capacity, eos)->Ok_0;
    if 0 <= i < r.prompt.len() {
        let _ = r.prompt[i];
    }
    if 0 <= i < r.generated->0.len() {
        let _ = r.generated->0[i];
    }
}

/// A prompt and the tokens asked for fit where all but the last of them have a place.
pub proof fn budgets_count_all_but_the_last(prompt: nat, fresh: usize, capacity: usize)
    ensures
        text_budget_outcome(prompt, fresh, capacity) is Ok <==> prompt > 0 && fresh > 0 && prompt
            + fresh <= capacity + 1,
{
}

/// A session ends with its input, passes over a blank line, and takes any other as a
/// prompt.
pub proof fn lines_are_prompts_unless_blank(bytes: usize, line: Seq<char>)
    ensures
        line_meaning(bytes, line) is EndOfInput <==> bytes == 0,
        line_meaning(bytes, line) is Prompt <==> bytes > 0 && trimmed(line).len() > 0,
{
}

/// A batch has room for its longest prompt and no more; interleaved, for the whole
/// context.
pub proof fn batches_are_as_long_as_a_prompt(references: Seq<Reference>, capacity: usize)
    requires
        references.len() > 0,
    ensures
        batch_outcome(true, capacity, references) == Ok::<usize, Seq<char>>(capacity),
        batch_outcome(false, capacity, references) is Ok,
        exists|i: int|
            0 <= i < references.len() && (#[trigger] references[i]).prompt@.len() == longest(
                references,
            ),
        forall|i: int|
            0 <= i < references.len() ==> (#[trigger] references[i]).prompt@.len() <= longest(
                references,
            ),
    decreases references.len(),
{
    let rest = references.drop_last();
    if rest.len() > 0 {
        batches_are_as_long_as_a_prompt(rest, capacity);
        assert forall|i: int| 0 <= i < references.len() implies (
        #[trigger] references[i]).prompt@.len() <= longest(references) by {
            if i < rest.len() {
                assert(rest[i] == references[i]);
            }
        }
        if references.last().prompt@.len() > longest(rest) {
            assert(references[references.len() - 1].prompt@.len() == longest(references));
        } else {
            let i = choose|i: int|
                0 <= i < rest.len() && (#[trigger] rest[i]).prompt@.len() == longest(rest);
            assert(references[i].prompt@.len() == longest(references));
        }
    } else {
        assert(longest(rest) == 0);
        assert(references[0].prompt@.len() == longest(references));
    }
}

/// The ids of a workload are written one after another, parted by commas.
pub proof fn ids_are_written_in_order(ids: Seq<u32>, id: u32)
    ensures
        id_items(Seq::empty()).len() == 0,
        id_items(seq![id]) == decimal(id as nat),
        ids.len() > 0 ==> id_items(ids.push(id)) == id_items(ids) + ","@ + decimal(id as nat),
{
    assert(seq![id][0] == id);
    assert(ids.push(id).drop_last() =~= ids);
}

} // verus!
