//! What a handoff takes, checks and continues.
use crate::disagg::prefill_case::{PrefillAnswer, PrefillCounters};
use crate::disagg::references::{id_list, indexed};
use crate::handoff::{
    continuation_outcome, ids_from, layer_outcome, nonzero, option_read, options_from,
    reference_of, request_outcome, start_outcome, vocabulary_outcome, CacheShape, HandoffModel,
    VerifiedModel,
};
use crate::json::JsonModel;
use crate::text::{numeral, split, NumeralFault};
use vstd::prelude::*;

verus! {

proof fn flags_differ()
    ensures
        "--model-dir"@.len() == 11,
        "--output-dir"@.len() == 12,
        "--hf-reference"@.len() == 14,
        "--prompt-token-ids"@.len() == 18 && "--prompt-token-ids"@[2] == 'p',
        "--max-total-tokens"@.len() == 18 && "--max-total-tokens"@[2] == 'm',
{
    reveal_strlit("--model-dir");
    reveal_strlit("--output-dir");
    reveal_strlit("--hf-reference");
    reveal_strlit("--prompt-token-ids");
    reveal_strlit("--max-total-tokens");
}

/// Whether reading an option leaves these settings.
pub open spec fn sets(r: Result<HandoffModel, Seq<char>>, settings: HandoffModel) -> bool {
    r matches Ok(next) && next == settings
}

/// An option sets what it names, and nothing else; any other name is refused.
pub proof fn options_set_what_they_name(d: HandoffModel, v: Seq<char>, flag: Seq<char>)
    ensures
        sets(option_read(d, "--model-dir"@, v), (HandoffModel { model_dir: Some(v), ..d })),
        sets(option_read(d, "--output-dir"@, v), (HandoffModel { output_dir: Some(v), ..d })),
        sets(option_read(d, "--hf-reference"@, v), (HandoffModel { reference: Some(v), ..d })),
        ids_from(split(v, ','), 0, Seq::empty()) matches Ok(prompt) ==> sets(
            option_read(d, "--prompt-token-ids"@, v),
            (HandoffModel { prompt, ..d }),
        ),
        ids_from(split(v, ','), 0, Seq::empty()) is Err ==> option_read(
            d,
            "--prompt-token-ids"@,
            v,
        ) is Err,
        numeral(v, usize::MAX as nat) matches Ok(n) ==> sets(
            option_read(d, "--max-total-tokens"@, v),
            (HandoffModel { capacity: n as usize, ..d }),
        ),
        numeral(v, usize::MAX as nat) is Err ==> option_read(d, "--max-total-tokens"@, v) is Err,
        option_read(d, flag, v) is Ok ==> flag == "--model-dir"@ || flag == "--output-dir"@ || flag
            == "--hf-reference"@ || flag == "--prompt-token-ids"@ || flag == "--max-total-tokens"@,
{
    flags_differ();
}

/// Options are read two arguments at a time, from the first on.
pub proof fn options_are_read_in_order(args: Seq<Seq<char>>, i: int, d: HandoffModel)
    requires
        0 <= i < args.len(),
    ensures
        i + 1 == args.len() ==> options_from(args, i, d) is Err,
        i + 1 < args.len() ==> match option_read(d, args[i], args[i + 1]) {
            Ok(next) => options_from(args, i, d) == options_from(args, i + 2, next),
            Err(e) => options_from(args, i, d) == Err::<HandoffModel, Seq<char>>(e),
        },
        options_from(args, args.len() as int, d) == Ok::<HandoffModel, Seq<char>>(d),
{
}

/// A list of ids holds a number for each piece, in the order written.
pub proof fn id_lists_hold_every_piece(pieces: Seq<Seq<char>>, i: int, read: Seq<u32>)
    requires
        0 <= i <= pieces.len(),
    ensures
        ids_from(pieces, i, read) is Ok <==> forall|k: int|
            i <= k < pieces.len() ==> numeral(#[trigger] pieces[k], 0xffff_ffff) is Ok,
        ids_from(pieces, i, read) matches Ok(ids) ==> {
            &&& ids.len() == read.len() + pieces.len() - i
            &&& forall|k: int| 0 <= k < read.len() ==> ids[k] == read[k]
            &&& forall|k: int|
                i <= k < pieces.len() ==> numeral(#[trigger] pieces[k], 0xffff_ffff) == Ok::<
                    nat,
                    NumeralFault,
                >(ids[read.len() + k - i] as nat)
        },
    decreases pieces.len() - i,
{
    if i < pieces.len() {
        crate::text_laws::numerals_are_bounded(pieces[i], 0xffff_ffff);
        if numeral(pieces[i], 0xffff_ffff) is Ok {
            let id = numeral(pieces[i], 0xffff_ffff)->Ok_0 as u32;
            let more = read.push(id);
            id_lists_hold_every_piece(pieces, i + 1, more);
            if ids_from(pieces, i, read) is Ok {
                let ids = ids_from(pieces, i, read)->Ok_0;
                assert(ids[read.len() as int] == more[read.len() as int]);
                assert forall|k: int| 0 <= k < read.len() implies ids[k] == read[k] by {
                    assert(more[k] == read[k]);
                }
                assert forall|k: int| i <= k < pieces.len() implies numeral(
                    #[trigger] pieces[k],
                    0xffff_ffff,
                ) == Ok::<nat, NumeralFault>(ids[read.len() + k - i] as nat) by {
                    if k > i {
                        assert(i + 1 <= k);
                        assert(more.len() + k - (i + 1) == read.len() + k - i);
                    }
                }
            }
        }
    }
}

/// How many tokens a number of tiles holds.
pub open spec fn tiled(tiles: int) -> int {
    32 * tiles
}

/// A handoff takes a model, a place for its output, and a prompt that fits a capacity
/// of whole tiles of thirty-two.
pub proof fn requests_fit_their_capacity(o: HandoffModel)
    requires
        o.prompt.len() <= u32::MAX,
    ensures
        request_outcome(o) is Ok <==> {
            &&& o.model_dir is Some
            &&& o.output_dir is Some
            &&& 0 < o.prompt.len() <= o.capacity
            &&& exists|tiles: int| o.capacity == #[trigger] tiled(tiles)
        },
{
    if o.capacity % 32 == 0 {
        assert(o.capacity == tiled(o.capacity as int / 32));
    }
}

/// A reference continues the very prompt, by at least one token, within the capacity;
/// its tokens are those that it lists.
pub proof fn references_continue_the_prompt(
    document: JsonModel,
    prompt: Seq<u32>,
    capacity: usize,
)
    ensures
        reference_of(document, prompt, capacity) is Ok <==> {
            let generated = id_list(indexed(document, "generated_tokens"@));
            &&& id_list(indexed(document, "prompt_token_ids"@)) == Ok::<Seq<u32>, Seq<char>>(prompt)
            &&& generated is Ok && generated->Ok_0.len() > 0
            &&& prompt.len() + generated->Ok_0.len() <= capacity + 1
        },
        reference_of(document, prompt, capacity) is Ok ==> reference_of(document, prompt, capacity)
            == id_list(indexed(document, "generated_tokens"@)),
{
}

/// The tokens of a prompt and of its reference are the checkpoint's, and nothing
/// follows a token that ends a sequence.
pub proof fn tokens_are_of_the_vocabulary(
    prompt: Seq<u32>,
    reference: Option<Seq<u32>>,
    vocabulary: usize,
    eos: Seq<u32>,
)
    ensures
        vocabulary_outcome(prompt, reference, vocabulary, eos) is Ok <==> {
            &&& forall|i: int| 0 <= i < prompt.len() ==> (#[trigger] prompt[i]) < vocabulary
            &&& reference matches Some(g) ==> {
                &&& forall|i: int| 0 <= i < g.len() ==> (#[trigger] g[i]) < vocabulary
                &&& forall|i: int| 0 <= i && i + 1 < g.len() ==> !eos.contains(#[trigger] g[i])
            }
        },
{
}

/// A decode starts where one prefill, in one command buffer and with nothing decoded,
/// left the request at the end of its prompt, at the first token of the reference.
pub proof fn decodes_start_where_the_prefill_ended(
    counters: PrefillCounters,
    answer: PrefillAnswer,
    owner: u64,
    prompt_len: usize,
    expected: Option<u32>,
)
    ensures
        start_outcome(counters, answer, owner, prompt_len, expected) is Ok <==> {
            &&& counters.prefill_steps == 1
            &&& counters.decode_steps == 0
            &&& counters.command_buffers == 1
            &&& answer.req_id == owner
            &&& answer.next_position == prompt_len
            &&& expected is Some ==> expected == Some(answer.first_token)
        },
{
}

/// A number counts as filled unless it is a zero, of either sign.
pub proof fn zeros_of_either_sign_are_empty(values: Seq<u16>, n: int)
    requires
        0 <= n < values.len(),
    ensures
        nonzero(values, n + 1) == nonzero(values, n) + if values[n] == 0 || values[n] == 0x8000 {
            0nat
        } else {
            1nat
        },
        nonzero(values, 0) == 0,
{
    let v = values[n];
    assert(v % 0x8000 == 0 <==> v == 0 || v == 0x8000) by (bit_vector);
}

/// A captured layer has the checkpoint's shape, and keys and values that are not empty.
pub proof fn layers_are_of_the_checkpoint(
    index: usize,
    captured: CacheShape,
    layout: CacheShape,
    keys: nat,
    values: nat,
)
    ensures
        layer_outcome(index, captured, layout, keys, values) is Ok <==> {
            &&& captured.query_heads == layout.query_heads
            &&& captured.kv_heads == layout.kv_heads
            &&& captured.head_dim == layout.head_dim
            &&& captured.sliding_window == layout.sliding_window
            &&& keys > 0
            &&& values > 0
        },
{
}

/// A continuation feeds the last token that it generated, at the position that follows
/// the prompt and the tokens before it, until it has as many as the reference.
pub proof fn continuations_feed_the_last_token(c: VerifiedModel)
    requires
        c.well_formed(),
        c.prompt_len + c.reference.len() <= u32::MAX,
    ensures
        c.due() is Ok,
        c.due()->Ok_0 is None <==> c.generated.len() == c.reference.len(),
        c.due()->Ok_0 matches Some(decode) ==> {
            &&& decode.token == c.generated[c.generated.len() - 1]
            &&& decode.position + 1 == c.prompt_len + c.generated.len()
        },
{
}

/// A step continues with the one token of its request that the reference expects.
pub proof fn continuations_follow_the_reference(
    outputs: Seq<(u64, u32)>,
    owner: u64,
    expected: u32,
    position: u32,
)
    ensures
        continuation_outcome(outputs, owner, expected, position) is Ok <==> outputs.len() == 1
            && outputs[0] == (owner, expected),
        continuation_outcome(outputs, owner, expected, position) is Ok ==> continuation_outcome(
            outputs,
            owner,
            expected,
            position,
        ) == Ok::<u32, Seq<char>>(outputs[0].1),
{
}

} // verus!
