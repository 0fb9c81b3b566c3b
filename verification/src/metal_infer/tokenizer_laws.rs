//! What a tokenizer must be for its calls to be sure to return.
use crate::json::{array_at, array_of, at, at2, bool_at, natural_at, natural_of, text_at, JsonModel};
use crate::metal_infer::session::{case_passes, labelled_text, named_prompt};
use crate::metal_infer::tokenizer::{
    added_tokens_document, added_total, decoder_document, decoder_total, decodes, draws_nothing,
    encodes_all, is_special, items_total, kept_tokens, list_key, model_dropout,
    normalizer_document, normalizer_total, padding_document, padding_total, part_total,
    post_processor_document, pre_tokenizer_document, pre_tokenizer_total, processor_gives,
    sequences_in, single_decodes, strips, template_gives, token_of_id, truncation_document,
    truncation_total, Part,
};
use vstd::prelude::*;

verus! {

/// A truncation that is taken advances: what it keeps of one window is shorter than the
/// window, unless it keeps nothing at all.
pub proof fn truncations_advance(document: JsonModel)
    requires
        !(document is Null),
    ensures
        truncation_total(document) <==> {
            &&& natural_at(document, "max_length"@) is Some
            &&& natural_at(document, "stride"@) is Some
            &&& natural_at(document, "max_length"@) == Some(0u64) || natural_at(
                document,
                "stride"@,
            )->0 < natural_at(document, "max_length"@)->0
        },
        truncation_total(JsonModel::Null),
{
}

/// A padding that is taken has lengths of thirty-two bits.
pub proof fn paddings_are_bounded(document: JsonModel)
    ensures
        padding_total(document) <==> {
            &&& at2(document, "strategy"@, "Fixed"@) matches Some(n) ==> natural_of(n) is Some
                && natural_of(n)->0 < 0x1_0000_0000
            &&& at(document, "pad_to_multiple_of"@) matches Some(n) ==> n is Null || (natural_of(n)
                is Some && natural_of(n)->0 < 0x1_0000_0000)
        },
{
}

/// Added tokens that are taken do not strip from both sides: where one strips to its
/// right, none strips only to its left.
pub proof fn added_tokens_strip_one_way(document: JsonModel, tokens: Seq<JsonModel>, i: int, j: int)
    requires
        array_of(document) == Some(tokens),
        added_total(document),
        0 <= i < tokens.len(),
        0 <= j < tokens.len(),
        bool_at(tokens[i], "rstrip"@) == Some(true),
        bool_at(tokens[j], "lstrip"@) == Some(true),
    ensures
        bool_at(tokens[j], "rstrip"@) == Some(true),
{
}

/// A sequence is taken where each of its parts is; a part is taken for what it is.
pub proof fn sequences_take_every_part(
    part: Part,
    document: JsonModel,
    items: Seq<JsonModel>,
    depth: nat,
    i: int,
)
    requires
        depth > 0,
        0 <= i < items.len(),
    ensures
        part_total(part, document, depth) && text_at(document, "type"@) == Some("Sequence"@)
            && array_at(document, list_key(part)) == Some(items) ==> part_total(
            part,
            items[i],
            (depth - 1) as nat,
        ),
        text_at(document, "type"@) != Some("Sequence"@) ==> (part_total(
            Part::Normalizer,
            document,
            depth,
        ) <==> normalizer_total(document)) && (part_total(Part::PreTokenizer, document, depth)
            <==> pre_tokenizer_total(document)),
        list_key(Part::Normalizer) == "normalizers"@,
        list_key(Part::PreTokenizer) == "pretokenizers"@,
        !part_total(part, document, 0),
{
    if part_total(part, document, depth) && text_at(document, "type"@) == Some("Sequence"@)
        && array_at(document, list_key(part)) == Some(items) {
        items_taken(part, items, items.len(), (depth - 1) as nat, i);
    }
}

proof fn items_taken(part: Part, items: Seq<JsonModel>, n: nat, depth: nat, i: int)
    requires
        items_total(part, items, n, depth),
        0 <= i < n <= items.len(),
    ensures
        part_total(part, items[i], depth),
    decreases n,
{
    if i < n - 1 {
        items_taken(part, items, (n - 1) as nat, depth, i);
    }
}

/// A split of fixed length has one that is not zero.
pub proof fn fixed_splits_have_a_length(document: JsonModel)
    requires
        pre_tokenizer_total(document),
        text_at(document, "type"@) == Some("FixedLength"@),
    ensures
        natural_at(document, "length"@) is Some && natural_at(document, "length"@) != Some(0u64),
{
}

/// A normalizer that prepends or replaces has something to prepend and something to
/// replace.
pub proof fn normalizers_have_what_they_need(document: JsonModel)
    requires
        normalizer_total(document),
    ensures
        document is Null || text_at(document, "type"@) is Some,
        text_at(document, "type"@) == Some("Prepend"@) ==> text_at(document, "prepend"@) is Some
            && text_at(document, "prepend"@)->0.len() > 0,
        text_at(document, "type"@) == Some("Replace"@) ==> at(document, "pattern"@) is Some
            && text_at(at(document, "pattern"@)->0, "String"@) is Some && text_at(
            at(document, "pattern"@)->0,
            "String"@,
        )->0.len() > 0,
{
    reveal_strlit("Prepend");
    reveal_strlit("Replace");
    reveal_strlit("Precompiled");
    reveal_strlit("BertNormalizer");
    reveal_strlit("Strip");
    reveal_strlit("StripAccents");
    reveal_strlit("NFC");
    reveal_strlit("NFD");
    reveal_strlit("NFKC");
    reveal_strlit("NFKD");
    reveal_strlit("Lowercase");
    reveal_strlit("Nmt");
    reveal_strlit("ByteLevel");
    assert("Prepend"@.len() == 7 && "Prepend"@[0] == 'P');
    assert("Replace"@.len() == 7 && "Replace"@[0] == 'R');
    assert("Precompiled"@.len() == 11 && "BertNormalizer"@.len() == 14 && "Strip"@.len() == 5);
    assert("StripAccents"@.len() == 12 && "NFC"@.len() == 3 && "NFD"@.len() == 3);
    assert("NFKC"@.len() == 4 && "NFKD"@.len() == 4 && "Lowercase"@.len() == 9);
    assert("Nmt"@.len() == 3 && "ByteLevel"@.len() == 9);
}

/// A template gives as many sequences as it names; any other processor gives what it
/// got, and processors in a row hand over what they give.
pub proof fn processors_hand_over_their_sequences(document: JsonModel, count: nat, depth: nat)
    requires
        depth > 0,
        text_at(document, "type"@) != Some("Sequence"@),
    ensures
        text_at(document, "type"@) == Some("TemplateProcessing"@) ==> processor_gives(
            document,
            count,
            depth,
        ) == template_gives(document, count),
        text_at(document, "type"@) != Some("TemplateProcessing"@) ==> processor_gives(
            document,
            count,
            depth,
        ) == Some(count),
        count != 1 && count != 2 ==> template_gives(document, count) is None,
{
}

/// A piece that names a sequence counts as one more.
pub proof fn named_sequences_are_counted(pieces: Seq<JsonModel>, n: int)
    requires
        0 <= n < pieces.len(),
    ensures
        sequences_in(pieces, n + 1) == sequences_in(pieces, n) + if at(
            pieces[n],
            "Sequence"@,
        ) is Some {
            1nat
        } else {
            0nat
        },
        sequences_in(pieces, 0) == 0,
{
}

/// A token whose every character is stripped is stripped from no more than it has.
pub proof fn strips_stay_within_the_token(token: Seq<char>, content: Seq<char>, start: u64, stop: u64)
    requires
        strips(token, content, start, stop),
        forall|i: int| 0 <= i < token.len() ==> seq![#[trigger] token[i]] == content,
    ensures
        stop <= token.len(),
        start <= token.len() ==> start + stop <= token.len(),
{
}

/// The tokens that a decoder sees are those of its ids, in order, without the special
/// ones and without those that have none.
pub proof fn decoders_see_the_plain_tokens(tokenizer: tokenizers::Tokenizer, ids: Seq<u32>, id: u32)
    ensures
        kept_tokens(tokenizer, Seq::empty()).len() == 0,
        kept_tokens(tokenizer, ids.push(id)) == match token_of_id(tokenizer, id) {
            Some(token) => if is_special(tokenizer, token) {
                kept_tokens(tokenizer, ids)
            } else {
                kept_tokens(tokenizer, ids).push(token)
            },
            None => kept_tokens(tokenizer, ids),
        },
{
    assert(ids.push(id).drop_last() =~= ids);
}

/// A decoder of byte pairs is taken only where there is a token to decode.
pub proof fn pair_decoders_take_a_token(document: JsonModel, tokens: Seq<Seq<char>>)
    requires
        text_at(document, "type"@) == Some("BPEDecoder"@),
    ensures
        single_decodes(document, Some(tokens)) <==> tokens.len() > 0,
        !single_decodes(document, None),
        decoder_total(document, Some(tokens), 1) <==> tokens.len() > 0,
{
    reveal_strlit("BPEDecoder");
    reveal_strlit("Strip");
    reveal_strlit("Replace");
    reveal_strlit("Sequence");
    assert("BPEDecoder"@.len() == 10 && "Strip"@.len() == 5 && "Replace"@.len() == 7);
    assert("Sequence"@.len() == 8);
}

/// A tokenizer whose every part is taken encodes any text; one without dropout, or with
/// none at all, encodes it alike each time.
pub proof fn tokenizers_are_taken_part_by_part(tokenizer: tokenizers::Tokenizer, ids: Seq<u32>)
    ensures
        encodes_all(tokenizer) <==> {
            &&& truncation_document(tokenizer) matches Ok(d) && truncation_total(d)
            &&& padding_document(tokenizer) matches Ok(d) && padding_total(d)
            &&& added_tokens_document(tokenizer) matches Ok(d) && added_total(d)
            &&& normalizer_document(tokenizer) matches Ok(d) && part_total(
                Part::Normalizer,
                d,
                128,
            )
            &&& pre_tokenizer_document(tokenizer) matches Ok(d) && part_total(
                Part::PreTokenizer,
                d,
                128,
            )
            &&& post_processor_document(tokenizer) matches Ok(d) && processor_gives(d, 1, 128)
                is Some
        },
        decodes(tokenizer, ids) <==> (decoder_document(tokenizer) matches Ok(d) && decoder_total(
            d,
            Some(kept_tokens(tokenizer, ids)),
            128,
        )),
        draws_nothing(tokenizer) <==> model_dropout(tokenizer) is None || model_dropout(tokenizer)
            == Some(0u32) || model_dropout(tokenizer) == Some(0x8000_0000u32),
{
}

/// An answer of a tokenizer is handed on as it is; a refusal is handed on under what was
/// asked for.
pub proof fn answers_are_handed_on(text: Seq<char>, ids: Seq<u32>, e: Seq<char>, label: Seq<char>)
    ensures
        labelled_text(Ok(text), label) == Ok::<Seq<char>, Seq<char>>(text),
        labelled_text(Err(e), label) == Err::<Seq<char>, Seq<char>>(
            "decode "@ + label + " token IDs: "@ + e,
        ),
        named_prompt(Ok(ids)) == Ok::<Seq<u32>, Seq<char>>(ids),
        named_prompt(Err(e)) == Err::<Seq<u32>, Seq<char>>("--prompt "@ + e),
        case_passes(None),
{
}

} // verus!
