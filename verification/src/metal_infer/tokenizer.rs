//! Tokenizers: how they are configured, which configurations encode and decode
//! every input, and what they answer.
use crate::json::{
    array_at, array_of, as_natural, at, at2, bool_at, elements, is_null, json_model, member,
    member2, member_array, member_flag, member_natural, member_text, models, natural_at, natural_of,
    parsed, text_at, JsonModel,
};
use crate::metal_infer::args::ids_told;
use crate::metal_infer::charsmap::{check_map, map_total, octets, octets_of};
use crate::text::{chars_of, opt_text, same, texts};
use vstd::prelude::*;

verus! {

#[verifier::external_type_specification]
#[verifier::external_body]
pub struct ExTokenizer(tokenizers::Tokenizer);

// ---------------------------------------------------------------------------
// The configuration
// ---------------------------------------------------------------------------

/// A tokenizer's truncation as a document; null where it has none.
pub uninterp spec fn truncation_document(tokenizer: tokenizers::Tokenizer) -> Result<
    JsonModel,
    Seq<char>,
>;

/// `Tokenizer::get_truncation`, written down by `serde_json::to_value`. The
/// document is named.
#[verifier::external_body]
fn read_truncation(tokenizer: &tokenizers::Tokenizer) -> (r: Result<serde_json::Value, String>)
    ensures
        parsed(r) == truncation_document(*tokenizer),
{
    serde_json::to_value(tokenizer.get_truncation()).map_err(|error| error.to_string())
}

/// A tokenizer's padding as a document; null where it has none.
pub uninterp spec fn padding_document(tokenizer: tokenizers::Tokenizer) -> Result<
    JsonModel,
    Seq<char>,
>;

/// `Tokenizer::get_padding`, written down by `serde_json::to_value`. The document
/// is named.
#[verifier::external_body]
fn read_padding(tokenizer: &tokenizers::Tokenizer) -> (r: Result<serde_json::Value, String>)
    ensures
        parsed(r) == padding_document(*tokenizer),
{
    serde_json::to_value(tokenizer.get_padding()).map_err(|error| error.to_string())
}

/// A tokenizer's normalizer as a document; null where it has none.
pub uninterp spec fn normalizer_document(tokenizer: tokenizers::Tokenizer) -> Result<
    JsonModel,
    Seq<char>,
>;

/// `Tokenizer::get_normalizer`, written down by `serde_json::to_value`. The
/// document is named.
#[verifier::external_body]
fn read_normalizer(tokenizer: &tokenizers::Tokenizer) -> (r: Result<serde_json::Value, String>)
    ensures
        parsed(r) == normalizer_document(*tokenizer),
{
    serde_json::to_value(tokenizer.get_normalizer()).map_err(|error| error.to_string())
}

/// A tokenizer's pre-tokenizer as a document; null where it has none.
pub uninterp spec fn pre_tokenizer_document(tokenizer: tokenizers::Tokenizer) -> Result<
    JsonModel,
    Seq<char>,
>;

/// `Tokenizer::get_pre_tokenizer`, written down by `serde_json::to_value`. The
/// document is named.
#[verifier::external_body]
fn read_pre_tokenizer(tokenizer: &tokenizers::Tokenizer) -> (r: Result<serde_json::Value, String>)
    ensures
        parsed(r) == pre_tokenizer_document(*tokenizer),
{
    serde_json::to_value(tokenizer.get_pre_tokenizer()).map_err(|error| error.to_string())
}

/// A tokenizer's post-processor as a document; null where it has none.
pub uninterp spec fn post_processor_document(tokenizer: tokenizers::Tokenizer) -> Result<
    JsonModel,
    Seq<char>,
>;

/// `Tokenizer::get_post_processor`, written down by `serde_json::to_value`. The
/// document is named.
#[verifier::external_body]
fn read_post_processor(tokenizer: &tokenizers::Tokenizer) -> (r: Result<serde_json::Value, String>)
    ensures
        parsed(r) == post_processor_document(*tokenizer),
{
    serde_json::to_value(tokenizer.get_post_processor()).map_err(|error| error.to_string())
}

/// A tokenizer's decoder as a document; null where it has none.
pub uninterp spec fn decoder_document(tokenizer: tokenizers::Tokenizer) -> Result<
    JsonModel,
    Seq<char>,
>;

/// `Tokenizer::get_decoder`, written down by `serde_json::to_value`. The document
/// is named.
#[verifier::external_body]
fn read_decoder(tokenizer: &tokenizers::Tokenizer) -> (r: Result<serde_json::Value, String>)
    ensures
        parsed(r) == decoder_document(*tokenizer),
{
    serde_json::to_value(tokenizer.get_decoder()).map_err(|error| error.to_string())
}

/// The tokens added to a tokenizer's vocabulary as a document, by ascending ids.
pub uninterp spec fn added_tokens_document(tokenizer: tokenizers::Tokenizer) -> Result<
    JsonModel,
    Seq<char>,
>;

/// `Tokenizer::get_added_vocabulary`, written down by `serde_json::to_value`. The
/// document is named.
#[verifier::external_body]
fn read_added_tokens(tokenizer: &tokenizers::Tokenizer) -> (r: Result<serde_json::Value, String>)
    ensures
        parsed(r) == added_tokens_document(*tokenizer),
{
    serde_json::to_value(tokenizer.get_added_vocabulary()).map_err(|error| error.to_string())
}

/// The rate at which a tokenizer's model drops merges, as the bits of a float;
/// nothing where it has none, or its model knows no merges.
pub uninterp spec fn model_dropout(tokenizer: tokenizers::Tokenizer) -> Option<u32>;

/// The `dropout` of a BPE model that `Tokenizer::get_model` gives. The rate is
/// named.
#[verifier::external_body]
fn read_dropout(tokenizer: &tokenizers::Tokenizer) -> (r: Option<u32>)
    ensures
        r == model_dropout(*tokenizer),
{
    match tokenizer.get_model() {
        tokenizers::models::ModelWrapper::BPE(model) => model.dropout.map(|rate| rate.to_bits()),
        _ => None,
    }
}

/// The token of an id, where a tokenizer knows it.
pub uninterp spec fn token_of_id(tokenizer: tokenizers::Tokenizer, id: u32) -> Option<Seq<char>>;

/// `Tokenizer::id_to_token`. The vocabulary is the tokenizer's own, so the token is
/// named.
#[verifier::external_body]
fn read_token(tokenizer: &tokenizers::Tokenizer, id: u32) -> (r: Option<String>)
    ensures
        opt_text(r) == token_of_id(*tokenizer, id),
{
    tokenizer.id_to_token(id)
}

/// Whether a token is one of a tokenizer's special tokens.
pub uninterp spec fn is_special(tokenizer: tokenizers::Tokenizer, token: Seq<char>) -> bool;

/// `AddedVocabulary::is_special_token` of a tokenizer's added vocabulary. The set
/// is the tokenizer's own, so the answer is named.
#[verifier::external_body]
fn read_special(tokenizer: &tokenizers::Tokenizer, token: &str) -> (r: bool)
    ensures
        r == is_special(*tokenizer, token@),
{
    tokenizer.get_added_vocabulary().is_special_token(token)
}

// ---------------------------------------------------------------------------
// Which configurations are total
// ---------------------------------------------------------------------------

/// How deep sequences of parts may nest: as deep as a JSON file can.
pub const NESTING: u64 = 128;

/// Truncation needs a stride below the length that it keeps.
pub open spec fn truncation_total(document: JsonModel) -> bool {
    document is Null || match (
        natural_at(document, "max_length"@),
        natural_at(document, "stride"@),
    ) {
        (Some(length), Some(stride)) => length == 0 || stride < length,
        _ => false,
    }
}

fn check_truncation(document: &serde_json::Value) -> (r: bool)
    ensures
        r == truncation_total(json_model(*document)),
{
    if is_null(document) {
        return true;
    }
    match (member_natural(document, "max_length"), member_natural(document, "stride")) {
        (Some(length), Some(stride)) => length == 0 || stride < length,
        _ => false,
    }
}

/// A length that 32 bits count.
pub open spec fn counted(document: JsonModel) -> bool {
    match natural_of(document) {
        Some(n) => n <= u32::MAX,
        None => false,
    }
}

/// Padding needs a length that 32 bits count.
pub open spec fn padding_total(document: JsonModel) -> bool {
    &&& match at2(document, "strategy"@, "Fixed"@) {
        Some(length) => counted(length),
        None => true,
    }
    &&& match at(document, "pad_to_multiple_of"@) {
        Some(multiple) => multiple is Null || counted(multiple),
        None => true,
    }
}

fn check_counted(document: &serde_json::Value) -> (r: bool)
    ensures
        r == counted(json_model(*document)),
{
    match as_natural(document) {
        Some(n) => n <= 0xffff_ffff,
        None => false,
    }
}

fn check_padding(document: &serde_json::Value) -> (r: bool)
    ensures
        r == padding_total(json_model(*document)),
{
    let fixed = match member2(document, "strategy", "Fixed") {
        Some(length) => check_counted(length),
        None => true,
    };
    let multiple = match member(document, "pad_to_multiple_of") {
        Some(multiple) => is_null(multiple) || check_counted(multiple),
        None => true,
    };
    fixed && multiple
}

fn says(document: &serde_json::Value, key: &str, text: &str) -> (r: bool)
    ensures
        r == (text_at(json_model(*document), key@) == Some(text@)),
{
    match member_text(document, key) {
        Some(found) => same(found, text),
        None => false,
    }
}

// ---------------------------------------------------------------------------
// Added tokens
// ---------------------------------------------------------------------------

/// Whether one of the first `n` added tokens strips to its right.
pub open spec fn some_strip_right(tokens: Seq<JsonModel>, n: int) -> bool {
    exists|i: int| 0 <= i < n && bool_at(#[trigger] tokens[i], "rstrip"@) == Some(true)
}

/// Whether one of the first `n` added tokens strips to its left only.
pub open spec fn some_strip_left(tokens: Seq<JsonModel>, n: int) -> bool {
    exists|i: int|
        0 <= i < n && bool_at(#[trigger] tokens[i], "lstrip"@) == Some(true) && bool_at(
            tokens[i],
            "rstrip"@,
        ) != Some(true)
}

/// Where a token takes the spaces to its right, a token within those spaces may
/// start behind its own end: no other token strips to its left only.
pub open spec fn added_total(document: JsonModel) -> bool {
    match array_of(document) {
        Some(tokens) => !(some_strip_right(tokens, tokens.len() as int) && some_strip_left(
            tokens,
            tokens.len() as int,
        )),
        None => false,
    }
}

fn check_added(document: &serde_json::Value) -> (r: bool)
    ensures
        r == added_total(json_model(*document)),
{
    let tokens = match elements(document) {
        Some(tokens) => tokens,
        None => {
            return false;
        },
    };
    let ghost all = models(tokens@);
    let mut right = false;
    let mut left = false;
    let mut i: usize = 0;
    while i < tokens.len()
        invariant
            i <= tokens@.len(),
            all == models(tokens@),
            right == some_strip_right(all, i as int),
            left == some_strip_left(all, i as int),
        decreases tokens@.len() - i,
    {
        assert(all[i as int] == json_model(tokens@[i as int]));
        let rstrip = member_flag(&tokens[i], "rstrip");
        let lstrip = member_flag(&tokens[i], "lstrip");
        let goes_right = match rstrip {
            Some(b) => b,
            None => false,
        };
        let goes_left = match lstrip {
            Some(b) => b,
            None => false,
        };
        let ghost was_right = some_strip_right(all, i as int);
        let ghost was_left = some_strip_left(all, i as int);
        right = right || goes_right;
        left = left || (goes_left && !goes_right);
        proof {
            if goes_right {
                assert(bool_at(all[i as int], "rstrip"@) == Some(true));
            }
            if goes_left && !goes_right {
                assert(bool_at(all[i as int], "lstrip"@) == Some(true));
            }
            assert(some_strip_right(all, i + 1) == (was_right || goes_right)) by {
                if some_strip_right(all, i + 1) && !goes_right {
                    let k = choose|k: int|
                        0 <= k < i + 1 && bool_at(#[trigger] all[k], "rstrip"@) == Some(true);
                    assert(k < i);
                }
            }
            assert(some_strip_left(all, i + 1) == (was_left || (goes_left && !goes_right))) by {
                if some_strip_left(all, i + 1) && !(goes_left && !goes_right) {
                    let k = choose|k: int|
                        0 <= k < i + 1 && bool_at(#[trigger] all[k], "lstrip"@) == Some(true)
                            && bool_at(all[k], "rstrip"@) != Some(true);
                    assert(k < i);
                }
            }
        }
        i = i + 1;
    }
    !(right && left)
}

// ---------------------------------------------------------------------------
// Normalizers and pre-tokenizers
// ---------------------------------------------------------------------------

/// Whether a text holds a backslash followed by a `K`.
pub open spec fn keeps_out(text: Seq<char>) -> bool {
    exists|i: int| 0 <= i < text.len() - 1 && #[trigger] text[i] == '\\' && text[i + 1] == 'K'
}

/// A pattern whose matches follow one another: a text, or a regular expression
/// that does not move the start of its match.
pub open spec fn pattern_ordered(pattern: Option<JsonModel>) -> bool {
    match pattern {
        Some(pattern) => text_at(pattern, "String"@) is Some || match text_at(pattern, "Regex"@) {
            Some(text) => !keeps_out(text),
            None => false,
        },
        None => false,
    }
}

fn check_keeps_out(text: &str) -> (r: bool)
    ensures
        r == keeps_out(text@),
{
    let chars = chars_of(text);
    let mut i: usize = 0;
    while i < chars.len() && i + 1 < chars.len()
        invariant
            i <= chars@.len(),
            chars@ == text@,
            forall|j: int| 0 <= j < i ==> !(#[trigger] text@[j] == '\\' && text@[j + 1] == 'K'),
        decreases chars@.len() - i,
    {
        if chars[i] == '\\' && chars[i + 1] == 'K' {
            assert(text@[i as int] == '\\');
            return true;
        }
        i = i + 1;
    }
    false
}

fn check_pattern(pattern: Option<&serde_json::Value>) -> (r: bool)
    ensures
        r == pattern_ordered(crate::json::opt_model(pattern)),
{
    match pattern {
        Some(pattern) => {
            if member_text(pattern, "String").is_some() {
                return true;
            }
            match member_text(pattern, "Regex") {
                Some(text) => !check_keeps_out(text),
                None => false,
            }
        },
        None => false,
    }
}

/// The normalizers that take every text, whatever came before them.
pub open spec fn plain_normalizer(kind: Seq<char>) -> bool {
    kind == "BertNormalizer"@ || kind == "Strip"@ || kind == "StripAccents"@ || kind == "NFC"@
        || kind == "NFD"@ || kind == "NFKC"@ || kind == "NFKD"@ || kind == "Lowercase"@ || kind
        == "Nmt"@ || kind == "ByteLevel"@
}

/// Whether a member is a text that is not empty.
pub open spec fn nonempty_at(document: JsonModel, key: Seq<char>) -> bool {
    match text_at(document, key) {
        Some(text) => text.len() > 0,
        None => false,
    }
}

/// A normalizer that takes every text and inserts nothing before the first
/// character: one that does would leave the next one with a character too many.
/// A precompiled one looks characters up in a trie, which must not lead out of itself.
pub open spec fn normalizer_total(document: JsonModel) -> bool {
    document is Null || match text_at(document, "type"@) {
        Some(kind) => plain_normalizer(kind) || (kind == "Prepend"@ && nonempty_at(
            document,
            "prepend"@,
        )) || (kind == "Replace"@ && match at(document, "pattern"@) {
            Some(pattern) => nonempty_at(pattern, "String"@),
            None => false,
        }) || (kind == "Precompiled"@ && match text_at(document, "precompiled_charsmap"@) {
            Some(text) => map_total(octets(text)),
            None => false,
        }),
        None => false,
    }
}

fn check_nonempty(document: &serde_json::Value, key: &str) -> (r: bool)
    ensures
        r == nonempty_at(json_model(*document), key@),
{
    match member_text(document, key) {
        Some(text) => chars_of(text).len() > 0,
        None => false,
    }
}

fn check_normalizer(document: &serde_json::Value) -> (r: bool)
    ensures
        r == normalizer_total(json_model(*document)),
{
    if is_null(document) {
        return true;
    }
    let kind = match member_text(document, "type") {
        Some(kind) => kind,
        None => {
            return false;
        },
    };
    if same(kind, "BertNormalizer") || same(kind, "Strip") || same(kind, "StripAccents") || same(
        kind,
        "NFC",
    ) || same(kind, "NFD") || same(kind, "NFKC") || same(kind, "NFKD") || same(kind, "Lowercase")
        || same(kind, "Nmt") || same(kind, "ByteLevel") {
        return true;
    }
    if same(kind, "Prepend") && check_nonempty(document, "prepend") {
        return true;
    }
    let mapped = match member_text(document, "precompiled_charsmap") {
        Some(text) => check_map(&octets_of(text)),
        None => false,
    };
    if same(kind, "Precompiled") && mapped {
        return true;
    }
    same(kind, "Replace") && match member(document, "pattern") {
        Some(pattern) => check_nonempty(pattern, "String"),
        None => false,
    }
}

/// A pre-tokenizer that splits every text: into pieces of some length, and at
/// matches that follow one another.
pub open spec fn pre_tokenizer_total(document: JsonModel) -> bool {
    &&& text_at(document, "type"@) == Some("FixedLength"@) ==> match natural_at(
        document,
        "length"@,
    ) {
        Some(length) => length > 0,
        None => false,
    }
    &&& text_at(document, "type"@) == Some("Split"@) ==> pattern_ordered(
        at(document, "pattern"@),
    )
}

fn check_pre_tokenizer(document: &serde_json::Value) -> (r: bool)
    ensures
        r == pre_tokenizer_total(json_model(*document)),
{
    if says(document, "type", "FixedLength") {
        match member_natural(document, "length") {
            Some(length) => {
                if length == 0 {
                    return false;
                }
            },
            None => {
                return false;
            },
        }
    }
    !says(document, "type", "Split") || check_pattern(member(document, "pattern"))
}

/// A part of a tokenizer that can be a sequence of such parts.
#[derive(Clone, Copy, Debug, PartialEq, Eq, Structural)]
pub enum Part {
    Normalizer,
    PreTokenizer,
}

/// Where a sequence lists its parts.
pub open spec fn list_key(part: Part) -> Seq<char> {
    match part {
        Part::Normalizer => "normalizers"@,
        Part::PreTokenizer => "pretokenizers"@,
    }
}

/// A part and, where it is a sequence, every part of it.
pub open spec fn part_total(part: Part, document: JsonModel, depth: nat) -> bool
    decreases depth, 0nat,
{
    if depth == 0 {
        false
    } else if text_at(document, "type"@) == Some("Sequence"@) {
        match array_at(document, list_key(part)) {
            Some(items) => items_total(part, items, items.len(), (depth - 1) as nat),
            None => false,
        }
    } else {
        match part {
            Part::Normalizer => normalizer_total(document),
            Part::PreTokenizer => pre_tokenizer_total(document),
        }
    }
}

/// The first `n` parts of a sequence.
pub open spec fn items_total(part: Part, items: Seq<JsonModel>, n: nat, depth: nat) -> bool
    decreases depth, n + 1,
{
    n == 0 || (items_total(part, items, (n - 1) as nat, depth) && part_total(
        part,
        items[n - 1],
        depth,
    ))
}

/// A sequence with a part that is not total is not total.
proof fn faulty_item(part: Part, items: Seq<JsonModel>, i: nat, n: nat, depth: nat)
    requires
        i < n,
        !part_total(part, items[i as int], depth),
    ensures
        !items_total(part, items, n, depth),
    decreases n,
{
    if i + 1 < n {
        faulty_item(part, items, i, (n - 1) as nat, depth);
    }
}

fn check_part(part: Part, document: &serde_json::Value, depth: u64) -> (r: bool)
    ensures
        r == part_total(part, json_model(*document), depth as nat),
    decreases depth,
{
    if depth == 0 {
        return false;
    }
    if !says(document, "type", "Sequence") {
        return match part {
            Part::Normalizer => check_normalizer(document),
            Part::PreTokenizer => check_pre_tokenizer(document),
        };
    }
    let key = match part {
        Part::Normalizer => "normalizers",
        Part::PreTokenizer => "pretokenizers",
    };
    let items = match member_array(document, key) {
        Some(items) => items,
        None => {
            return false;
        },
    };
    let ghost all = models(items@);
    let mut i: usize = 0;
    while i < items.len()
        invariant
            i <= items@.len(),
            depth > 0,
            all == models(items@),
            text_at(json_model(*document), "type"@) == Some("Sequence"@),
            array_at(json_model(*document), list_key(part)) == Some(all),
            items_total(part, all, i as nat, (depth - 1) as nat),
        decreases items@.len() - i,
    {
        assert(all[i as int] == json_model(items@[i as int]));
        if !check_part(part, &items[i], depth - 1) {
            proof {
                faulty_item(part, all, i as nat, all.len(), (depth - 1) as nat);
            }
            return false;
        }
        i = i + 1;
    }
    true
}

// ---------------------------------------------------------------------------
// Post-processors
// ---------------------------------------------------------------------------

/// Which sequence a template's piece takes; nothing for a special token.
pub open spec fn piece_sequence(piece: JsonModel) -> Option<Option<Seq<char>>> {
    match at(piece, "Sequence"@) {
        Some(sequence) => Some(text_at(sequence, "id"@)),
        None => None,
    }
}

/// How many of the first `n` pieces take a sequence.
pub open spec fn sequences_in(pieces: Seq<JsonModel>, n: int) -> nat
    decreases n,
{
    if n <= 0 {
        0
    } else {
        sequences_in(pieces, n - 1) + if piece_sequence(pieces[n - 1]) is Some {
            1nat
        } else {
            0nat
        }
    }
}

/// Whether no piece takes a second sequence.
pub open spec fn first_only(pieces: Seq<JsonModel>) -> bool {
    forall|i: int|
        #![trigger pieces[i]]
        0 <= i < pieces.len() && piece_sequence(pieces[i]) is Some ==> piece_sequence(pieces[i])
            == Some(Some("A"@))
}

/// How many sequences a template makes of `count`; nothing where it has no
/// template for as many, or lacks one that it takes.
pub open spec fn template_gives(document: JsonModel, count: nat) -> Option<nat> {
    if count == 1 {
        match array_at(document, "single"@) {
            Some(pieces) => if first_only(pieces) {
                Some(sequences_in(pieces, pieces.len() as int))
            } else {
                None
            },
            None => None,
        }
    } else if count == 2 {
        match array_at(document, "pair"@) {
            Some(pieces) => Some(sequences_in(pieces, pieces.len() as int)),
            None => None,
        }
    } else {
        None
    }
}

/// How many sequences a post-processor makes of `count`, without special tokens;
/// nothing where it cannot take them.
pub open spec fn processor_gives(document: JsonModel, count: nat, depth: nat) -> Option<nat>
    decreases depth, 0nat,
{
    if depth == 0 {
        None
    } else if text_at(document, "type"@) == Some("Sequence"@) {
        match array_at(document, "processors"@) {
            Some(items) => processors_give(items, items.len(), count, (depth - 1) as nat),
            None => None,
        }
    } else if text_at(document, "type"@) == Some("TemplateProcessing"@) {
        template_gives(document, count)
    } else {
        Some(count)
    }
}

/// How many sequences the first `n` post-processors make of `count`.
pub open spec fn processors_give(items: Seq<JsonModel>, n: nat, count: nat, depth: nat) -> Option<
    nat,
>
    decreases depth, n + 1,
{
    if n == 0 {
        Some(count)
    } else {
        match processors_give(items, (n - 1) as nat, count, depth) {
            Some(before) => processor_gives(items[n - 1], before, depth),
            None => None,
        }
    }
}

/// Where a post-processor cannot take what it is given, neither can the sequence.
proof fn stopped_early(items: Seq<JsonModel>, i: nat, n: nat, count: nat, depth: nat)
    requires
        i <= n,
        processors_give(items, i, count, depth) is None,
    ensures
        processors_give(items, n, count, depth) is None,
    decreases n,
{
    if i < n {
        stopped_early(items, i, (n - 1) as nat, count, depth);
    }
}

pub open spec fn counted_as(r: Option<usize>) -> Option<nat> {
    match r {
        Some(n) => Some(n as nat),
        None => None,
    }
}

fn count_sequences(pieces: &Vec<serde_json::Value>) -> (r: (usize, bool))
    ensures
        r.0 == sequences_in(models(pieces@), pieces@.len() as int),
        r.1 == first_only(models(pieces@)),
{
    let ghost all = models(pieces@);
    let mut count: usize = 0;
    let mut first = true;
    let mut i: usize = 0;
    while i < pieces.len()
        invariant
            i <= pieces@.len(),
            all == models(pieces@),
            count == sequences_in(all, i as int),
            count <= i,
            first == forall|j: int|
                #![trigger all[j]]
                0 <= j < i && piece_sequence(all[j]) is Some ==> piece_sequence(all[j]) == Some(
                    Some("A"@),
                ),
        decreases pieces@.len() - i,
    {
        assert(all[i as int] == json_model(pieces@[i as int]));
        match member(&pieces[i], "Sequence") {
            Some(sequence) => {
                if !says(sequence, "id", "A") {
                    assert(piece_sequence(all[i as int]) != Some(Some("A"@)));
                    first = false;
                }
                count = count + 1;
            },
            None => {},
        }
        i = i + 1;
    }
    (count, first)
}

fn run_template(document: &serde_json::Value, count: usize) -> (r: Option<usize>)
    ensures
        counted_as(r) == template_gives(json_model(*document), count as nat),
{
    if count == 1 {
        match member_array(document, "single") {
            Some(pieces) => {
                let found = count_sequences(pieces);
                if found.1 {
                    Some(found.0)
                } else {
                    None
                }
            },
            None => None,
        }
    } else if count == 2 {
        match member_array(document, "pair") {
            Some(pieces) => Some(count_sequences(pieces).0),
            None => None,
        }
    } else {
        None
    }
}

fn run_processor(document: &serde_json::Value, count: usize, depth: u64) -> (r: Option<usize>)
    ensures
        counted_as(r) == processor_gives(json_model(*document), count as nat, depth as nat),
    decreases depth,
{
    if depth == 0 {
        return None;
    }
    if !says(document, "type", "Sequence") {
        if says(document, "type", "TemplateProcessing") {
            return run_template(document, count);
        }
        return Some(count);
    }
    let items = match member_array(document, "processors") {
        Some(items) => items,
        None => {
            return None;
        },
    };
    let ghost all = models(items@);
    let mut now: usize = count;
    let mut i: usize = 0;
    while i < items.len()
        invariant
            i <= items@.len(),
            depth > 0,
            all == models(items@),
            text_at(json_model(*document), "type"@) == Some("Sequence"@),
            array_at(json_model(*document), "processors"@) == Some(all),
            processors_give(all, i as nat, count as nat, (depth - 1) as nat) == Some(now as nat),
        decreases items@.len() - i,
    {
        assert(all[i as int] == json_model(items@[i as int]));
        match run_processor(&items[i], now, depth - 1) {
            Some(next) => {
                now = next;
            },
            None => {
                proof {
                    stopped_early(
                        all,
                        (i + 1) as nat,
                        all.len(),
                        count as nat,
                        (depth - 1) as nat,
                    );
                }
                return None;
            },
        }
        i = i + 1;
    }
    Some(now)
}

// ---------------------------------------------------------------------------
// Decoders
// ---------------------------------------------------------------------------

/// Whether a strip decoder takes a token: one of the stripped character alone must
/// be long enough for what is cut on both sides.
pub open spec fn strips(token: Seq<char>, content: Seq<char>, start: u64, stop: u64) -> bool {
    let n = token.len();
    (exists|i: int| 0 <= i < n && seq![#[trigger] token[i]] != content) || (stop <= n && (if start < n {
        start as int
    } else {
        n as int
    }) <= n - stop)
}

pub open spec fn all_strip(
    tokens: Seq<Seq<char>>,
    content: Seq<char>,
    start: u64,
    stop: u64,
) -> bool {
    forall|i: int| 0 <= i < tokens.len() ==> strips(#[trigger] tokens[i], content, start, stop)
}

/// A decoder that takes every token that reaches it. `tokens` are those that are
/// decoded, for the decoder that comes first.
pub open spec fn single_decodes(document: JsonModel, tokens: Option<Seq<Seq<char>>>) -> bool {
    &&& text_at(document, "type"@) == Some("BPEDecoder"@) ==> match tokens {
        Some(tokens) => tokens.len() > 0,
        None => false,
    }
    &&& text_at(document, "type"@) == Some("Strip"@) ==> natural_at(document, "stop"@) == Some(0u64)
        || match (
        tokens,
        text_at(document, "content"@),
        natural_at(document, "start"@),
        natural_at(document, "stop"@),
    ) {
        (Some(tokens), Some(content), Some(start), Some(stop)) => all_strip(
            tokens,
            content,
            start,
            stop,
        ),
        _ => false,
    }
    &&& text_at(document, "type"@) == Some("Replace"@) ==> pattern_ordered(
        at(document, "pattern"@),
    )
}

/// A decoder and, where it is a sequence, every decoder of it.
pub open spec fn decoder_total(document: JsonModel, tokens: Option<Seq<Seq<char>>>, depth: nat) -> bool
    decreases depth, 0nat,
{
    if depth == 0 {
        false
    } else if text_at(document, "type"@) == Some("Sequence"@) {
        match array_at(document, "decoders"@) {
            Some(items) => decoders_total(items, items.len(), tokens, (depth - 1) as nat),
            None => false,
        }
    } else {
        single_decodes(document, tokens)
    }
}

/// The first `n` decoders of a sequence.
pub open spec fn decoders_total(
    items: Seq<JsonModel>,
    n: nat,
    tokens: Option<Seq<Seq<char>>>,
    depth: nat,
) -> bool
    decreases depth, n + 1,
{
    n == 0 || (decoders_total(items, (n - 1) as nat, tokens, depth) && decoder_total(
        items[n - 1],
        if n == 1 {
            tokens
        } else {
            None
        },
        depth,
    ))
}

proof fn faulty_decoder(
    items: Seq<JsonModel>,
    i: nat,
    n: nat,
    tokens: Option<Seq<Seq<char>>>,
    depth: nat,
)
    requires
        i <= n,
        !decoders_total(items, i, tokens, depth),
    ensures
        !decoders_total(items, n, tokens, depth),
    decreases n,
{
    if i < n {
        faulty_decoder(items, i, (n - 1) as nat, tokens, depth);
    }
}

/// The tokens that a tokenizer decodes: those it knows, but for special ones.
pub open spec fn kept_tokens(tokenizer: tokenizers::Tokenizer, ids: Seq<u32>) -> Seq<Seq<char>>
    decreases ids.len(),
{
    if ids.len() == 0 {
        Seq::empty()
    } else {
        let before = kept_tokens(tokenizer, ids.drop_last());
        match token_of_id(tokenizer, ids.last()) {
            Some(token) => if is_special(tokenizer, token) {
                before
            } else {
                before.push(token)
            },
            None => before,
        }
    }
}

pub open spec fn lists(tokens: Option<&Vec<String>>) -> Option<Seq<Seq<char>>> {
    match tokens {
        Some(tokens) => Some(texts(tokens@)),
        None => None,
    }
}

fn check_strip(token: &str, content: &str, start: u64, stop: u64) -> (r: bool)
    ensures
        r == strips(token@, content@, start, stop),
{
    let chars = chars_of(token);
    let wanted = chars_of(content);
    if wanted.len() != 1 {
        if chars.len() > 0 {
            assert(seq![token@[0]].len() == 1);
            assert(seq![token@[0]] != content@);
            return true;
        }
    } else {
        let mut i: usize = 0;
        while i < chars.len()
            invariant
                i <= chars@.len(),
                chars@ == token@,
                wanted@ == content@,
                wanted@.len() == 1,
                forall|j: int| 0 <= j < i ==> seq![#[trigger] token@[j]] == content@,
            decreases chars@.len() - i,
        {
            if chars[i] != wanted[0] {
                assert(seq![token@[i as int]][0] != content@[0]);
                assert(seq![token@[i as int]] != content@);
                return true;
            }
            assert(seq![token@[i as int]] =~= content@);
            i = i + 1;
        }
    }
    let n: u64 = chars.len() as u64;
    let cut: u64 = if start < n {
        start
    } else {
        n
    };
    stop <= n && cut <= n - stop
}

fn check_strips(document: &serde_json::Value, tokens: Option<&Vec<String>>) -> (r: bool)
    ensures
        r == (natural_at(json_model(*document), "stop"@) == Some(0u64) || match (
            lists(tokens),
            text_at(json_model(*document), "content"@),
            natural_at(json_model(*document), "start"@),
            natural_at(json_model(*document), "stop"@),
        ) {
            (Some(tokens), Some(content), Some(start), Some(stop)) => all_strip(
                tokens,
                content,
                start,
                stop,
            ),
            _ => false,
        }),
{
    let stop = match member_natural(document, "stop") {
        Some(stop) => stop,
        None => {
            return false;
        },
    };
    if stop == 0 {
        return true;
    }
    let list = match tokens {
        Some(list) => list,
        None => {
            return false;
        },
    };
    match (member_text(document, "content"), member_natural(document, "start")) {
        (Some(content), Some(start)) => {
            let ghost all = texts(list@);
            let mut i: usize = 0;
            while i < list.len()
                invariant
                    i <= list@.len(),
                    lists(tokens) == Some(all),
                    all == texts(list@),
                    stop > 0,
                    natural_at(json_model(*document), "stop"@) == Some(stop),
                    text_at(json_model(*document), "content"@) == Some(content@),
                    natural_at(json_model(*document), "start"@) == Some(start),
                    forall|j: int|
                        0 <= j < i ==> strips(#[trigger] all[j], content@, start, stop),
                decreases list@.len() - i,
            {
                if !check_strip(list[i].as_str(), content, start, stop) {
                    assert(!strips(all[i as int], content@, start, stop));
                    return false;
                }
                i = i + 1;
            }
            true
        },
        _ => false,
    }
}

fn check_decoder(document: &serde_json::Value, tokens: Option<&Vec<String>>, depth: u64) -> (r: bool)
    ensures
        r == decoder_total(json_model(*document), lists(tokens), depth as nat),
    decreases depth,
{
    if depth == 0 {
        return false;
    }
    if !says(document, "type", "Sequence") {
        if says(document, "type", "BPEDecoder") {
            match tokens {
                Some(tokens) => {
                    if tokens.len() == 0 {
                        return false;
                    }
                },
                None => {
                    return false;
                },
            }
        }
        if says(document, "type", "Strip") && !check_strips(document, tokens) {
            return false;
        }
        return !says(document, "type", "Replace") || check_pattern(member(document, "pattern"));
    }
    let items = match member_array(document, "decoders") {
        Some(items) => items,
        None => {
            return false;
        },
    };
    let ghost all = models(items@);
    let mut i: usize = 0;
    while i < items.len()
        invariant
            i <= items@.len(),
            depth > 0,
            all == models(items@),
            text_at(json_model(*document), "type"@) == Some("Sequence"@),
            array_at(json_model(*document), "decoders"@) == Some(all),
            decoders_total(all, i as nat, lists(tokens), (depth - 1) as nat),
        decreases items@.len() - i,
    {
        assert(all[i as int] == json_model(items@[i as int]));
        let reaching = if i == 0 {
            tokens
        } else {
            None
        };
        if !check_decoder(&items[i], reaching, depth - 1) {
            proof {
                faulty_decoder(
                    all,
                    (i + 1) as nat,
                    all.len(),
                    lists(tokens),
                    (depth - 1) as nat,
                );
            }
            return false;
        }
        i = i + 1;
    }
    true
}

// ---------------------------------------------------------------------------
// Whole tokenizers
// ---------------------------------------------------------------------------

/// Whether a tokenizer encodes every text: no part of it stops on some text.
pub open spec fn encodes_all(tokenizer: tokenizers::Tokenizer) -> bool {
    &&& match truncation_document(tokenizer) {
        Ok(document) => truncation_total(document),
        Err(_) => false,
    }
    &&& match padding_document(tokenizer) {
        Ok(document) => padding_total(document),
        Err(_) => false,
    }
    &&& match added_tokens_document(tokenizer) {
        Ok(document) => added_total(document),
        Err(_) => false,
    }
    &&& match normalizer_document(tokenizer) {
        Ok(document) => part_total(Part::Normalizer, document, NESTING as nat),
        Err(_) => false,
    }
    &&& match pre_tokenizer_document(tokenizer) {
        Ok(document) => part_total(Part::PreTokenizer, document, NESTING as nat),
        Err(_) => false,
    }
    &&& match post_processor_document(tokenizer) {
        Ok(document) => processor_gives(document, 1, NESTING as nat) is Some,
        Err(_) => false,
    }
}

/// Whether a tokenizer decodes these ids.
pub open spec fn decodes(tokenizer: tokenizers::Tokenizer, ids: Seq<u32>) -> bool {
    match decoder_document(tokenizer) {
        Ok(document) => decoder_total(
            document,
            Some(kept_tokens(tokenizer, ids)),
            NESTING as nat,
        ),
        Err(_) => false,
    }
}

/// Whether a tokenizer's answers depend on the text alone: it drops no merges.
pub open spec fn draws_nothing(tokenizer: tokenizers::Tokenizer) -> bool {
    match model_dropout(tokenizer) {
        Some(rate) => rate == 0 || rate == 0x8000_0000,
        None => true,
    }
}

/// Whether a tokenizer encodes every text.
pub fn can_encode(tokenizer: &tokenizers::Tokenizer) -> (r: bool)
    ensures
        r == encodes_all(*tokenizer),
{
    let truncation = match read_truncation(tokenizer) {
        Ok(document) => check_truncation(&document),
        Err(_) => false,
    };
    let padding = match read_padding(tokenizer) {
        Ok(document) => check_padding(&document),
        Err(_) => false,
    };
    let added = match read_added_tokens(tokenizer) {
        Ok(document) => check_added(&document),
        Err(_) => false,
    };
    let normalizer = match read_normalizer(tokenizer) {
        Ok(document) => check_part(Part::Normalizer, &document, NESTING),
        Err(_) => false,
    };
    let pre_tokenizer = match read_pre_tokenizer(tokenizer) {
        Ok(document) => check_part(Part::PreTokenizer, &document, NESTING),
        Err(_) => false,
    };
    let post_processor = match read_post_processor(tokenizer) {
        Ok(document) => run_processor(&document, 1, NESTING).is_some(),
        Err(_) => false,
    };
    truncation && padding && added && normalizer && pre_tokenizer && post_processor
}

/// Whether a tokenizer gives one answer for each text.
pub fn is_settled(tokenizer: &tokenizers::Tokenizer) -> (r: bool)
    ensures
        r == draws_nothing(*tokenizer),
{
    match read_dropout(tokenizer) {
        Some(rate) => rate == 0 || rate == 0x8000_0000,
        None => true,
    }
}

/// Whether a tokenizer decodes these ids.
pub fn can_decode(tokenizer: &tokenizers::Tokenizer, ids: &Vec<u32>) -> (r: bool)
    ensures
        r == decodes(*tokenizer, ids@),
{
    let document = match read_decoder(tokenizer) {
        Ok(document) => document,
        Err(_) => {
            return false;
        },
    };
    let mut tokens: Vec<String> = Vec::new();
    let mut i: usize = 0;
    assert(texts(tokens@) =~= kept_tokens(*tokenizer, ids@.take(0)));
    while i < ids.len()
        invariant
            i <= ids@.len(),
            texts(tokens@) == kept_tokens(*tokenizer, ids@.take(i as int)),
        decreases ids@.len() - i,
    {
        let ghost before = tokens@;
        assert(ids@.take(i + 1).drop_last() =~= ids@.take(i as int));
        assert(ids@.take(i + 1).last() == ids@[i as int]);
        match read_token(tokenizer, ids[i]) {
            Some(token) => {
                if !read_special(tokenizer, token.as_str()) {
                    tokens.push(token);
                    assert(texts(tokens@) =~= texts(before).push(token@));
                }
            },
            None => {},
        }
        i = i + 1;
    }
    assert(ids@.take(i as int) =~= ids@);
    check_decoder(&document, Some(&tokens), NESTING)
}

// ---------------------------------------------------------------------------
// Its answers
// ---------------------------------------------------------------------------

/// The ids, or the error message, that a tokenizer which draws nothing at random
/// gives for a text, without special tokens.
pub uninterp spec fn tokenizer_ids(tokenizer: tokenizers::Tokenizer, text: Seq<char>) -> Result<
    Seq<u32>,
    Seq<char>,
>;

/// `Tokenizer::encode` without special tokens, and the ids of its encoding; the
/// error is kept as its message. The vocabulary and the model are the tokenizer's
/// own, so the ids are only named; where the model drops merges at random, nothing
/// is claimed of them. It is called only where no part of the tokenizer panics on
/// some text.
#[verifier::external_body]
pub(crate) fn encode_ids(tokenizer: &tokenizers::Tokenizer, prompt: &str) -> (r: Result<
    Vec<u32>,
    String,
>)
    requires
        encodes_all(*tokenizer),
    ensures
        draws_nothing(*tokenizer) ==> ids_told(r) == tokenizer_ids(*tokenizer, prompt@),
{
    tokenizer.encode(prompt, false).map(|encoding| encoding.get_ids().to_vec()).map_err(
        |error| error.to_string(),
    )
}

/// The text, or the error message, that a tokenizer decodes ids to when special
/// tokens are left out.
pub uninterp spec fn tokenizer_text(tokenizer: tokenizers::Tokenizer, ids: Seq<u32>) -> Result<
    Seq<char>,
    Seq<char>,
>;

pub open spec fn text_told(r: Result<String, String>) -> Result<Seq<char>, Seq<char>> {
    match r {
        Ok(text) => Ok(text@),
        Err(e) => Err(e@),
    }
}

/// `Tokenizer::decode` without special tokens; the error is kept as its
/// message. The vocabulary and the decoder are the tokenizer's own, so the text
/// is only named. It is called only on ids that the decoder takes without a panic.
#[verifier::external_body]
pub(crate) fn decode_ids(tokenizer: &tokenizers::Tokenizer, ids: &Vec<u32>) -> (r: Result<
    String,
    String,
>)
    requires
        decodes(*tokenizer, ids@),
    ensures
        text_told(r) == tokenizer_text(*tokenizer, ids@),
{
    tokenizer.decode(ids, true).map_err(|error| error.to_string())
}

} // verus!
