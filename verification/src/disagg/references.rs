//! What a run is given to do: reference continuations that bind to the
//! checkpoint, and prompts that fit the context.
use crate::hash::{sha256_hex, sha256_text};
use crate::json::{
    at, json_bytes_document, json_model, member_text, natural_of, parse_bytes, text_at, JsonModel,
};
use crate::metal_infer::generation::is_eos;
use crate::paths::{file_name, path_file_name};
use crate::text::{decimal, decimal_text, opt_text, same, told, trim_text, trimmed};
use vstd::prelude::*;

verus! {

/// The token ids that the model knows.
pub const VOCABULARY: u32 = 262144;

/// A member as it is indexed: null where it is missing.
pub open spec fn indexed(document: JsonModel, key: Seq<char>) -> JsonModel {
    match at(document, key) {
        Some(value) => value,
        None => JsonModel::Null,
    }
}

/// Whether a document is a list of 32-bit naturals.
pub open spec fn is_id_list(document: JsonModel) -> bool {
    match document {
        JsonModel::Array(items) => forall|i: int|
            0 <= i < items.len() ==> natural_of(#[trigger] items[i]) is Some && natural_of(
                items[i],
            )->0 <= u32::MAX,
        _ => false,
    }
}

/// The ids of such a list.
pub open spec fn listed_ids(document: JsonModel) -> Seq<u32> {
    match document {
        JsonModel::Array(items) => Seq::new(
            items.len(),
            |i: int| natural_of(items[i])->0 as u32,
        ),
        _ => Seq::empty(),
    }
}

/// The message with which `serde_json` refuses a document that is no list of
/// 32-bit naturals.
pub uninterp spec fn id_list_fault(document: JsonModel) -> Seq<char>;

/// `serde_json::from_value` of an indexed member into a `Vec<u32>`: the ids where
/// the member is an array of naturals that fit, and an error otherwise, whose
/// message is named.
#[verifier::external_body]
pub(crate) fn member_id_list(value: &serde_json::Value, key: &str) -> (r: Result<Vec<u32>, String>)
    ensures
        match r {
            Ok(ids) => is_id_list(indexed(json_model(*value), key@)) && ids@ == listed_ids(
                indexed(json_model(*value), key@),
            ),
            Err(e) => !is_id_list(indexed(json_model(*value), key@)) && e@ == id_list_fault(
                indexed(json_model(*value), key@),
            ),
        },
{
    serde_json::from_value(value[key].clone()).map_err(|error| error.to_string())
}

pub open spec fn id_list(document: JsonModel) -> Result<Seq<u32>, Seq<char>> {
    if is_id_list(document) {
        Ok(listed_ids(document))
    } else {
        Err(id_list_fault(document))
    }
}

/// A request: the prompt, and the continuation where a reference gives one.
#[derive(Debug)]
pub struct Reference {
    pub path: Option<String>,
    pub prompt: Vec<u32>,
    pub generated: Option<Vec<u32>>,
    pub max_new_tokens: usize,
}

pub struct ReferenceModel {
    pub path: Option<Seq<char>>,
    pub prompt: Seq<u32>,
    pub generated: Option<Seq<u32>>,
    pub max_new_tokens: usize,
}

impl View for Reference {
    type V = ReferenceModel;

    open spec fn view(&self) -> ReferenceModel {
        ReferenceModel {
            path: opt_text(self.path),
            prompt: self.prompt@,
            generated: match self.generated {
                Some(ids) => Some(ids@),
                None => None,
            },
            max_new_tokens: self.max_new_tokens,
        }
    }
}

/// The checkpoint revision that a reference was made with.
pub open spec fn revision_of(document: JsonModel) -> Option<Seq<char>> {
    match text_at(document, "model_revision"@) {
        Some(revision) => Some(revision),
        None => match text_at(document, "model_dir"@) {
            Some(dir) => file_name(dir),
            None => None,
        },
    }
}

fn reference_revision(value: &serde_json::Value) -> (r: Option<String>)
    ensures
        opt_text(r) == revision_of(json_model(*value)),
{
    match member_text(value, "model_revision") {
        Some(revision) => Some(revision.to_owned()),
        None => match member_text(value, "model_dir") {
            Some(dir) => path_file_name(dir),
            None => None,
        },
    }
}

/// Whether a prompt and its continuation can be decoded: neither is empty, the
/// tokens that are fed fit the context, every id is known, and only the last
/// generated token may end the sequence.
pub open spec fn decodable(
    prompt: Seq<u32>,
    generated: Seq<u32>,
    context_capacity: usize,
    eos: Seq<u32>,
) -> bool {
    &&& prompt.len() > 0
    &&& generated.len() > 0
    &&& prompt.len() + generated.len() - 1 <= context_capacity
    &&& forall|i: int| 0 <= i < prompt.len() ==> #[trigger] prompt[i] < VOCABULARY
    &&& forall|i: int| 0 <= i < generated.len() ==> #[trigger] generated[i] < VOCABULARY
    &&& forall|i: int| 0 <= i < generated.len() - 1 ==> !eos.contains(#[trigger] generated[i])
}

fn all_known(ids: &Vec<u32>) -> (r: bool)
    ensures
        r == forall|i: int| 0 <= i < ids@.len() ==> #[trigger] ids@[i] < VOCABULARY,
{
    let mut i: usize = 0;
    while i < ids.len()
        invariant
            i <= ids@.len(),
            forall|j: int| 0 <= j < i ==> #[trigger] ids@[j] < VOCABULARY,
        decreases ids@.len() - i,
    {
        if ids[i] >= VOCABULARY {
            return false;
        }
        i = i + 1;
    }
    true
}

fn stops_late(generated: &Vec<u32>, eos: &Vec<u32>) -> (r: bool)
    requires
        generated@.len() > 0,
    ensures
        r == forall|i: int|
            0 <= i < generated@.len() - 1 ==> !eos@.contains(#[trigger] generated@[i]),
{
    let mut i: usize = 0;
    while i < generated.len() - 1
        invariant
            i <= generated@.len() - 1,
            forall|j: int| 0 <= j < i ==> !eos@.contains(#[trigger] generated@[j]),
        decreases generated@.len() - i,
    {
        if is_eos(eos, generated[i]) {
            return false;
        }
        i = i + 1;
    }
    true
}

fn can_decode(prompt: &Vec<u32>, generated: &Vec<u32>, context_capacity: usize, eos: &Vec<u32>) -> (r:
    bool)
    ensures
        r == decodable(prompt@, generated@, context_capacity, eos@),
{
    prompt.len() > 0 && generated.len() > 0 && prompt.len() <= context_capacity && generated.len()
        - 1 <= context_capacity - prompt.len() && all_known(prompt) && all_known(generated)
        && stops_late(generated, eos)
}

/// The reference that a document holds.
pub open spec fn reference_in(
    path: Seq<char>,
    document: JsonModel,
    model_dir: Seq<char>,
    context_capacity: usize,
    eos: Seq<u32>,
) -> Result<ReferenceModel, Seq<char>> {
    match id_list(indexed(document, "prompt_token_ids"@)) {
        Err(message) => Err(message),
        Ok(prompt) => match id_list(indexed(document, "generated_tokens"@)) {
            Err(message) => Err(message),
            Ok(generated) => match revision_of(document) {
                None => Err("reference lacks checkpoint revision"@),
                Some(revision) => if file_name(model_dir) != Some(revision) {
                    Err("reference/checkpoint revision mismatch"@)
                } else if !decodable(prompt, generated, context_capacity, eos) {
                    Err("reference has invalid tokens, EOS placement or context length"@)
                } else {
                    Ok(
                        ReferenceModel {
                            path: Some(path),
                            prompt,
                            generated: Some(generated),
                            max_new_tokens: generated.len() as usize,
                        },
                    )
                },
            },
        },
    }
}

pub open spec fn reference_told(r: Result<Reference, String>) -> Result<
    ReferenceModel,
    Seq<char>,
> {
    match r {
        Ok(reference) => Ok(reference@),
        Err(e) => Err(e@),
    }
}

/// Reads the reference that a document holds, against the checkpoint in
/// `model_dir` and its end-of-sequence tokens.
pub fn reference_from_document(
    path: &str,
    value: &serde_json::Value,
    model_dir: &str,
    context_capacity: usize,
    eos: &Vec<u32>,
) -> (r: Result<Reference, String>)
    ensures
        reference_told(r) == reference_in(
            path@,
            json_model(*value),
            model_dir@,
            context_capacity,
            eos@,
        ),
{
    let prompt = match member_id_list(value, "prompt_token_ids") {
        Ok(ids) => ids,
        Err(message) => {
            return Err(message);
        },
    };
    let generated = match member_id_list(value, "generated_tokens") {
        Ok(ids) => ids,
        Err(message) => {
            return Err(message);
        },
    };
    let revision = match reference_revision(value) {
        Some(revision) => revision,
        None => {
            return Err("reference lacks checkpoint revision".to_owned());
        },
    };
    let bound = match path_file_name(model_dir) {
        Some(name) => same(name.as_str(), revision.as_str()),
        None => false,
    };
    if !bound {
        return Err("reference/checkpoint revision mismatch".to_owned());
    }
    if !can_decode(&prompt, &generated, context_capacity, eos) {
        return Err("reference has invalid tokens, EOS placement or context length".to_owned());
    }
    let max_new_tokens: usize = generated.len();
    Ok(Reference { path: Some(path.to_owned()), prompt, generated: Some(generated), max_new_tokens })
}

pub open spec fn reference_read(
    path: Seq<char>,
    document: Result<JsonModel, Seq<char>>,
    model_dir: Seq<char>,
    context_capacity: usize,
    eos: Seq<u32>,
) -> Result<ReferenceModel, Seq<char>> {
    match document {
        Ok(value) => reference_in(path, value, model_dir, context_capacity, eos),
        Err(message) => Err(message),
    }
}

/// Reads a reference file's bytes.
pub fn load_reference(
    path: &str,
    bytes: &[u8],
    model_dir: &str,
    context_capacity: usize,
    eos: &Vec<u32>,
) -> (r: Result<Reference, String>)
    ensures
        reference_told(r) == reference_read(
            path@,
            json_bytes_document(bytes@),
            model_dir@,
            context_capacity,
            eos@,
        ),
{
    match parse_bytes(bytes) {
        Ok(value) => reference_from_document(path, &value, model_dir, context_capacity, eos),
        Err(message) => Err(message),
    }
}

/// A reference that is accepted was made with the checkpoint that is run, fits
/// the context, and ends a sequence with its last token or not at all.
pub proof fn accepted_references_bind(
    path: Seq<char>,
    document: JsonModel,
    model_dir: Seq<char>,
    context_capacity: usize,
    eos: Seq<u32>,
)
    requires
        reference_in(path, document, model_dir, context_capacity, eos) is Ok,
    ensures
        revision_of(document) is Some && file_name(model_dir) == revision_of(document),
        ({
            let reference = reference_in(path, document, model_dir, context_capacity, eos)->Ok_0;
            &&& reference.generated is Some
            &&& decodable(reference.prompt, reference.generated->0, context_capacity, eos)
            &&& reference.max_new_tokens == reference.generated->0.len()
        }),
{
}

// ---------------------------------------------------------------------------
// Prompts
// ---------------------------------------------------------------------------

/// Whether a prompt and its output fit the context: the last output token is
/// not fed back.
pub open spec fn text_budget_fits(prompt_tokens: nat, max_new_tokens: usize, capacity: usize) -> bool {
    max_new_tokens > 0 && prompt_tokens > 0 && prompt_tokens + max_new_tokens - 1 <= capacity
}

pub open spec fn text_budget_outcome(
    prompt_tokens: nat,
    max_new_tokens: usize,
    capacity: usize,
) -> Result<(), Seq<char>> {
    if text_budget_fits(prompt_tokens, max_new_tokens, capacity) {
        Ok(())
    } else {
        Err(
            decimal(prompt_tokens) + " prompt tokens and output limit "@ + decimal(
                max_new_tokens as nat,
            ) + " exceed context capacity "@ + decimal(capacity as nat),
        )
    }
}

/// Checks that a prompt and an output limit fit a context.
pub fn validate_text_budget(prompt: &[u32], max_new_tokens: usize, context_capacity: usize) -> (r:
    Result<(), String>)
    ensures
        told(r) == text_budget_outcome(prompt@.len(), max_new_tokens, context_capacity),
{
    let fits = max_new_tokens > 0 && prompt.len() > 0 && prompt.len() <= context_capacity
        && max_new_tokens - 1 <= context_capacity - prompt.len();
    if !fits {
        let tokens = decimal_text(prompt.len() as u64);
        let limit = decimal_text(max_new_tokens as u64);
        let capacity = decimal_text(context_capacity as u64);
        let mut text = tokens;
        text.push_str(" prompt tokens and output limit ");
        text.push_str(limit.as_str());
        text.push_str(" exceed context capacity ");
        text.push_str(capacity.as_str());
        return Err(text);
    }
    Ok(())
}

/// What a line of an interactive session asks for.
#[derive(Clone, Copy, Debug, PartialEq, Eq, Structural)]
pub enum SessionLine {
    EndOfInput,
    Blank,
    Prompt,
}

pub open spec fn line_meaning(bytes_read: usize, line: Seq<char>) -> SessionLine {
    if bytes_read == 0 {
        SessionLine::EndOfInput
    } else if trimmed(line).len() == 0 {
        SessionLine::Blank
    } else {
        SessionLine::Prompt
    }
}

/// What a line of an interactive session asks for.
pub fn session_line(bytes_read: usize, line: &str) -> (r: SessionLine)
    ensures
        r == line_meaning(bytes_read, line@),
{
    if bytes_read == 0 {
        return SessionLine::EndOfInput;
    }
    let text = trim_text(line);
    let chars = crate::text::chars_of(text.as_str());
    if chars.len() == 0 {
        SessionLine::Blank
    } else {
        SessionLine::Prompt
    }
}

/// The longest prompt of some requests.
pub open spec fn longest(references: Seq<Reference>) -> nat
    decreases references.len(),
{
    if references.len() == 0 {
        0
    } else {
        let rest = longest(references.drop_last());
        let last = references.last().prompt@.len();
        if last > rest {
            last
        } else {
            rest
        }
    }
}

pub open spec fn batch_outcome(interleave: bool, capacity: usize, references: Seq<Reference>) -> Result<
    usize,
    Seq<char>,
> {
    if interleave {
        Ok(capacity)
    } else if references.len() == 0 {
        Err("no prompts"@)
    } else {
        Ok(longest(references) as usize)
    }
}

/// How many tokens one prefill may hold: the context where requests arrive one by
/// one, else the longest prompt.
pub fn max_batch_tokens(interleave: bool, context_capacity: usize, references: &Vec<Reference>) -> (r:
    Result<usize, String>)
    ensures
        told(r) == batch_outcome(interleave, context_capacity, references@),
{
    if interleave {
        return Ok(context_capacity);
    }
    if references.len() == 0 {
        return Err("no prompts".to_owned());
    }
    let mut most: usize = 0;
    let mut i: usize = 0;
    while i < references.len()
        invariant
            i <= references@.len(),
            most == longest(references@.take(i as int)),
        decreases references@.len() - i,
    {
        proof {
            assert(references@.take(i + 1).drop_last() =~= references@.take(i as int));
        }
        if references[i].prompt.len() > most {
            most = references[i].prompt.len();
        }
        i = i + 1;
    }
    assert(references@.take(i as int) =~= references@);
    Ok(most)
}

/// Every prompt fits the prefill that `max_batch_tokens` sizes.
pub proof fn batches_hold_every_prompt(references: Seq<Reference>, i: int)
    requires
        0 <= i < references.len(),
    ensures
        references[i].prompt@.len() <= longest(references),
    decreases references.len(),
{
    if i < references.len() - 1 {
        batches_hold_every_prompt(references.drop_last(), i);
    }
}

// ---------------------------------------------------------------------------
// The identity of a workload
// ---------------------------------------------------------------------------

/// Ids in decimal, with commas between them.
pub open spec fn id_items(ids: Seq<u32>) -> Seq<char>
    decreases ids.len(),
{
    if ids.len() == 0 {
        Seq::empty()
    } else if ids.len() == 1 {
        decimal(ids[0] as nat)
    } else {
        id_items(ids.drop_last()) + ","@ + decimal(ids.last() as nat)
    }
}

/// The bytes of a text of ASCII characters.
pub open spec fn ascii(text: Seq<char>) -> Seq<u8> {
    Seq::new(text.len(), |i: int| text[i] as u8)
}

/// `serde_json::to_vec` of a list of ids: in decimal, between brackets, with commas
/// and no spaces.
#[verifier::external_body]
fn encode_id_list(ids: &Vec<u32>) -> (r: Vec<u8>)
    ensures
        r@ == ascii("["@ + id_items(ids@) + "]"@),
{
    serde_json::to_vec(ids).unwrap_or_default()
}

/// The digest that identifies a prompt.
pub fn workload_digest(prompt: &Vec<u32>) -> (r: String)
    ensures
        r@ == sha256_hex(ascii("["@ + id_items(prompt@) + "]"@)),
{
    sha256_text(encode_id_list(prompt).as_slice())
}

} // verus!
