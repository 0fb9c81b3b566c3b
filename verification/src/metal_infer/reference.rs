//! Reference generations: reading one, and comparing a run with it.
use crate::json::{
    array_at, as_natural, json_document, json_model, member_array, member_natural, models,
    natural_at, natural_of, parse_text, JsonModel,
};
use crate::metal_infer::args::ids_told;
use crate::text::{
    cat2, cat4, cat5, cat6, decimal, decimal_text, list_of, list_text, quoted, quoted_text, texts,
};
use vstd::prelude::*;

verus! {

/// A reference generation.
#[derive(Debug)]
pub struct HfReference {
    pub path: String,
    pub prompt_token_ids: Vec<u32>,
    pub decode_steps: usize,
    pub generated_tokens: Vec<u32>,
}

pub struct ReferenceModel {
    pub path: Seq<char>,
    pub prompt_token_ids: Seq<u32>,
    pub decode_steps: usize,
    pub generated_tokens: Seq<u32>,
}

impl View for HfReference {
    type V = ReferenceModel;

    open spec fn view(&self) -> ReferenceModel {
        ReferenceModel {
            path: self.path@,
            prompt_token_ids: self.prompt_token_ids@,
            decode_steps: self.decode_steps,
            generated_tokens: self.generated_tokens@,
        }
    }
}

/// The ids of an array's items from `i` on, after those already read.
pub open spec fn array_ids(
    field: Seq<char>,
    items: Seq<JsonModel>,
    i: int,
    ids: Seq<u32>,
) -> Result<Seq<u32>, Seq<char>>
    decreases items.len() - i,
{
    if i >= items.len() {
        Ok(ids)
    } else {
        match natural_of(items[i]) {
            None => Err(
                "HF reference "@ + field + "["@ + decimal(i as nat)
                    + "] is not an unsigned integer"@,
            ),
            Some(raw) => if raw > u32::MAX {
                Err(
                    "HF reference "@ + field + "["@ + decimal(i as nat) + "] exceeds u32: "@
                        + decimal(raw as nat),
                )
            } else {
                array_ids(field, items, i + 1, ids.push(raw as u32))
            },
        }
    }
}

/// The ids of an array member.
pub open spec fn member_ids(value: JsonModel, field: Seq<char>) -> Result<Seq<u32>, Seq<char>> {
    match array_at(value, field) {
        None => Err("HF reference missing array field "@ + quoted(field)),
        Some(items) => array_ids(field, items, 0, Seq::empty()),
    }
}

pub fn json_u32_array(value: &serde_json::Value, field: &str) -> (r: Result<Vec<u32>, String>)
    ensures
        ids_told(r) == member_ids(json_model(*value), field@),
{
    let items = match member_array(value, field) {
        Some(items) => items,
        None => {
            let shown = quoted_text(field);
            return Err(cat2("HF reference missing array field ", shown.as_str()));
        },
    };
    let ghost all = models(items@);
    let mut ids: Vec<u32> = Vec::new();
    let mut i: usize = 0;
    while i < items.len()
        invariant
            i <= items@.len(),
            all == models(items@),
            member_ids(json_model(*value), field@) == array_ids(field@, all, i as int, ids@),
        decreases items@.len() - i,
    {
        assert(all[i as int] == json_model(items@[i as int]));
        match as_natural(&items[i]) {
            None => {
                let index = decimal_text(i as u64);
                return Err(
                    cat5(
                        "HF reference ",
                        field,
                        "[",
                        index.as_str(),
                        "] is not an unsigned integer",
                    ),
                );
            },
            Some(raw) => {
                if raw > u32::MAX as u64 {
                    let index = decimal_text(i as u64);
                    let number = decimal_text(raw);
                    return Err(
                        cat6(
                            "HF reference ",
                            field,
                            "[",
                            index.as_str(),
                            "] exceeds u32: ",
                            number.as_str(),
                        ),
                    );
                }
                ids.push(raw as u32);
            },
        }
        i = i + 1;
    }
    Ok(ids)
}

/// The reference that a document describes.
pub open spec fn reference_of(path: Seq<char>, value: JsonModel) -> Result<
    ReferenceModel,
    Seq<char>,
> {
    match member_ids(value, "prompt_token_ids"@) {
        Err(message) => Err(message),
        Ok(prompt_token_ids) => match member_ids(value, "generated_tokens"@) {
            Err(message) => Err(message),
            Ok(generated_tokens) => match natural_at(value, "decode_steps"@) {
                None => Err(
                    "HF reference missing unsigned integer field \"decode_steps\""@,
                ),
                Some(raw) => if raw > usize::MAX {
                    Err("HF reference decode_steps too large: "@ + decimal(raw as nat))
                } else {
                    Ok(
                        ReferenceModel {
                            path,
                            prompt_token_ids,
                            decode_steps: raw as usize,
                            generated_tokens,
                        },
                    )
                },
            },
        },
    }
}

/// The reference in a file's text.
pub open spec fn reference_in(path: Seq<char>, document: Result<JsonModel, Seq<char>>) -> Result<
    ReferenceModel,
    Seq<char>,
> {
    match document {
        Err(message) => Err("parse HF reference "@ + path + ": "@ + message),
        Ok(value) => reference_of(path, value),
    }
}

pub open spec fn reference_told(r: Result<HfReference, String>) -> Result<
    ReferenceModel,
    Seq<char>,
> {
    match r {
        Ok(reference) => Ok(reference@),
        Err(e) => Err(e@),
    }
}

/// Reads a reference from a parsed document.
pub fn reference_from_value(path: &str, value: &serde_json::Value) -> (r: Result<
    HfReference,
    String,
>)
    ensures
        reference_told(r) == reference_of(path@, json_model(*value)),
{
    let prompt_token_ids = match json_u32_array(value, "prompt_token_ids") {
        Ok(ids) => ids,
        Err(message) => {
            return Err(message);
        },
    };
    let generated_tokens = match json_u32_array(value, "generated_tokens") {
        Ok(ids) => ids,
        Err(message) => {
            return Err(message);
        },
    };
    match member_natural(value, "decode_steps") {
        None => Err("HF reference missing unsigned integer field \"decode_steps\"".to_owned()),
        Some(raw) => {
            if raw > usize::MAX as u64 {
                let number = decimal_text(raw);
                return Err(cat2("HF reference decode_steps too large: ", number.as_str()));
            }
            Ok(
                HfReference {
                    path: path.to_owned(),
                    prompt_token_ids,
                    decode_steps: raw as usize,
                    generated_tokens,
                },
            )
        },
    }
}

/// Reads a reference from the text of its file.
pub fn parse_hf_reference(path: &str, raw: &str) -> (r: Result<HfReference, String>)
    ensures
        reference_told(r) == reference_in(path@, json_document(raw@)),
{
    match parse_text(raw) {
        Ok(value) => reference_from_value(path, &value),
        Err(error) => Err(cat4("parse HF reference ", path, ": ", error.as_str())),
    }
}

/// How a run compares with its reference.
#[derive(Debug)]
pub struct ReferenceComparison {
    pub path: String,
    pub matched: bool,
    pub mismatches: Vec<String>,
}

/// The differences between a run and its reference, in order.
pub open spec fn differences(
    prompt_token_ids: Seq<u32>,
    max_new_tokens: usize,
    generated_token_ids: Seq<u32>,
    reference: ReferenceModel,
) -> Seq<Seq<char>> {
    let prompt = if prompt_token_ids == reference.prompt_token_ids {
        Seq::empty()
    } else {
        seq![
            "prompt_token_ids differ: metal="@ + list_text(prompt_token_ids) + " reference="@
                + list_text(reference.prompt_token_ids),
        ]
    };
    let steps = if max_new_tokens == reference.decode_steps {
        Seq::empty()
    } else {
        seq![
            "max_new_tokens/decode_steps differ: metal="@ + decimal(max_new_tokens as nat)
                + " reference="@ + decimal(reference.decode_steps as nat),
        ]
    };
    let generated = if generated_token_ids == reference.generated_tokens {
        Seq::empty()
    } else {
        seq![
            "generated_token_ids differ: metal="@ + list_text(generated_token_ids) + " reference="@
                + list_text(reference.generated_tokens),
        ]
    };
    prompt + steps + generated
}

fn same_ids(a: &Vec<u32>, b: &Vec<u32>) -> (r: bool)
    ensures
        r == (a@ == b@),
{
    if a.len() != b.len() {
        return false;
    }
    let mut i: usize = 0;
    while i < a.len()
        invariant
            i <= a@.len(),
            a@.len() == b@.len(),
            forall|j: int| 0 <= j < i ==> a@[j] == b@[j],
        decreases a@.len() - i,
    {
        if a[i] != b[i] {
            return false;
        }
        i = i + 1;
    }
    assert(a@ =~= b@);
    true
}

/// Compares a run with its reference. They match exactly when the prompt, the
/// number of steps and the generated tokens are the same.
pub fn compare_hf_reference_parts(
    prompt_token_ids: &Vec<u32>,
    max_new_tokens: usize,
    generated_token_ids: &Vec<u32>,
    reference: &HfReference,
) -> (r: ReferenceComparison)
    ensures
        r.path@ == reference.path@,
        texts(r.mismatches@) == differences(
            prompt_token_ids@,
            max_new_tokens,
            generated_token_ids@,
            reference@,
        ),
        r.matched == (prompt_token_ids@ == reference@.prompt_token_ids && max_new_tokens
            == reference@.decode_steps && generated_token_ids@ == reference@.generated_tokens),
{
    let mut mismatches: Vec<String> = Vec::new();
    if !same_ids(prompt_token_ids, &reference.prompt_token_ids) {
        let left = list_of(prompt_token_ids);
        let right = list_of(&reference.prompt_token_ids);
        mismatches.push(
            cat4("prompt_token_ids differ: metal=", left.as_str(), " reference=", right.as_str()),
        );
    }
    if max_new_tokens != reference.decode_steps {
        let left = decimal_text(max_new_tokens as u64);
        let right = decimal_text(reference.decode_steps as u64);
        mismatches.push(
            cat4(
                "max_new_tokens/decode_steps differ: metal=",
                left.as_str(),
                " reference=",
                right.as_str(),
            ),
        );
    }
    if !same_ids(generated_token_ids, &reference.generated_tokens) {
        let left = list_of(generated_token_ids);
        let right = list_of(&reference.generated_tokens);
        mismatches.push(
            cat4(
                "generated_token_ids differ: metal=",
                left.as_str(),
                " reference=",
                right.as_str(),
            ),
        );
    }
    assert(texts(mismatches@) =~= differences(
        prompt_token_ids@,
        max_new_tokens,
        generated_token_ids@,
        reference@,
    ));
    let matched = mismatches.len() == 0;
    ReferenceComparison { path: reference.path.clone(), matched, mismatches }
}

} // verus!
