//! The handoff of a Metal prefill: what the verifier is asked, which reference
//! fits it, and what a captured prefill and its continuation must show.
use crate::disagg::prefill_case::{two_digit_text, two_digits, PrefillAnswer, PrefillCounters};
use crate::disagg::references::{id_list, indexed, member_id_list};
use crate::json::{json_bytes_document, json_model, parse_bytes, JsonModel};
use crate::metal_infer::args::ids_told;
use crate::metal_infer::generation::is_eos;
use crate::text::{
    cat2, cat3, cat4, cat6, decimal, decimal_text, fault_text, numeral, opt_text, parse_numeral,
    same, split, split_text, texts, told,
};
use vstd::prelude::*;

verus! {

/// What a handoff report claims.
pub const HANDOFF_CLAIM: &'static str = "One Metal prefill sampled the first output from its final row and captured prompt KV after collection. ANE compile/decode was not attempted.";

// ---------------------------------------------------------------------------
// Options
// ---------------------------------------------------------------------------

#[derive(Debug)]
pub struct HandoffOptions {
    pub model_dir: Option<String>,
    pub output_dir: Option<String>,
    pub reference: Option<String>,
    pub prompt: Vec<u32>,
    pub capacity: usize,
}

pub struct HandoffModel {
    pub model_dir: Option<Seq<char>>,
    pub output_dir: Option<Seq<char>>,
    pub reference: Option<Seq<char>>,
    pub prompt: Seq<u32>,
    pub capacity: usize,
}

impl View for HandoffOptions {
    type V = HandoffModel;

    open spec fn view(&self) -> HandoffModel {
        HandoffModel {
            model_dir: opt_text(self.model_dir),
            output_dir: opt_text(self.output_dir),
            reference: opt_text(self.reference),
            prompt: self.prompt@,
            capacity: self.capacity,
        }
    }
}

/// The ids of the pieces from `i` on, after those already read.
pub open spec fn ids_from(pieces: Seq<Seq<char>>, i: int, read: Seq<u32>) -> Result<
    Seq<u32>,
    Seq<char>,
>
    decreases pieces.len() - i,
{
    if i >= pieces.len() {
        Ok(read)
    } else {
        match numeral(pieces[i], u32::MAX as nat) {
            Err(fault) => Err(fault_text(fault)),
            Ok(id) => ids_from(pieces, i + 1, read.push(id as u32)),
        }
    }
}

/// Reads token ids that commas separate.
pub fn parse_ids(raw: &str) -> (r: Result<Vec<u32>, String>)
    ensures
        ids_told(r) == ids_from(split(raw@, ','), 0, Seq::empty()),
{
    let pieces = split_text(raw, ',');
    let ghost all = texts(pieces@);
    let mut ids: Vec<u32> = Vec::new();
    let mut i: usize = 0;
    assert(ids@ =~= Seq::empty());
    while i < pieces.len()
        invariant
            i <= pieces@.len(),
            all == texts(pieces@),
            all == split(raw@, ','),
            ids_from(all, 0, Seq::empty()) == ids_from(all, i as int, ids@),
        decreases pieces@.len() - i,
    {
        assert(all[i as int] == pieces@[i as int]@);
        match parse_numeral(pieces[i].as_str(), u32::MAX as u64) {
            Ok(id) => {
                ids.push(id as u32);
            },
            Err(fault) => {
                return Err(fault.text().to_owned());
            },
        }
        i = i + 1;
    }
    Ok(ids)
}

/// The options after one of them and its value.
pub open spec fn option_read(d: HandoffModel, flag: Seq<char>, value: Seq<char>) -> Result<
    HandoffModel,
    Seq<char>,
> {
    if flag == "--model-dir"@ {
        Ok(HandoffModel { model_dir: Some(value), ..d })
    } else if flag == "--output-dir"@ {
        Ok(HandoffModel { output_dir: Some(value), ..d })
    } else if flag == "--hf-reference"@ {
        Ok(HandoffModel { reference: Some(value), ..d })
    } else if flag == "--prompt-token-ids"@ {
        match ids_from(split(value, ','), 0, Seq::empty()) {
            Ok(prompt) => Ok(HandoffModel { prompt, ..d }),
            Err(message) => Err(message),
        }
    } else if flag == "--max-total-tokens"@ {
        match numeral(value, usize::MAX as nat) {
            Ok(capacity) => Ok(HandoffModel { capacity: capacity as usize, ..d }),
            Err(fault) => Err(fault_text(fault)),
        }
    } else {
        Err("unknown option "@ + flag)
    }
}

/// The options of the arguments from `i` on.
pub open spec fn options_from(args: Seq<Seq<char>>, i: int, d: HandoffModel) -> Result<
    HandoffModel,
    Seq<char>,
>
    decreases args.len() - i,
{
    if i >= args.len() {
        Ok(d)
    } else if i + 1 >= args.len() {
        Err("missing value for "@ + args[i])
    } else {
        match option_read(d, args[i], args[i + 1]) {
            Ok(next) => options_from(args, i + 2, next),
            Err(message) => Err(message),
        }
    }
}

pub open spec fn default_options() -> HandoffModel {
    HandoffModel {
        model_dir: None,
        output_dir: None,
        reference: None,
        prompt: Seq::empty(),
        capacity: 64,
    }
}

impl HandoffOptions {
    fn take(&mut self, flag: &str, value: &str) -> (r: Result<(), String>)
        ensures
            match r {
                Ok(_) => option_read(old(self)@, flag@, value@) == Ok::<HandoffModel, Seq<char>>(
                    final(self)@,
                ),
                Err(e) => option_read(old(self)@, flag@, value@) == Err::<HandoffModel, Seq<char>>(
                    e@,
                ),
            },
    {
        if same(flag, "--model-dir") {
            self.model_dir = Some(value.to_owned());
        } else if same(flag, "--output-dir") {
            self.output_dir = Some(value.to_owned());
        } else if same(flag, "--hf-reference") {
            self.reference = Some(value.to_owned());
        } else if same(flag, "--prompt-token-ids") {
            match parse_ids(value) {
                Ok(ids) => {
                    self.prompt = ids;
                },
                Err(message) => {
                    return Err(message);
                },
            }
        } else if same(flag, "--max-total-tokens") {
            match parse_numeral(value, usize::MAX as u64) {
                Ok(capacity) => {
                    self.capacity = capacity as usize;
                },
                Err(fault) => {
                    return Err(fault.text().to_owned());
                },
            }
        } else {
            return Err(cat2("unknown option ", flag));
        }
        Ok(())
    }
}

pub open spec fn options_told(r: Result<HandoffOptions, String>) -> Result<
    HandoffModel,
    Seq<char>,
> {
    match r {
        Ok(options) => Ok(options@),
        Err(e) => Err(e@),
    }
}

/// Reads a command line, without the program's name.
pub fn parse_options(args: &Vec<String>) -> (r: Result<HandoffOptions, String>)
    ensures
        options_told(r) == options_from(texts(args@), 0, default_options()),
{
    let ghost all = texts(args@);
    let mut options = HandoffOptions {
        model_dir: None,
        output_dir: None,
        reference: None,
        prompt: Vec::new(),
        capacity: 64,
    };
    assert(options@.prompt =~= Seq::empty());
    let mut i: usize = 0;
    while i < args.len()
        invariant
            i <= args@.len(),
            all == texts(args@),
            options_from(all, 0, default_options()) == options_from(all, i as int, options@),
        decreases args@.len() - i,
    {
        let flag = args[i].as_str();
        assert(all[i as int] == flag@);
        if i + 1 >= args.len() {
            return Err(cat2("missing value for ", flag));
        }
        let value = args[i + 1].as_str();
        assert(all[i + 1] == value@);
        match options.take(flag, value) {
            Ok(_) => {},
            Err(message) => {
                return Err(message);
            },
        }
        i = i + 2;
    }
    Ok(options)
}

pub open spec fn request_outcome(o: HandoffModel) -> Result<(), Seq<char>> {
    if o.model_dir is None {
        Err("--model-dir is required"@)
    } else if o.output_dir is None {
        Err("--output-dir is required"@)
    } else if o.prompt.len() > u32::MAX {
        Err("out of range integral type conversion attempted"@)
    } else if o.prompt.len() == 0 || o.prompt.len() > o.capacity || o.capacity % 32 != 0 {
        Err("provide nonempty --prompt-token-ids within a 32-aligned --max-total-tokens"@)
    } else {
        Ok(())
    }
}

impl HandoffOptions {
    /// Checks the options together.
    pub fn check(&self) -> (r: Result<(), String>)
        ensures
            told(r) == request_outcome(self@),
    {
        if self.model_dir.is_none() {
            return Err("--model-dir is required".to_owned());
        }
        if self.output_dir.is_none() {
            return Err("--output-dir is required".to_owned());
        }
        if self.prompt.len() > u32::MAX as usize {
            return Err("out of range integral type conversion attempted".to_owned());
        }
        if self.prompt.len() == 0 || self.prompt.len() > self.capacity || self.capacity % 32 != 0 {
            return Err(
                "provide nonempty --prompt-token-ids within a 32-aligned --max-total-tokens".to_owned(),
            );
        }
        Ok(())
    }
}

// ---------------------------------------------------------------------------
// The reference
// ---------------------------------------------------------------------------

pub open spec fn reference_of(document: JsonModel, prompt: Seq<u32>, capacity: usize) -> Result<
    Seq<u32>,
    Seq<char>,
> {
    match id_list(indexed(document, "prompt_token_ids"@)) {
        Err(message) => Err(message),
        Ok(own) => match id_list(indexed(document, "generated_tokens"@)) {
            Err(message) => Err(message),
            Ok(generated) => if own != prompt {
                Err("reference prompt IDs do not match --prompt-token-ids"@)
            } else if generated.len() == 0 {
                Err("reference has no generated token"@)
            } else if prompt.len() + generated.len() - 1 > capacity {
                Err("reference continuation exceeds --max-total-tokens"@)
            } else {
                Ok(generated)
            },
        },
    }
}

fn same_ids(a: &Vec<u32>, b: &Vec<u32>) -> (r: bool)
    ensures
        r == (a@ == b@),
{
    if a.len() != b.len() {
        return false;
    }
    let mut i: usize = 0;
    while i < a.len()
        invariant
            i <= a@.len() == b@.len(),
            forall|j: int| 0 <= j < i ==> a@[j] == b@[j],
        decreases a@.len() - i,
    {
        if a[i] != b[i] {
            return false;
        }
        i = i + 1;
    }
    assert(a@ =~= b@);
    true
}

/// The continuation of a reference document that fits the prompt and the context.
pub fn reference_tokens(value: &serde_json::Value, prompt: &Vec<u32>, capacity: usize) -> (r: Result<
    Vec<u32>,
    String,
>)
    ensures
        ids_told(r) == reference_of(json_model(*value), prompt@, capacity),
{
    let own = match member_id_list(value, "prompt_token_ids") {
        Ok(ids) => ids,
        Err(message) => {
            return Err(message);
        },
    };
    let generated = match member_id_list(value, "generated_tokens") {
        Ok(ids) => ids,
        Err(message) => {
            return Err(message);
        },
    };
    if !same_ids(&own, prompt) {
        return Err("reference prompt IDs do not match --prompt-token-ids".to_owned());
    }
    if generated.len() == 0 {
        return Err("reference has no generated token".to_owned());
    }
    if prompt.len() > capacity || generated.len() - 1 > capacity - prompt.len() {
        return Err("reference continuation exceeds --max-total-tokens".to_owned());
    }
    Ok(generated)
}

pub open spec fn reference_read(
    document: Result<JsonModel, Seq<char>>,
    prompt: Seq<u32>,
    capacity: usize,
) -> Result<Seq<u32>, Seq<char>> {
    match document {
        Ok(value) => reference_of(value, prompt, capacity),
        Err(message) => Err(message),
    }
}

/// The continuation in a reference file's bytes.
pub fn load_reference_tokens(bytes: &[u8], prompt: &Vec<u32>, capacity: usize) -> (r: Result<
    Vec<u32>,
    String,
>)
    ensures
        ids_told(r) == reference_read(json_bytes_document(bytes@), prompt@, capacity),
{
    match parse_bytes(bytes) {
        Ok(value) => reference_tokens(&value, prompt, capacity),
        Err(message) => Err(message),
    }
}

pub open spec fn all_below(ids: Seq<u32>, vocabulary: usize) -> bool {
    forall|i: int| 0 <= i < ids.len() ==> (#[trigger] ids[i]) < vocabulary
}

pub open spec fn ends_late(generated: Seq<u32>, eos: Seq<u32>) -> bool {
    forall|i: int| 0 <= i < generated.len() - 1 ==> !eos.contains(#[trigger] generated[i])
}

fn are_below(ids: &Vec<u32>, vocabulary: usize) -> (r: bool)
    ensures
        r == all_below(ids@, vocabulary),
{
    let mut i: usize = 0;
    while i < ids.len()
        invariant
            i <= ids@.len(),
            forall|j: int| 0 <= j < i ==> (#[trigger] ids@[j]) < vocabulary,
        decreases ids@.len() - i,
    {
        if ids[i] as usize >= vocabulary {
            assert(ids@[i as int] >= vocabulary);
            return false;
        }
        i = i + 1;
    }
    true
}

pub open spec fn vocabulary_outcome(
    prompt: Seq<u32>,
    reference: Option<Seq<u32>>,
    vocabulary: usize,
    eos: Seq<u32>,
) -> Result<(), Seq<char>> {
    if !all_below(prompt, vocabulary) {
        Err("prompt token is outside the checkpoint vocabulary"@)
    } else {
        match reference {
            Some(generated) => if !all_below(generated, vocabulary) || !ends_late(generated, eos) {
                Err("reference contains an invalid token or continues after model EOS"@)
            } else {
                Ok(())
            },
            None => Ok(()),
        }
    }
}

pub open spec fn ids_of(ids: Option<Vec<u32>>) -> Option<Seq<u32>> {
    match ids {
        Some(v) => Some(v@),
        None => None,
    }
}

/// Checks the prompt and its reference against the checkpoint's vocabulary and
/// end-of-sequence tokens.
pub fn check_vocabulary(
    prompt: &Vec<u32>,
    reference: &Option<Vec<u32>>,
    vocabulary: usize,
    eos: &Vec<u32>,
) -> (r: Result<(), String>)
    ensures
        told(r) == vocabulary_outcome(prompt@, ids_of(*reference), vocabulary, eos@),
{
    if !are_below(prompt, vocabulary) {
        return Err("prompt token is outside the checkpoint vocabulary".to_owned());
    }
    if let Some(generated) = reference {
        let mut late = true;
        let mut i: usize = 0;
        while i < generated.len() && i < generated.len() - 1
            invariant
                i <= generated@.len(),
                late == forall|j: int|
                    0 <= j < i && j < generated@.len() - 1 ==> !eos@.contains(
                        #[trigger] generated@[j],
                    ),
            decreases generated@.len() - i,
        {
            if is_eos(eos, generated[i]) {
                assert(eos@.contains(generated@[i as int]));
                late = false;
            }
            i = i + 1;
        }
        if !are_below(generated, vocabulary) || !late {
            return Err(
                "reference contains an invalid token or continues after model EOS".to_owned(),
            );
        }
    }
    Ok(())
}

// ---------------------------------------------------------------------------
// The captured prefill
// ---------------------------------------------------------------------------

/// An optional number, as `{:?}` writes it.
pub open spec fn optional_text(n: Option<u32>) -> Seq<char> {
    match n {
        Some(n) => "Some("@ + decimal(n as nat) + ")"@,
        None => "None"@,
    }
}

pub open spec fn start_outcome(
    counters: PrefillCounters,
    answer: PrefillAnswer,
    owner: u64,
    prompt_len: usize,
    expected: Option<u32>,
) -> Result<(), Seq<char>> {
    if counters.prefill_steps != 1 || counters.decode_steps != 0 || counters.command_buffers != 1 {
        Err("handoff did not use exactly one prefill command buffer with no decode replay"@)
    } else if answer.req_id != owner || answer.next_position != prompt_len {
        Err("ANE decode start does not match the prompt request/position"@)
    } else if expected is Some && expected->0 != answer.first_token {
        Err(
            "first prefill token "@ + decimal(answer.first_token as nat)
                + " differs from reference "@ + optional_text(expected),
        )
    } else {
        Ok(())
    }
}

/// Checks a prefill: one command buffer, no decode, the right request and
/// position, and the reference's first token.
pub fn check_start(
    counters: PrefillCounters,
    answer: PrefillAnswer,
    owner: u64,
    prompt_len: usize,
    expected: Option<u32>,
) -> (r: Result<(), String>)
    ensures
        told(r) == start_outcome(counters, answer, owner, prompt_len, expected),
{
    if counters.prefill_steps != 1 || counters.decode_steps != 0 || counters.command_buffers != 1 {
        return Err(
            "handoff did not use exactly one prefill command buffer with no decode replay".to_owned(),
        );
    }
    if answer.req_id != owner || answer.next_position != prompt_len {
        return Err("ANE decode start does not match the prompt request/position".to_owned());
    }
    if let Some(token) = expected {
        if token != answer.first_token {
            let first = decimal_text(answer.first_token as u64);
            let number = decimal_text(token as u64);
            let wanted = cat3("Some(", number.as_str(), ")");
            return Err(
                cat4(
                    "first prefill token ",
                    first.as_str(),
                    " differs from reference ",
                    wanted.as_str(),
                ),
            );
        }
    }
    Ok(())
}

/// Checks the number of layouts, before anything is loaded.
pub fn check_layouts(layouts: usize, expected: usize) -> (r: Result<(), String>)
    ensures
        told(r) == if layouts != expected {
            Err::<(), Seq<char>>("checkpoint layer types disagree with layer count"@)
        } else {
            Ok(())
        },
{
    if layouts != expected {
        return Err("checkpoint layer types disagree with layer count".to_owned());
    }
    Ok(())
}

/// Checks the number of layers that a prefill captured.
pub fn check_captured(captured: usize, expected: usize) -> (r: Result<(), String>)
    ensures
        told(r) == if captured != expected {
            Err::<(), Seq<char>>("captured layer count disagrees with checkpoint"@)
        } else {
            Ok(())
        },
{
    if captured != expected {
        return Err("captured layer count disagrees with checkpoint".to_owned());
    }
    Ok(())
}

/// The shape of a layer's cache.
#[derive(Clone, Copy, Debug, PartialEq, Eq, Structural)]
pub struct CacheShape {
    pub query_heads: usize,
    pub kv_heads: usize,
    pub head_dim: usize,
    pub sliding_window: Option<usize>,
}

/// How many of some FP16 values are neither zero, up to `n`.
pub open spec fn nonzero(values: Seq<u16>, n: int) -> nat
    decreases n,
{
    if n <= 0 {
        0
    } else {
        nonzero(values, n - 1) + (if values[n - 1] % 0x8000 != 0 {
            1nat
        } else {
            0
        })
    }
}

/// How many FP16 values are neither zero.
pub fn count_nonzero(values: &Vec<u16>) -> (r: usize)
    ensures
        r == nonzero(values@, values@.len() as int),
        r <= values@.len(),
{
    let mut total: usize = 0;
    let mut i: usize = 0;
    while i < values.len()
        invariant
            i <= values@.len(),
            total <= i,
            total == nonzero(values@, i as int),
        decreases values@.len() - i,
    {
        if values[i] % 0x8000 != 0 {
            total = total + 1;
        }
        i = i + 1;
    }
    total
}

pub open spec fn layer_outcome(
    index: usize,
    captured: CacheShape,
    layout: CacheShape,
    keys: nat,
    values: nat,
) -> Result<(), Seq<char>> {
    if captured != layout {
        Err("layer "@ + decimal(index as nat) + " cache shape disagrees with checkpoint"@)
    } else if keys == 0 || values == 0 {
        Err("layer "@ + decimal(index as nat) + " exported an empty key or value tensor"@)
    } else {
        Ok(())
    }
}

/// Checks the shape of a captured layer, and that neither of its tensors is all
/// zero.
pub fn check_layer(
    index: usize,
    captured: CacheShape,
    layout: CacheShape,
    key_nonzero: usize,
    value_nonzero: usize,
) -> (r: Result<(), String>)
    ensures
        told(r) == layer_outcome(
            index,
            captured,
            layout,
            key_nonzero as nat,
            value_nonzero as nat,
        ),
{
    let window = match (captured.sliding_window, layout.sliding_window) {
        (Some(a), Some(b)) => a == b,
        (None, None) => true,
        _ => false,
    };
    if captured.query_heads != layout.query_heads || captured.kv_heads != layout.kv_heads
        || captured.head_dim != layout.head_dim || !window {
        let number = decimal_text(index as u64);
        return Err(cat3("layer ", number.as_str(), " cache shape disagrees with checkpoint"));
    }
    if key_nonzero == 0 || value_nonzero == 0 {
        let number = decimal_text(index as u64);
        return Err(cat3("layer ", number.as_str(), " exported an empty key or value tensor"));
    }
    Ok(())
}

/// The file of a layer's keys or values.
pub fn tensor_file(layer: usize, value: bool) -> (r: String)
    ensures
        r@ == "layer-"@ + two_digits(layer as nat) + (if value {
            "-values.fp16"@
        } else {
            "-keys.fp16"@
        }),
{
    let number = two_digit_text(layer);
    cat3(
        "layer-",
        number.as_str(),
        if value {
            "-values.fp16"
        } else {
            "-keys.fp16"
        },
    )
}

/// The name of an attention layout's files.
pub fn layout_stem(shape: CacheShape, capacity: usize) -> (r: String)
    ensures
        r@ == "attention-h"@ + decimal(shape.query_heads as nat) + "-kv"@ + decimal(
            shape.kv_heads as nat,
        ) + "-d"@ + decimal(shape.head_dim as nat) + "-c"@ + decimal(capacity as nat),
{
    let heads = decimal_text(shape.query_heads as u64);
    let kv = decimal_text(shape.kv_heads as u64);
    let dim = decimal_text(shape.head_dim as u64);
    let size = decimal_text(capacity as u64);
    let mut stem = cat6("attention-h", heads.as_str(), "-kv", kv.as_str(), "-d", dim.as_str());
    stem.push_str("-c");
    stem.push_str(size.as_str());
    stem
}

/// Notes a layout, and tells whether it is new: each is written once.
pub fn emit_layout(
    shapes: &mut Vec<(usize, usize, usize, usize)>,
    shape: CacheShape,
    capacity: usize,
) -> (fresh: bool)
    ensures
        fresh == !old(shapes)@.contains(
            (shape.query_heads, shape.kv_heads, shape.head_dim, capacity),
        ),
        final(shapes)@ == if fresh {
            old(shapes)@.push((shape.query_heads, shape.kv_heads, shape.head_dim, capacity))
        } else {
            old(shapes)@
        },
{
    let mut i: usize = 0;
    while i < shapes.len()
        invariant
            i <= shapes@.len(),
            shapes@ == old(shapes)@,
            forall|j: int|
                0 <= j < i ==> shapes@[j] != (
                    shape.query_heads,
                    shape.kv_heads,
                    shape.head_dim,
                    capacity,
                ),
        decreases shapes@.len() - i,
    {
        let known = shapes[i];
        if known.0 == shape.query_heads && known.1 == shape.kv_heads && known.2 == shape.head_dim
            && known.3 == capacity {
            assert(shapes@[i as int] == (
                shape.query_heads,
                shape.kv_heads,
                shape.head_dim,
                capacity,
            ));
            return false;
        }
        i = i + 1;
    }
    shapes.push((shape.query_heads, shape.kv_heads, shape.head_dim, capacity));
    true
}

// ---------------------------------------------------------------------------
// The continuation
// ---------------------------------------------------------------------------

/// What a decode of the continuation gave: the request and the token of each
/// output.
pub open spec fn continuation_outcome(
    outputs: Seq<(u64, u32)>,
    owner: u64,
    expected: u32,
    position: u32,
) -> Result<u32, Seq<char>> {
    if outputs.len() != 1 {
        Err("Metal continuation did not return one token"@)
    } else if outputs[0].0 != owner || outputs[0].1 != expected {
        Err(
            "Metal continuation token "@ + decimal(outputs[0].1 as nat) + " at position "@
                + decimal(position as nat) + " differs from reference "@ + decimal(
                expected as nat,
            ),
        )
    } else {
        Ok(expected)
    }
}

/// Checks one decode of the continuation against the reference.
pub fn check_continuation(outputs: &Vec<(u64, u32)>, owner: u64, expected: u32, position: u32) -> (r:
    Result<u32, String>)
    ensures
        told(r) == continuation_outcome(outputs@, owner, expected, position),
{
    if outputs.len() != 1 {
        return Err("Metal continuation did not return one token".to_owned());
    }
    if outputs[0].0 != owner || outputs[0].1 != expected {
        let got = decimal_text(outputs[0].1 as u64);
        let place = decimal_text(position as u64);
        let wanted = decimal_text(expected as u64);
        return Err(
            cat6(
                "Metal continuation token ",
                got.as_str(),
                " at position ",
                place.as_str(),
                " differs from reference ",
                wanted.as_str(),
            ),
        );
    }
    Ok(expected)
}

/// The position of the decode that follows some generated tokens.
pub fn continuation_position(prompt_len: usize, generated: usize) -> (r: Result<u32, String>)
    requires
        generated > 0,
        prompt_len + generated <= usize::MAX,
    ensures
        told(r) == if prompt_len + generated - 1 > u32::MAX {
            Err::<u32, Seq<char>>("out of range integral type conversion attempted"@)
        } else {
            Ok((prompt_len + generated - 1) as u32)
        },
{
    let position: usize = prompt_len + generated - 1;
    if position > u32::MAX as usize {
        return Err("out of range integral type conversion attempted".to_owned());
    }
    Ok(position as u32)
}

/// A continuation that is verified against a reference, token by token.
#[derive(Debug)]
pub struct VerifiedContinuation {
    prompt_len: usize,
    owner: u64,
    reference: Vec<u32>,
    generated: Vec<u32>,
}

/// A verified continuation as mathematical values.
pub struct VerifiedModel {
    pub prompt_len: usize,
    pub owner: u64,
    pub reference: Seq<u32>,
    pub generated: Seq<u32>,
}

impl View for VerifiedContinuation {
    type V = VerifiedModel;

    closed spec fn view(&self) -> VerifiedModel {
        VerifiedModel {
            prompt_len: self.prompt_len,
            owner: self.owner,
            reference: self.reference@,
            generated: self.generated@,
        }
    }
}

/// A decode of the continuation: the token that is fed, and its position.
#[derive(Clone, Copy, Debug, PartialEq, Eq, Structural)]
pub struct ContinuationDecode {
    pub token: u32,
    pub position: u32,
}

impl VerifiedModel {
    /// There is a first token, every later one is the reference's, and positions
    /// stay in range.
    pub open spec fn well_formed(self) -> bool {
        &&& 1 <= self.generated.len() <= self.reference.len()
        &&& self.prompt_len + self.reference.len() <= usize::MAX
        &&& forall|k: int|
            0 < k < self.generated.len() ==> (#[trigger] self.generated[k]) == self.reference[k]
    }

    /// Whether a decode is still due.
    pub open spec fn goes_on(self) -> bool {
        self.generated.len() < self.reference.len()
    }

    /// The decode that is due: the last token is fed, one position after the one
    /// before; nothing where the reference is complete.
    pub open spec fn due(self) -> Result<Option<ContinuationDecode>, Seq<char>> {
        let position = self.prompt_len + self.generated.len() - 1;
        if !self.goes_on() {
            Ok(None)
        } else if position > u32::MAX {
            Err("out of range integral type conversion attempted"@)
        } else {
            Ok(
                Some(
                    ContinuationDecode {
                        token: self.generated.last(),
                        position: position as u32,
                    },
                ),
            )
        }
    }
}

impl VerifiedContinuation {
    /// The tokens so far.
    pub fn generated(&self) -> (r: &Vec<u32>)
        ensures
            r@ == self@.generated,
    {
        &self.generated
    }

    /// Starts after a prefill that sampled the first token.
    pub fn begin(prompt_len: usize, owner: u64, first: u32, reference: Vec<u32>) -> (r:
        VerifiedContinuation)
        requires
            reference@.len() > 0,
            prompt_len + reference@.len() <= usize::MAX,
        ensures
            r@.well_formed(),
            r@ == (VerifiedModel {
                prompt_len,
                owner,
                reference: reference@,
                generated: seq![first],
            }),
    {
        let mut generated: Vec<u32> = Vec::new();
        generated.push(first);
        assert(generated@ =~= seq![first]);
        VerifiedContinuation { prompt_len, owner, reference, generated }
    }

    /// The decode that is due, if any.
    pub fn next(&self) -> (r: Result<Option<ContinuationDecode>, String>)
        requires
            self@.well_formed(),
        ensures
            told(r) == self@.due(),
    {
        let done: usize = self.generated.len();
        if done >= self.reference.len() {
            return Ok(None);
        }
        match continuation_position(self.prompt_len, done) {
            Err(message) => Err(message),
            Ok(position) => Ok(
                Some(ContinuationDecode { token: self.generated[done - 1], position }),
            ),
        }
    }

    /// Takes what a decode gave: the reference's next token for the request, or the
    /// continuation is refused and stays as it was.
    pub fn accept(&mut self, decode: ContinuationDecode, outputs: &Vec<(u64, u32)>) -> (r: Result<
        (),
        String,
    >)
        requires
            old(self)@.well_formed(),
            old(self)@.due() == Ok::<Option<ContinuationDecode>, Seq<char>>(Some(decode)),
        ensures
            final(self)@.well_formed(),
            match continuation_outcome(
                outputs@,
                old(self)@.owner,
                old(self)@.reference[old(self)@.generated.len() as int],
                decode.position,
            ) {
                Ok(token) => r is Ok && final(self)@ == (VerifiedModel {
                    generated: old(self)@.generated.push(token),
                    ..old(self)@
                }),
                Err(message) => r is Err && r->Err_0@ == message && final(self)@ == old(self)@,
            },
    {
        let expected: u32 = self.reference[self.generated.len()];
        match check_continuation(outputs, self.owner, expected, decode.position) {
            Err(message) => Err(message),
            Ok(token) => {
                self.generated.push(token);
                Ok(())
            },
        }
    }
}

/// A continuation that is complete is the reference, where its first token was.
pub proof fn complete_continuations_match(c: VerifiedModel)
    requires
        c.well_formed(),
        !c.goes_on(),
        c.generated[0] == c.reference[0],
    ensures
        c.generated == c.reference,
{
    assert forall|k: int| 0 <= k < c.generated.len() implies c.generated[k] == c.reference[k] by {
        if k > 0 {
            assert(c.generated[k] == c.reference[k]);
        }
    }
    assert(c.generated =~= c.reference);
}

} // verus!
