//! The receipt of a stage microbenchmark: its identity against the job, the
//! coverage of the stage matrix, and the timings of its cases. Timings are
//! doubles given by their bits.
use crate::json::{
    as_bits, at, bool_at, double_key, finite_bits, is_finite_double, json_model, key_of_double,
    member, member_flag, models, number_bits, JsonModel,
};
use crate::mlx::stage_identity::{
    array_field, hash_outcome, items_at, nullable_at, object_at, object_field, optional_string,
    require_input_hash, string, string_at, unsigned, unsigned_at, IdentityModel, JobIdentity,
};
use crate::order::{comes_before, text_before};
use crate::text::{
    cat2, cat3, cat5, cat6, decimal, decimal_text, opt_text, quoted, quoted_text, same, told,
};
use vstd::prelude::*;

verus! {

// ---------------------------------------------------------------------------
// Case keys
// ---------------------------------------------------------------------------

/// What identifies a case: tokens, mode, stage and the stage's variant.
#[derive(Debug)]
pub struct CaseKey {
    pub length: u64,
    pub mode: String,
    pub category: String,
    pub variant: Option<String>,
}

pub struct KeyModel {
    pub length: u64,
    pub mode: Seq<char>,
    pub category: Seq<char>,
    pub variant: Option<Seq<char>>,
}

impl View for CaseKey {
    type V = KeyModel;

    open spec fn view(&self) -> KeyModel {
        KeyModel {
            length: self.length,
            mode: self.mode@,
            category: self.category@,
            variant: opt_text(self.variant),
        }
    }
}

pub open spec fn key_models(keys: Seq<CaseKey>) -> Seq<KeyModel> {
    Seq::new(keys.len(), |i: int| keys[i]@)
}

/// The order of keys: by tokens, mode, stage and variant; no variant first.
pub open spec fn key_before(a: KeyModel, b: KeyModel) -> bool {
    if a.length != b.length {
        a.length < b.length
    } else if a.mode != b.mode {
        text_before(a.mode, b.mode)
    } else if a.category != b.category {
        text_before(a.category, b.category)
    } else {
        match (a.variant, b.variant) {
            (None, Some(_)) => true,
            (Some(x), Some(y)) => text_before(x, y),
            _ => false,
        }
    }
}

fn precedes(a: &CaseKey, b: &CaseKey) -> (r: bool)
    ensures
        r == key_before(a@, b@),
{
    if a.length != b.length {
        return a.length < b.length;
    }
    if !same(a.mode.as_str(), b.mode.as_str()) {
        return comes_before(a.mode.as_str(), b.mode.as_str());
    }
    if !same(a.category.as_str(), b.category.as_str()) {
        return comes_before(a.category.as_str(), b.category.as_str());
    }
    match (&a.variant, &b.variant) {
        (None, Some(_)) => true,
        (Some(x), Some(y)) => comes_before(x.as_str(), y.as_str()),
        _ => false,
    }
}

fn same_key(a: &CaseKey, b: &CaseKey) -> (r: bool)
    ensures
        r == (a@ == b@),
{
    let variants = match (&a.variant, &b.variant) {
        (None, None) => true,
        (Some(x), Some(y)) => same(x.as_str(), y.as_str()),
        _ => false,
    };
    a.length == b.length && same(a.mode.as_str(), b.mode.as_str()) && same(
        a.category.as_str(),
        b.category.as_str(),
    ) && variants
}

pub open spec fn key_place(keys: Seq<KeyModel>, key: KeyModel, i: int) -> int
    decreases keys.len() - i,
{
    if i >= keys.len() {
        keys.len() as int
    } else if key_before(key, keys[i]) {
        i
    } else {
        key_place(keys, key, i + 1)
    }
}

/// Keys in order with one more.
pub open spec fn with_key(keys: Seq<KeyModel>, key: KeyModel) -> Seq<KeyModel> {
    if keys.contains(key) {
        keys
    } else {
        keys.insert(key_place(keys, key, 0), key)
    }
}

fn holds_key(keys: &Vec<CaseKey>, key: &CaseKey) -> (r: bool)
    ensures
        r == key_models(keys@).contains(key@),
{
    let ghost all = key_models(keys@);
    let mut i: usize = 0;
    while i < keys.len()
        invariant
            i <= keys@.len(),
            all == key_models(keys@),
            forall|j: int| 0 <= j < i ==> all[j] != key@,
        decreases keys@.len() - i,
    {
        assert(all[i as int] == keys@[i as int]@);
        if same_key(&keys[i], key) {
            return true;
        }
        i = i + 1;
    }
    false
}

fn insert_key(keys: &mut Vec<CaseKey>, key: CaseKey) -> (r: bool)
    ensures
        r == !key_models(old(keys)@).contains(key@),
        key_models(final(keys)@) == with_key(key_models(old(keys)@), key@),
{
    if holds_key(keys, &key) {
        return false;
    }
    let ghost all = key_models(keys@);
    let mut i: usize = 0;
    while i < keys.len() && !precedes(&key, &keys[i])
        invariant
            i <= keys@.len(),
            keys@ == old(keys)@,
            all == key_models(keys@),
            key_place(all, key@, 0) == key_place(all, key@, i as int),
        decreases keys@.len() - i,
    {
        assert(all[i as int] == keys@[i as int]@);
        i = i + 1;
    }
    let ghost before = keys@;
    let ghost model = key@;
    keys.insert(i, key);
    assert(key_models(keys@) =~= key_models(before).insert(i as int, model));
    true
}

/// The eleven stages of a mode, with their variants.
pub open spec fn stage_matrix() -> Seq<(Seq<char>, Option<Seq<char>>)> {
    seq![
        ("embedding"@, None),
        ("qkv"@, Some("sliding_attention"@)),
        ("qkv"@, Some("full_attention"@)),
        ("attention_core_sdpa"@, Some("sliding_attention"@)),
        ("attention_core_sdpa"@, Some("full_attention"@)),
        ("o_projection"@, Some("sliding_attention"@)),
        ("o_projection"@, Some("full_attention"@)),
        ("ffn_gate_up_activation"@, None),
        ("ffn_down"@, None),
        ("rmsnorm_residual"@, None),
        ("lm_head"@, None),
    ]
}

/// Keys in order with the first stages of a mode.
pub open spec fn with_stages(
    keys: Seq<KeyModel>,
    length: u64,
    mode: Seq<char>,
    count: int,
) -> Seq<KeyModel>
    decreases count,
{
    if count <= 0 {
        keys
    } else {
        let stage = stage_matrix()[count - 1];
        with_key(
            with_stages(keys, length, mode, count - 1),
            KeyModel { length, mode, category: stage.0, variant: stage.1 },
        )
    }
}

/// The keys that a receipt must cover: both modes and every stage of each
/// length.
pub open spec fn expected(lengths: Seq<u64>, count: int) -> Seq<KeyModel>
    decreases count,
{
    if count <= 0 {
        Seq::empty()
    } else {
        let length = lengths[count - 1];
        with_stages(
            with_stages(expected(lengths, count - 1), length, "prefill"@, 11),
            length,
            "decode"@,
            11,
        )
    }
}

fn add_stage(
    keys: &mut Vec<CaseKey>,
    length: u64,
    mode: &str,
    category: &str,
    variant: Option<&str>,
)
    ensures
        key_models(final(keys)@) == with_key(
            key_models(old(keys)@),
            KeyModel {
                length,
                mode: mode@,
                category: category@,
                variant: crate::json::opt_str(variant),
            },
        ),
{
    let _ = insert_key(
        keys,
        CaseKey {
            length,
            mode: mode.to_owned(),
            category: category.to_owned(),
            variant: match variant {
                Some(text) => Some(text.to_owned()),
                None => None,
            },
        },
    );
}

fn add_mode(keys: &mut Vec<CaseKey>, length: u64, mode: &str)
    ensures
        key_models(final(keys)@) == with_stages(key_models(old(keys)@), length, mode@, 11),
{
    proof {
        reveal_with_fuel(with_stages, 12);
    }
    add_stage(keys, length, mode, "embedding", None);
    add_stage(keys, length, mode, "qkv", Some("sliding_attention"));
    add_stage(keys, length, mode, "qkv", Some("full_attention"));
    add_stage(keys, length, mode, "attention_core_sdpa", Some("sliding_attention"));
    add_stage(keys, length, mode, "attention_core_sdpa", Some("full_attention"));
    add_stage(keys, length, mode, "o_projection", Some("sliding_attention"));
    add_stage(keys, length, mode, "o_projection", Some("full_attention"));
    add_stage(keys, length, mode, "ffn_gate_up_activation", None);
    add_stage(keys, length, mode, "ffn_down", None);
    add_stage(keys, length, mode, "rmsnorm_residual", None);
    add_stage(keys, length, mode, "lm_head", None);
}

pub fn expected_keys(lengths: &Vec<u64>) -> (r: Vec<CaseKey>)
    ensures
        key_models(r@) == expected(lengths@, lengths@.len() as int),
{
    let mut keys: Vec<CaseKey> = Vec::new();
    let mut i: usize = 0;
    assert(key_models(keys@) =~= Seq::empty());
    while i < lengths.len()
        invariant
            i <= lengths@.len(),
            key_models(keys@) == expected(lengths@, i as int),
        decreases lengths@.len() - i,
    {
        add_mode(&mut keys, lengths[i], "prefill");
        add_mode(&mut keys, lengths[i], "decode");
        i = i + 1;
    }
    keys
}

/// The key of a case.
pub open spec fn key_of(value: JsonModel) -> Result<KeyModel, Seq<char>> {
    match unsigned_at(value, "prompt_or_context_tokens"@) {
        Err(message) => Err(message),
        Ok(length) => match string_at(value, "mode"@) {
            Err(message) => Err(message),
            Ok(mode) => match string_at(value, "category"@) {
                Err(message) => Err(message),
                Ok(category) => match nullable_at(value, "variant"@) {
                    Err(message) => Err(message),
                    Ok(variant) => Ok(KeyModel { length, mode, category, variant }),
                },
            },
        },
    }
}

pub open spec fn key_told(r: Result<CaseKey, String>) -> Result<KeyModel, Seq<char>> {
    match r {
        Ok(key) => Ok(key@),
        Err(e) => Err(e@),
    }
}

pub fn case_key(value: &serde_json::Value) -> (r: Result<CaseKey, String>)
    ensures
        key_told(r) == key_of(json_model(*value)),
{
    let length: u64 = match unsigned(value, "prompt_or_context_tokens") {
        Ok(length) => length,
        Err(message) => {
            return Err(message);
        },
    };
    let mode = match string(value, "mode") {
        Ok(text) => text.to_owned(),
        Err(message) => {
            return Err(message);
        },
    };
    let category = match string(value, "category") {
        Ok(text) => text.to_owned(),
        Err(message) => {
            return Err(message);
        },
    };
    let variant = match optional_string(value, "variant") {
        Ok(variant) => variant,
        Err(message) => {
            return Err(message);
        },
    };
    Ok(CaseKey { length, mode, category, variant })
}

/// The keys of the cases from `i` on, in order, after those already read.
pub open spec fn keys_from(
    items: Seq<JsonModel>,
    require_timing: bool,
    i: int,
    keys: Seq<KeyModel>,
) -> Result<Seq<KeyModel>, Seq<char>>
    decreases items.len() - i,
{
    if i >= items.len() {
        Ok(keys)
    } else if require_timing && at(items[i], "timing"@) is None {
        Err("measured case is missing timing"@)
    } else {
        match key_of(items[i]) {
            Err(message) => Err(message),
            Ok(key) => if keys.contains(key) {
                Err("duplicate case identity"@)
            } else {
                keys_from(items, require_timing, i + 1, with_key(keys, key))
            },
        }
    }
}

pub open spec fn keys_told(r: Result<Vec<CaseKey>, String>) -> Result<Seq<KeyModel>, Seq<char>> {
    match r {
        Ok(keys) => Ok(key_models(keys@)),
        Err(e) => Err(e@),
    }
}

pub fn case_keys(values: &Vec<serde_json::Value>, require_timing: bool) -> (r: Result<
    Vec<CaseKey>,
    String,
>)
    ensures
        keys_told(r) == keys_from(models(values@), require_timing, 0, Seq::empty()),
{
    let ghost all = models(values@);
    let mut keys: Vec<CaseKey> = Vec::new();
    let mut i: usize = 0;
    assert(key_models(keys@) =~= Seq::empty());
    while i < values.len()
        invariant
            i <= values@.len(),
            all == models(values@),
            keys_from(all, require_timing, 0, Seq::empty()) == keys_from(
                all,
                require_timing,
                i as int,
                key_models(keys@),
            ),
        decreases values@.len() - i,
    {
        assert(all[i as int] == json_model(values@[i as int]));
        if require_timing && member(&values[i], "timing").is_none() {
            return Err("measured case is missing timing".to_owned());
        }
        match case_key(&values[i]) {
            Ok(key) => {
                if !insert_key(&mut keys, key) {
                    return Err("duplicate case identity".to_owned());
                }
            },
            Err(message) => {
                return Err(message);
            },
        }
        i = i + 1;
    }
    Ok(keys)
}

// ---------------------------------------------------------------------------
// Coverage
// ---------------------------------------------------------------------------

/// The keys of the first that the second lacks, in order.
pub open spec fn lacking(keys: Seq<KeyModel>, other: Seq<KeyModel>) -> Seq<KeyModel> {
    keys.filter(|k: KeyModel| !other.contains(k))
}

/// Whether two lists hold the same keys.
pub open spec fn same_keys(a: Seq<KeyModel>, b: Seq<KeyModel>) -> bool {
    lacking(a, b).len() == 0 && lacking(b, a).len() == 0
}

/// A key as it is shown.
pub open spec fn key_text(key: KeyModel) -> Seq<char> {
    ("("@ + decimal(key.length as nat) + ", "@ + quoted(key.mode) + ", "@ + quoted(key.category))
        + match key.variant {
        None => ", None)"@,
        Some(variant) => ", Some("@ + quoted(variant) + "))"@,
    }
}

fn show_key(key: &CaseKey) -> (r: String)
    ensures
        r@ == key_text(key@),
{
    let number = decimal_text(key.length);
    let mode = quoted_text(key.mode.as_str());
    let category = quoted_text(key.category.as_str());
    let head = cat6("(", number.as_str(), ", ", mode.as_str(), ", ", category.as_str());
    match &key.variant {
        None => cat2(head.as_str(), ", None)"),
        Some(variant) => {
            let shown = quoted_text(variant.as_str());
            let tail = cat3(", Some(", shown.as_str(), "))");
            cat2(head.as_str(), tail.as_str())
        },
    }
}

pub open spec fn key_items(keys: Seq<KeyModel>) -> Seq<char>
    decreases keys.len(),
{
    if keys.len() == 0 {
        Seq::empty()
    } else if keys.len() == 1 {
        key_text(keys[0])
    } else {
        key_items(keys.drop_last()) + ", "@ + key_text(keys.last())
    }
}

/// A list of keys as it is shown.
pub open spec fn key_list_text(keys: Seq<KeyModel>) -> Seq<char> {
    "["@ + key_items(keys) + "]"@
}

fn show_lacking(keys: &Vec<CaseKey>, other: &Vec<CaseKey>) -> (r: String)
    ensures
        r@ == key_list_text(lacking(key_models(keys@), key_models(other@))),
{
    let ghost all = key_models(keys@);
    let ghost theirs = key_models(other@);
    let ghost pick = |k: KeyModel| !theirs.contains(k);
    let mut out = "[".to_owned();
    let mut shown: bool = false;
    let mut i: usize = 0;
    proof {
        reveal(Seq::filter);
        assert(all.take(0) =~= Seq::empty());
        assert(out@ =~= "["@ + key_items(all.take(0).filter(pick)));
    }
    while i < keys.len()
        invariant
            i <= keys@.len(),
            all == key_models(keys@),
            theirs == key_models(other@),
            pick == (|k: KeyModel| !theirs.contains(k)),
            out@ == "["@ + key_items(all.take(i as int).filter(pick)),
            shown == (all.take(i as int).filter(pick).len() > 0),
        decreases keys@.len() - i,
    {
        let ghost before = all.take(i as int).filter(pick);
        proof {
            reveal(Seq::filter);
            assert(all[i as int] == keys@[i as int]@);
            assert(all.take(i + 1).drop_last() =~= all.take(i as int));
            assert(all.take(i + 1).last() == all[i as int]);
        }
        if !holds_key(other, &keys[i]) {
            let item = show_key(&keys[i]);
            if shown {
                out.push_str(", ");
            }
            out.push_str(item.as_str());
            proof {
                let after = before.push(all[i as int]);
                assert(after.drop_last() =~= before);
                assert(out@ =~= "["@ + key_items(after));
            }
            shown = true;
        }
        i = i + 1;
    }
    assert(all.take(all.len() as int) =~= all);
    out.push_str("]");
    out
}

/// Which keys are missing and which are not expected.
pub open spec fn coverage_text(label: Seq<char>, wanted: Seq<KeyModel>, found: Seq<KeyModel>) -> Seq<
    char,
> {
    label + " coverage mismatch: missing="@ + key_list_text(lacking(wanted, found))
        + ", unexpected="@ + key_list_text(lacking(found, wanted))
}

pub fn coverage_error(label: &str, wanted: &Vec<CaseKey>, found: &Vec<CaseKey>) -> (r: String)
    ensures
        r@ == coverage_text(label@, key_models(wanted@), key_models(found@)),
{
    let missing = show_lacking(wanted, found);
    let unexpected = show_lacking(found, wanted);
    cat5(
        label,
        " coverage mismatch: missing=",
        missing.as_str(),
        ", unexpected=",
        unexpected.as_str(),
    )
}

fn lacks_none(keys: &Vec<CaseKey>, other: &Vec<CaseKey>) -> (r: bool)
    ensures
        r == (lacking(key_models(keys@), key_models(other@)).len() == 0),
{
    let ghost all = key_models(keys@);
    let ghost theirs = key_models(other@);
    let ghost pick = |k: KeyModel| !theirs.contains(k);
    let mut i: usize = 0;
    proof {
        reveal(Seq::filter);
        assert(all.take(0).filter(pick).len() == 0);
    }
    while i < keys.len()
        invariant
            i <= keys@.len(),
            all == key_models(keys@),
            theirs == key_models(other@),
            pick == (|k: KeyModel| !theirs.contains(k)),
            all.take(i as int).filter(pick).len() == 0,
        decreases keys@.len() - i,
    {
        proof {
            assert(all[i as int] == keys@[i as int]@);
        }
        if !holds_key(other, &keys[i]) {
            proof {
                lacking_member(all, theirs, i as int);
            }
            return false;
        }
        proof {
            reveal(Seq::filter);
            assert(all.take(i + 1).drop_last() =~= all.take(i as int));
        }
        i = i + 1;
    }
    assert(all.take(all.len() as int) =~= all);
    true
}

/// A key that the other list lacks is among the lacking ones.
pub proof fn lacking_member(keys: Seq<KeyModel>, other: Seq<KeyModel>, i: int)
    requires
        0 <= i < keys.len(),
        !other.contains(keys[i]),
    ensures
        lacking(keys, other).len() > 0,
        lacking(keys, other).contains(keys[i]),
    decreases keys.len(),
{
    let pick = |k: KeyModel| !other.contains(k);
    reveal(Seq::filter);
    let before = keys.drop_last();
    if i == keys.len() - 1 {
        let whole = before.filter(pick).push(keys[i]);
        assert(keys.filter(pick) == whole);
        assert(whole[whole.len() - 1] == keys[i]);
    } else {
        lacking_member(before, other, i);
        assert(before[i] == keys[i]);
        let part = before.filter(pick);
        let k = choose|k: int| 0 <= k < part.len() && part[k] == keys[i];
        if pick(keys.last()) {
            assert(keys.filter(pick) == part.push(keys.last()));
            assert(keys.filter(pick)[k] == keys[i]);
        } else {
            assert(keys.filter(pick) == part);
        }
    }
}

/// Coverage is exact: the same keys, whatever their order.
pub proof fn same_keys_is_set_equality(a: Seq<KeyModel>, b: Seq<KeyModel>)
    ensures
        same_keys(a, b) <==> a.to_set() == b.to_set(),
{
    if same_keys(a, b) {
        assert forall|k: KeyModel| a.to_set().contains(k) == b.to_set().contains(k) by {
            if a.contains(k) && !b.contains(k) {
                let i = choose|i: int| 0 <= i < a.len() && a[i] == k;
                lacking_member(a, b, i);
            }
            if b.contains(k) && !a.contains(k) {
                let i = choose|i: int| 0 <= i < b.len() && b[i] == k;
                lacking_member(b, a, i);
            }
        }
        assert(a.to_set() =~= b.to_set());
    }
    if a.to_set() == b.to_set() {
        let p = |k: KeyModel| !b.contains(k);
        let q = |k: KeyModel| !a.contains(k);
        if lacking(a, b).len() > 0 {
            let k = lacking(a, b)[0];
            a.lemma_filter_pred(p, 0);
            assert(a.filter(p)[0] == k);
            assert(a.filter(p).contains(k));
            a.lemma_filter_contains_rev(p, k);
            assert(p(k) && a.contains(k));
            assert(a.to_set().contains(k));
            assert(b.to_set().contains(k));
        }
        if lacking(b, a).len() > 0 {
            let k = lacking(b, a)[0];
            b.lemma_filter_pred(q, 0);
            assert(b.filter(q)[0] == k);
            assert(b.filter(q).contains(k));
            b.lemma_filter_contains_rev(q, k);
            assert(q(k) && b.contains(k));
            assert(b.to_set().contains(k));
            assert(a.to_set().contains(k));
        }
    }
}

// ---------------------------------------------------------------------------
// The receipt
// ---------------------------------------------------------------------------

pub open spec fn finite_at(value: JsonModel, name: Seq<char>) -> Result<u64, Seq<char>> {
    match at(value, name) {
        Some(JsonModel::Number(number)) => if !finite_bits(number_bits(number)) || double_key(
            number_bits(number),
        ) < 0 {
            Err(name + " must be finite and non-negative"@)
        } else {
            Ok(number_bits(number))
        },
        _ => Err("missing or invalid number "@ + name),
    }
}

pub fn finite_nonnegative(value: &serde_json::Value, name: &str) -> (r: Result<u64, String>)
    ensures
        told(r) == finite_at(json_model(*value), name@),
{
    let bits: u64 = match member(value, name) {
        None => {
            return Err(cat2("missing or invalid number ", name));
        },
        Some(found) => match as_bits(found) {
            None => {
                return Err(cat2("missing or invalid number ", name));
            },
            Some(bits) => bits,
        },
    };
    if !is_finite_double(bits) || key_of_double(bits) < 0 {
        return Err(cat2(name, " must be finite and non-negative"));
    }
    Ok(bits)
}

/// The model part of a receipt agrees with the job.
pub open spec fn model_part(receipt: JsonModel, job: IdentityModel) -> Result<(), Seq<char>> {
    match object_at(receipt, "model"@) {
        Err(message) => Err(message),
        Ok(model) => match string_at(model, "path"@) {
            Err(message) => Err(message),
            Ok(path) => if path != job.model {
                Err("trial receipt model identity does not match job arguments"@)
            } else {
                match unsigned_at(model, "requested_weight_bits"@) {
                    Err(message) => Err(message),
                    Ok(requested) => if requested != job.bits {
                        Err("trial receipt model identity does not match job arguments"@)
                    } else {
                        match unsigned_at(model, "config_exposed_weight_bits"@) {
                            Err(message) => Err(message),
                            Ok(exposed) => if exposed != job.bits {
                                Err("trial receipt model identity does not match job arguments"@)
                            } else {
                                match string_at(model, "config_sha256"@) {
                                    Err(message) => Err(message),
                                    Ok(config) => match hash_outcome(
                                        job,
                                        job.model + "/config.json"@,
                                        config,
                                    ) {
                                        Err(message) => Err(message),
                                        Ok(_) => match string_at(model, "model_index_sha256"@) {
                                            Err(message) => Err(message),
                                            Ok(index) => hash_outcome(
                                                job,
                                                job.model + "/model.safetensors.index.json"@,
                                                index,
                                            ),
                                        },
                                    },
                                }
                            },
                        }
                    },
                }
            },
        },
    }
}

fn check_model(receipt: &serde_json::Value, job: &JobIdentity) -> (r: Result<(), String>)
    ensures
        told(r) == model_part(json_model(*receipt), job@),
{
    let model = match object_field(receipt, "model") {
        Ok(model) => model,
        Err(message) => {
            return Err(message);
        },
    };
    let path = match string(model, "path") {
        Ok(path) => path,
        Err(message) => {
            return Err(message);
        },
    };
    if !same(path, job.model.as_str()) {
        return Err("trial receipt model identity does not match job arguments".to_owned());
    }
    let requested: u64 = match unsigned(model, "requested_weight_bits") {
        Ok(bits) => bits,
        Err(message) => {
            return Err(message);
        },
    };
    if requested != job.bits {
        return Err("trial receipt model identity does not match job arguments".to_owned());
    }
    let exposed: u64 = match unsigned(model, "config_exposed_weight_bits") {
        Ok(bits) => bits,
        Err(message) => {
            return Err(message);
        },
    };
    if exposed != job.bits {
        return Err("trial receipt model identity does not match job arguments".to_owned());
    }
    let config = match string(model, "config_sha256") {
        Ok(text) => text,
        Err(message) => {
            return Err(message);
        },
    };
    let config_path = cat2(job.model.as_str(), "/config.json");
    match require_input_hash(job, config_path.as_str(), config) {
        Ok(_) => {},
        Err(message) => {
            return Err(message);
        },
    }
    let index = match string(model, "model_index_sha256") {
        Ok(text) => text,
        Err(message) => {
            return Err(message);
        },
    };
    let index_path = cat2(job.model.as_str(), "/model.safetensors.index.json");
    require_input_hash(job, index_path.as_str(), index)
}

/// A source part of a receipt: its root, its pinned commit and a clean tree.
pub open spec fn source_part(
    receipt: JsonModel,
    job: IdentityModel,
    field: Seq<char>,
    root: Seq<char>,
    commit: Seq<char>,
    error: Seq<char>,
    path: Seq<char>,
) -> Result<(), Seq<char>> {
    match object_at(receipt, field) {
        Err(message) => Err(message),
        Ok(source) => match string_at(source, "source_root"@) {
            Err(message) => Err(message),
            Ok(found) => if found != root {
                Err(error)
            } else {
                match string_at(source, "commit"@) {
                    Err(message) => Err(message),
                    Ok(pinned) => if pinned != commit || bool_at(
                        source,
                        "working_tree_matches_commit"@,
                    ) != Some(true) {
                        Err(error)
                    } else {
                        match string_at(source, "referenced_path_sha256"@) {
                            Err(message) => Err(message),
                            Ok(sha256) => hash_outcome(job, root + path, sha256),
                        }
                    },
                }
            },
        },
    }
}

fn check_source(
    receipt: &serde_json::Value,
    job: &JobIdentity,
    field: &str,
    root: &str,
    commit: &str,
    error: &str,
    path: &str,
) -> (r: Result<(), String>)
    ensures
        told(r) == source_part(
            json_model(*receipt),
            job@,
            field@,
            root@,
            commit@,
            error@,
            path@,
        ),
{
    let source = match object_field(receipt, field) {
        Ok(source) => source,
        Err(message) => {
            return Err(message);
        },
    };
    let found = match string(source, "source_root") {
        Ok(text) => text,
        Err(message) => {
            return Err(message);
        },
    };
    if !same(found, root) {
        return Err(error.to_owned());
    }
    let pinned = match string(source, "commit") {
        Ok(text) => text,
        Err(message) => {
            return Err(message);
        },
    };
    let clean = match member_flag(source, "working_tree_matches_commit") {
        Some(flag) => flag,
        None => false,
    };
    if !same(pinned, commit) || !clean {
        return Err(error.to_owned());
    }
    let sha256 = match string(source, "referenced_path_sha256") {
        Ok(text) => text,
        Err(message) => {
            return Err(message);
        },
    };
    let sealed_path = cat2(root, path);
    require_input_hash(job, sealed_path.as_str(), sha256)
}

/// The timing protocol: five warmups and a hundred iterations.
pub open spec fn protocol_part(receipt: JsonModel) -> Result<u64, Seq<char>> {
    match object_at(receipt, "protocol"@) {
        Err(message) => Err(message),
        Ok(protocol) => match unsigned_at(protocol, "warmups"@) {
            Err(message) => Err(message),
            Ok(warmups) => match unsigned_at(protocol, "iterations"@) {
                Err(message) => Err(message),
                Ok(iterations) => if warmups != 5 || iterations != 100 {
                    Err(
                        "unexpected timing protocol: "@ + decimal(warmups as nat) + " warmups, "@
                            + decimal(iterations as nat) + " iterations"@,
                    )
                } else {
                    Ok(iterations)
                },
            },
        },
    }
}

fn check_protocol(receipt: &serde_json::Value) -> (r: Result<u64, String>)
    ensures
        told(r) == protocol_part(json_model(*receipt)),
{
    let protocol = match object_field(receipt, "protocol") {
        Ok(protocol) => protocol,
        Err(message) => {
            return Err(message);
        },
    };
    let warmups: u64 = match unsigned(protocol, "warmups") {
        Ok(n) => n,
        Err(message) => {
            return Err(message);
        },
    };
    let iterations: u64 = match unsigned(protocol, "iterations") {
        Ok(n) => n,
        Err(message) => {
            return Err(message);
        },
    };
    if warmups != 5 || iterations != 100 {
        let a = decimal_text(warmups);
        let b = decimal_text(iterations);
        return Err(
            cat5(
                "unexpected timing protocol: ",
                a.as_str(),
                " warmups, ",
                b.as_str(),
                " iterations",
            ),
        );
    }
    Ok(iterations)
}

/// One measured case.
#[derive(Debug)]
pub struct ParsedCase {
    pub key: CaseKey,
    pub total_ms: u64,
    pub mean_ms: u64,
}

pub struct ParsedModel {
    pub key: KeyModel,
    pub total_ms: u64,
    pub mean_ms: u64,
}

pub open spec fn parsed_models(cases: Seq<ParsedCase>) -> Seq<ParsedModel> {
    Seq::new(
        cases.len(),
        |i: int|
            ParsedModel {
                key: cases[i].key@,
                total_ms: cases[i].total_ms,
                mean_ms: cases[i].mean_ms,
            },
    )
}

/// The measured cases from `i` on, after those already read. `agrees` tells of
/// each case whether its mean is its total divided by the iterations.
pub open spec fn measured_from(
    items: Seq<JsonModel>,
    agrees: Seq<bool>,
    i: int,
    cases: Seq<ParsedModel>,
) -> Result<Seq<ParsedModel>, Seq<char>>
    decreases items.len() - i,
{
    if i >= items.len() {
        Ok(cases)
    } else {
        match object_at(items[i], "timing"@) {
            Err(message) => Err(message),
            Ok(timing) => match finite_at(timing, "total_ms"@) {
                Err(message) => Err(message),
                Ok(total_ms) => match finite_at(timing, "mean_ms"@) {
                    Err(message) => Err(message),
                    Ok(mean_ms) => if i >= agrees.len() || !agrees[i] {
                        Err("case mean_ms does not match total_ms / iterations"@)
                    } else {
                        match key_of(items[i]) {
                            Err(message) => Err(message),
                            Ok(key) => measured_from(
                                items,
                                agrees,
                                i + 1,
                                cases.push(ParsedModel { key, total_ms, mean_ms }),
                            ),
                        }
                    },
                },
            },
        }
    }
}

/// The identity parts of a receipt, in the order in which they are checked.
pub open spec fn receipt_header(receipt: JsonModel, job: IdentityModel) -> Result<u64, Seq<char>> {
    match string_at(receipt, "schema"@) {
        Err(message) => Err(message),
        Ok(schema) => if schema != "rvllm.mlx_gemma4_stage_microbenchmark.v1"@ {
            Err("trial receipt has wrong schema or non-measured status"@)
        } else {
            match string_at(receipt, "status"@) {
                Err(message) => Err(message),
                Ok(status) => if status != "measured_microbenchmark_not_normal_route"@ {
                    Err("trial receipt has wrong schema or non-measured status"@)
                } else {
                    match model_part(receipt, job) {
                        Err(message) => Err(message),
                        Ok(_) => match source_part(
                            receipt,
                            job,
                            "mlx_lm_source"@,
                            job.mlx_lm_source,
                            "87b7b583a697537aa68f47130b40884700b5f55f"@,
                            "MLX-LM source root does not match job arguments"@,
                            "/mlx_lm/models/gemma4_text.py"@,
                        ) {
                            Err(message) => Err(message),
                            Ok(_) => match source_part(
                                receipt,
                                job,
                                "mlx_protocol_source"@,
                                job.mlx_source,
                                "c215b6f88cf0fee0b0895623e4046cda797ef397"@,
                                "MLX source root does not match job arguments"@,
                                "/benchmarks/python/time_utils.py"@,
                            ) {
                                Err(message) => Err(message),
                                Ok(_) => protocol_part(receipt),
                            },
                        },
                    }
                },
            }
        },
    }
}

/// The coverage of a receipt: what was planned and what was measured are both
/// exactly what the job's lengths ask for.
pub open spec fn receipt_coverage(receipt: JsonModel, job: IdentityModel) -> Result<
    Seq<JsonModel>,
    Seq<char>,
> {
    let wanted = expected(job.lengths, job.lengths.len() as int);
    match items_at(receipt, "planned_cases"@) {
        Err(message) => Err(message),
        Ok(planned) => match keys_from(planned, false, 0, Seq::empty()) {
            Err(message) => Err(message),
            Ok(keys) => if !same_keys(keys, wanted) {
                Err(coverage_text("planned_cases"@, wanted, keys))
            } else {
                match items_at(receipt, "cases"@) {
                    Err(message) => Err(message),
                    Ok(items) => match keys_from(items, true, 0, Seq::empty()) {
                        Err(message) => Err(message),
                        Ok(measured) => if !same_keys(measured, wanted) {
                            Err(coverage_text("cases"@, wanted, measured))
                        } else {
                            Ok(items)
                        },
                    },
                }
            },
        },
    }
}

/// What a receipt says, where it is valid for its job.
pub open spec fn receipt_of(receipt: JsonModel, job: IdentityModel, agrees: Seq<bool>) -> Result<
    (Seq<ParsedModel>, u64),
    Seq<char>,
> {
    match receipt_header(receipt, job) {
        Err(message) => Err(message),
        Ok(iterations) => match receipt_coverage(receipt, job) {
            Err(message) => Err(message),
            Ok(items) => match measured_from(items, agrees, 0, Seq::empty()) {
                Err(message) => Err(message),
                Ok(cases) => Ok((cases, iterations)),
            },
        },
    }
}

fn check_header(receipt: &serde_json::Value, job: &JobIdentity) -> (r: Result<u64, String>)
    ensures
        told(r) == receipt_header(json_model(*receipt), job@),
{
    let schema = match string(receipt, "schema") {
        Ok(text) => text,
        Err(message) => {
            return Err(message);
        },
    };
    if !same(schema, "rvllm.mlx_gemma4_stage_microbenchmark.v1") {
        return Err("trial receipt has wrong schema or non-measured status".to_owned());
    }
    let status = match string(receipt, "status") {
        Ok(text) => text,
        Err(message) => {
            return Err(message);
        },
    };
    if !same(status, "measured_microbenchmark_not_normal_route") {
        return Err("trial receipt has wrong schema or non-measured status".to_owned());
    }
    match check_model(receipt, job) {
        Ok(_) => {},
        Err(message) => {
            return Err(message);
        },
    }
    match check_source(
        receipt,
        job,
        "mlx_lm_source",
        job.mlx_lm_source.as_str(),
        "87b7b583a697537aa68f47130b40884700b5f55f",
        "MLX-LM source root does not match job arguments",
        "/mlx_lm/models/gemma4_text.py",
    ) {
        Ok(_) => {},
        Err(message) => {
            return Err(message);
        },
    }
    match check_source(
        receipt,
        job,
        "mlx_protocol_source",
        job.mlx_source.as_str(),
        "c215b6f88cf0fee0b0895623e4046cda797ef397",
        "MLX source root does not match job arguments",
        "/benchmarks/python/time_utils.py",
    ) {
        Ok(_) => {},
        Err(message) => {
            return Err(message);
        },
    }
    check_protocol(receipt)
}

fn check_coverage<'a>(receipt: &'a serde_json::Value, job: &JobIdentity) -> (r: Result<
    &'a Vec<serde_json::Value>,
    String,
>)
    ensures
        crate::mlx::stage_identity::items_told(r) == receipt_coverage(json_model(*receipt), job@),
{
    let wanted = expected_keys(&job.lengths);
    let planned = match array_field(receipt, "planned_cases") {
        Ok(items) => items,
        Err(message) => {
            return Err(message);
        },
    };
    let keys = match case_keys(planned, false) {
        Ok(keys) => keys,
        Err(message) => {
            return Err(message);
        },
    };
    if !lacks_none(&keys, &wanted) || !lacks_none(&wanted, &keys) {
        return Err(coverage_error("planned_cases", &wanted, &keys));
    }
    let items = match array_field(receipt, "cases") {
        Ok(items) => items,
        Err(message) => {
            return Err(message);
        },
    };
    let measured = match case_keys(items, true) {
        Ok(keys) => keys,
        Err(message) => {
            return Err(message);
        },
    };
    if !lacks_none(&measured, &wanted) || !lacks_none(&wanted, &measured) {
        return Err(coverage_error("cases", &wanted, &measured));
    }
    Ok(items)
}

pub open spec fn receipt_told(r: Result<(Vec<ParsedCase>, u64), String>) -> Result<
    (Seq<ParsedModel>, u64),
    Seq<char>,
> {
    match r {
        Ok(pair) => Ok((parsed_models(pair.0@), pair.1)),
        Err(e) => Err(e@),
    }
}

/// Validates a receipt against its job. `agrees` tells of each measured case
/// whether its mean is, within rounding, its total divided by the iterations.
pub fn validate_receipt(receipt: &serde_json::Value, job: &JobIdentity, agrees: &Vec<bool>) -> (r:
    Result<(Vec<ParsedCase>, u64), String>)
    ensures
        receipt_told(r) == receipt_of(json_model(*receipt), job@, agrees@),
{
    let iterations: u64 = match check_header(receipt, job) {
        Ok(n) => n,
        Err(message) => {
            return Err(message);
        },
    };
    let items = match check_coverage(receipt, job) {
        Ok(items) => items,
        Err(message) => {
            return Err(message);
        },
    };
    let ghost all = models(items@);
    let mut cases: Vec<ParsedCase> = Vec::new();
    let mut i: usize = 0;
    assert(parsed_models(cases@) =~= Seq::empty());
    while i < items.len()
        invariant
            i <= items@.len(),
            all == models(items@),
            receipt_header(json_model(*receipt), job@) == Ok::<u64, Seq<char>>(iterations),
            receipt_coverage(json_model(*receipt), job@) == Ok::<Seq<JsonModel>, Seq<char>>(all),
            measured_from(all, agrees@, 0, Seq::empty()) == measured_from(
                all,
                agrees@,
                i as int,
                parsed_models(cases@),
            ),
        decreases items@.len() - i,
    {
        assert(all[i as int] == json_model(items@[i as int]));
        let timing = match object_field(&items[i], "timing") {
            Ok(timing) => timing,
            Err(message) => {
                return Err(message);
            },
        };
        let total_ms: u64 = match finite_nonnegative(timing, "total_ms") {
            Ok(bits) => bits,
            Err(message) => {
                return Err(message);
            },
        };
        let mean_ms: u64 = match finite_nonnegative(timing, "mean_ms") {
            Ok(bits) => bits,
            Err(message) => {
                return Err(message);
            },
        };
        if i >= agrees.len() || !agrees[i] {
            return Err("case mean_ms does not match total_ms / iterations".to_owned());
        }
        let key = match case_key(&items[i]) {
            Ok(key) => key,
            Err(message) => {
                return Err(message);
            },
        };
        let ghost before = cases@;
        let ghost model = ParsedModel { key: key@, total_ms, mean_ms };
        cases.push(ParsedCase { key, total_ms, mean_ms });
        assert(parsed_models(cases@) =~= parsed_models(before).push(model));
        i = i + 1;
    }
    Ok((cases, iterations))
}

} // verus!
