//! What a stage job's arguments, receipt and journal bind.
use crate::json::{
    array_of, at, bool_at, double_key, finite_bits, integer_at, natural_at, number_bits, text_at,
    JsonModel,
};
use crate::mlx::stage_identity::{
    hash_outcome, identity_of, inputs_from, items_at, job_inputs, job_lengths, lengths_from,
    only_argument, sealed, stage_args, stage_argument_at, u64_argument, IdentityModel,
};
use crate::mlx::stage_receipt::{
    expected, finite_at, key_before, key_of, key_place, keys_from, measured_from, receipt_coverage,
    receipt_header, receipt_of, stage_matrix, with_key, with_stages, KeyModel, ParsedModel,
};
use crate::mlx::stage_summary::{
    busy_samples, group_key, grouped_from, instances_in, journal_from, most_instances,
    process_names, report_outcome, sample_names, samples_with, stage_outcome, Journal, TimingModel,
};
use crate::order::{before_irreflexive, before_total, before_transitive, text_before};
use crate::text::{after_prefix, numeral, split, trimmed, NumeralFault};
use crate::text_laws::prefixes_are_taken_off;
use vstd::prelude::*;

verus! {

// ---------------------------------------------------------------------------
// Arguments
// ---------------------------------------------------------------------------

/// An argument's value is joined to its name by a sign of equality, or follows it.
pub proof fn arguments_are_joined_or_follow(
    args: Seq<Seq<char>>,
    name: Seq<char>,
    value: Seq<char>,
    i: int,
)
    requires
        0 <= i < args.len(),
    ensures
        args[i] == name + "="@ + value ==> stage_argument_at(args, name, i) == Some(value),
        args[i] == name && i + 1 < args.len() ==> stage_argument_at(args, name, i) == Some(
            args[i + 1],
        ),
        stage_argument_at(args, name, i) is Some ==> name.is_prefix_of(args[i]),
{
    reveal_strlit("=");
    prefixes_are_taken_off(name + "="@, value, args[i]);
    if stage_argument_at(args, name, i) is Some && args[i] != name {
        let rest = after_prefix(args[i], name + "="@)->0;
        assert(args[i] == name + "="@ + rest);
        assert(name =~= args[i].subrange(0, name.len() as int));
    }
    if args[i] == name {
        assert("="@.len() == 1);
        assert((name + "="@).len() == name.len() + 1);
        assert(name =~= name.subrange(0, name.len() as int));
    }
}

proof fn found_once(args: Seq<Seq<char>>, name: Seq<char>, i: int, found: Option<Seq<char>>)
    requires
        0 <= i <= args.len(),
    ensures
        only_argument(args, name, i, found) matches Ok(value) ==> {
            ||| found == Some(value) && forall|k: int|
                i <= k < args.len() ==> (#[trigger] stage_argument_at(args, name, k)) is None
            ||| found is None && exists|k: int|
                i <= k < args.len() && (#[trigger] stage_argument_at(args, name, k)) == Some(value)
                    && forall|j: int|
                    i <= j < args.len() && j != k ==> (#[trigger] stage_argument_at(
                        args,
                        name,
                        j,
                    )) is None
        },
    decreases args.len() - i,
{
    if i < args.len() {
        match stage_argument_at(args, name, i) {
            Some(value) => {
                if found is None {
                    found_once(args, name, i + 1, Some(value));
                }
            },
            None => {
                found_once(args, name, i + 1, found);
                if only_argument(args, name, i, found) is Ok && found is None {
                    let value = only_argument(args, name, i, found)->Ok_0;
                    let k = choose|k: int|
                        i + 1 <= k < args.len() && (#[trigger] stage_argument_at(args, name, k))
                            == Some(value) && forall|j: int|
                            i + 1 <= j < args.len() && j != k ==> (#[trigger] stage_argument_at(
                                args,
                                name,
                                j,
                            )) is None;
                    assert(stage_argument_at(args, name, k) == Some(value));
                }
            },
        }
    }
}

/// An argument is given once: its value is the one that is there.
pub proof fn arguments_are_given_once(args: Seq<Seq<char>>, name: Seq<char>, i: int)
    requires
        0 <= i < args.len(),
        stage_argument_at(args, name, i) is Some,
        only_argument(args, name, 0, None) is Ok,
    ensures
        only_argument(args, name, 0, None)->Ok_0 == stage_argument_at(args, name, i)->0,
        forall|j: int|
            0 <= j < args.len() && j != i ==> (#[trigger] stage_argument_at(args, name, j)) is None,
{
    found_once(args, name, 0, None);
}

/// An identity holds what its job names: the model, the bits of its weights, the lengths
/// and the two sources, each from the argument of that name, and the inputs sealed.
pub proof fn identities_hold_what_the_job_names(job: JsonModel)
    requires
        identity_of(job) is Ok,
    ensures
        stage_args(job) is Ok,
        ({
            let args = stage_args(job)->Ok_0;
            let identity = identity_of(job)->Ok_0;
            &&& args.len() > 0 && args[0] == "tools/mlx_gemma4_stage_bench.py"@
            &&& text_at(job, "id"@) == Some(identity.id)
            &&& only_argument(args, "--model"@, 0, None) == Ok::<Seq<char>, Seq<char>>(
                identity.model,
            )
            &&& only_argument(args, "--mlx-source"@, 0, None) == Ok::<Seq<char>, Seq<char>>(
                identity.mlx_source,
            )
            &&& only_argument(args, "--mlx-lm-source"@, 0, None) == Ok::<Seq<char>, Seq<char>>(
                identity.mlx_lm_source,
            )
            &&& u64_argument(args, "--weight-bits"@) == Ok::<u64, Seq<char>>(identity.bits)
            &&& identity.bits == 4 || identity.bits == 8 || identity.bits == 16
            &&& job_lengths(args) == Ok::<Seq<u64>, Seq<char>>(identity.lengths)
            &&& job_inputs(job) == Ok::<Seq<(Seq<char>, Seq<char>)>, Seq<char>>(
                identity.input_hashes,
            )
        }),
{
}

proof fn lengths_read_from(pieces: Seq<Seq<char>>, i: int, lengths: Seq<u64>)
    requires
        0 <= i <= pieces.len(),
        lengths_from(pieces, i, lengths) is Ok,
    ensures
        ({
            let all = lengths_from(pieces, i, lengths)->Ok_0;
            &&& all.len() == lengths.len() + pieces.len() - i
            &&& forall|k: int| 0 <= k < lengths.len() ==> all[k] == lengths[k]
            &&& forall|k: int|
                i <= k < pieces.len() ==> numeral(#[trigger] pieces[k], u64::MAX as nat) == Ok::<
                    nat,
                    NumeralFault,
                >(all[lengths.len() + k - i] as nat)
        }),
    decreases pieces.len() - i,
{
    if i < pieces.len() {
        crate::text_laws::numerals_are_bounded(pieces[i], u64::MAX as nat);
        let n = numeral(pieces[i], u64::MAX as nat)->Ok_0 as u64;
        let more = lengths.push(n);
        lengths_read_from(pieces, i + 1, more);
        let all = lengths_from(pieces, i, lengths)->Ok_0;
        assert(all[lengths.len() as int] == more[lengths.len() as int]);
        assert forall|k: int| 0 <= k < lengths.len() implies all[k] == lengths[k] by {
            assert(more[k] == lengths[k]);
        }
        assert forall|k: int| i <= k < pieces.len() implies numeral(
            #[trigger] pieces[k],
            u64::MAX as nat,
        ) == Ok::<nat, NumeralFault>(all[lengths.len() + k - i] as nat) by {
            if k > i {
                assert(more.len() + k - (i + 1) == lengths.len() + k - i);
            }
        }
    }
}

/// The lengths of a job are the numbers written between its commas, in order; none is
/// zero and none occurs twice.
pub proof fn lengths_are_those_written(args: Seq<Seq<char>>, i: int, j: int)
    requires
        job_lengths(args) is Ok,
    ensures
        ({
            let raw = only_argument(args, "--lengths"@, 0, None)->Ok_0;
            let pieces = split(raw, ',');
            let lengths = job_lengths(args)->Ok_0;
            &&& lengths.len() == pieces.len() && lengths.len() > 0
            &&& 0 <= i < lengths.len() ==> lengths[i] > 0 && numeral(pieces[i], u64::MAX as nat)
                == Ok::<nat, NumeralFault>(lengths[i] as nat)
            &&& 0 <= i < j < lengths.len() ==> lengths[i] != lengths[j]
        }),
{
    let pieces = split(only_argument(args, "--lengths"@, 0, None)->Ok_0, ',');
    lengths_read_from(pieces, 0, Seq::empty());
    if 0 <= i < pieces.len() {
        let _ = pieces[i];
    }
}

proof fn inputs_read_from(items: Seq<JsonModel>, i: int, inputs: Seq<(Seq<char>, Seq<char>)>)
    requires
        0 <= i <= items.len(),
        inputs.len() == i,
        inputs_from(items, i, inputs) is Ok,
    ensures
        ({
            let all = inputs_from(items, i, inputs)->Ok_0;
            &&& all.len() == items.len()
            &&& forall|k: int| 0 <= k < i ==> all[k] == inputs[k]
            &&& forall|k: int|
                i <= k < items.len() ==> text_at(#[trigger] items[k], "path"@) == Some(all[k].0)
                    && text_at(items[k], "sha256"@) == Some(all[k].1)
        }),
    decreases items.len() - i,
{
    if i < items.len() {
        let pair = (text_at(items[i], "path"@)->0, text_at(items[i], "sha256"@)->0);
        let more = inputs.push(pair);
        inputs_read_from(items, i + 1, more);
        let all = inputs_from(items, i, inputs)->Ok_0;
        assert(more[i] == pair);
        assert forall|k: int| 0 <= k < i implies all[k] == inputs[k] by {
            assert(more[k] == inputs[k]);
        }
    }
}

/// Every input of a job is sealed under its own path with its own digest.
pub proof fn inputs_are_sealed_in_order(job: JsonModel, k: int)
    requires
        job_inputs(job) is Ok,
    ensures
        items_at(job, "inputs"@) is Ok,
        ({
            let items = items_at(job, "inputs"@)->Ok_0;
            let inputs = job_inputs(job)->Ok_0;
            &&& inputs.len() == items.len()
            &&& 0 <= k < items.len() ==> text_at(items[k], "path"@) == Some(inputs[k].0) && text_at(
                items[k],
                "sha256"@,
            ) == Some(inputs[k].1)
        }),
{
    let items = items_at(job, "inputs"@)->Ok_0;
    inputs_read_from(items, 0, Seq::empty());
    if 0 <= k < items.len() {
        let _ = items[k];
    }
}

proof fn seal_found(inputs: Seq<(Seq<char>, Seq<char>)>, path: Seq<char>, i: int)
    requires
        0 <= i <= inputs.len(),
    ensures
        match sealed(inputs, path, i) {
            Some(digest) => exists|k: int|
                i <= k < inputs.len() && #[trigger] inputs[k] == (path, digest),
            None => forall|k: int| i <= k < inputs.len() ==> (#[trigger] inputs[k]).0 != path,
        },
    decreases inputs.len() - i,
{
    if i < inputs.len() {
        if inputs[i].0 == path {
            assert(inputs[i] == (path, inputs[i].1));
        } else {
            seal_found(inputs, path, i + 1);
            if sealed(inputs, path, i) is Some {
                let digest = sealed(inputs, path, i)->0;
                let k = choose|k: int|
                    i + 1 <= k < inputs.len() && #[trigger] inputs[k] == (path, digest);
                assert(inputs[k] == (path, digest));
            }
        }
    }
}

/// A digest is required where the job sealed the very path with the very digest.
pub proof fn digests_are_required_by_path(job: IdentityModel, path: Seq<char>, actual: Seq<char>)
    ensures
        hash_outcome(job, path, actual) is Ok ==> job.input_hashes.contains((path, actual)),
        (forall|k: int|
            0 <= k < job.input_hashes.len() ==> (#[trigger] job.input_hashes[k]).0 != path)
            ==> hash_outcome(job, path, actual) is Err,
{
    seal_found(job.input_hashes, path, 0);
}

// ---------------------------------------------------------------------------
// Cases
// ---------------------------------------------------------------------------

/// The order of cases is strict and total: by length, by mode, by category and by
/// variant, no variant before any.
pub proof fn cases_are_ordered(a: KeyModel, b: KeyModel, c: KeyModel)
    ensures
        !key_before(a, a),
        key_before(a, b) && key_before(b, c) ==> key_before(a, c),
        a != b ==> key_before(a, b) || key_before(b, a),
        a.length < b.length ==> key_before(a, b),
        a.length == b.length && text_before(a.mode, b.mode) ==> key_before(a, b),
{
    texts_ordered(a.mode, b.mode, c.mode);
    texts_ordered(a.category, b.category, c.category);
    match (a.variant, b.variant, c.variant) {
        (Some(x), Some(y), Some(z)) => {
            texts_ordered(x, y, z);
        },
        (Some(x), Some(y), None) => {
            texts_ordered(x, y, y);
        },
        (Some(x), None, _) => {
            texts_ordered(x, x, x);
        },
        _ => {},
    }
    if a.variant is Some && b.variant is Some {
        texts_ordered(a.variant->0, b.variant->0, b.variant->0);
    }
}

proof fn texts_ordered(x: Seq<char>, y: Seq<char>, z: Seq<char>)
    ensures
        !text_before(x, x),
        text_before(x, y) && text_before(y, z) ==> text_before(x, z),
        x != y ==> text_before(x, y) || text_before(y, x),
        text_before(x, y) ==> !text_before(y, x),
{
    before_irreflexive(x, 0);
    if text_before(x, y) && text_before(y, z) {
        before_transitive(x, y, z, 0);
    }
    if x != y {
        before_total(x, y, 0);
    }
    if text_before(x, y) && text_before(y, x) {
        before_transitive(x, y, x, 0);
    }
}

proof fn place_bounds(keys: Seq<KeyModel>, key: KeyModel, i: int)
    requires
        0 <= i <= keys.len(),
    ensures
        i <= key_place(keys, key, i) <= keys.len(),
        forall|k: int| i <= k < key_place(keys, key, i) ==> !key_before(key, #[trigger] keys[k]),
        key_place(keys, key, i) < keys.len() ==> key_before(key, keys[key_place(keys, key, i)]),
    decreases keys.len() - i,
{
    if i < keys.len() && !key_before(key, keys[i]) {
        place_bounds(keys, key, i + 1);
    }
}

/// A case joins the others once, and nothing leaves.
pub proof fn cases_join_once(keys: Seq<KeyModel>, key: KeyModel, other: KeyModel)
    ensures
        with_key(keys, key).contains(other) <==> other == key || keys.contains(other),
        with_key(keys, key).len() == keys.len() + if keys.contains(key) {
            0int
        } else {
            1int
        },
{
    if !keys.contains(key) {
        place_bounds(keys, key, 0);
        let at = key_place(keys, key, 0);
        let more = keys.insert(at, key);
        assert(more[at] == key);
        if keys.contains(other) {
            let k = choose|k: int| 0 <= k < keys.len() && keys[k] == other;
            assert(if k < at {
                more[k] == other
            } else {
                more[k + 1] == other
            });
        }
        if more.contains(other) && other != key {
            let k = choose|k: int| 0 <= k < more.len() && more[k] == other;
            assert(if k < at {
                keys[k] == other
            } else {
                keys[k - 1] == other
            });
        }
    }
}

/// Whether a stage, with the attention that it is of, is one that is measured.
pub open spec fn is_stage(category: Seq<char>, variant: Option<Seq<char>>) -> bool {
    ||| (category == "embedding"@ || category == "ffn_gate_up_activation"@ || category
        == "ffn_down"@ || category == "rmsnorm_residual"@ || category == "lm_head"@) && variant
        is None
    ||| (category == "qkv"@ || category == "attention_core_sdpa"@ || category == "o_projection"@)
        && (variant == Some("sliding_attention"@) || variant == Some("full_attention"@))
}

proof fn stages_joined(keys: Seq<KeyModel>, length: u64, mode: Seq<char>, n: int, key: KeyModel)
    requires
        0 <= n <= 11,
    ensures
        with_stages(keys, length, mode, n).contains(key) <==> keys.contains(key) || (key.length
            == length && key.mode == mode && exists|k: int|
            0 <= k < n && #[trigger] stage_matrix()[k] == (key.category, key.variant)),
    decreases n,
{
    if n > 0 {
        stages_joined(keys, length, mode, n - 1, key);
        let stage = stage_matrix()[n - 1];
        let added = KeyModel { length, mode, category: stage.0, variant: stage.1 };
        cases_join_once(with_stages(keys, length, mode, n - 1), added, key);
        if key == added {
            assert(stage_matrix()[n - 1] == (key.category, key.variant));
        }
        if key.length == length && key.mode == mode && exists|k: int|
            0 <= k < n && #[trigger] stage_matrix()[k] == (key.category, key.variant) {
            let k = choose|k: int|
                0 <= k < n && #[trigger] stage_matrix()[k] == (key.category, key.variant);
            if k < n - 1 {
                assert(stage_matrix()[k] == (key.category, key.variant));
            } else {
                assert(key == added);
            }
        }
    }
}

proof fn matrix_is_every_stage(category: Seq<char>, variant: Option<Seq<char>>)
    ensures
        is_stage(category, variant) <==> exists|k: int|
            0 <= k < 11 && #[trigger] stage_matrix()[k] == (category, variant),
{
    let m = stage_matrix();
    assert(m[0] == ("embedding"@, None::<Seq<char>>));
    assert(m[1] == ("qkv"@, Some("sliding_attention"@)));
    assert(m[2] == ("qkv"@, Some("full_attention"@)));
    assert(m[3] == ("attention_core_sdpa"@, Some("sliding_attention"@)));
    assert(m[4] == ("attention_core_sdpa"@, Some("full_attention"@)));
    assert(m[5] == ("o_projection"@, Some("sliding_attention"@)));
    assert(m[6] == ("o_projection"@, Some("full_attention"@)));
    assert(m[7] == ("ffn_gate_up_activation"@, None::<Seq<char>>));
    assert(m[8] == ("ffn_down"@, None::<Seq<char>>));
    assert(m[9] == ("rmsnorm_residual"@, None::<Seq<char>>));
    assert(m[10] == ("lm_head"@, None::<Seq<char>>));
}

/// The cases expected are every stage, in both modes, at every length.
pub proof fn every_stage_is_expected(lengths: Seq<u64>, n: int, key: KeyModel)
    requires
        0 <= n <= lengths.len(),
    ensures
        expected(lengths, n).contains(key) <==> {
            &&& exists|i: int| 0 <= i < n && #[trigger] lengths[i] == key.length
            &&& key.mode == "prefill"@ || key.mode == "decode"@
            &&& is_stage(key.category, key.variant)
        },
    decreases n,
{
    if n > 0 {
        every_stage_is_expected(lengths, n - 1, key);
        let before = expected(lengths, n - 1);
        let length = lengths[n - 1];
        stages_joined(before, length, "prefill"@, 11, key);
        stages_joined(with_stages(before, length, "prefill"@, 11), length, "decode"@, 11, key);
        matrix_is_every_stage(key.category, key.variant);
        if exists|i: int| 0 <= i < n && #[trigger] lengths[i] == key.length {
            let i = choose|i: int| 0 <= i < n && #[trigger] lengths[i] == key.length;
            if i < n - 1 {
                assert(lengths[i] == key.length);
            }
        }
    }
}

/// A case is identified by its length, its mode, its category and its variant, each as
/// its document states it.
pub proof fn cases_are_identified_by_their_document(value: JsonModel)
    requires
        key_of(value) is Ok,
    ensures
        ({
            let key = key_of(value)->Ok_0;
            &&& natural_at(value, "prompt_or_context_tokens"@) == Some(key.length)
            &&& text_at(value, "mode"@) == Some(key.mode)
            &&& text_at(value, "category"@) == Some(key.category)
            &&& match key.variant {
                Some(variant) => at(value, "variant"@) == Some(JsonModel::Text(variant)),
                None => at(value, "variant"@) == Some(JsonModel::Null),
            }
        }),
{
}

/// The cases of a list are those of its items, each once.
pub proof fn listed_cases_are_distinct(
    items: Seq<JsonModel>,
    timed: bool,
    i: int,
    keys: Seq<KeyModel>,
    key: KeyModel,
)
    requires
        0 <= i <= items.len(),
        keys_from(items, timed, i, keys) is Ok,
    ensures
        keys_from(items, timed, i, keys)->Ok_0.contains(key) <==> keys.contains(key) || exists|k:
            int|
            i <= k < items.len() && key_of(#[trigger] items[k]) == Ok::<KeyModel, Seq<char>>(key),
        keys_from(items, timed, i, keys)->Ok_0.len() == keys.len() + items.len() - i,
        timed ==> forall|k: int|
            i <= k < items.len() ==> at(#[trigger] items[k], "timing"@) is Some,
    decreases items.len() - i,
{
    if i < items.len() {
        let here = key_of(items[i])->Ok_0;
        cases_join_once(keys, here, key);
        listed_cases_are_distinct(items, timed, i + 1, with_key(keys, here), key);
        if exists|k: int|
            i <= k < items.len() && key_of(#[trigger] items[k]) == Ok::<KeyModel, Seq<char>>(key) {
            let k = choose|k: int|
                i <= k < items.len() && key_of(#[trigger] items[k]) == Ok::<KeyModel, Seq<char>>(
                    key,
                );
            if k > i {
                assert(i + 1 <= k);
                assert(key_of(items[k]) == Ok::<KeyModel, Seq<char>>(key));
            }
        }
        if here == key {
            assert(key_of(items[i]) == Ok::<KeyModel, Seq<char>>(key));
        }
    }
}

// ---------------------------------------------------------------------------
// Receipts
// ---------------------------------------------------------------------------

/// A number of a receipt is finite and not negative, and is taken as it stands.
pub proof fn receipt_numbers_are_finite(value: JsonModel, name: Seq<char>)
    requires
        finite_at(value, name) is Ok,
    ensures
        at(value, name) matches Some(JsonModel::Number(n)) && number_bits(n) == finite_at(
            value,
            name,
        )->Ok_0,
        finite_bits(finite_at(value, name)->Ok_0),
        double_key(finite_at(value, name)->Ok_0) >= double_key(0),
{
}

/// A receipt that is accepted is of the job's model and of its bits, from its two
/// sources at their pinned commits, and was timed over a hundred runs after five.
pub proof fn receipts_are_of_the_job(receipt: JsonModel, job: IdentityModel)
    requires
        receipt_header(receipt, job) is Ok,
    ensures
        receipt_header(receipt, job) == Ok::<u64, Seq<char>>(100),
        text_at(receipt, "schema"@) == Some("rvllm.mlx_gemma4_stage_microbenchmark.v1"@),
        text_at(receipt, "status"@) == Some("measured_microbenchmark_not_normal_route"@),
        ({
            let model = at(receipt, "model"@)->0;
            &&& text_at(model, "path"@) == Some(job.model)
            &&& natural_at(model, "requested_weight_bits"@) == Some(job.bits)
            &&& natural_at(model, "config_exposed_weight_bits"@) == Some(job.bits)
            &&& text_at(model, "config_sha256"@) is Some && job.input_hashes.contains(
                (job.model + "/config.json"@, text_at(model, "config_sha256"@)->0),
            )
            &&& text_at(model, "model_index_sha256"@) is Some && job.input_hashes.contains(
                (
                    job.model + "/model.safetensors.index.json"@,
                    text_at(model, "model_index_sha256"@)->0,
                ),
            )
        }),
        ({
            let source = at(receipt, "mlx_lm_source"@)->0;
            &&& text_at(source, "source_root"@) == Some(job.mlx_lm_source)
            &&& text_at(source, "commit"@) == Some("87b7b583a697537aa68f47130b40884700b5f55f"@)
            &&& bool_at(source, "working_tree_matches_commit"@) == Some(true)
            &&& text_at(source, "referenced_path_sha256"@) is Some && job.input_hashes.contains(
                (
                    job.mlx_lm_source + "/mlx_lm/models/gemma4_text.py"@,
                    text_at(source, "referenced_path_sha256"@)->0,
                ),
            )
        }),
        ({
            let source = at(receipt, "mlx_protocol_source"@)->0;
            &&& text_at(source, "source_root"@) == Some(job.mlx_source)
            &&& text_at(source, "commit"@) == Some("c215b6f88cf0fee0b0895623e4046cda797ef397"@)
            &&& bool_at(source, "working_tree_matches_commit"@) == Some(true)
            &&& text_at(source, "referenced_path_sha256"@) is Some && job.input_hashes.contains(
                (
                    job.mlx_source + "/benchmarks/python/time_utils.py"@,
                    text_at(source, "referenced_path_sha256"@)->0,
                ),
            )
        }),
        ({
            let protocol = at(receipt, "protocol"@)->0;
            &&& natural_at(protocol, "warmups"@) == Some(5u64)
            &&& natural_at(protocol, "iterations"@) == Some(100u64)
        }),
{
    let model = at(receipt, "model"@)->0;
    digests_are_required_by_path(
        job,
        job.model + "/config.json"@,
        text_at(model, "config_sha256"@)->0,
    );
    digests_are_required_by_path(
        job,
        job.model + "/model.safetensors.index.json"@,
        text_at(model, "model_index_sha256"@)->0,
    );
    digests_are_required_by_path(
        job,
        job.mlx_lm_source + "/mlx_lm/models/gemma4_text.py"@,
        text_at(at(receipt, "mlx_lm_source"@)->0, "referenced_path_sha256"@)->0,
    );
    digests_are_required_by_path(
        job,
        job.mlx_source + "/benchmarks/python/time_utils.py"@,
        text_at(at(receipt, "mlx_protocol_source"@)->0, "referenced_path_sha256"@)->0,
    );
}

proof fn measured_read_from(
    items: Seq<JsonModel>,
    agrees: Seq<bool>,
    i: int,
    cases: Seq<ParsedModel>,
)
    requires
        0 <= i <= items.len(),
        cases.len() == i,
        measured_from(items, agrees, i, cases) is Ok,
    ensures
        ({
            let all = measured_from(items, agrees, i, cases)->Ok_0;
            &&& all.len() == items.len()
            &&& forall|k: int| 0 <= k < i ==> all[k] == cases[k]
            &&& forall|k: int|
                i <= k < items.len() ==> measured_as(#[trigger] items[k], all[k]) && k
                    < agrees.len() && agrees[k]
        }),
    decreases items.len() - i,
{
    if i < items.len() {
        let timing = at(items[i], "timing"@)->0;
        let case = ParsedModel {
            key: key_of(items[i])->Ok_0,
            total_ms: finite_at(timing, "total_ms"@)->Ok_0,
            mean_ms: finite_at(timing, "mean_ms"@)->Ok_0,
        };
        let more = cases.push(case);
        measured_read_from(items, agrees, i + 1, more);
        let all = measured_from(items, agrees, i, cases)->Ok_0;
        assert(more[i] == case);
        assert forall|k: int| 0 <= k < i implies all[k] == cases[k] by {
            assert(more[k] == cases[k]);
        }
    }
}

/// Whether a case is what its document states: its identity, and the total and the mean
/// of its timing.
pub open spec fn measured_as(item: JsonModel, case: ParsedModel) -> bool {
    &&& key_of(item) == Ok::<KeyModel, Seq<char>>(case.key)
    &&& at(at(item, "timing"@)->0, "total_ms"@) matches Some(JsonModel::Number(n)) && number_bits(n)
        == case.total_ms
    &&& at(at(item, "timing"@)->0, "mean_ms"@) matches Some(JsonModel::Number(n)) && number_bits(n)
        == case.mean_ms
}

/// The cases of an accepted receipt are those that it measured, in its order, each with
/// the times that it states and a mean that agrees with its total.
pub proof fn receipts_state_their_cases(
    receipt: JsonModel,
    job: IdentityModel,
    agrees: Seq<bool>,
    k: int,
)
    requires
        receipt_of(receipt, job, agrees) is Ok,
    ensures
        receipt_coverage(receipt, job) == items_at(receipt, "cases"@),
        ({
            let items = items_at(receipt, "cases"@)->Ok_0;
            let (cases, iterations) = receipt_of(receipt, job, agrees)->Ok_0;
            &&& iterations == 100
            &&& cases.len() == items.len()
            &&& 0 <= k < cases.len() ==> measured_as(items[k], cases[k]) && agrees[k]
        }),
{
    let items = items_at(receipt, "cases"@)->Ok_0;
    receipts_are_of_the_job(receipt, job);
    measured_read_from(items, agrees, 0, Seq::empty());
    if 0 <= k < items.len() {
        let _ = items[k];
    }
}

// ---------------------------------------------------------------------------
// Journals
// ---------------------------------------------------------------------------

proof fn instances_alike(a: Seq<Seq<char>>, b: Seq<Seq<char>>, name: Seq<char>, n: int)
    requires
        0 <= n <= a.len(),
        n <= b.len(),
        forall|i: int| 0 <= i < n ==> a[i] == b[i],
    ensures
        crate::mlx::stage_summary::instances(a, name, n) == crate::mlx::stage_summary::instances(
            b,
            name,
            n,
        ),
    decreases n,
{
    if n > 0 {
        instances_alike(a, b, name, n - 1);
    }
}

/// A process counts as one more of its own name.
pub proof fn instances_are_counted(names: Seq<Seq<char>>, name: Seq<char>, other: Seq<char>)
    ensures
        instances_in(Seq::empty(), name) == 0,
        instances_in(names.push(other), name) == instances_in(names, name) + if other == name {
            1nat
        } else {
            0nat
        },
{
    instances_alike(names, names.push(other), name, names.len() as int);
}

/// A name's samples are those in which it occurs; the most of its instances is what one
/// of them has, and no other has more; a sample is busy where it has any process.
pub proof fn samples_are_tallied(samples: Seq<Seq<Seq<char>>>, name: Seq<char>, n: int, i: int)
    requires
        0 <= n < samples.len(),
        0 <= i <= n,
    ensures
        samples_with(samples, name, n + 1) == samples_with(samples, name, n) + if instances_in(
            samples[n],
            name,
        ) > 0 {
            1nat
        } else {
            0nat
        },
        instances_in(samples[i], name) <= most_instances(samples, name, n + 1),
        busy_samples(samples, n + 1) == busy_samples(samples, n) + if samples[n].len() == 0 {
            0nat
        } else {
            1nat
        },
        most_instances(samples, name, n + 1) == 0 || exists|k: int|
            0 <= k <= n && instances_in(#[trigger] samples[k], name) == most_instances(
                samples,
                name,
                n + 1,
            ),
        samples_with(samples, name, 0) == 0 && busy_samples(samples, 0) == 0,
    decreases n,
{
    if n > 0 {
        samples_are_tallied(
            samples,
            name,
            n - 1,
            if i < n {
                i
            } else {
                0
            },
        );
        if most_instances(samples, name, n + 1) == instances_in(samples[n], name) {
            assert(instances_in(samples[n], name) == most_instances(samples, name, n + 1));
        } else if most_instances(samples, name, n) != 0 {
            let k = choose|k: int|
                0 <= k <= n - 1 && instances_in(#[trigger] samples[k], name) == most_instances(
                    samples,
                    name,
                    n,
                );
            assert(instances_in(samples[k], name) == most_instances(samples, name, n + 1));
        }
    } else {
        assert(most_instances(samples, name, 0) == 0);
        assert(instances_in(samples[0], name) == most_instances(samples, name, 1));
    }
}

proof fn names_read_from(items: Seq<JsonModel>, i: int, names: Seq<Seq<char>>)
    requires
        0 <= i <= items.len(),
        names.len() == i,
        process_names(items, i, names) is Ok,
    ensures
        ({
            let all = process_names(items, i, names)->Ok_0;
            &&& all.len() == items.len()
            &&& forall|k: int| 0 <= k < i ==> all[k] == names[k]
            &&& forall|k: int|
                i <= k < items.len() ==> text_at(#[trigger] items[k], "name"@) == Some(all[k])
                    && all[k].len() > 0 && natural_at(items[k], "pid"@) is Some && natural_at(
                    items[k],
                    "pid"@,
                )->0 > 0
        }),
    decreases items.len() - i,
{
    if i < items.len() {
        let more = names.push(text_at(items[i], "name"@)->0);
        names_read_from(items, i + 1, more);
        let all = process_names(items, i, names)->Ok_0;
        assert(more[i] == text_at(items[i], "name"@)->0);
        assert forall|k: int| 0 <= k < i implies all[k] == names[k] by {
            assert(more[k] == names[k]);
        }
    }
}

/// A sample's processes are those it lists, by name and in order, each with a number;
/// a sample that lists none has none.
pub proof fn samples_list_their_processes(sample: JsonModel, k: int)
    requires
        sample_names(sample) is Ok,
    ensures
        at(sample, "observed_processes"@) is None ==> sample_names(sample)->Ok_0.len() == 0,
        at(sample, "observed_processes"@) matches Some(value) ==> {
            let items = array_of(value)->0;
            let names = sample_names(sample)->Ok_0;
            &&& array_of(value) is Some
            &&& names.len() == items.len()
            &&& 0 <= k < items.len() ==> text_at(items[k], "name"@) == Some(names[k])
                && names[k].len() > 0 && natural_at(items[k], "pid"@) is Some && natural_at(
                items[k],
                "pid"@,
            ) != Some(0u64)
        },
{
    if at(sample, "observed_processes"@) is Some {
        let items = array_of(at(sample, "observed_processes"@)->0)->0;
        names_read_from(items, 0, Seq::empty());
        if 0 <= k < items.len() {
            let _ = items[k];
        }
    }
}

proof fn journal_read_from(
    path: Seq<char>,
    text: Seq<Seq<char>>,
    documents: Seq<Result<JsonModel, Seq<char>>>,
    i: int,
    samples: Seq<Seq<Seq<char>>>,
)
    requires
        0 <= i <= text.len(),
        samples.len() == i,
        journal_from(path, text, documents, i, samples) is Ok,
    ensures
        ({
            let all = journal_from(path, text, documents, i, samples)->Ok_0;
            &&& all.len() == text.len() && all.len() > 0
            &&& forall|k: int| 0 <= k < i ==> all[k] == samples[k]
            &&& forall|k: int|
                i <= k < text.len() ==> trimmed(#[trigger] text[k]).len() > 0 && documents[k] is Ok
                    && sample_names(documents[k]->Ok_0) == Ok::<Seq<Seq<char>>, Seq<char>>(all[k])
        }),
    decreases text.len() - i,
{
    if i < text.len() {
        let names = sample_names(documents[i]->Ok_0)->Ok_0;
        let more = samples.push(names);
        journal_read_from(path, text, documents, i + 1, more);
        let all = journal_from(path, text, documents, i, samples)->Ok_0;
        assert(more[i] == names);
        assert forall|k: int| 0 <= k < i implies all[k] == samples[k] by {
            assert(more[k] == samples[k]);
        }
    }
}

/// A journal holds a sample on each of its lines; none is blank, and there is one.
pub proof fn journals_hold_a_sample_a_line(
    path: Seq<char>,
    text: Seq<Seq<char>>,
    documents: Seq<Result<JsonModel, Seq<char>>>,
    k: int,
)
    requires
        journal_from(path, text, documents, 0, Seq::empty()) is Ok,
        0 <= k < text.len(),
    ensures
        ({
            let samples = journal_from(path, text, documents, 0, Seq::empty())->Ok_0;
            &&& samples.len() == text.len()
            &&& trimmed(text[k]).len() > 0
            &&& documents[k] is Ok
            &&& sample_names(documents[k]->Ok_0) == Ok::<Seq<Seq<char>>, Seq<char>>(samples[k])
        }),
{
    journal_read_from(path, text, documents, 0, Seq::empty());
    let _ = text[k];
}

// ---------------------------------------------------------------------------
// Jobs
// ---------------------------------------------------------------------------

/// A report is of the job and of its success: it succeeded, with nothing left to exit.
pub proof fn reports_are_of_the_job(report: JsonModel, id: Seq<char>)
    ensures
        report_outcome(report, id) is Ok <==> {
            &&& text_at(report, "id"@) == Some(id)
            &&& text_at(report, "status"@) == Some("succeeded"@)
            &&& integer_at(report, "exit_code"@) == Some(0i64)
        },
{
}

/// A job that is summarized lies in the directory of its name; its evidence is its own
/// identity, its receipt's cases, its journal's samples, and what its report says of the
/// conditions and of the controls, each under its own name.
pub proof fn summaries_are_of_the_job(
    directory: Seq<char>,
    name: Option<Seq<char>>,
    job: JsonModel,
    report: JsonModel,
    receipt: JsonModel,
    agrees: Seq<bool>,
    path: Seq<char>,
    journal: Result<Journal, String>,
)
    requires
        stage_outcome(
            directory,
            name,
            Ok(job),
            Ok(report),
            Ok(receipt),
            agrees,
            path,
            journal,
        ) is Ok,
    ensures
        ({
            let s = stage_outcome(
                directory,
                name,
                Ok(job),
                Ok(report),
                Ok(receipt),
                agrees,
                path,
                journal,
            )->Ok_0;
            &&& identity_of(job) == Ok::<IdentityModel, Seq<char>>(s.identity)
            &&& name == Some(s.identity.id)
            &&& text_at(report, "id"@) == Some(s.identity.id)
            &&& text_at(report, "status"@) == Some("succeeded"@)
            &&& receipt_of(receipt, s.identity, agrees) == Ok::<(Seq<ParsedModel>, u64), Seq<char>>(
                (s.cases, s.iterations),
            )
            &&& bool_at(report, "sampled_conditions_eligible"@) == Some(
                s.sampled_conditions_eligible,
            )
            &&& at(report, "measurement"@) matches Some(m) && bool_at(
                m,
                "sampled_controls_eligible"@,
            ) == Some(s.sampled_controls_eligible)
        }),
{
}

proof fn grouped_read_from(
    grouped: Seq<TimingModel>,
    bits: u64,
    id: Seq<char>,
    cases: Seq<ParsedModel>,
    iterations: u64,
    i: int,
)
    requires
        0 <= i <= cases.len(),
        grouped_from(grouped, bits, id, cases, iterations, i) is Ok,
    ensures
        ({
            let all = grouped_from(grouped, bits, id, cases, iterations, i)->Ok_0;
            &&& all.len() == grouped.len() + cases.len() - i
            &&& forall|k: int| 0 <= k < grouped.len() ==> all[k] == grouped[k]
            &&& forall|k: int|
                i <= k < cases.len() ==> grouped_as(
                    bits,
                    id,
                    #[trigger] cases[k],
                    iterations,
                    all[grouped.len() + k - i],
                )
        }),
    decreases cases.len() - i,
{
    if i < cases.len() {
        let timing = TimingModel {
            key: group_key(bits, cases[i].key),
            total_ms: cases[i].total_ms,
            mean_ms: cases[i].mean_ms,
            iterations,
            job_id: id,
        };
        let more = grouped.push(timing);
        grouped_read_from(more, bits, id, cases, iterations, i + 1);
        let all = grouped_from(grouped, bits, id, cases, iterations, i)->Ok_0;
        assert(all[grouped.len() as int] == more[grouped.len() as int]);
        assert forall|k: int| 0 <= k < grouped.len() implies all[k] == grouped[k] by {
            assert(more[k] == grouped[k]);
        }
        assert forall|k: int| i <= k < cases.len() implies grouped_as(
            bits,
            id,
            #[trigger] cases[k],
            iterations,
            all[grouped.len() + k - i],
        ) by {
            if k > i {
                assert(more.len() + k - (i + 1) == grouped.len() + k - i);
            }
        }
    }
}

/// Whether a grouped timing is a job's case, under the job's bits and name.
pub open spec fn grouped_as(
    bits: u64,
    id: Seq<char>,
    case: ParsedModel,
    iterations: u64,
    t: TimingModel,
) -> bool {
    &&& t.key.bits == bits
    &&& t.key.length == case.key.length
    &&& t.key.mode == case.key.mode
    &&& t.key.category == case.key.category
    &&& match case.key.variant {
        Some(variant) => t.key.variant == variant,
        None => t.key.variant == "none"@,
    }
    &&& t.total_ms == case.total_ms
    &&& t.mean_ms == case.mean_ms
    &&& t.iterations == iterations
    &&& t.job_id == id
}

/// Grouping keeps what was grouped and adds each case of the job, in order, with its own
/// times and the job's name.
pub proof fn groups_keep_every_case(
    grouped: Seq<TimingModel>,
    bits: u64,
    id: Seq<char>,
    cases: Seq<ParsedModel>,
    iterations: u64,
    k: int,
)
    requires
        grouped_from(grouped, bits, id, cases, iterations, 0) is Ok,
    ensures
        ({
            let all = grouped_from(grouped, bits, id, cases, iterations, 0)->Ok_0;
            &&& all.len() == grouped.len() + cases.len()
            &&& 0 <= k < grouped.len() ==> all[k] == grouped[k]
            &&& 0 <= k < cases.len() ==> grouped_as(
                bits,
                id,
                cases[k],
                iterations,
                all[grouped.len() + k],
            )
        }),
{
    grouped_read_from(grouped, bits, id, cases, iterations, 0);
    if 0 <= k < cases.len() {
        let _ = cases[k];
    }
}

} // verus!
