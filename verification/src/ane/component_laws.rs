//! What a component's inputs pin, and how its samples are judged.
use crate::ane::component::{
    aggregate_outcome, byte_of, candidate_name, candidate_of, half_input_outcome, input_outcome,
    matrix_encoding, paths_outcome, pinned_outcome, pins_outcome, regular_outcome, request_outcome,
    word_bytes, Candidate, ComponentFile, Input, PinRequest,
};
use crate::ane::half_bits::half_is_finite;
use crate::hash::sha256_hex;
use crate::paths::{is_absolute, same_path};
use crate::text::is_lower_digest;
use vstd::arithmetic::power::pow;
use vstd::prelude::*;

verus! {

/// A manifest that is accepted is of its candidate and of one of forty-eight layers; it
/// pins one to three samples, three matrices and the model, and no sample twice, by its
/// path or by its content.
pub proof fn accepted_manifests_pin_distinct_samples(
    input: Input,
    candidate: Candidate,
    i: int,
    j: int,
)
    requires
        input_outcome(input, candidate) is Ok,
    ensures
        input.schema@ == "rvllm.ane.ffn-component-input.v1"@,
        input.candidate@ == candidate_name(candidate),
        input.layer < 48,
        1 <= input.samples@.len() <= 3,
        input.quantized_matrix_sha256@.len() == 3,
        is_lower_digest(input.model_config_sha256@),
        0 <= i < 3 ==> is_lower_digest(input.quantized_matrix_sha256@[i]@),
        0 <= i < input.samples@.len() ==> is_absolute(input.samples@[i].path@) && is_lower_digest(
            input.samples@[i].sha256@,
        ),
        0 <= i < j < input.samples@.len() ==> {
            &&& !same_path(input.samples@[i].path@, input.samples@[j].path@)
            &&& input.samples@[i].sha256@ != input.samples@[j].sha256@
        },
{
    if 0 <= i < 3 {
        assert(is_lower_digest(input.quantized_matrix_sha256@[i]@));
    }
    if 0 <= i < input.samples@.len() {
        assert(crate::ane::component::sample_pinned(input.samples@[i]));
    }
    if 0 <= i < j < input.samples@.len() {
        assert(!crate::ane::component::same_sample(input.samples@[i], input.samples@[j]));
    }
}

/// The candidates are told apart by their names, and read back from them.
pub proof fn candidates_read_back(candidate: Candidate, name: Seq<char>)
    ensures
        candidate_of(candidate_name(candidate)) == Some(candidate),
        candidate_of(name) matches Some(found) ==> candidate_name(found) == name,
        candidate_name(Candidate::Chunk4) == "ane-int8-ffn-chunk4"@,
        candidate_name(Candidate::Down4) == "ane-int8-ffn-down4"@,
        candidate_name(Candidate::Interleaved) == "ane-int8-ffn-interleaved"@,
{
    reveal_strlit("ane-int8-ffn-chunk4");
    reveal_strlit("ane-int8-ffn-down4");
    reveal_strlit("ane-int8-ffn-interleaved");
    assert("ane-int8-ffn-chunk4"@.len() == 19 && "ane-int8-ffn-down4"@.len() == 18);
    assert("ane-int8-ffn-interleaved"@.len() == 24);
}

/// A request for pins is of one of the candidates, with one to three absolute paths, no
/// two alike.
pub proof fn requests_name_distinct_paths(request: PinRequest, i: int, j: int)
    requires
        request_outcome(request) is Ok,
    ensures
        request.schema@ == "rvllm.ane.ffn-pin-request.v1"@,
        request.candidate@ == candidate_name(request_outcome(request)->Ok_0),
        request.layer < 48,
        1 <= request.sample_paths@.len() <= 3,
        0 <= i < request.sample_paths@.len() ==> is_absolute(request.sample_paths@[i]@),
        0 <= i < j < request.sample_paths@.len() ==> !same_path(
            request.sample_paths@[i]@,
            request.sample_paths@[j]@,
        ),
{
    candidates_read_back(request_outcome(request)->Ok_0, request.candidate@);
    if 0 <= i < request.sample_paths@.len() {
        assert(is_absolute(request.sample_paths@[i]@));
    }
}

/// A file is taken where it is regular before and after it is opened, and within its
/// limit by its entry and by what was read; pinned, it has the digest expected.
pub proof fn files_are_regular_and_bounded(file: ComponentFile, expected: Seq<char>, limit: usize)
    ensures
        regular_outcome(file, limit) is Ok <==> {
            &&& file.entry is Ok && file.entry->Ok_0.0 && file.entry->Ok_0.1 <= limit
            &&& file.opened == Ok::<bool, String>(true)
            &&& file.bytes is Ok && file.bytes->Ok_0@.len() <= limit
        },
        regular_outcome(file, limit) is Ok ==> regular_outcome(file, limit)->Ok_0
            == file.bytes->Ok_0@,
        pinned_outcome(file, expected, limit) is Ok <==> {
            &&& is_lower_digest(expected)
            &&& regular_outcome(file, limit) is Ok
            &&& sha256_hex(file.bytes->Ok_0@) == expected
        },
        pinned_outcome(file, expected, limit) is Ok ==> pinned_outcome(file, expected, limit)
            == regular_outcome(file, limit),
{
}

/// An input is read as numbers of two bytes, the lower byte first, three thousand eight
/// hundred and forty of them, all finite.
pub proof fn inputs_are_numbers_of_two_bytes(bytes: Seq<u8>, i: int)
    requires
        half_input_outcome(bytes) is Ok,
        0 <= i < 3840,
    ensures
        bytes.len() == 7680,
        half_input_outcome(bytes)->Ok_0.len() == 3840,
        half_input_outcome(bytes)->Ok_0[i] == bytes[2 * i] + 256 * bytes[2 * i + 1],
        half_is_finite(half_input_outcome(bytes)->Ok_0[i]),
{
    assert(half_is_finite(crate::ane::component::elements_of(bytes)[i]));
}

/// A word's bytes make it up again, the lowest first.
pub proof fn words_are_made_of_their_bytes(n: u64, i: int)
    requires
        0 <= i < 8,
    ensures
        word_bytes(n).len() == 8,
        word_bytes(n)[i] == (n as int / pow(256, i as nat)) % 256,
{
    let q = n as int / pow(256, i as nat);
    assert(0 <= q % 256 < 256) by (nonlinear_arith);
}

/// A signed byte is written as its remainder by two hundred and fifty-six.
pub proof fn signed_bytes_are_remainders(v: i8)
    ensures
        byte_of(v) == (v as int) % 256,
{
}

/// A matrix is encoded by its columns, its rows, its values and its scales, in that order.
pub proof fn matrices_are_encoded_in_order(columns: usize, values: Seq<i8>, scales: Seq<u16>, i: int)
    ensures
        ({
            let bytes = matrix_encoding(columns, values, scales);
            &&& bytes.len() == 16 + values.len() + 2 * scales.len()
            &&& bytes.subrange(0, 8) == word_bytes(columns as u64)
            &&& bytes.subrange(8, 16) == word_bytes(scales.len() as u64)
            &&& 0 <= i < values.len() ==> bytes[16 + i] == (values[i] as int) % 256
            &&& 0 <= i < scales.len() ==> bytes[16 + values.len() + 2 * i] + 256 * bytes[16
                + values.len() + 2 * i + 1] == scales[i]
        }),
{
    let bytes = matrix_encoding(columns, values, scales);
    assert(bytes.subrange(0, 8) =~= word_bytes(columns as u64));
    assert(bytes.subrange(8, 16) =~= word_bytes(scales.len() as u64));
    if 0 <= i < values.len() {
        signed_bytes_are_remainders(values[i]);
    }
    if 0 <= i < scales.len() {
        assert((2 * i) % 2 == 0 && (2 * i) / 2 == i);
        assert((2 * i + 1) % 2 == 1 && (2 * i + 1) / 2 == i);
    }
}

/// Coefficients hold where each digest observed is the one pinned in its place; paths
/// hold where each is absolute; a candidate passes where every sample that was expected
/// passed, and all of them together.
pub proof fn verdicts_take_every_sample(
    observed: Seq<Seq<char>>,
    pinned: Seq<Seq<char>>,
    paths: Seq<String>,
    preparing: bool,
    passed: Seq<bool>,
    expected: usize,
    aggregate: bool,
)
    ensures
        pins_outcome(observed, pinned) is Ok <==> observed.len() == pinned.len() && forall|i: int|
            0 <= i < observed.len() ==> #[trigger] observed[i] == pinned[i],
        paths_outcome(paths, preparing) is Ok <==> forall|i: int|
            0 <= i < paths.len() ==> is_absolute(#[trigger] paths[i]@),
        aggregate_outcome(passed, expected, aggregate) is Ok <==> aggregate && passed.len()
            == expected && !passed.contains(false),
{
    if observed.len() == pinned.len() && forall|i: int|
        0 <= i < observed.len() ==> #[trigger] observed[i] == pinned[i] {
        assert(observed =~= pinned);
    }
    if !passed.contains(false) {
        assert forall|i: int| 0 <= i < passed.len() implies #[trigger] passed[i] by {
            if !passed[i] {
                assert(passed.contains(false));
            }
        }
    }
}

} // verus!
