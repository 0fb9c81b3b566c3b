//! Qualification of one feed-forward component on captured inputs: the pinned
//! manifest, the inputs and coefficients it binds, and the verdict.
use crate::ane::equivalence::BoundedComparison;
use crate::ane::half_bits::{element, half_is_finite};
use crate::ane::shape::{HIDDEN, LAYERS};
use crate::disagg::prefill_case::{encode_f16, half_encoding};
use crate::hash::{sha256_hex, sha256_text};
use crate::paths::{is_absolute, path_is_absolute, paths_equal, same_path};
use crate::text::{is_lower_digest, lower_digest_shaped, same, texts, told};
use vstd::arithmetic::power::pow;
use vstd::prelude::*;

verus! {

/// The layout that is compared with a control.
#[derive(Clone, Copy, Debug, PartialEq, Eq, Structural)]
pub enum Candidate {
    Chunk4,
    Down4,
    Interleaved,
}

pub open spec fn candidate_name(candidate: Candidate) -> Seq<char> {
    match candidate {
        Candidate::Chunk4 => "ane-int8-ffn-chunk4"@,
        Candidate::Down4 => "ane-int8-ffn-down4"@,
        Candidate::Interleaved => "ane-int8-ffn-interleaved"@,
    }
}

impl Candidate {
    pub fn name(self) -> (r: &'static str)
        ensures
            r@ == candidate_name(self),
    {
        match self {
            Candidate::Chunk4 => "ane-int8-ffn-chunk4",
            Candidate::Down4 => "ane-int8-ffn-down4",
            Candidate::Interleaved => "ane-int8-ffn-interleaved",
        }
    }

    /// The layout that a candidate is compared with.
    pub fn control(self) -> (r: &'static str)
        ensures
            r@ == if self == Candidate::Interleaved {
                "stacked-int8"@
            } else {
                "plain-int8"@
            },
    {
        match self {
            Candidate::Interleaved => "stacked-int8",
            _ => "plain-int8",
        }
    }
}

// ---------------------------------------------------------------------------
// Manifest
// ---------------------------------------------------------------------------

/// A captured input and its digest.
#[derive(Debug)]
pub struct Sample {
    pub path: String,
    pub sha256: String,
}

/// A manifest. The three digests are those of the quantized gate, up and down
/// matrices.
#[derive(Debug)]
pub struct Input {
    pub schema: String,
    pub candidate: String,
    pub layer: usize,
    pub model_config_sha256: String,
    pub quantized_matrix_sha256: Vec<String>,
    pub samples: Vec<Sample>,
}

pub open spec fn sample_pinned(sample: Sample) -> bool {
    is_absolute(sample.path@) && is_lower_digest(sample.sha256@)
}

/// Whether a manifest has the expected shape, is of the candidate, and pins
/// everything.
pub open spec fn input_shaped(input: Input, candidate: Candidate) -> bool {
    &&& input.schema@ == "rvllm.ane.ffn-component-input.v1"@
    &&& input.candidate@ == candidate_name(candidate)
    &&& input.layer < LAYERS
    &&& 1 <= input.samples@.len() <= 3
    &&& is_lower_digest(input.model_config_sha256@)
    &&& input.quantized_matrix_sha256@.len() == 3
    &&& forall|i: int|
        0 <= i < input.quantized_matrix_sha256@.len() ==> is_lower_digest(
            #[trigger] input.quantized_matrix_sha256@[i]@,
        )
    &&& forall|i: int| 0 <= i < input.samples@.len() ==> sample_pinned(#[trigger] input.samples@[i])
}

pub open spec fn same_sample(a: Sample, b: Sample) -> bool {
    same_path(a.path@, b.path@) || a.sha256@ == b.sha256@
}

/// Whether two samples share a path or a digest.
pub open spec fn samples_repeat(samples: Seq<Sample>) -> bool {
    exists|i: int, j: int| 0 <= j < i < samples.len() && same_sample(samples[j], samples[i])
}

pub open spec fn input_outcome(input: Input, candidate: Candidate) -> Result<(), Seq<char>> {
    if !input_shaped(input, candidate) {
        Err("FFN component manifest shape, candidate or pins invalid"@)
    } else if samples_repeat(input.samples@) {
        Err("duplicate FFN sample is not independent coverage"@)
    } else {
        Ok(())
    }
}

fn all_pinned(samples: &Vec<Sample>) -> (r: bool)
    ensures
        r == forall|i: int| 0 <= i < samples@.len() ==> sample_pinned(#[trigger] samples@[i]),
{
    let mut i: usize = 0;
    while i < samples.len()
        invariant
            i <= samples@.len(),
            forall|j: int| 0 <= j < i ==> sample_pinned(#[trigger] samples@[j]),
        decreases samples@.len() - i,
    {
        let sample = &samples[i];
        if !path_is_absolute(sample.path.as_str()) || !valid_hash(sample.sha256.as_str()) {
            assert(!sample_pinned(samples@[i as int]));
            return false;
        }
        i = i + 1;
    }
    true
}

fn all_digests(list: &Vec<String>) -> (r: bool)
    ensures
        r == forall|i: int| 0 <= i < list@.len() ==> is_lower_digest(#[trigger] list@[i]@),
{
    let mut i: usize = 0;
    while i < list.len()
        invariant
            i <= list@.len(),
            forall|j: int| 0 <= j < i ==> is_lower_digest(#[trigger] list@[j]@),
        decreases list@.len() - i,
    {
        if !valid_hash(list[i].as_str()) {
            assert(!is_lower_digest(list@[i as int]@));
            return false;
        }
        i = i + 1;
    }
    true
}

fn any_repeats(samples: &Vec<Sample>) -> (r: bool)
    ensures
        r == samples_repeat(samples@),
{
    let mut i: usize = 0;
    while i < samples.len()
        invariant
            i <= samples@.len(),
            forall|k: int, j: int| 0 <= j < k < i ==> !same_sample(samples@[j], samples@[k]),
        decreases samples@.len() - i,
    {
        let mut j: usize = 0;
        while j < i
            invariant
                j <= i < samples@.len(),
                forall|k: int|
                    0 <= k < j ==> !same_sample(#[trigger] samples@[k], samples@[i as int]),
            decreases i - j,
        {
            if paths_equal(samples[j].path.as_str(), samples[i].path.as_str()) || same(
                samples[j].sha256.as_str(),
                samples[i].sha256.as_str(),
            ) {
                assert(same_sample(samples@[j as int], samples@[i as int]));
                return true;
            }
            j = j + 1;
        }
        i = i + 1;
    }
    false
}

/// Whether a text is a digest in lower case.
pub fn valid_hash(text: &str) -> (r: bool)
    ensures
        r == is_lower_digest(text@),
{
    lower_digest_shaped(text)
}

/// Checks a manifest against the candidate that it is for.
pub fn validate_input(input: &Input, candidate: Candidate) -> (r: Result<(), String>)
    ensures
        told(r) == input_outcome(*input, candidate),
{
    if !same(input.schema.as_str(), "rvllm.ane.ffn-component-input.v1") || !same(
        input.candidate.as_str(),
        candidate.name(),
    ) || input.layer >= LAYERS || input.samples.len() < 1 || input.samples.len() > 3
        || input.quantized_matrix_sha256.len() != 3 || !valid_hash(input.model_config_sha256.as_str()) || !all_digests(
        &input.quantized_matrix_sha256,
    ) || !all_pinned(&input.samples) {
        return Err("FFN component manifest shape, candidate or pins invalid".to_owned());
    }
    if any_repeats(&input.samples) {
        return Err("duplicate FFN sample is not independent coverage".to_owned());
    }
    Ok(())
}

/// A manifest that is accepted for one candidate is accepted for no other.
pub proof fn manifests_name_one_candidate(input: Input, a: Candidate, b: Candidate)
    requires
        input_outcome(input, a) is Ok,
        a != b,
    ensures
        input_outcome(input, b) is Err,
{
    reveal_strlit("ane-int8-ffn-chunk4");
    reveal_strlit("ane-int8-ffn-down4");
    reveal_strlit("ane-int8-ffn-interleaved");
    assert("ane-int8-ffn-chunk4"@.len() == 19);
    assert("ane-int8-ffn-down4"@.len() == 18);
    assert("ane-int8-ffn-interleaved"@.len() == 24);
}

// ---------------------------------------------------------------------------
// Pinned files
// ---------------------------------------------------------------------------

/// A file as it was found: whether its entry is a regular file and how long it
/// is, whether it still is one once open, and what was read of it, one byte past
/// the limit at most.
#[derive(Debug)]
pub struct ComponentFile {
    pub entry: Result<(bool, u64), String>,
    pub opened: Result<bool, String>,
    pub bytes: Result<Vec<u8>, String>,
}

pub open spec fn regular_outcome(file: ComponentFile, limit: usize) -> Result<Seq<u8>, Seq<char>> {
    match file.entry {
        Err(message) => Err(message@),
        Ok((regular, length)) => if !regular || length > limit {
            Err("component input must be a bounded regular file"@)
        } else {
            match file.opened {
                Err(message) => Err(message@),
                Ok(still) => if !still {
                    Err("component input changed type"@)
                } else {
                    match file.bytes {
                        Err(message) => Err(message@),
                        Ok(bytes) => if bytes@.len() > limit {
                            Err("component input exceeds size bound"@)
                        } else {
                            Ok(bytes@)
                        },
                    }
                },
            }
        },
    }
}

pub open spec fn bytes_told(r: Result<Vec<u8>, String>) -> Result<Seq<u8>, Seq<char>> {
    match r {
        Ok(bytes) => Ok(bytes@),
        Err(e) => Err(e@),
    }
}

/// The bytes of a bounded regular file.
pub fn regular_bytes(file: ComponentFile, limit: usize) -> (r: Result<Vec<u8>, String>)
    ensures
        bytes_told(r) == regular_outcome(file, limit),
{
    match file.entry {
        Err(message) => {
            return Err(message);
        },
        Ok((regular, length)) => {
            if !regular || length > limit as u64 {
                return Err("component input must be a bounded regular file".to_owned());
            }
        },
    }
    match file.opened {
        Err(message) => {
            return Err(message);
        },
        Ok(still) => {
            if !still {
                return Err("component input changed type".to_owned());
            }
        },
    }
    match file.bytes {
        Err(message) => Err(message),
        Ok(bytes) => {
            if bytes.len() > limit {
                return Err("component input exceeds size bound".to_owned());
            }
            Ok(bytes)
        },
    }
}

pub open spec fn pinned_outcome(file: ComponentFile, expected: Seq<char>, limit: usize) -> Result<
    Seq<u8>,
    Seq<char>,
> {
    if !is_lower_digest(expected) {
        Err("invalid input SHA256"@)
    } else {
        match regular_outcome(file, limit) {
            Err(message) => Err(message),
            Ok(bytes) => if sha256_hex(bytes) != expected {
                Err("component input hash changed"@)
            } else {
                Ok(bytes)
            },
        }
    }
}

/// The bytes of a bounded regular file whose digest is pinned.
pub fn pinned_bytes(file: ComponentFile, expected: &str, limit: usize) -> (r: Result<
    Vec<u8>,
    String,
>)
    ensures
        bytes_told(r) == pinned_outcome(file, expected@, limit),
{
    if !valid_hash(expected) {
        return Err("invalid input SHA256".to_owned());
    }
    match regular_bytes(file, limit) {
        Err(message) => Err(message),
        Ok(bytes) => {
            let digest = sha256_text(bytes.as_slice());
            if !same(digest.as_str(), expected) {
                return Err("component input hash changed".to_owned());
            }
            Ok(bytes)
        },
    }
}

/// Bytes that are accepted are within the limit and have the pinned digest.
pub proof fn pinned_bytes_are_bound(file: ComponentFile, expected: Seq<char>, limit: usize)
    requires
        pinned_outcome(file, expected, limit) is Ok,
    ensures
        pinned_outcome(file, expected, limit)->Ok_0.len() <= limit,
        sha256_hex(pinned_outcome(file, expected, limit)->Ok_0) == expected,
{
}

// ---------------------------------------------------------------------------
// Inputs and coefficients
// ---------------------------------------------------------------------------

/// The elements of little-endian 16-bit bytes.
pub open spec fn elements_of(bytes: Seq<u8>) -> Seq<u16> {
    Seq::new(bytes.len() / 2, |i: int| element(bytes, i))
}

pub open spec fn half_input_outcome(bytes: Seq<u8>) -> Result<Seq<u16>, Seq<char>> {
    if bytes.len() != 2 * HIDDEN {
        Err("FFN input must contain exactly 3840 f16 values"@)
    } else if exists|i: int|
        0 <= i < elements_of(bytes).len() && !half_is_finite(#[trigger] elements_of(bytes)[i]) {
        Err("nonfinite captured FFN input"@)
    } else {
        Ok(elements_of(bytes))
    }
}

pub open spec fn halves_told(r: Result<Vec<u16>, String>) -> Result<Seq<u16>, Seq<char>> {
    match r {
        Ok(values) => Ok(values@),
        Err(e) => Err(e@),
    }
}

/// The FP16 bits of a captured input: exactly one hidden state, every element
/// finite.
pub fn half_input(bytes: &[u8]) -> (r: Result<Vec<u16>, String>)
    ensures
        halves_told(r) == half_input_outcome(bytes@),
{
    if bytes.len() != 2 * HIDDEN {
        return Err("FFN input must contain exactly 3840 f16 values".to_owned());
    }
    let ghost all = elements_of(bytes@);
    let mut values: Vec<u16> = Vec::new();
    let mut i: usize = 0;
    while i < HIDDEN
        invariant
            i <= HIDDEN,
            bytes@.len() == 2 * HIDDEN,
            all == elements_of(bytes@),
            values@ == all.take(i as int),
            forall|j: int| 0 <= j < i ==> half_is_finite(#[trigger] all[j]),
        decreases HIDDEN - i,
    {
        let value: u16 = bytes[2 * i] as u16 + 256 * (bytes[2 * i + 1] as u16);
        assert(value == all[i as int]);
        if value % 0x8000 >= 0x7c00 {
            assert(!half_is_finite(all[i as int]));
            return Err("nonfinite captured FFN input".to_owned());
        }
        values.push(value);
        assert(values@ =~= all.take(i + 1));
        i = i + 1;
    }
    assert(values@ =~= all);
    Ok(values)
}

/// A quantized matrix: its columns, its coefficients row by row, and the FP16
/// bits of one scale for each row.
#[derive(Debug)]
pub struct QuantizedMatrix {
    pub columns: usize,
    pub values: Vec<i8>,
    pub scales: Vec<u16>,
}

/// The eight bytes of a number, the lowest first.
pub open spec fn word_bytes(n: u64) -> Seq<u8> {
    Seq::new(8, |i: int| ((n as int / pow(256, i as nat)) % 256) as u8)
}

/// The two's complement byte of a coefficient.
pub open spec fn byte_of(v: i8) -> u8 {
    if v < 0 {
        (256 + v) as u8
    } else {
        v as u8
    }
}

/// What identifies a quantized matrix: its shape, its coefficients and its
/// scales, in this order.
pub open spec fn matrix_encoding(columns: usize, values: Seq<i8>, scales: Seq<u16>) -> Seq<u8> {
    word_bytes(columns as u64) + word_bytes(scales.len() as u64) + Seq::new(
        values.len(),
        |i: int| byte_of(values[i]),
    ) + half_encoding(scales)
}

fn push_word(bytes: &mut Vec<u8>, n: u64)
    ensures
        final(bytes)@ == old(bytes)@ + word_bytes(n),
{
    let ghost before = bytes@;
    let mut rest: u64 = n;
    let mut i: usize = 0;
    proof {
        vstd::arithmetic::power::lemma_pow0(256);
    }
    while i < 8
        invariant
            i <= 8,
            bytes@ == before + word_bytes(n).take(i as int),
            rest as int == n as int / pow(256, i as nat),
            pow(256, i as nat) > 0,
        decreases 8 - i,
    {
        let ghost here = bytes@;
        bytes.push((rest % 256) as u8);
        proof {
            let p = pow(256, i as nat);
            assert(word_bytes(n)[i as int] == (rest % 256) as u8);
            assert(bytes@ =~= before + word_bytes(n).take(i + 1));
            vstd::arithmetic::power::lemma_pow1(256);
            vstd::arithmetic::power::lemma_pow_adds(256, i as nat, 1);
            assert(pow(256, (i + 1) as nat) == p * 256);
            vstd::arithmetic::div_mod::lemma_div_denominator(n as int, p, 256);
        }
        rest = rest / 256;
        i = i + 1;
    }
    assert(word_bytes(n).take(8) =~= word_bytes(n));
}

/// The digest that identifies a quantized matrix.
pub fn matrix_hash(matrix: &QuantizedMatrix) -> (r: String)
    ensures
        r@ == sha256_hex(matrix_encoding(matrix.columns, matrix.values@, matrix.scales@)),
{
    let mut bytes: Vec<u8> = Vec::new();
    push_word(&mut bytes, matrix.columns as u64);
    push_word(&mut bytes, matrix.scales.len() as u64);
    let ghost head = bytes@;
    let ghost coefficients = Seq::new(matrix.values@.len(), |i: int| byte_of(matrix.values@[i]));
    let mut i: usize = 0;
    while i < matrix.values.len()
        invariant
            i <= matrix.values@.len(),
            coefficients == Seq::new(matrix.values@.len(), |j: int| byte_of(matrix.values@[j])),
            bytes@ == head + coefficients.take(i as int),
        decreases matrix.values@.len() - i,
    {
        let v: i8 = matrix.values[i];
        let b: u8 = if v < 0 {
            (256 + v as i32) as u8
        } else {
            v as u8
        };
        bytes.push(b);
        assert(bytes@ =~= head + coefficients.take(i + 1));
        i = i + 1;
    }
    assert(coefficients.take(i as int) =~= coefficients);
    let (scales, _) = encode_f16(&matrix.scales);
    let ghost body = bytes@;
    let mut k: usize = 0;
    while k < scales.len()
        invariant
            k <= scales@.len(),
            bytes@ == body + scales@.take(k as int),
        decreases scales@.len() - k,
    {
        bytes.push(scales[k]);
        assert(bytes@ =~= body + scales@.take(k + 1));
        k = k + 1;
    }
    assert(scales@.take(k as int) =~= scales@);
    proof {
        assert(bytes@ =~= matrix_encoding(matrix.columns, matrix.values@, matrix.scales@));
    }
    sha256_text(bytes.as_slice())
}

proof fn bytes_determine(v: i8, w: i8)
    ensures
        byte_of(v) == byte_of(w) ==> v == w,
{
}

proof fn words_determine(a: u64, b: u64)
    requires
        word_bytes(a) == word_bytes(b),
    ensures
        a == b,
{
    low_bytes_determine(a, b, 8);
    vstd::arithmetic::power::lemma_pow_adds(256, 4, 4);
    reveal_with_fuel(pow, 5);
    assert(pow(256, 4) == 0x1_0000_0000);
    assert(pow(256, 8) == 0x1_0000_0000 * 0x1_0000_0000);
    vstd::arithmetic::div_mod::lemma_small_mod(a as nat, pow(256, 8) as nat);
    vstd::arithmetic::div_mod::lemma_small_mod(b as nat, pow(256, 8) as nat);
}

proof fn low_bytes_determine(a: u64, b: u64, k: nat)
    requires
        word_bytes(a) == word_bytes(b),
        k <= 8,
    ensures
        a as int % pow(256, k) == b as int % pow(256, k),
        pow(256, k) > 0,
    decreases k,
{
    if k == 0 {
        vstd::arithmetic::power::lemma_pow0(256);
    } else {
        let j = (k - 1) as nat;
        low_bytes_determine(a, b, j);
        let p = pow(256, j);
        vstd::arithmetic::power::lemma_pow1(256);
        vstd::arithmetic::power::lemma_pow_adds(256, j, 1);
        assert(pow(256, k) == p * 256);
        assert(word_bytes(a)[j as int] == word_bytes(b)[j as int]);
        let x = (a as int / p) % 256;
        let y = (b as int / p) % 256;
        assert(0 <= x < 256 && 0 <= y < 256);
        assert(word_bytes(a)[j as int] == x as u8);
        assert(word_bytes(b)[j as int] == y as u8);
        assert(x == y);
        vstd::arithmetic::div_mod::lemma_mod_breakdown(a as int, p, 256);
        vstd::arithmetic::div_mod::lemma_mod_breakdown(b as int, p, 256);
    }
}

/// What identifies a quantized matrix binds its shape, its coefficients and its
/// scales: two matrices that are identified alike are the same.
pub proof fn matrix_encoding_binds(
    columns: usize,
    values: Seq<i8>,
    scales: Seq<u16>,
    other_columns: usize,
    other_values: Seq<i8>,
    other_scales: Seq<u16>,
)
    requires
        scales.len() <= u64::MAX,
        other_scales.len() <= u64::MAX,
        matrix_encoding(columns, values, scales) == matrix_encoding(
            other_columns,
            other_values,
            other_scales,
        ),
    ensures
        columns == other_columns && values == other_values && scales == other_scales,
{
    let x = matrix_encoding(columns, values, scales);
    let y = matrix_encoding(other_columns, other_values, other_scales);
    assert(word_bytes(columns as u64) =~= x.take(8));
    assert(word_bytes(other_columns as u64) =~= y.take(8));
    words_determine(columns as u64, other_columns as u64);
    assert(word_bytes(scales.len() as u64) =~= x.subrange(8, 16));
    assert(word_bytes(other_scales.len() as u64) =~= y.subrange(8, 16));
    words_determine(scales.len() as u64, other_scales.len() as u64);
    assert(x.len() == 16 + values.len() + 2 * scales.len());
    assert(y.len() == 16 + other_values.len() + 2 * other_scales.len());
    assert forall|i: int| 0 <= i < values.len() implies values[i] == other_values[i] by {
        assert(x[16 + i] == byte_of(values[i]));
        assert(y[16 + i] == byte_of(other_values[i]));
        bytes_determine(values[i], other_values[i]);
    }
    assert(values =~= other_values);
    let start = 16 + values.len();
    assert forall|i: int| 0 <= i < scales.len() implies scales[i] == other_scales[i] by {
        let low = x[start + 2 * i];
        let high = x[start + 2 * i + 1];
        assert(low == half_encoding(scales)[2 * i]);
        assert(high == half_encoding(scales)[2 * i + 1]);
        assert(y[start + 2 * i] == half_encoding(other_scales)[2 * i]);
        assert(y[start + 2 * i + 1] == half_encoding(other_scales)[2 * i + 1]);
        assert((2 * i) / 2 == i && (2 * i + 1) / 2 == i);
        assert(scales[i] == 256 * (scales[i] / 256) + scales[i] % 256);
        assert(other_scales[i] == 256 * (other_scales[i] / 256) + other_scales[i] % 256);
    }
    assert(scales =~= other_scales);
}

pub open spec fn pins_outcome(observed: Seq<Seq<char>>, pinned: Seq<Seq<char>>) -> Result<
    (),
    Seq<char>,
> {
    if observed != pinned {
        Err("FFN coefficient pins disagree"@)
    } else {
        Ok(())
    }
}

/// Checks the digests of the matrices against those of the manifest.
pub fn check_coefficient_pins(observed: &Vec<String>, pinned: &Vec<String>) -> (r: Result<
    (),
    String,
>)
    ensures
        told(r) == pins_outcome(texts(observed@), texts(pinned@)),
{
    if !crate::paths::same_texts(observed, pinned) {
        return Err("FFN coefficient pins disagree".to_owned());
    }
    Ok(())
}

// ---------------------------------------------------------------------------
// Requests and verdicts
// ---------------------------------------------------------------------------

pub open spec fn all_absolute(paths: Seq<String>) -> bool {
    forall|i: int| 0 <= i < paths.len() ==> is_absolute(#[trigger] paths[i]@)
}

fn are_absolute(paths: &Vec<String>) -> (r: bool)
    ensures
        r == all_absolute(paths@),
{
    let mut i: usize = 0;
    while i < paths.len()
        invariant
            i <= paths@.len(),
            forall|j: int| 0 <= j < i ==> is_absolute(#[trigger] paths@[j]@),
        decreases paths@.len() - i,
    {
        if !path_is_absolute(paths[i].as_str()) {
            assert(!is_absolute(paths@[i as int]@));
            return false;
        }
        i = i + 1;
    }
    true
}

pub open spec fn paths_outcome(paths: Seq<String>, preparing: bool) -> Result<(), Seq<char>> {
    if all_absolute(paths) {
        Ok(())
    } else if preparing {
        Err("pin-preparation paths must be absolute"@)
    } else {
        Err("component paths must be absolute"@)
    }
}

/// Checks the paths that a run, or the preparation of its pins, is given.
pub fn check_component_paths(paths: &Vec<String>, preparing: bool) -> (r: Result<(), String>)
    ensures
        told(r) == paths_outcome(paths@, preparing),
{
    if are_absolute(paths) {
        return Ok(());
    }
    if preparing {
        Err("pin-preparation paths must be absolute".to_owned())
    } else {
        Err("component paths must be absolute".to_owned())
    }
}

/// A request to pin the inputs of a component.
#[derive(Debug)]
pub struct PinRequest {
    pub schema: String,
    pub candidate: String,
    pub layer: usize,
    pub sample_paths: Vec<String>,
}

pub open spec fn paths_repeat(paths: Seq<String>) -> bool {
    exists|i: int, j: int| 0 <= j < i < paths.len() && same_path(paths[j]@, paths[i]@)
}

pub open spec fn candidate_of(name: Seq<char>) -> Option<Candidate> {
    if name == "ane-int8-ffn-chunk4"@ {
        Some(Candidate::Chunk4)
    } else if name == "ane-int8-ffn-down4"@ {
        Some(Candidate::Down4)
    } else if name == "ane-int8-ffn-interleaved"@ {
        Some(Candidate::Interleaved)
    } else {
        None
    }
}

pub open spec fn request_outcome(request: PinRequest) -> Result<Candidate, Seq<char>> {
    match candidate_of(request.candidate@) {
        None => Err("unknown FFN pin-preparation candidate"@),
        Some(candidate) => if request.schema@ != "rvllm.ane.ffn-pin-request.v1"@ || request.layer
            >= LAYERS || !(1 <= request.sample_paths@.len() <= 3) || !all_absolute(
            request.sample_paths@,
        ) || paths_repeat(request.sample_paths@) {
            Err("FFN pin request shape, layer or paths invalid"@)
        } else {
            Ok(candidate)
        },
    }
}

fn any_path_repeats(paths: &Vec<String>) -> (r: bool)
    ensures
        r == paths_repeat(paths@),
{
    let mut i: usize = 0;
    while i < paths.len()
        invariant
            i <= paths@.len(),
            forall|k: int, j: int| 0 <= j < k < i ==> !same_path(paths@[j]@, paths@[k]@),
        decreases paths@.len() - i,
    {
        let mut j: usize = 0;
        while j < i
            invariant
                j <= i < paths@.len(),
                forall|k: int|
                    0 <= k < j ==> !same_path(#[trigger] paths@[k]@, paths@[i as int]@),
            decreases i - j,
        {
            if paths_equal(paths[j].as_str(), paths[i].as_str()) {
                assert(same_path(paths@[j as int]@, paths@[i as int]@));
                return true;
            }
            j = j + 1;
        }
        i = i + 1;
    }
    false
}

/// Checks a request, and tells the candidate that it names.
pub fn validate_pin_request(request: &PinRequest) -> (r: Result<Candidate, String>)
    ensures
        told(r) == request_outcome(*request),
{
    let name = request.candidate.as_str();
    let candidate = if same(name, "ane-int8-ffn-chunk4") {
        Candidate::Chunk4
    } else if same(name, "ane-int8-ffn-down4") {
        Candidate::Down4
    } else if same(name, "ane-int8-ffn-interleaved") {
        Candidate::Interleaved
    } else {
        return Err("unknown FFN pin-preparation candidate".to_owned());
    };
    if !same(request.schema.as_str(), "rvllm.ane.ffn-pin-request.v1") || request.layer >= LAYERS
        || request.sample_paths.len() < 1 || request.sample_paths.len() > 3 || !are_absolute(
        &request.sample_paths,
    ) || any_path_repeats(&request.sample_paths) {
        return Err("FFN pin request shape, layer or paths invalid".to_owned());
    }
    Ok(candidate)
}

/// Whether a sample passes: both programs repeat bit for bit, and the
/// candidate's output is equivalent to the control's.
pub fn sample_passes(
    control_repeat: &BoundedComparison,
    candidate_repeat: &BoundedComparison,
    comparison: &BoundedComparison,
    relative_l2_pass: bool,
) -> (r: bool)
    ensures
        r == (comparison.passes(relative_l2_pass) && control_repeat.repeats()
            && candidate_repeat.repeats()),
{
    comparison.passed(relative_l2_pass) && control_repeat.bit_exact_finite()
        && candidate_repeat.bit_exact_finite()
}

pub open spec fn aggregate_outcome(
    passed: Seq<bool>,
    expected: usize,
    aggregate_l2_pass: bool,
) -> Result<(), Seq<char>> {
    if (forall|i: int| 0 <= i < passed.len() ==> #[trigger] passed[i]) && passed.len() == expected
        && aggregate_l2_pass {
        Ok(())
    } else {
        Err("Chunk4 bounded-equivalence contract failed; see immutable per-sample receipts"@)
    }
}

/// The verdict over all samples: each of those expected passed, and so did the
/// relative error over all of them.
pub fn aggregate_verdict(passed: &Vec<bool>, expected: usize, aggregate_l2_pass: bool) -> (r: Result<
    (),
    String,
>)
    ensures
        told(r) == aggregate_outcome(passed@, expected, aggregate_l2_pass),
{
    let mut all = true;
    let mut i: usize = 0;
    while i < passed.len()
        invariant
            i <= passed@.len(),
            all == forall|j: int| 0 <= j < i ==> #[trigger] passed@[j],
        decreases passed@.len() - i,
    {
        if !passed[i] {
            assert(!passed@[i as int]);
            all = false;
        }
        i = i + 1;
    }
    if all && passed.len() == expected && aggregate_l2_pass {
        Ok(())
    } else {
        Err("Chunk4 bounded-equivalence contract failed; see immutable per-sample receipts".to_owned())
    }
}

} // verus!
