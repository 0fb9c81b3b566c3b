//! One Metal prefill: what its command must have done, what its dispatch
//! counters say, and the files that its state is written to.
use crate::ane::half_bits::{decode_fault, element, half_bits, representable, DType};
use crate::hash::{sha256_hex, sha256_text};
use crate::text::{cat2, cat3, cat4, decimal, decimal_text, told};
use vstd::prelude::*;

verus! {

// ---------------------------------------------------------------------------
// Kernels
// ---------------------------------------------------------------------------

/// The kernel choices that a run settles itself.
#[derive(Clone, Copy, Debug, PartialEq, Eq, Structural)]
pub struct KernelChoice {
    pub prefill_mma32: bool,
    pub prefill_simd_attention: bool,
    pub quantized_bf16_accumulation: bool,
}

pub open spec fn kernels_outcome(
    environment: KernelChoice,
    gemm_selected: bool,
    attention_selected: bool,
) -> Result<KernelChoice, Seq<char>> {
    if environment.quantized_bf16_accumulation {
        Err("disaggregated inference requires FP32 accumulation"@)
    } else {
        Ok(
            KernelChoice {
                prefill_mma32: environment.prefill_mma32 || !gemm_selected,
                prefill_simd_attention: environment.prefill_simd_attention || !attention_selected,
                ..environment
            },
        )
    }
}

/// The kernels of a run: the environment's, with the qualified prefill kernels
/// where the environment selects none.
pub fn resolve_kernels(
    environment: KernelChoice,
    gemm_selected: bool,
    attention_selected: bool,
) -> (r: Result<KernelChoice, String>)
    ensures
        told(r) == kernels_outcome(environment, gemm_selected, attention_selected),
{
    let mut kernels = environment;
    if !gemm_selected {
        kernels.prefill_mma32 = true;
    }
    if !attention_selected {
        kernels.prefill_simd_attention = true;
    }
    if kernels.quantized_bf16_accumulation {
        return Err("disaggregated inference requires FP32 accumulation".to_owned());
    }
    Ok(kernels)
}

// ---------------------------------------------------------------------------
// Dispatch counters
// ---------------------------------------------------------------------------

/// What a receipt says of the research kernels that a prefill dispatched.
#[derive(Debug)]
pub struct DispatchReport {
    pub requested: String,
    pub selection_exercised: bool,
    pub complete_family_exercised: bool,
    pub encoded_dispatches: Vec<u64>,
}

pub struct DispatchModel {
    pub requested: Seq<char>,
    pub selection_exercised: bool,
    pub complete_family_exercised: bool,
    pub encoded_dispatches: Seq<u64>,
}

pub open spec fn dispatch_outcome(
    requested: Seq<char>,
    delta: Result<Seq<u64>, Seq<char>>,
    selection: Result<bool, Seq<char>>,
    family: Result<bool, Seq<char>>,
) -> Result<DispatchModel, Seq<char>> {
    match (delta, selection, family) {
        (Err(message), _, _) => Err(message),
        (Ok(_), Err(message), _) => Err(message),
        (Ok(_), Ok(_), Err(message)) => Err(message),
        (Ok(counts), Ok(selection), Ok(family)) => Ok(
            DispatchModel {
                requested,
                selection_exercised: selection,
                complete_family_exercised: family,
                encoded_dispatches: counts,
            },
        ),
    }
}

pub open spec fn counts_told(r: Result<Vec<u64>, &'static str>) -> Result<Seq<u64>, Seq<char>> {
    match r {
        Ok(counts) => Ok(counts@),
        Err(e) => Err(e@),
    }
}

pub open spec fn said<T>(r: Result<T, &'static str>) -> Result<T, Seq<char>> {
    match r {
        Ok(v) => Ok(v),
        Err(e) => Err(e@),
    }
}

pub open spec fn dispatch_said(r: Result<DispatchReport, &'static str>) -> Result<
    DispatchModel,
    Seq<char>,
> {
    match r {
        Ok(d) => Ok(
            DispatchModel {
                requested: d.requested@,
                selection_exercised: d.selection_exercised,
                complete_family_exercised: d.complete_family_exercised,
                encoded_dispatches: d.encoded_dispatches@,
            },
        ),
        Err(e) => Err(e@),
    }
}

/// The dispatch receipt of a prefill: the counters' increase, and what it says
/// of the requested candidate. A fallback is a receipt, not an error; counters
/// that ran backwards or that mix candidates are errors.
pub fn dispatch_report(
    requested: &str,
    delta: Result<Vec<u64>, &'static str>,
    selection: Result<bool, &'static str>,
    family: Result<bool, &'static str>,
) -> (r: Result<DispatchReport, &'static str>)
    ensures
        dispatch_said(r) == dispatch_outcome(
            requested@,
            counts_told(delta),
            said(selection),
            said(family),
        ),
{
    let counts = match delta {
        Ok(counts) => counts,
        Err(message) => {
            return Err(message);
        },
    };
    let selection_exercised = match selection {
        Ok(exercised) => exercised,
        Err(message) => {
            return Err(message);
        },
    };
    let complete_family_exercised = match family {
        Ok(exercised) => exercised,
        Err(message) => {
            return Err(message);
        },
    };
    Ok(
        DispatchReport {
            requested: requested.to_owned(),
            selection_exercised,
            complete_family_exercised,
            encoded_dispatches: counts,
        },
    )
}

pub open spec fn screen_verdict_of(exercised: Seq<bool>) -> Result<(), Seq<char>> {
    if forall|i: int| 0 <= i < exercised.len() ==> #[trigger] exercised[i] {
        Ok(())
    } else {
        Err(
            "prefill completed through fallback, but the requested candidate was not exercised; GQA requires at least 64 prompt tokens"@,
        )
    }
}

/// The end of a prefill-only screen: every case must have exercised the whole
/// family of the requested candidate.
pub fn screen_verdict(exercised: &Vec<bool>) -> (r: Result<(), String>)
    ensures
        told(r) == screen_verdict_of(exercised@),
{
    let mut i: usize = 0;
    while i < exercised.len()
        invariant
            i <= exercised@.len(),
            forall|j: int| 0 <= j < i ==> #[trigger] exercised@[j],
        decreases exercised@.len() - i,
    {
        if !exercised[i] {
            assert(!exercised@[i as int]);
            return Err(
                "prefill completed through fallback, but the requested candidate was not exercised; GQA requires at least 64 prompt tokens".to_owned(),
            );
        }
        i = i + 1;
    }
    Ok(())
}

// ---------------------------------------------------------------------------
// The command's contract
// ---------------------------------------------------------------------------

/// The backend's counters.
#[derive(Clone, Copy, Debug, PartialEq, Eq, Structural)]
pub struct PrefillCounters {
    pub prefill_steps: u64,
    pub decode_steps: u64,
    pub command_buffers: u64,
}

/// What a prefill answered.
#[derive(Clone, Copy, Debug, PartialEq, Eq, Structural)]
pub struct PrefillAnswer {
    pub req_id: u64,
    pub next_position: usize,
    pub first_token: u32,
}

/// One prefill step in one command buffer, no decode step, and the answer is of
/// this request, right behind its prompt.
pub open spec fn command_kept(
    before: PrefillCounters,
    after: PrefillCounters,
    owner: u64,
    prompt_len: usize,
    answer: PrefillAnswer,
) -> bool {
    &&& after.prefill_steps == before.prefill_steps + 1
    &&& after.decode_steps == before.decode_steps
    &&& after.command_buffers == before.command_buffers + 1
    &&& answer.req_id == owner
    &&& answer.next_position == prompt_len
}

/// Whether a prefill's command did what it must.
pub fn command_contract(
    before: PrefillCounters,
    after: PrefillCounters,
    owner: u64,
    prompt_len: usize,
    answer: PrefillAnswer,
) -> (r: bool)
    ensures
        r == command_kept(before, after, owner, prompt_len, answer),
{
    after.prefill_steps >= before.prefill_steps && after.prefill_steps - before.prefill_steps == 1
        && after.decode_steps == before.decode_steps && after.command_buffers
        >= before.command_buffers && after.command_buffers - before.command_buffers == 1
        && answer.req_id == owner && answer.next_position == prompt_len
}

/// Whether a completed prefill is accepted: its command's contract, its
/// dispatch receipt, the place for its seed, and the first token.
pub open spec fn prefill_outcome(
    contract_passed: bool,
    dispatch: Option<Seq<char>>,
    capture_seed: bool,
    case_dir: bool,
    first_token: u32,
    expected: Option<u32>,
) -> Result<(), Seq<char>> {
    if !contract_passed {
        Err("Metal prefill violated command-buffer, request or position contract"@)
    } else if dispatch is Some {
        Err(dispatch->0)
    } else if capture_seed && !case_dir {
        Err("capture directory missing"@)
    } else if expected is Some && first_token != expected->0 {
        Err(
            "Metal first token "@ + decimal(first_token as nat) + " differs from reference "@
                + decimal(expected->0 as nat),
        )
    } else {
        Ok(())
    }
}

pub open spec fn fault_said(fault: Option<&'static str>) -> Option<Seq<char>> {
    match fault {
        Some(e) => Some(e@),
        None => None,
    }
}

/// Accepts a completed prefill, or says why not. `dispatch_fault` is the error of
/// its dispatch receipt, and `expected` the reference's first token.
pub fn check_prefill(
    contract_passed: bool,
    dispatch_fault: Option<&'static str>,
    capture_seed: bool,
    case_dir: bool,
    first_token: u32,
    expected: Option<u32>,
) -> (r: Result<(), String>)
    ensures
        told(r) == prefill_outcome(
            contract_passed,
            fault_said(dispatch_fault),
            capture_seed,
            case_dir,
            first_token,
            expected,
        ),
{
    if !contract_passed {
        return Err(
            "Metal prefill violated command-buffer, request or position contract".to_owned(),
        );
    }
    if let Some(message) = dispatch_fault {
        return Err(message.to_owned());
    }
    if capture_seed && !case_dir {
        return Err("capture directory missing".to_owned());
    }
    if let Some(token) = expected {
        if first_token != token {
            let got = decimal_text(first_token as u64);
            let wanted = decimal_text(token as u64);
            return Err(
                cat4("Metal first token ", got.as_str(), " differs from reference ", wanted.as_str()),
            );
        }
    }
    Ok(())
}

// ---------------------------------------------------------------------------
// Files
// ---------------------------------------------------------------------------

/// A number in at least two digits.
pub open spec fn two_digits(n: nat) -> Seq<char> {
    if n < 10 {
        "0"@ + decimal(n)
    } else {
        decimal(n)
    }
}

pub fn two_digit_text(n: usize) -> (r: String)
    ensures
        r@ == two_digits(n as nat),
{
    let digits = decimal_text(n as u64);
    if n < 10 {
        cat2("0", digits.as_str())
    } else {
        digits
    }
}

/// The file of a layer's keys or values in a seed.
pub fn seed_file(layer: usize, value: bool) -> (r: String)
    ensures
        r@ == "layer-"@ + two_digits(layer as nat) + (if value {
            "-value.fp16"@
        } else {
            "-key.fp16"@
        }),
{
    let number = two_digit_text(layer);
    cat3(
        "layer-",
        number.as_str(),
        if value {
            "-value.fp16"
        } else {
            "-key.fp16"
        },
    )
}

/// The file of a layer's state, or of its feed-forward input, at a position.
pub fn capture_file(position: usize, layer: usize, ffn_input: bool) -> (r: String)
    ensures
        r@ == "ane-position-"@ + decimal(position as nat) + "-layer-"@ + two_digits(layer as nat)
            + (if ffn_input {
            "-ffn-input.fp16"@
        } else {
            ".fp16"@
        }),
{
    let place = decimal_text(position as u64);
    let number = two_digit_text(layer);
    let stem = cat4("ane-position-", place.as_str(), "-layer-", number.as_str());
    cat2(
        stem.as_str(),
        if ffn_input {
            "-ffn-input.fp16"
        } else {
            ".fp16"
        },
    )
}

/// The bytes of FP16 values: two for each, the low one first.
pub open spec fn half_encoding(values: Seq<u16>) -> Seq<u8> {
    Seq::new(
        2 * values.len(),
        |i: int|
            if i % 2 == 0 {
                (values[i / 2] % 256) as u8
            } else {
                (values[i / 2] / 256) as u8
            },
    )
}

/// The bytes of FP16 values, and the digest of the file that holds them.
pub fn encode_f16(values: &Vec<u16>) -> (r: (Vec<u8>, String))
    ensures
        r.0@ == half_encoding(values@),
        r.1@ == sha256_hex(half_encoding(values@)),
{
    let mut bytes: Vec<u8> = Vec::new();
    let mut i: usize = 0;
    while i < values.len()
        invariant
            i <= values@.len(),
            bytes@ == half_encoding(values@.take(i as int)),
        decreases values@.len() - i,
    {
        let value: u16 = values[i];
        bytes.push((value % 256) as u8);
        bytes.push((value / 256) as u8);
        proof {
            let before = values@.take(i as int);
            let after = values@.take(i + 1);
            assert(after =~= before.push(value));
            assert forall|j: int| 0 <= j < bytes@.len() implies #[trigger] bytes@[j]
                == half_encoding(after)[j] by {
                if j < 2 * i {
                    assert(bytes@[j] == half_encoding(before)[j]);
                    assert(j / 2 < i);
                } else {
                    assert(j / 2 == i);
                }
            }
            assert(bytes@ =~= half_encoding(after));
        }
        i = i + 1;
    }
    assert(values@.take(i as int) =~= values@);
    let digest = sha256_text(bytes.as_slice());
    (bytes, digest)
}

/// Decoding the bytes of finite FP16 values gives the values back.
pub proof fn encoded_halves_read_back(values: Seq<u16>)
    requires
        forall|i: int| 0 <= i < values.len() ==> representable(#[trigger] values[i], DType::F16),
    ensures
        decode_fault(half_encoding(values), DType::F16, values.len()) is None,
        forall|i: int|
            0 <= i < values.len() ==> half_bits(
                #[trigger] element(half_encoding(values), i),
                DType::F16,
            ) == values[i],
{
    let bytes = half_encoding(values);
    assert forall|i: int| 0 <= i < values.len() implies #[trigger] element(bytes, i) == values[i] by {
        assert(bytes[2 * i] == (values[i] % 256) as u8);
        assert(bytes[2 * i + 1] == (values[i] / 256) as u8);
        assert(values[i] == 256 * (values[i] / 256) + values[i] % 256);
    }
}

} // verus!
