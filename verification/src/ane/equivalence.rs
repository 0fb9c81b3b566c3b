//! Bounded equivalence of two FP16 outputs: a contract on every element, in
//! units of 2^-24 and in places between representable numbers.
use crate::ane::half_bits::{half_is_finite, half_units, half_units_monotone, magnitude_of};
use vstd::arithmetic::power2::pow2;
use vstd::prelude::*;

verus! {

/// The largest error near zero, 2^-10, in units.
pub const NEAR_ZERO_ABS: u64 = 0x4000;

/// Where an element is material: 2^-6, in units.
pub const NEAR_ZERO: u64 = 0x4_0000;

/// The largest error of any element, 2^-5, in units.
pub const MAX_ABS: u64 = 0x8_0000;

/// How many places apart material elements may be.
pub const MAX_MATERIAL_ULP: u32 = 4;

/// How many places apart elements near zero may be.
pub const MAX_NEAR_ZERO_ULP: u32 = 1024;

/// The place of a number among the representable ones; both zeros are place
/// zero.
pub open spec fn place(bits: u16) -> int {
    if bits < 0x8000 {
        magnitude_of(bits) as int
    } else {
        -(magnitude_of(bits) as int)
    }
}

/// A finite number in units of 2^-24.
pub open spec fn units(bits: u16) -> int {
    if bits < 0x8000 {
        half_units(magnitude_of(bits)) as int
    } else {
        -(half_units(magnitude_of(bits)) as int)
    }
}

pub open spec fn apart(a: int, b: int) -> nat {
    if a < b {
        (b - a) as nat
    } else {
        (a - b) as nat
    }
}

/// How many places apart two numbers are.
pub open spec fn ulps(a: u16, b: u16) -> nat {
    apart(place(a), place(b))
}

/// How far apart two finite numbers are, in units.
pub open spec fn error_units(a: u16, b: u16) -> nat {
    apart(units(a), units(b))
}

/// The distance from a number to its neighbour on the side of another one, in
/// units; away from itself where the two are equal and it is positive.
pub open spec fn spacing(control: u16, candidate: u16) -> nat {
    let m = magnitude_of(control);
    if m == 0 {
        1
    } else if (units(candidate) >= units(control)) == (control < 0x8000) {
        (half_units(m + 1) - half_units(m)) as nat
    } else {
        (half_units(m) - half_units((m - 1) as nat)) as nat
    }
}

/// Whether a pair is compared: both numbers are finite.
pub open spec fn compared(a: u16, b: u16) -> bool {
    half_is_finite(a) && half_is_finite(b)
}

/// Whether one of two numbers is material.
pub open spec fn material(a: u16, b: u16) -> bool {
    half_units(magnitude_of(a)) >= NEAR_ZERO || half_units(magnitude_of(b)) >= NEAR_ZERO
}

/// The interval that a number of places falls into.
pub open spec fn bucket(ulps: nat) -> int {
    if ulps <= 4 {
        ulps as int
    } else if ulps <= 8 {
        5
    } else if ulps <= 16 {
        6
    } else if ulps <= 64 {
        7
    } else if ulps <= 256 {
        8
    } else if ulps <= 1024 {
        9
    } else {
        10
    }
}

/// What a comparison counts.
#[derive(Clone, Copy, Debug, PartialEq, Eq, Structural)]
pub enum Tally {
    ControlNan,
    ControlPosInf,
    ControlNegInf,
    CandidateNan,
    CandidatePosInf,
    CandidateNegInf,
    Mismatch,
    Hybrid,
    MaterialUlp,
    NearZero,
    Bucket(u32),
}

/// Whether a pair counts.
pub open spec fn counts(tally: Tally, a: u16, b: u16) -> bool {
    match tally {
        Tally::ControlNan => magnitude_of(a) > 0x7c00,
        Tally::ControlPosInf => a == 0x7c00,
        Tally::ControlNegInf => a == 0xfc00,
        Tally::CandidateNan => magnitude_of(b) > 0x7c00,
        Tally::CandidatePosInf => b == 0x7c00,
        Tally::CandidateNegInf => b == 0xfc00,
        Tally::Mismatch => compared(a, b) && a != b,
        Tally::Hybrid => compared(a, b) && error_units(a, b) > NEAR_ZERO_ABS && error_units(a, b)
            > 4 * spacing(a, b),
        Tally::MaterialUlp => compared(a, b) && material(a, b) && ulps(a, b) > MAX_MATERIAL_ULP,
        Tally::NearZero => compared(a, b) && !material(a, b) && (ulps(a, b) > MAX_NEAR_ZERO_ULP
            || error_units(a, b) > NEAR_ZERO_ABS),
        Tally::Bucket(k) => compared(a, b) && bucket(ulps(a, b)) == k,
    }
}

/// How many of the first `n` pairs count.
pub open spec fn tallied(tally: Tally, control: Seq<u16>, candidate: Seq<u16>, n: int) -> nat
    decreases n,
{
    if n <= 0 {
        0
    } else {
        tallied(tally, control, candidate, n - 1) + (if counts(
            tally,
            control[n - 1],
            candidate[n - 1],
        ) {
            1nat
        } else {
            0
        })
    }
}

/// What a comparison takes the largest of.
#[derive(Clone, Copy, Debug, PartialEq, Eq, Structural)]
pub enum Peak {
    Error,
    Ulp,
    MaterialUlp,
    NearZeroUlp,
}

/// What a pair measures; zero where it is not measured.
pub open spec fn measured(peak: Peak, a: u16, b: u16) -> nat {
    if !compared(a, b) {
        0
    } else {
        match peak {
            Peak::Error => error_units(a, b),
            Peak::Ulp => ulps(a, b),
            Peak::MaterialUlp => if material(a, b) {
                ulps(a, b)
            } else {
                0
            },
            Peak::NearZeroUlp => if material(a, b) {
                0
            } else {
                ulps(a, b)
            },
        }
    }
}

/// Whether a measure is the largest of the first `n` pairs, first reached at the
/// given pair; at none where it is zero.
pub open spec fn is_peak(
    peak: Peak,
    control: Seq<u16>,
    candidate: Seq<u16>,
    n: int,
    value: nat,
    index: Option<usize>,
) -> bool {
    &&& forall|i: int| 0 <= i < n ==> #[trigger] measured(peak, control[i], candidate[i]) <= value
    &&& match index {
        None => value == 0,
        Some(k) => {
            &&& k < n
            &&& value > 0
            &&& measured(peak, control[k as int], candidate[k as int]) == value
            &&& forall|i: int|
                0 <= i < k ==> #[trigger] measured(peak, control[i], candidate[i]) < value
        },
    }
}

pub open spec fn shorter(control: Seq<u16>, candidate: Seq<u16>) -> int {
    if control.len() < candidate.len() {
        control.len() as int
    } else {
        candidate.len() as int
    }
}

/// A measure and the pair that reaches it first.
#[derive(Clone, Copy, Debug, PartialEq, Eq, Structural)]
pub struct Measure {
    pub value: u64,
    pub index: Option<usize>,
}

/// What a comparison found. The relative error over all elements is not part of
/// it.
#[derive(Debug)]
pub struct BoundedComparison {
    pub control_length: usize,
    pub candidate_length: usize,
    pub finite_control: bool,
    pub finite_candidate: bool,
    pub control_nan: u64,
    pub candidate_nan: u64,
    pub control_pos_inf: u64,
    pub control_neg_inf: u64,
    pub candidate_pos_inf: u64,
    pub candidate_neg_inf: u64,
    pub mismatch_count: u64,
    pub hybrid_violation_count: u64,
    pub first_hybrid_violation: Option<usize>,
    pub material_ulp_violation_count: u64,
    pub near_zero_ulp_violation_count: u64,
    pub max_abs_error: Measure,
    pub max_ulp_all: Measure,
    pub max_ulp_material: Measure,
    pub max_ulp_near_zero: Measure,
    pub ulp_histogram: Vec<u64>,
}

pub open spec fn all_finite(values: Seq<u16>, n: int) -> bool {
    forall|i: int| 0 <= i < n ==> half_is_finite(#[trigger] values[i])
}

/// The first of the first `n` pairs that breaks the hybrid bound.
pub open spec fn is_first_hybrid(
    control: Seq<u16>,
    candidate: Seq<u16>,
    n: int,
    index: Option<usize>,
) -> bool {
    match index {
        None => forall|i: int|
            0 <= i < n ==> !counts(Tally::Hybrid, #[trigger] control[i], candidate[i]),
        Some(k) => k < n && counts(Tally::Hybrid, control[k as int], candidate[k as int])
            && forall|i: int|
            0 <= i < k ==> !counts(Tally::Hybrid, #[trigger] control[i], candidate[i]),
    }
}

impl BoundedComparison {
    /// The comparison is of these two outputs.
    pub open spec fn compares(&self, control: Seq<u16>, candidate: Seq<u16>) -> bool {
        let n = shorter(control, candidate);
        &&& self.control_length == control.len()
        &&& self.candidate_length == candidate.len()
        &&& self.finite_control == all_finite(control, n)
        &&& self.finite_candidate == all_finite(candidate, n)
        &&& self.control_nan == tallied(Tally::ControlNan, control, candidate, n)
        &&& self.candidate_nan == tallied(Tally::CandidateNan, control, candidate, n)
        &&& self.control_pos_inf == tallied(Tally::ControlPosInf, control, candidate, n)
        &&& self.control_neg_inf == tallied(Tally::ControlNegInf, control, candidate, n)
        &&& self.candidate_pos_inf == tallied(Tally::CandidatePosInf, control, candidate, n)
        &&& self.candidate_neg_inf == tallied(Tally::CandidateNegInf, control, candidate, n)
        &&& self.mismatch_count == tallied(Tally::Mismatch, control, candidate, n)
        &&& self.hybrid_violation_count == tallied(Tally::Hybrid, control, candidate, n)
        &&& is_first_hybrid(control, candidate, n, self.first_hybrid_violation)
        &&& self.material_ulp_violation_count == tallied(
            Tally::MaterialUlp,
            control,
            candidate,
            n,
        )
        &&& self.near_zero_ulp_violation_count == tallied(Tally::NearZero, control, candidate, n)
        &&& is_peak(
            Peak::Error,
            control,
            candidate,
            n,
            self.max_abs_error.value as nat,
            self.max_abs_error.index,
        )
        &&& is_peak(
            Peak::Ulp,
            control,
            candidate,
            n,
            self.max_ulp_all.value as nat,
            self.max_ulp_all.index,
        )
        &&& is_peak(
            Peak::MaterialUlp,
            control,
            candidate,
            n,
            self.max_ulp_material.value as nat,
            self.max_ulp_material.index,
        )
        &&& is_peak(
            Peak::NearZeroUlp,
            control,
            candidate,
            n,
            self.max_ulp_near_zero.value as nat,
            self.max_ulp_near_zero.index,
        )
        &&& self.ulp_histogram@.len() == 11
        &&& forall|k: int|
            0 <= k < 11 ==> #[trigger] self.ulp_histogram@[k] == tallied(
                Tally::Bucket(k as u32),
                control,
                candidate,
                n,
            )
    }

    pub open spec fn lengths_match(&self) -> bool {
        self.control_length == self.candidate_length
    }

    pub open spec fn is_bit_exact(&self) -> bool {
        self.lengths_match() && self.mismatch_count == 0
    }

    pub open spec fn repeats(&self) -> bool {
        self.is_bit_exact() && self.finite_control && self.finite_candidate
    }

    pub open spec fn passes(&self, relative_l2_pass: bool) -> bool {
        &&& self.lengths_match()
        &&& self.control_length > 0
        &&& self.finite_control
        &&& self.finite_candidate
        &&& self.hybrid_violation_count == 0
        &&& self.material_ulp_violation_count == 0
        &&& self.near_zero_ulp_violation_count == 0
        &&& self.max_abs_error.value <= MAX_ABS
        &&& relative_l2_pass
    }

    /// Whether the outputs agree in every bit.
    pub fn bit_exact(&self) -> (r: bool)
        ensures
            r == self.is_bit_exact(),
    {
        self.control_length == self.candidate_length && self.mismatch_count == 0
    }

    /// Whether two runs of one program repeated: finite, and bit for bit.
    pub fn bit_exact_finite(&self) -> (r: bool)
        ensures
            r == self.repeats(),
    {
        self.bit_exact() && self.finite_control && self.finite_candidate
    }

    /// Whether every element keeps the largest absolute error.
    pub fn absolute_pass(&self) -> (r: bool)
        ensures
            r == (self.max_abs_error.value <= MAX_ABS),
    {
        self.max_abs_error.value <= MAX_ABS
    }

    /// Whether the outputs are equivalent, given whether the relative error over
    /// all elements is within its bound.
    pub fn passed(&self, relative_l2_pass: bool) -> (r: bool)
        ensures
            r == self.passes(relative_l2_pass),
    {
        self.control_length == self.candidate_length && self.control_length > 0
            && self.finite_control && self.finite_candidate && self.hybrid_violation_count == 0
            && self.material_ulp_violation_count == 0 && self.near_zero_ulp_violation_count == 0
            && self.absolute_pass() && relative_l2_pass
    }
}

// ---------------------------------------------------------------------------
// Elements
// ---------------------------------------------------------------------------

proof fn units_bound(m: nat)
    requires
        m <= 0x7c00,
    ensures
        half_units(m) <= 0x100_0000_0000,
{
    vstd::arithmetic::power2::lemma2_to64();
    let p = pow2((0x7c00nat / 0x400 - 1) as nat);
    assert(0x7c00nat / 0x400 - 1 == 30 && 0x7c00nat % 0x400 == 0);
    assert(p == 0x4000_0000);
    assert((0x400 + 0) * p == 0x100_0000_0000) by (nonlinear_arith)
        requires
            p == 0x4000_0000,
    ;
    if m < 0x7c00 {
        half_units_monotone(m, 0x7c00);
    }
}

/// The magnitude of a number, in units.
fn magnitude_units(m: u16) -> (r: u64)
    requires
        m <= 0x7c00,
    ensures
        r == half_units(m as nat),
        r <= 0x100_0000_0000,
{
    proof {
        units_bound(m as nat);
    }
    if m < 0x400 {
        return m as u64;
    }
    let significand: u64 = 0x400 + (m % 0x400) as u64;
    let shift: u64 = (m / 0x400 - 1) as u64;
    proof {
        assert(significand * pow2(shift as nat) == half_units(m as nat));
        vstd::bits::lemma_u64_shl_is_mul(significand, shift);
    }
    significand << shift
}

/// The place of a number, counted from the most negative pattern's: an order of
/// all patterns in which the two zeros share a place.
pub fn ordered_f16(bits: u16) -> (r: u32)
    ensures
        r == 0x8000 + place(bits),
        r <= 0xffff,
{
    if bits < 0x8000 {
        0x8000 + bits as u32
    } else {
        0x8000 - (bits - 0x8000) as u32
    }
}

fn units_of(bits: u16) -> (r: i64)
    requires
        half_is_finite(bits),
    ensures
        r == units(bits),
        -0x100_0000_0000 <= r <= 0x100_0000_0000,
{
    if bits < 0x8000 {
        magnitude_units(bits) as i64
    } else {
        -(magnitude_units(bits - 0x8000) as i64)
    }
}

/// How many places apart two numbers are; both zeros are one place.
pub fn ulp_distance(a: u16, b: u16) -> (r: u32)
    ensures
        r == ulps(a, b),
{
    let x: u32 = ordered_f16(a);
    let y: u32 = ordered_f16(b);
    if x < y {
        y - x
    } else {
        x - y
    }
}

fn error_of(a: u16, b: u16) -> (r: u64)
    requires
        compared(a, b),
    ensures
        r == error_units(a, b),
        r <= 0x200_0000_0000,
{
    let x = units_of(a);
    let y = units_of(b);
    if x < y {
        (y - x) as u64
    } else {
        (x - y) as u64
    }
}

/// The distance from a number to its neighbour on the side of another one, in
/// units of 2^-24.
pub fn f16_spacing_toward(control: u16, candidate: u16) -> (r: u64)
    requires
        compared(control, candidate),
    ensures
        r == spacing(control, candidate),
        r <= 0x100_0000_0000,
{
    let m: u16 = control % 0x8000;
    if m == 0 {
        return 1;
    }
    proof {
        half_units_monotone(m as nat, (m + 1) as nat);
        half_units_monotone((m - 1) as nat, m as nat);
    }
    if (units_of(candidate) >= units_of(control)) == (control < 0x8000) {
        magnitude_units(m + 1) - magnitude_units(m)
    } else {
        magnitude_units(m) - magnitude_units(m - 1)
    }
}

fn is_finite(bits: u16) -> (r: bool)
    ensures
        r == half_is_finite(bits),
{
    bits % 0x8000 < 0x7c00
}

fn is_compared(a: u16, b: u16) -> (r: bool)
    ensures
        r == compared(a, b),
{
    is_finite(a) && is_finite(b)
}

fn is_material(a: u16, b: u16) -> (r: bool)
    requires
        compared(a, b),
    ensures
        r == material(a, b),
{
    magnitude_units(a % 0x8000) >= NEAR_ZERO || magnitude_units(b % 0x8000) >= NEAR_ZERO
}

fn bucket_of(ulps: u32) -> (r: u32)
    ensures
        r == bucket(ulps as nat),
{
    if ulps <= 4 {
        ulps
    } else if ulps <= 8 {
        5
    } else if ulps <= 16 {
        6
    } else if ulps <= 64 {
        7
    } else if ulps <= 256 {
        8
    } else if ulps <= 1024 {
        9
    } else {
        10
    }
}

fn does_count(tally: Tally, a: u16, b: u16) -> (r: bool)
    ensures
        r == counts(tally, a, b),
{
    match tally {
        Tally::ControlNan => a % 0x8000 > 0x7c00,
        Tally::ControlPosInf => a == 0x7c00,
        Tally::ControlNegInf => a == 0xfc00,
        Tally::CandidateNan => b % 0x8000 > 0x7c00,
        Tally::CandidatePosInf => b == 0x7c00,
        Tally::CandidateNegInf => b == 0xfc00,
        Tally::Mismatch => is_compared(a, b) && a != b,
        Tally::Hybrid => is_compared(a, b) && error_of(a, b) > NEAR_ZERO_ABS && error_of(a, b) > 4
            * f16_spacing_toward(a, b),
        Tally::MaterialUlp => is_compared(a, b) && is_material(a, b) && ulp_distance(a, b)
            > MAX_MATERIAL_ULP,
        Tally::NearZero => is_compared(a, b) && !is_material(a, b) && (ulp_distance(a, b)
            > MAX_NEAR_ZERO_ULP || error_of(a, b) > NEAR_ZERO_ABS),
        Tally::Bucket(k) => is_compared(a, b) && bucket_of(ulp_distance(a, b)) == k,
    }
}

fn measure_of(peak: Peak, a: u16, b: u16) -> (r: u64)
    ensures
        r == measured(peak, a, b),
{
    if !is_compared(a, b) {
        return 0;
    }
    match peak {
        Peak::Error => error_of(a, b),
        Peak::Ulp => ulp_distance(a, b) as u64,
        Peak::MaterialUlp => if is_material(a, b) {
            ulp_distance(a, b) as u64
        } else {
            0
        },
        Peak::NearZeroUlp => if is_material(a, b) {
            0
        } else {
            ulp_distance(a, b) as u64
        },
    }
}

// ---------------------------------------------------------------------------
// Outputs
// ---------------------------------------------------------------------------

fn tally_of(tally: Tally, control: &Vec<u16>, candidate: &Vec<u16>, n: usize) -> (r: u64)
    requires
        n <= control@.len(),
        n <= candidate@.len(),
    ensures
        r == tallied(tally, control@, candidate@, n as int),
{
    let mut total: u64 = 0;
    let mut i: usize = 0;
    while i < n
        invariant
            i <= n,
            n <= control@.len(),
            n <= candidate@.len(),
            total <= i,
            total == tallied(tally, control@, candidate@, i as int),
        decreases n - i,
    {
        if does_count(tally, control[i], candidate[i]) {
            total = total + 1;
        }
        i = i + 1;
    }
    total
}

fn peak_of(peak: Peak, control: &Vec<u16>, candidate: &Vec<u16>, n: usize) -> (r: Measure)
    requires
        n <= control@.len(),
        n <= candidate@.len(),
    ensures
        is_peak(peak, control@, candidate@, n as int, r.value as nat, r.index),
{
    let mut value: u64 = 0;
    let mut index: Option<usize> = None;
    let mut i: usize = 0;
    while i < n
        invariant
            i <= n,
            n <= control@.len(),
            n <= candidate@.len(),
            is_peak(peak, control@, candidate@, i as int, value as nat, index),
        decreases n - i,
    {
        let here: u64 = measure_of(peak, control[i], candidate[i]);
        if here > value {
            value = here;
            index = Some(i);
        }
        i = i + 1;
    }
    Measure { value, index }
}

fn first_hybrid(control: &Vec<u16>, candidate: &Vec<u16>, n: usize) -> (r: Option<usize>)
    requires
        n <= control@.len(),
        n <= candidate@.len(),
    ensures
        is_first_hybrid(control@, candidate@, n as int, r),
{
    let mut i: usize = 0;
    while i < n
        invariant
            i <= n,
            n <= control@.len(),
            n <= candidate@.len(),
            is_first_hybrid(control@, candidate@, i as int, None),
        decreases n - i,
    {
        if does_count(Tally::Hybrid, control[i], candidate[i]) {
            return Some(i);
        }
        i = i + 1;
    }
    None
}

fn are_finite(values: &Vec<u16>, n: usize) -> (r: bool)
    requires
        n <= values@.len(),
    ensures
        r == all_finite(values@, n as int),
{
    let mut i: usize = 0;
    while i < n
        invariant
            i <= n <= values@.len(),
            all_finite(values@, i as int),
        decreases n - i,
    {
        if !is_finite(values[i]) {
            assert(!half_is_finite(values@[i as int]));
            return false;
        }
        i = i + 1;
    }
    true
}

/// Compares a candidate's output with the control's, element by element.
pub fn bounded_comparison(control: &Vec<u16>, candidate: &Vec<u16>) -> (r: BoundedComparison)
    ensures
        r.compares(control@, candidate@),
{
    let n: usize = if control.len() < candidate.len() {
        control.len()
    } else {
        candidate.len()
    };
    let mut histogram: Vec<u64> = Vec::new();
    let mut k: u32 = 0;
    while k < 11
        invariant
            k <= 11,
            n == shorter(control@, candidate@),
            histogram@.len() == k,
            forall|j: int|
                0 <= j < k ==> #[trigger] histogram@[j] == tallied(
                    Tally::Bucket(j as u32),
                    control@,
                    candidate@,
                    n as int,
                ),
        decreases 11 - k,
    {
        histogram.push(tally_of(Tally::Bucket(k), control, candidate, n));
        k = k + 1;
    }
    BoundedComparison {
        control_length: control.len(),
        candidate_length: candidate.len(),
        finite_control: are_finite(control, n),
        finite_candidate: are_finite(candidate, n),
        control_nan: tally_of(Tally::ControlNan, control, candidate, n),
        candidate_nan: tally_of(Tally::CandidateNan, control, candidate, n),
        control_pos_inf: tally_of(Tally::ControlPosInf, control, candidate, n),
        control_neg_inf: tally_of(Tally::ControlNegInf, control, candidate, n),
        candidate_pos_inf: tally_of(Tally::CandidatePosInf, control, candidate, n),
        candidate_neg_inf: tally_of(Tally::CandidateNegInf, control, candidate, n),
        mismatch_count: tally_of(Tally::Mismatch, control, candidate, n),
        hybrid_violation_count: tally_of(Tally::Hybrid, control, candidate, n),
        first_hybrid_violation: first_hybrid(control, candidate, n),
        material_ulp_violation_count: tally_of(Tally::MaterialUlp, control, candidate, n),
        near_zero_ulp_violation_count: tally_of(Tally::NearZero, control, candidate, n),
        max_abs_error: peak_of(Peak::Error, control, candidate, n),
        max_ulp_all: peak_of(Peak::Ulp, control, candidate, n),
        max_ulp_material: peak_of(Peak::MaterialUlp, control, candidate, n),
        max_ulp_near_zero: peak_of(Peak::NearZeroUlp, control, candidate, n),
        ulp_histogram: histogram,
    }
}

// ---------------------------------------------------------------------------
// Laws
// ---------------------------------------------------------------------------

/// The element contract: finite, within four neighbours or 2^-10 of the control,
/// within four places where material, within 1024 places and 2^-10 near zero,
/// and within 2^-5 anywhere.
pub open spec fn element_equivalent(a: u16, b: u16) -> bool {
    &&& compared(a, b)
    &&& !counts(Tally::Hybrid, a, b)
    &&& !counts(Tally::MaterialUlp, a, b)
    &&& !counts(Tally::NearZero, a, b)
    &&& error_units(a, b) <= MAX_ABS
}

proof fn nothing_tallied(tally: Tally, control: Seq<u16>, candidate: Seq<u16>, n: int)
    requires
        0 <= n <= shorter(control, candidate),
    ensures
        (tallied(tally, control, candidate, n) == 0) == (forall|i: int|
            0 <= i < n ==> !counts(tally, #[trigger] control[i], candidate[i])),
    decreases n,
{
    if n > 0 {
        nothing_tallied(tally, control, candidate, n - 1);
        if !counts(tally, control[n - 1], candidate[n - 1]) && tallied(
            tally,
            control,
            candidate,
            n - 1,
        ) == 0 {
            assert forall|i: int| 0 <= i < n implies !counts(
                tally,
                #[trigger] control[i],
                candidate[i],
            ) by {}
        }
    }
}

/// A comparison passes exactly where the outputs have one nonzero length, every
/// element keeps its contract, and the relative error is within its bound.
pub proof fn passing_is_elementwise(
    comparison: BoundedComparison,
    control: Seq<u16>,
    candidate: Seq<u16>,
    relative_l2_pass: bool,
)
    requires
        comparison.compares(control, candidate),
    ensures
        comparison.passes(relative_l2_pass) == (relative_l2_pass && control.len() > 0
            && control.len() == candidate.len() && forall|i: int|
            0 <= i < control.len() ==> element_equivalent(#[trigger] control[i], candidate[i])),
{
    let n = shorter(control, candidate);
    nothing_tallied(Tally::Hybrid, control, candidate, n);
    nothing_tallied(Tally::MaterialUlp, control, candidate, n);
    nothing_tallied(Tally::NearZero, control, candidate, n);
    let peak = comparison.max_abs_error;
    if control.len() == candidate.len() {
        if comparison.passes(relative_l2_pass) {
            assert forall|i: int| 0 <= i < control.len() implies element_equivalent(
                #[trigger] control[i],
                candidate[i],
            ) by {
                assert(half_is_finite(control[i]) && half_is_finite(candidate[i]));
                assert(measured(Peak::Error, control[i], candidate[i]) <= peak.value);
            }
        }
        if forall|i: int|
            0 <= i < control.len() ==> element_equivalent(#[trigger] control[i], candidate[i]) {
            assert forall|i: int| 0 <= i < n implies half_is_finite(#[trigger] control[i])
                && !counts(Tally::Hybrid, control[i], candidate[i]) && !counts(
                Tally::MaterialUlp,
                control[i],
                candidate[i],
            ) && !counts(Tally::NearZero, control[i], candidate[i]) by {
                assert(element_equivalent(control[i], candidate[i]));
            }
            assert forall|i: int| 0 <= i < n implies half_is_finite(#[trigger] candidate[i]) by {
                assert(element_equivalent(control[i], candidate[i]));
            }
            match peak.index {
                Some(k) => {
                    assert(element_equivalent(control[k as int], candidate[k as int]));
                },
                None => {},
            }
        }
    }
}

/// Places are contiguous across the signs and symmetric: neighbouring patterns
/// are one place apart, the two zeros are none, and the number of places obeys
/// the triangle inequality.
pub proof fn places_are_contiguous(a: u16, b: u16, c: u16)
    ensures
        ulps(a, b) == ulps(b, a),
        ulps(a, c) <= ulps(a, b) + ulps(b, c),
        ulps(a, b) == 0 <==> a == b || (magnitude_of(a) == 0 && magnitude_of(b) == 0),
        a % 0x8000 < 0x7fff ==> ulps(a, (a + 1) as u16) == 1,
        ulps(0x8001, 0x8000) == 1 && ulps(0x8000, 0) == 0 && ulps(0, 1) == 1 && ulps(0x8001, 1)
            == 2,
{
}

/// A finite output repeats bit for bit exactly where it is the same output.
pub proof fn repeats_are_identical(
    comparison: BoundedComparison,
    control: Seq<u16>,
    candidate: Seq<u16>,
)
    requires
        comparison.compares(control, candidate),
    ensures
        comparison.repeats() == (control == candidate && all_finite(control, control.len() as int)),
{
    let n = shorter(control, candidate);
    nothing_tallied(Tally::Mismatch, control, candidate, n);
    if comparison.repeats() {
        assert forall|i: int| 0 <= i < n implies control[i] == candidate[i] by {
            assert(!counts(Tally::Mismatch, control[i], candidate[i]));
            assert(half_is_finite(control[i]) && half_is_finite(candidate[i]));
        }
        assert(control =~= candidate);
    }
}

} // verus!
