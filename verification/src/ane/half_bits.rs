//! Checkpoint weights as FP16 bit patterns: BF16 and FP16 sources, rounding to
//! nearest with ties to even, and the rejection of what FP16 cannot hold.
use vstd::arithmetic::power2::{lemma_pow2_adds, lemma_pow2_pos, lemma_pow2_unfold, pow2};
use vstd::prelude::*;

verus! {

/// The element type of a checkpoint tensor.
#[derive(Clone, Copy, Debug, PartialEq, Eq, Structural)]
pub enum DType {
    Bf16,
    F16,
    Other,
}

/// The magnitude of a finite FP16 pattern without its sign, in units of 2^-24,
/// its smallest subnormal.
pub open spec fn half_units(m: nat) -> nat {
    if m < 0x400 {
        m
    } else {
        (0x400 + m % 0x400) * pow2((m / 0x400 - 1) as nat)
    }
}

/// The significand of a BF16 magnitude: eight bits, the leading one implicit
/// in normal numbers.
pub open spec fn bf16_significand(m: nat) -> nat {
    if m < 0x80 {
        m
    } else {
        0x80 + m % 0x80
    }
}

/// The exponent of a BF16 magnitude: the number is its significand times two to
/// this power, in units of 2^-133.
pub open spec fn bf16_exponent(m: nat) -> nat {
    if m < 0x80 {
        0
    } else {
        (m / 0x80 - 1) as nat
    }
}

/// The magnitude of a BF16 pattern, in units of 2^-133.
pub open spec fn bf16_units(m: nat) -> nat {
    bf16_significand(m) * pow2(bf16_exponent(m))
}

/// How far apart two magnitudes are.
pub open spec fn distance(a: nat, b: nat) -> nat {
    if a < b {
        (b - a) as nat
    } else {
        (a - b) as nat
    }
}

/// Whether an FP16 magnitude is the nearest to a BF16 magnitude, and the even
/// one of two that are equally near. An FP16 unit is 2^109 BF16 units.
pub open spec fn nearest_half(m: nat, h: nat) -> bool {
    forall|other: nat|
        other < 0x7c00 ==> {
            let chosen = distance(bf16_units(m), half_units(h) * pow2(109));
            let rival = distance(bf16_units(m), #[trigger] half_units(other) * pow2(109));
            chosen < rival || (chosen == rival && (other == h || h % 2 == 0))
        }
}

/// The quotient rounded to nearest, ties to even.
pub open spec fn rounded(s: nat, d: nat) -> nat {
    if 2 * (s % d) > d || (2 * (s % d) == d && (s / d) % 2 == 1) {
        s / d + 1
    } else {
        s / d
    }
}

/// The FP16 magnitude of a BF16 magnitude below 65536: above the FP16 normal
/// threshold only the bias changes; below it the significand is rounded to
/// units.
pub open spec fn half_of_bf16(m: nat) -> nat {
    if m >= 0x3880 {
        ((m - 0x3800) * 8) as nat
    } else if m <= 0x3300 {
        0
    } else {
        rounded((0x80 + m % 0x80) * 8, pow2((113 - m / 0x80) as nat))
    }
}

/// The bits without the sign.
pub open spec fn magnitude_of(bits: u16) -> nat {
    bits as nat % 0x8000
}

/// Whether the bits are those of an FP16 number that is neither infinite nor
/// not a number.
pub open spec fn half_is_finite(bits: u16) -> bool {
    magnitude_of(bits) < 0x7c00
}

/// Whether FP16 can hold the number that a checkpoint's bits encode.
pub open spec fn representable(bits: u16, dtype: DType) -> bool {
    match dtype {
        DType::Bf16 => magnitude_of(bits) < 0x4780,
        _ => magnitude_of(bits) < 0x7c00,
    }
}

/// The FP16 bits of a checkpoint's bits: the sign is kept.
pub open spec fn half_bits(bits: u16, dtype: DType) -> nat {
    match dtype {
        DType::Bf16 => (bits as nat - magnitude_of(bits)) as nat + half_of_bf16(magnitude_of(bits)),
        _ => bits as nat,
    }
}

/// The bits at position `i` of little-endian 16-bit elements.
pub open spec fn element(bytes: Seq<u8>, i: int) -> u16 {
    (bytes[2 * i] as int + 256 * bytes[2 * i + 1]) as u16
}

proof fn pow2_109()
    ensures
        pow2(109) == 2 * pow2(108),
        pow2(109) > 0,
        pow2(108) > 0,
        pow2(108) == pow2(101) * 128,
        pow2(108) == pow2(100) * 256,
{
    lemma_pow2_pos(108);
    lemma_pow2_pos(109);
    lemma_pow2_unfold(109);
    lemma_pow2_adds(101, 7);
    lemma_pow2_adds(100, 8);
    vstd::arithmetic::power2::lemma2_to64();
}

proof fn pow2_monotone(a: nat, b: nat)
    requires
        a <= b,
    ensures
        pow2(a) <= pow2(b),
    decreases b - a,
{
    if a < b {
        pow2_monotone(a, (b - 1) as nat);
        lemma_pow2_unfold(b);
        lemma_pow2_pos((b - 1) as nat);
    }
}

proof fn smallest_normal()
    ensures
        half_units(0x400) == 0x400,
{
    vstd::arithmetic::power2::lemma2_to64();
    let p = pow2((0x400nat / 0x400 - 1) as nat);
    assert(0x400nat / 0x400 - 1 == 0 && 0x400nat % 0x400 == 0);
    assert(p == 1);
    assert((0x400 + 0) * p == 0x400) by (nonlinear_arith)
        requires
            p == 1,
    ;
}

/// FP16 magnitudes grow with their patterns.
proof fn half_units_step(m: nat)
    requires
        m < 0x7c00,
    ensures
        half_units(m) < half_units(m + 1),
{
    if m + 1 < 0x400 {
    } else if m < 0x400 {
        assert(m == 0x3ff);
        smallest_normal();
    } else {
        let e = (m / 0x400 - 1) as nat;
        lemma_pow2_pos(e);
        if m % 0x400 == 0x3ff {
            assert((m + 1) / 0x400 == m / 0x400 + 1 && (m + 1) % 0x400 == 0);
            lemma_pow2_unfold(e + 1);
            assert((0x400 + 0x3ff) * pow2(e) < 0x400 * (2 * pow2(e))) by (nonlinear_arith)
                requires
                    pow2(e) > 0,
            ;
        } else {
            assert((m + 1) / 0x400 == m / 0x400 && (m + 1) % 0x400 == m % 0x400 + 1);
            assert((0x400 + m % 0x400) * pow2(e) < (0x400 + m % 0x400 + 1) * pow2(e))
                by (nonlinear_arith)
                requires
                    pow2(e) > 0,
            ;
        }
    }
}

/// FP16 magnitudes order as their patterns do.
pub proof fn half_units_monotone(a: nat, b: nat)
    requires
        a < b <= 0x7c00,
    ensures
        half_units(a) < half_units(b),
    decreases b - a,
{
    half_units_step((b - 1) as nat);
    if a + 1 < b {
        half_units_monotone(a, (b - 1) as nat);
    }
}

/// Converting a normal number is exact.
proof fn exact_above_threshold(m: nat)
    requires
        0x3880 <= m < 0x4780,
    ensures
        half_of_bf16(m) < 0x7c00,
        half_units(half_of_bf16(m)) * pow2(109) == bf16_units(m),
{
    let h = half_of_bf16(m);
    let e = m / 0x80;
    let f = m % 0x80;
    assert(h / 0x400 == e - 0x70 && h % 0x400 == f * 8);
    let k = (e - 0x71) as nat;
    assert(half_units(h) == (0x400 + f * 8) * pow2(k));
    lemma_pow2_adds(k, 109);
    lemma_pow2_adds(3, (k + 109) as nat);
    vstd::arithmetic::power2::lemma2_to64();
    assert(bf16_exponent(m) == k + 112);
    let p = pow2(k);
    let q = pow2(109);
    assert((0x400 + f * 8) * p * q == (0x80 + f) * (8 * (p * q))) by (nonlinear_arith);
}

/// The rounded quotient is within half a divisor, and even where it is exactly
/// half away.
proof fn rounded_is_near(s: nat, d: nat)
    requires
        d > 0,
    ensures
        2 * distance(s, rounded(s, d) * d) <= d,
        2 * distance(s, rounded(s, d) * d) == d ==> rounded(s, d) % 2 == 0 || d == 0,
{
    let w = s / d;
    let r = s % d;
    assert(s == w * d + r && r < d) by (nonlinear_arith)
        requires
            d > 0,
            w == s / d,
            r == s % d,
    ;
    assert((w + 1) * d == w * d + d) by (nonlinear_arith);
    if 2 * r > d || (2 * r == d && w % 2 == 1) {
        assert(rounded(s, d) == w + 1);
    } else {
        assert(rounded(s, d) == w);
    }
}

/// A pattern whose magnitude is a whole number of units away by at most half a
/// unit, and even where it is exactly half, is the nearest.
proof fn near_is_nearest(m: nat, h: nat)
    requires
        h < 0x7c00,
        2 * distance(bf16_units(m), half_units(h) * pow2(109)) <= pow2(109),
        2 * distance(bf16_units(m), half_units(h) * pow2(109)) == pow2(109) ==> h % 2 == 0,
    ensures
        nearest_half(m, h),
{
    let x = bf16_units(m);
    let u = pow2(109);
    pow2_109();
    assert forall|other: nat| other < 0x7c00 implies {
        let chosen = distance(x, half_units(h) * u);
        let rival = distance(x, #[trigger] half_units(other) * u);
        chosen < rival || (chosen == rival && (other == h || h % 2 == 0))
    } by {
        let a = half_units(h);
        let b = half_units(other);
        if other < h {
            half_units_monotone(other, h);
            assert((b + 1) * u == b * u + u) by (nonlinear_arith);
            assert((b + 1) * u <= a * u) by (nonlinear_arith)
                requires
                    b + 1 <= a,
                    u > 0,
            ;
        } else if other > h {
            half_units_monotone(h, other);
            assert((a + 1) * u == a * u + u) by (nonlinear_arith);
            assert((a + 1) * u <= b * u) by (nonlinear_arith)
                requires
                    a + 1 <= b,
                    u > 0,
            ;
        }
    }
}

/// Converting BF16 to FP16 rounds to nearest, ties to even, for every number
/// below 65536; the result is finite.
pub proof fn bf16_conversion_rounds_to_nearest(m: nat)
    requires
        m < 0x4780,
    ensures
        half_of_bf16(m) < 0x7c00,
        nearest_half(m, half_of_bf16(m)),
{
    pow2_109();
    let h = half_of_bf16(m);
    if m >= 0x3880 {
        exact_above_threshold(m);
        near_is_nearest(m, h);
    } else if m <= 0x3300 {
        let sig = bf16_significand(m);
        let e = bf16_exponent(m);
        assert(half_units(0) * pow2(109) == 0) by (nonlinear_arith)
            requires
                half_units(0) == 0,
        ;
        if m == 0x3300 {
            assert(m / 0x80 == 102 && m % 0x80 == 0);
            assert(sig == 128 && e == 101);
            assert(sig * pow2(e) == pow2(101) * 128) by (nonlinear_arith)
                requires
                    sig == 128,
                    pow2(e) == pow2(101),
            ;
        } else {
            assert(e <= 100 && sig <= 256);
            pow2_monotone(e, 100);
            assert(sig * pow2(e) <= 256 * pow2(100)) by (nonlinear_arith)
                requires
                    sig <= 256,
                    pow2(e) <= pow2(100),
            ;
            assert(bf16_units(m) <= pow2(108));
        }
        assert(bf16_units(m) <= pow2(108));
        assert(h == 0 && half_units(h) == 0);
        assert(distance(bf16_units(m), half_units(h) * pow2(109)) == bf16_units(m));
        near_is_nearest(m, h);
    } else {
        let e = m / 0x80;
        let s = (0x80 + m % 0x80) * 8;
        let k = (113 - e) as nat;
        let d = pow2(k);
        let c = pow2((e - 4) as nat);
        assert(102 <= e <= 112);
        lemma_pow2_pos(k);
        lemma_pow2_pos((e - 4) as nat);
        lemma_pow2_adds((e - 4) as nat, k);
        lemma_pow2_adds(3, (e - 4) as nat);
        vstd::arithmetic::power2::lemma2_to64();
        assert(c * d == pow2(109));
        assert(bf16_units(m) == (0x80 + m % 0x80) * (8 * c));
        assert((0x80 + m % 0x80) * (8 * c) == s * c) by (nonlinear_arith)
            requires
                s == (0x80 + m % 0x80) * 8,
        ;
        rounded_is_near(s, d);
        assert(s < 2048);
        assert(d >= 2) by {
            lemma_pow2_unfold(k);
            lemma_pow2_pos((k - 1) as nat);
        }
        assert(h <= 0x400) by {
            assert(s / d <= s / 2) by (nonlinear_arith)
                requires
                    d >= 2,
            ;
        }
        assert(half_units(h) == h) by {
            smallest_normal();
        }
        // Scale the rounding by c.
        assert(distance(s * c, h * d * c) == distance(s, h * d) * c) by (nonlinear_arith)
            requires
                c > 0,
        ;
        assert(h * d * c == half_units(h) * pow2(109)) by (nonlinear_arith)
            requires
                c * d == pow2(109),
                half_units(h) == h,
        ;
        let gap = distance(s, h * d);
        assert(2 * (gap * c) <= d * c) by (nonlinear_arith)
            requires
                2 * gap <= d,
        ;
        assert(2 * (gap * c) == d * c ==> 2 * gap == d) by (nonlinear_arith)
            requires
                c > 0,
        ;
        assert(d * c == pow2(109)) by (nonlinear_arith)
            requires
                c * d == pow2(109),
        ;
        near_is_nearest(m, h);
    }
}

fn half_of_bf16_magnitude(m: u16) -> (r: u16)
    requires
        m < 0x4780,
    ensures
        r == half_of_bf16(m as nat),
        r < 0x7c00,
{
    proof {
        bf16_conversion_rounds_to_nearest(m as nat);
    }
    if m >= 0x3880 {
        (m - 0x3800) * 8
    } else if m <= 0x3300 {
        0
    } else {
        let significand: u16 = (0x80 + m % 0x80) * 8;
        let shift: u16 = 113 - m / 0x80;
        proof {
            vstd::arithmetic::power2::lemma2_to64();
            vstd::bits::lemma_u16_shl_is_mul(1, shift);
            assert(1 <= shift <= 11);
        }
        let divisor: u16 = 1u16 << shift;
        let whole: u16 = significand / divisor;
        let remainder: u16 = significand % divisor;
        if 2 * remainder > divisor || (2 * remainder == divisor && whole % 2 == 1) {
            whole + 1
        } else {
            whole
        }
    }
}

/// Converts one checkpoint element, where FP16 can hold it.
pub fn half_from_bits(bits: u16, dtype: DType) -> (r: Option<u16>)
    ensures
        match r {
            Some(h) => representable(bits, dtype) && h == half_bits(bits, dtype) && half_is_finite(
                h,
            ),
            None => !representable(bits, dtype),
        },
{
    let magnitude: u16 = bits % 0x8000;
    match dtype {
        DType::Bf16 => {
            if magnitude >= 0x4780 {
                return None;
            }
            let converted: u16 = half_of_bf16_magnitude(magnitude);
            Some((bits - magnitude) + converted)
        },
        _ => {
            if magnitude >= 0x7c00 {
                return None;
            }
            Some(bits)
        },
    }
}

/// Why a tensor's bytes are no FP16 values.
pub open spec fn decode_fault(bytes: Seq<u8>, dtype: DType, count: nat) -> Option<Seq<char>> {
    if bytes.len() != 2 * count {
        Some("ANE FP16 conversion length mismatch"@)
    } else if bytes.len() == 0 {
        None
    } else if dtype == DType::Other {
        Some("ANE decoder supports BF16 or FP16 checkpoint weights"@)
    } else if exists|i: int|
        0 <= i < count && !representable(#[trigger] element(bytes, i), dtype) {
        Some("ANE checkpoint conversion produced a nonfinite FP16 value"@)
    } else {
        None
    }
}

/// Decodes little-endian BF16 or FP16 elements into FP16 bits. The output is
/// replaced only when every element is finite in FP16.
pub fn decode_f16(bytes: &[u8], dtype: DType, output: &mut Vec<u16>) -> (r: Result<(), String>)
    ensures
        final(output)@.len() == old(output)@.len(),
        match r {
            Ok(_) => decode_fault(bytes@, dtype, old(output)@.len()) is None && forall|i: int|
                0 <= i < final(output)@.len() ==> #[trigger] final(output)@[i] == half_bits(
                    element(bytes@, i),
                    dtype,
                ) && half_is_finite(final(output)@[i]),
            Err(e) => decode_fault(bytes@, dtype, old(output)@.len()) == Some(e@) && final(output)@
                == old(output)@,
        },
{
    let count: usize = output.len();
    if bytes.len() % 2 != 0 || bytes.len() / 2 != count {
        return Err("ANE FP16 conversion length mismatch".to_owned());
    }
    if bytes.len() == 0 {
        return Ok(());
    }
    if matches!(dtype, DType::Other) {
        return Err("ANE decoder supports BF16 or FP16 checkpoint weights".to_owned());
    }
    let total: usize = bytes.len();
    let mut values: Vec<u16> = Vec::new();
    let mut i: usize = 0;
    while i < count
        invariant
            i <= count,
            total == bytes@.len(),
            bytes@.len() == 2 * count,
            dtype != DType::Other,
            bytes@.len() > 0,
            count == old(output)@.len(),
            output@ == old(output)@,
            values@.len() == i,
            forall|j: int|
                0 <= j < i ==> representable(#[trigger] element(bytes@, j), dtype),
            forall|j: int|
                0 <= j < i ==> #[trigger] values@[j] == half_bits(element(bytes@, j), dtype)
                    && half_is_finite(values@[j]),
        decreases count - i,
    {
        let bits: u16 = bytes[2 * i] as u16 + 256 * (bytes[2 * i + 1] as u16);
        assert(bits == element(bytes@, i as int));
        match half_from_bits(bits, dtype) {
            Some(h) => {
                values.push(h);
            },
            None => {
                return Err("ANE checkpoint conversion produced a nonfinite FP16 value".to_owned());
            },
        }
        i = i + 1;
    }
    *output = values;
    Ok(())
}

} // verus!
