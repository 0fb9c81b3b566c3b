//! Bounded equivalence of outputs, and the pins of a component.
use half::f16;
use rvllm_runtime::ane::component::{
    aggregate_verdict, check_coefficient_pins, check_component_paths, half_input, matrix_hash,
    pinned_bytes, regular_bytes, sample_passes, valid_hash, validate_input, validate_pin_request,
    Candidate, ComponentFile, Input, PinRequest, QuantizedMatrix, Sample,
};
use rvllm_runtime::ane::equivalence::{
    bounded_comparison as compare_bits, f16_spacing_toward, ordered_f16, ulp_distance as ulp_bits,
    BoundedComparison, MAX_ABS, NEAR_ZERO_ABS,
};
use rvllm_runtime::ane::shape::HIDDEN;
use sha2::Digest as _;

const MAX_RELATIVE_L2: f64 = 1.0 / 1024.0;

/// The size of a unit of the errors.
const UNIT: f64 = 1.0 / 16777216.0;

fn positive(value: f32, ulps: u16) -> f16 {
    let base = f16::from_f32(value);
    f16::from_bits(base.to_bits() + ulps)
}

fn ulp_distance(a: f16, b: f16) -> u32 {
    ulp_bits(a.to_bits(), b.to_bits())
}

/// The relative error over all elements, which the host computes.
fn relative_l2(control: &[f16], candidate: &[f16]) -> f64 {
    let mut squared_error = 0.0;
    let mut squared_reference = 0.0;
    let common = control.len().min(candidate.len());
    for (a, b) in control.iter().zip(candidate) {
        if a.is_finite() && b.is_finite() {
            let (af, bf) = (f64::from(a.to_f32()), f64::from(b.to_f32()));
            squared_reference += af * af;
            squared_error += (bf - af).abs() * (bf - af).abs();
        }
    }
    let floor = common as f64 * (2.0_f64).powi(-28);
    (squared_error / squared_reference.max(floor)).sqrt()
}

struct Outcome {
    comparison: BoundedComparison,
    passed: bool,
    relative_l2: f64,
}

fn bounded_comparison(control: &[f16], candidate: &[f16]) -> Outcome {
    let bits = |values: &[f16]| -> Vec<u16> { values.iter().map(|v| v.to_bits()).collect() };
    let comparison = compare_bits(&bits(control), &bits(candidate));
    let relative_l2 = relative_l2(control, candidate);
    let passed = comparison.passed(relative_l2 <= MAX_RELATIVE_L2);
    Outcome { comparison, passed, relative_l2 }
}

#[test]
fn bounded_equivalence_material_ulp_boundary_is_exact() {
    let control = vec![f16::from_f32(1.0); 16];
    let mut candidate = control.clone();
    candidate[0] = positive(1.0, 4);
    let at_limit = bounded_comparison(&control, &candidate);
    assert!(at_limit.passed, "{:?}", at_limit.comparison);
    assert_eq!(at_limit.comparison.max_ulp_material.value, 4);
    candidate[0] = positive(1.0, 5);
    let over = bounded_comparison(&control, &candidate);
    assert!(!over.passed);
    assert_eq!(over.comparison.material_ulp_violation_count, 1);
}

#[test]
fn bounded_equivalence_near_zero_ulp_boundary_is_exact() {
    let control = [f16::ZERO, f16::from_f32(1.0)];
    let at_limit = bounded_comparison(&control, &[f16::from_bits(1024), control[1]]);
    assert!(at_limit.passed, "{:?}", at_limit.comparison);
    assert_eq!(at_limit.comparison.max_ulp_near_zero.value, 1024);
    let over = bounded_comparison(&control, &[f16::from_bits(1025), control[1]]);
    assert!(!over.passed);
    assert_eq!(over.comparison.near_zero_ulp_violation_count, 1);
    assert!(over.comparison.max_abs_error.value < NEAR_ZERO_ABS);
}

#[test]
fn bounded_equivalence_absolute_boundary_is_independent() {
    let control = [f16::from_f32(32.0)];
    let at_limit = bounded_comparison(&control, &[f16::from_f32(32.03125)]);
    assert!(at_limit.passed, "{:?}", at_limit.comparison);
    assert_eq!(at_limit.comparison.max_abs_error.value, MAX_ABS);
    assert_eq!(MAX_ABS as f64 * UNIT, 1.0 / 32.0);
    let over = bounded_comparison(&control, &[f16::from_f32(32.0625)]);
    assert!(!over.passed);
    assert_eq!(over.comparison.absolute_pass(), false);
    assert_eq!(over.comparison.material_ulp_violation_count, 0);
}

#[test]
fn bounded_equivalence_relative_l2_boundary_is_independent() {
    let control = [f16::from_f32(1.0), f16::from_f32(1.0)];
    let at_limit = bounded_comparison(&control, &[positive(1.0, 1), positive(1.0, 1)]);
    assert!(at_limit.passed, "{:?}", at_limit.comparison);
    assert_eq!(at_limit.relative_l2, MAX_RELATIVE_L2);
    let over = bounded_comparison(&control, &[positive(1.0, 1), positive(1.0, 2)]);
    assert!(!over.passed);
    assert!(over.relative_l2 > MAX_RELATIVE_L2);
    assert_eq!(over.comparison.material_ulp_violation_count, 0);
    assert_eq!(over.comparison.hybrid_violation_count, 0);
}

#[test]
fn bounded_equivalence_rejects_nonfinite_length_and_large_near_zero_error() {
    for bad in [f16::NAN, f16::INFINITY, f16::NEG_INFINITY] {
        let result = bounded_comparison(&[f16::ZERO], &[bad]);
        assert!(!result.passed);
    }
    assert!(!bounded_comparison(&[f16::ZERO], &[]).passed);
    assert!(!bounded_comparison(&[], &[]).passed);
    let sign_flip = bounded_comparison(&[f16::from_f32(0.000_5)], &[f16::from_f32(-0.000_6)]);
    assert!(!sign_flip.passed);
    assert_eq!(sign_flip.comparison.near_zero_ulp_violation_count, 1);
}

#[test]
fn bounded_equivalence_signed_zero_is_bit_distinct_but_zero_ulp() {
    let result = bounded_comparison(&[f16::ZERO], &[f16::NEG_ZERO]);
    assert!(result.passed, "{:?}", result.comparison);
    assert_eq!(result.comparison.bit_exact(), false);
    assert_eq!(result.comparison.max_ulp_all.value, 0);
}

#[test]
fn bounded_equivalence_ulp_order_is_contiguous_across_signs() {
    let negative_min = f16::from_bits(0x8001);
    let positive_min = f16::from_bits(0x0001);
    assert_eq!(ulp_distance(negative_min, f16::NEG_ZERO), 1);
    assert_eq!(ulp_distance(f16::NEG_ZERO, f16::ZERO), 0);
    assert_eq!(ulp_distance(f16::ZERO, positive_min), 1);
    assert_eq!(ulp_distance(negative_min, positive_min), 2);

    let negative_one = f16::from_f32(-1.0);
    assert_eq!(
        ulp_distance(negative_one, f16::from_bits(negative_one.to_bits() + 1)),
        1
    );
}

#[test]
fn bounded_equivalence_rejects_layout_permutation() {
    let control = [f16::from_f32(1.0), f16::from_f32(2.0)];
    let result = bounded_comparison(&control, &[control[1], control[0]]);
    assert!(!result.passed);
    assert_eq!(result.comparison.mismatch_count, 2);
    assert!(result.comparison.hybrid_violation_count > 0);
}

#[test]
fn comparisons_count_and_place_what_they_find() {
    let control = [f16::NAN, f16::INFINITY, f16::NEG_INFINITY, f16::ONE, f16::ONE];
    let candidate = [f16::ZERO, f16::NAN, f16::ZERO, positive(1.0, 3), positive(1.0, 3)];
    let found = bounded_comparison(&control, &candidate).comparison;
    assert!(!found.finite_control && !found.finite_candidate);
    assert_eq!((found.control_nan, found.candidate_nan), (1, 1));
    assert_eq!((found.control_pos_inf, found.control_neg_inf), (1, 1));
    assert_eq!((found.candidate_pos_inf, found.candidate_neg_inf), (0, 0));
    assert_eq!(found.mismatch_count, 2);
    assert_eq!((found.max_ulp_all.value, found.max_ulp_all.index), (3, Some(3)));
    assert_eq!(found.max_ulp_near_zero.index, None);
    assert_eq!(found.ulp_histogram, [0, 0, 0, 2, 0, 0, 0, 0, 0, 0, 0]);
    assert_eq!(found.max_abs_error.value as f64 * UNIT, 3.0 / 1024.0);
    assert_eq!(found.first_hybrid_violation, None);
    let wide = bounded_comparison(&[f16::ONE, f16::ONE], &[f16::ONE, f16::from_f32(2.0)]);
    assert_eq!(wide.comparison.first_hybrid_violation, Some(1));
    assert_eq!(wide.comparison.ulp_histogram[9], 1);
    assert!(bounded_comparison(&[f16::ONE], &[f16::ONE]).comparison.bit_exact_finite());
    assert!(!bounded_comparison(&[f16::NAN], &[f16::NAN]).comparison.bit_exact_finite());
}

#[test]
fn units_and_places_agree_with_the_numbers() {
    for bits in [0_u16, 1, 0x3ff, 0x400, 0x3c00, 0x7bff, 0x8001, 0xbc00, 0xfbff] {
        let value = f16::from_bits(bits);
        let found = compare_bits(&vec![0], &vec![bits]);
        let exact = f64::from(value.to_f32()).abs();
        assert_eq!(found.max_abs_error.value as f64 * UNIT, exact, "{bits:04x}");
    }
    assert!(ordered_f16(0x8001) < ordered_f16(0x8000));
    assert_eq!(ordered_f16(0x8000), ordered_f16(0));
    let one = f16::ONE.to_bits();
    let up = f16_spacing_toward(one, f16::from_f32(2.0).to_bits());
    let down = f16_spacing_toward(one, f16::from_f32(0.5).to_bits());
    assert_eq!((up as f64 * UNIT, down as f64 * UNIT), (1.0 / 1024.0, 1.0 / 2048.0));
    assert_eq!(f16_spacing_toward(0x8000, one), 1);
    let minus = f16::from_f32(-1.0).to_bits();
    assert_eq!(f16_spacing_toward(minus, one), down);
    assert_eq!(f16_spacing_toward(minus, f16::from_f32(-2.0).to_bits()), up);
}

fn fixture() -> Input {
    Input {
        schema: "rvllm.ane.ffn-component-input.v1".into(),
        candidate: "ane-int8-ffn-interleaved".into(),
        layer: 0,
        model_config_sha256: "a".repeat(64),
        quantized_matrix_sha256: vec!["b".repeat(64), "c".repeat(64), "d".repeat(64)],
        samples: vec![Sample {
            path: "/nonexistent/captured-input.f16".into(),
            sha256: "e".repeat(64),
        }],
    }
}

fn request() -> PinRequest {
    PinRequest {
        schema: "rvllm.ane.ffn-pin-request.v1".into(),
        candidate: "ane-int8-ffn-interleaved".into(),
        layer: 0,
        sample_paths: vec!["/captured/real-input.f16".into()],
    }
}

#[test]
fn host_pin_request_is_bounded_and_cannot_select_an_unknown_or_duplicate_case() {
    assert_eq!(validate_pin_request(&request()), Ok(Candidate::Interleaved));
    let refused = |change: &dyn Fn(&mut PinRequest)| {
        let mut mutant = request();
        change(&mut mutant);
        validate_pin_request(&mutant).is_err()
    };
    let paths = |list: &[&str]| -> Vec<String> { list.iter().map(|p| p.to_string()).collect() };
    assert!(refused(&|r| r.candidate = "auto".into()));
    assert!(refused(&|r| r.layer = 48));
    assert!(refused(&|r| r.sample_paths = paths(&[])));
    assert!(refused(&|r| r.sample_paths = paths(&["/same", "/same"])));
    assert!(refused(&|r| r.sample_paths = paths(&["/same", "//same/."])));
    assert!(refused(&|r| r.sample_paths = paths(&["relative.f16"])));
}

#[test]
fn manifest_refuses_wrong_candidate_unbounded_samples_and_unpinned_coefficients() {
    let check = |input: &Input| validate_input(input, Candidate::Interleaved);
    assert!(check(&fixture()).is_ok());
    let refused = |change: &dyn Fn(&mut Input)| {
        let mut mutant = fixture();
        change(&mut mutant);
        check(&mutant).unwrap_err()
    };
    let shape = "FFN component manifest shape, candidate or pins invalid";
    assert_eq!(refused(&|i| i.layer = 48), shape);
    assert_eq!(refused(&|i| i.candidate = "ane-int8-ffn-down4".into()), shape);
    assert_eq!(refused(&|i| i.samples.clear()), shape);
    assert_eq!(refused(&|i| i.quantized_matrix_sha256[1].clear()), shape);
    assert_eq!(refused(&|i| drop(i.quantized_matrix_sha256.pop())), shape);
    assert_eq!(
        refused(&|i| i.quantized_matrix_sha256[0] = "B".repeat(64)),
        shape
    );
    let duplicate = "duplicate FFN sample is not independent coverage";
    let again = |path: &str, digest: &str| Sample { path: path.into(), sha256: digest.repeat(64) };
    assert_eq!(
        refused(&|i| i.samples.push(again("/nonexistent/captured-input.f16", "f"))),
        duplicate
    );
    assert_eq!(refused(&|i| i.samples.push(again("/other", "e"))), duplicate);
    assert!(valid_hash(&"0".repeat(64)) && !valid_hash(&"A".repeat(64)));
    assert_eq!(Candidate::Interleaved.control(), "stacked-int8");
    assert_eq!(Candidate::Down4.name(), "ane-int8-ffn-down4");
}

#[test]
fn captured_input_is_exact_width_finite_and_signed_zero_preserving() {
    let mut bytes = vec![0_u8; HIDDEN * 2];
    bytes[..2].copy_from_slice(&0x8000_u16.to_le_bytes());
    assert_eq!(half_input(&bytes).unwrap()[0], 0x8000);
    assert!(half_input(&bytes[..bytes.len() - 1]).is_err());
    bytes[..2].copy_from_slice(&0x7c00_u16.to_le_bytes());
    assert!(half_input(&bytes).is_err());
}

#[test]
fn matrix_identity_hash_binds_shape_coefficients_and_scales_in_order() {
    let sha = |bytes: &[u8]| format!("{:x}", sha2::Sha256::digest(bytes));
    let view = |columns: usize| QuantizedMatrix {
        columns,
        values: vec![-2_i8, 7, 1, -1],
        scales: vec![f16::ONE.to_bits(), f16::from_f32(0.5).to_bits()],
    };
    let mut bytes = 2_u64.to_le_bytes().to_vec();
    bytes.extend(2_u64.to_le_bytes());
    bytes.extend([254_u8, 7, 1, 255]);
    bytes.extend([0_u8, 60, 0, 56]);
    assert_eq!(matrix_hash(&view(2)), sha(&bytes));
    assert_ne!(matrix_hash(&view(4)), sha(&bytes));
    let wide = QuantizedMatrix { columns: 0x0102_0304_0506_0708, values: vec![], scales: vec![] };
    let mut head = 0x0102_0304_0506_0708_u64.to_le_bytes().to_vec();
    head.extend(0_u64.to_le_bytes());
    assert_eq!(matrix_hash(&wide), sha(&head));
}

fn found(bytes: &[u8]) -> ComponentFile {
    ComponentFile {
        entry: Ok((true, bytes.len() as u64)),
        opened: Ok(true),
        bytes: Ok(bytes.to_vec()),
    }
}

#[test]
fn pinned_files_are_bounded_regular_and_unchanged() {
    let digest = format!("{:x}", sha2::Sha256::digest(b"abc"));
    assert_eq!(pinned_bytes(found(b"abc"), &digest, 3), Ok(b"abc".to_vec()));
    assert_eq!(
        pinned_bytes(found(b"abd"), &digest, 3),
        Err("component input hash changed".to_string())
    );
    assert_eq!(
        pinned_bytes(found(b"abc"), "abc", 3),
        Err("invalid input SHA256".to_string())
    );
    let bounded = "component input must be a bounded regular file";
    assert_eq!(regular_bytes(found(b"abcd"), 3), Err(bounded.to_string()));
    let link = ComponentFile { entry: Ok((false, 1)), ..found(b"a") };
    assert_eq!(regular_bytes(link, 3), Err(bounded.to_string()));
    let swapped = ComponentFile { opened: Ok(false), ..found(b"a") };
    assert_eq!(regular_bytes(swapped, 3), Err("component input changed type".to_string()));
    let grown = ComponentFile { entry: Ok((true, 1)), ..found(b"abcd") };
    assert_eq!(regular_bytes(grown, 3), Err("component input exceeds size bound".to_string()));
    let gone = ComponentFile { entry: Err("gone".into()), ..found(b"a") };
    assert_eq!(regular_bytes(gone, 3), Err("gone".to_string()));
    let paths = vec!["/a".to_string(), "b".to_string()];
    assert!(check_component_paths(&vec!["/a".to_string()], false).is_ok());
    assert_eq!(
        check_component_paths(&paths, false),
        Err("component paths must be absolute".to_string())
    );
    assert!(check_component_paths(&paths, true).unwrap_err().starts_with("pin-preparation"));
    assert!(check_coefficient_pins(&paths, &paths).is_ok());
    assert!(check_coefficient_pins(&paths, &vec![]).is_err());
}

#[test]
fn samples_and_aggregates_pass_together() {
    let same = || bounded_comparison(&[f16::ONE], &[f16::ONE]).comparison;
    let near = || bounded_comparison(&[f16::ONE], &[positive(1.0, 1)]).comparison;
    assert!(sample_passes(&same(), &same(), &near(), true));
    assert!(!sample_passes(&near(), &same(), &near(), true));
    assert!(!sample_passes(&same(), &same(), &near(), false));
    assert!(aggregate_verdict(&vec![true, true], 2, true).is_ok());
    for (passed, expected, l2) in [
        (vec![true, false], 2, true),
        (vec![true], 2, true),
        (vec![true, true], 2, false),
    ] {
        assert!(aggregate_verdict(&passed, expected, l2)
            .unwrap_err()
            .starts_with("Chunk4 bounded-equivalence contract failed"));
    }
}
