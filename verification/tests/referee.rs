//! The quality referee.
use rvllm_runtime::referee::{
    check_input, check_schemas, compare, judge, required_decision, totals, validate_calibration,
    validate_identity, validate_observation_identity, verify_file, Calibration,
    CheckpointIdentity, Coverage, Decision, FileIdentity, Fixture, FixtureCase, Input, Metrics,
    ObservedCase, ObservedPosition, Observations, PositionTally, QuantizerIdentity, RouteIdentity,
    REQUIRED_ROLES,
};
use sha2::Digest as _;

fn sha(bytes: &[u8]) -> String {
    format!("{:x}", sha2::Sha256::digest(bytes))
}

fn file(name: &str) -> FileIdentity {
    FileIdentity { path: format!("/in/{name}"), sha256: sha(name.as_bytes()) }
}

fn route(name: &str) -> RouteIdentity {
    RouteIdentity {
        name: name.into(),
        source_tree_sha256: sha(b"tree"),
        executable_sha256: sha(b"exe"),
        model_package_sha256: sha(b"package"),
        full_model_route: true,
    }
}

fn input() -> Input {
    Input {
        schema: "rvllm.gemma4_quality_referee.input.v1".into(),
        checkpoint: CheckpointIdentity {
            repository: "repo".into(),
            revision: "rev".into(),
            manifest_sha256: sha(b"manifest"),
        },
        config: file("config"),
        quantizer: QuantizerIdentity {
            name: "q".into(),
            implementation_revision: "r1".into(),
            weight_bits: 4,
            group_size: 64,
            scale_dtype: "fp16".into(),
            zero_point: false,
            rounding: "nearest".into(),
            calibration_dataset_sha256: None,
        },
        reference_route: route("reference"),
        candidate_route: route("candidate"),
        fixture: file("fixture"),
        reference_observations: file("reference"),
        candidate_observations: file("candidate"),
        calibration: Some(file("calibration")),
        coverage: Coverage {
            full_checkpoint_quantized: true,
            quantized_roles: REQUIRED_ROLES.iter().map(|r| r.to_string()).collect(),
            operator_correctness_receipt_sha256: Some(sha(b"receipt")),
        },
    }
}

fn calibration() -> Calibration {
    Calibration {
        schema: "rvllm.gemma4_quality_calibration.v1".into(),
        protocol: "held-out".into(),
        calibration_corpus_sha256: sha(b"cal"),
        held_out_fixture_sha256: sha(b"fixture"),
        minimum_target_positions: 2,
        max_absolute_logit_delta: 0.5_f64.to_bits(),
        max_mean_absolute_logit_delta: 0.25_f64.to_bits(),
        max_mean_nll_increase: 0.125_f64.to_bits(),
        max_perplexity_ratio: 1.5_f64.to_bits(),
        minimum_representative_top1_agreement: 0.75_f64.to_bits(),
        rationale: "measured".into(),
    }
}

fn metrics() -> Metrics {
    Metrics {
        target_positions: 2,
        max_absolute_logit_delta: 0.5_f64.to_bits(),
        mean_absolute_logit_delta: 0.25_f64.to_bits(),
        mean_nll_increase: (-0.5_f64).to_bits(),
        perplexity_ratio: 1.0_f64.to_bits(),
        representative_top1_agreement: 0.75_f64.to_bits(),
    }
}

#[test]
fn required_roles_are_stable_and_complete() {
    assert_eq!(REQUIRED_ROLES.len(), 7);
    assert!(REQUIRED_ROLES.contains(&"down_projection"));
}

#[test]
fn calibration_rejects_invented_permissive_numbers() {
    let fixture = sha(b"fixture");
    let bad = Calibration {
        minimum_target_positions: 1,
        max_absolute_logit_delta: f64::INFINITY.to_bits(),
        max_mean_absolute_logit_delta: 0.0_f64.to_bits(),
        max_mean_nll_increase: 0.0_f64.to_bits(),
        max_perplexity_ratio: 1.0_f64.to_bits(),
        minimum_representative_top1_agreement: 1.0_f64.to_bits(),
        ..calibration()
    };
    assert!(validate_calibration(&bad, &fixture).is_err());
}

#[test]
fn calibrations_are_held_out_and_bounded() {
    let fixture = sha(b"fixture");
    assert!(validate_calibration(&calibration(), &fixture).is_ok());
    assert_eq!(
        validate_calibration(&calibration(), &sha(b"other")),
        Err("invalid or non-held-out calibration contract".to_string())
    );
    let blank = Calibration { rationale: " \n".into(), ..calibration() };
    assert!(validate_calibration(&blank, &fixture).is_err());
    let below = |x: f64| Calibration { max_perplexity_ratio: x.to_bits(), ..calibration() };
    assert!(validate_calibration(&below(1.0), &fixture).is_ok());
    assert_eq!(
        validate_calibration(&below(0.999), &fixture),
        Err("invalid calibration thresholds".to_string())
    );
    let agreement = |x: f64| Calibration {
        minimum_representative_top1_agreement: x.to_bits(),
        ..calibration()
    };
    assert!(validate_calibration(&agreement(-0.0), &fixture).is_ok());
    assert!(validate_calibration(&agreement(1.0001), &fixture).is_err());
    assert!(validate_calibration(&agreement(f64::NAN), &fixture).is_err());
}

#[test]
fn requests_are_checked_field_by_field() {
    assert!(check_input(&input()).is_ok());
    let refused = |change: &dyn Fn(&mut Input)| {
        let mut bad = input();
        change(&mut bad);
        check_input(&bad).unwrap_err()
    };
    assert_eq!(refused(&|i| i.schema = "x".into()), "wrong input schema: x");
    assert_eq!(refused(&|i| i.checkpoint.repository.clear()), "invalid repository");
    assert_eq!(refused(&|i| i.checkpoint.revision = "a\n".into()), "invalid revision");
    assert_eq!(refused(&|i| i.quantizer.name = "\u{7f}".into()), "invalid quantizer");
    assert_eq!(
        refused(&|i| i.quantizer.implementation_revision = "\u{e9}".repeat(129)),
        "invalid quantizer revision"
    );
    let bits = "quality referee accepts only W4/W8 with nonzero group size";
    assert_eq!(refused(&|i| i.quantizer.weight_bits = 5), bits);
    assert_eq!(refused(&|i| i.quantizer.group_size = 0), bits);
    assert!(validate_identity("label", &"\u{e9}".repeat(128)).is_ok());
    assert!(validate_identity("label", &"a".repeat(257)).is_err());
}

#[test]
fn files_and_observations_are_sealed() {
    let own = file("config");
    assert!(verify_file(&own, &Ok(sha(b"config"))).is_ok());
    let other = sha(b"other");
    assert_eq!(
        verify_file(&own, &Ok(other.clone())),
        Err(format!("sha256 mismatch for /in/config: expected {}, got {other}", own.sha256))
    );
    assert_eq!(verify_file(&own, &Err("denied".into())), Err("denied".to_string()));
    let i = input();
    let seen = observations("reference", vec![]);
    assert!(validate_observation_identity(&i, &seen, &i.reference_route).is_ok());
    assert_eq!(
        validate_observation_identity(&i, &seen, &i.candidate_route),
        Err("observation route identity mismatch".to_string())
    );
    let mut moved = observations("reference", vec![]);
    moved.config_sha256 = other;
    assert_eq!(
        validate_observation_identity(&i, &moved, &i.reference_route),
        Err("observation checkpoint/config/fixture identity mismatch".to_string())
    );
}

fn observations(name: &str, cases: Vec<ObservedCase>) -> Observations {
    Observations {
        schema: "rvllm.gemma4_quality_observations.v1".into(),
        checkpoint_manifest_sha256: sha(b"manifest"),
        config_sha256: sha(b"config"),
        fixture_sha256: sha(b"fixture"),
        route: route(name),
        cases,
    }
}

fn position(target: u32, nll: f64, logits: &[(u32, f64)]) -> ObservedPosition {
    ObservedPosition {
        target_token_id: target,
        target_negative_log_likelihood: nll.to_bits(),
        logits: logits.iter().map(|(t, v)| (*t, v.to_bits())).collect(),
    }
}

fn case(id: &str, positions: Vec<ObservedPosition>) -> ObservedCase {
    ObservedCase { id: id.into(), positions }
}

fn fixture() -> Fixture {
    Fixture {
        schema: "rvllm.gemma4_token_fixture.v1".into(),
        cases: vec![
            FixtureCase { id: "a".into(), token_ids: vec![1, 2], target_token_ids: vec![2, 3] },
            FixtureCase { id: "b".into(), token_ids: vec![9], target_token_ids: vec![4] },
        ],
    }
}

fn seen(second: &[(u32, f64)]) -> Observations {
    observations(
        "reference",
        vec![
            case("b", vec![position(4, 0.5, &[(4, 1.0)])]),
            case(
                "a",
                vec![
                    position(2, 0.0, &[(2, 1.0), (3, 1.0), (5, -1.0)]),
                    position(3, -0.0, second),
                ],
            ),
        ],
    )
}

fn tally(logits: usize, top1_agrees: bool) -> PositionTally {
    PositionTally { logits, top1_agrees }
}

#[test]
fn comparisons_cover_the_fixture_exactly() {
    let f = fixture();
    let r = seen(&[(2, 1.0), (3, 2.0)]);
    assert!(check_schemas(&f, &r, &r).is_ok());
    let tallies = compare(&f, &r, &seen(&[(2, 3.0), (3, 2.0)])).unwrap();
    assert_eq!(tallies, vec![vec![tally(3, true), tally(2, false)], vec![tally(1, true)]]);
    let sums = totals(&tallies);
    assert_eq!((sums.cases, sums.target_positions), (2, 3));
    assert_eq!((sums.compared_logits, sums.top1_matches), (6, 2));
    let refused = |c: &Observations| compare(&f, &r, c).unwrap_err();
    let sets = "representative logit token sets differ or are empty";
    assert_eq!(refused(&seen(&[(2, 1.0)])), sets);
    assert_eq!(refused(&seen(&[])), sets);
    assert_eq!(refused(&seen(&[(2, 1.0), (3, f64::NAN)])), "non-finite logit");
    let mut nll = seen(&[(2, 1.0), (3, 2.0)]);
    nll.cases[0].positions[0].target_negative_log_likelihood = (-0.25_f64).to_bits();
    assert_eq!(refused(&nll), "invalid negative log likelihood");
    let mut target = seen(&[(2, 1.0), (3, 2.0)]);
    target.cases[1].positions[0].target_token_id = 7;
    assert_eq!(refused(&target), "case a target identity mismatch");
    let mut short = seen(&[(2, 1.0), (3, 2.0)]);
    short.cases[1].positions.pop();
    assert_eq!(refused(&short), "case a target coverage mismatch");
    let mut extra = seen(&[(2, 1.0), (3, 2.0)]);
    extra.cases.push(case("c", vec![]));
    assert_eq!(refused(&extra), "observation cases must exactly match fixture ids");
    let mut twice = seen(&[(2, 1.0), (3, 2.0)]);
    twice.cases[1].id = "b".into();
    assert_eq!(refused(&twice), "observation cases must exactly match fixture ids");
    let mut repeated = fixture();
    repeated.cases[1].id = "a".into();
    assert_eq!(
        compare(&repeated, &r, &r).unwrap_err(),
        "fixture case ids must be unique and nonempty"
    );
    let mut empty = fixture();
    empty.cases[0].token_ids.pop();
    assert_eq!(compare(&empty, &r, &r).unwrap_err(), "fixture case a is empty");
}

#[test]
fn schemas_are_named() {
    let r = seen(&[(2, 1.0)]);
    let mut other = fixture();
    other.schema.push('x');
    assert_eq!(
        check_schemas(&other, &r, &r),
        Err("wrong fixture or observation schema".to_string())
    );
}

#[test]
fn decisions_fail_closed() {
    let accepted = judge(&input(), &metrics(), &Some(calibration()));
    assert_eq!(accepted.decision, Decision::FullModelAccepted);
    assert!(accepted.failed_gates.is_empty());
    assert_eq!(accepted.limitations.len(), 1);
    let uncalibrated = judge(&input(), &metrics(), &None);
    assert_eq!(uncalibrated.decision, Decision::CalibrationRequired);
    assert_eq!(uncalibrated.failed_gates, ["missing_calibration"]);
    assert_eq!(uncalibrated.limitations.len(), 2);
    let worse = Metrics {
        target_positions: 1,
        max_absolute_logit_delta: 0.6_f64.to_bits(),
        mean_nll_increase: f64::INFINITY.to_bits(),
        representative_top1_agreement: 0.5_f64.to_bits(),
        ..metrics()
    };
    let rejected = judge(&input(), &worse, &Some(calibration()));
    assert_eq!(rejected.decision, Decision::Rejected);
    assert_eq!(
        rejected.failed_gates,
        [
            "insufficient_target_positions",
            "max_absolute_logit_delta",
            "mean_nll_increase",
            "representative_top1_agreement"
        ]
    );
    let bounded = |change: &dyn Fn(&mut Input)| {
        let mut partial = input();
        change(&mut partial);
        judge(&partial, &metrics(), &Some(calibration())).decision
    };
    let slice = Decision::BoundedSliceEvidence;
    assert_eq!(bounded(&|i| i.coverage.full_checkpoint_quantized = false), slice);
    assert_eq!(bounded(&|i| i.candidate_route.full_model_route = false), slice);
    assert_eq!(bounded(&|i| i.coverage.operator_correctness_receipt_sha256 = None), slice);
    assert_eq!(
        bounded(&|i| {
            i.coverage.quantized_roles.pop();
        }),
        slice
    );
    assert_eq!(bounded(&|i| i.coverage.quantized_roles.push("extra".into())), slice);
    assert_eq!(
        bounded(&|i| i.coverage.quantized_roles.push("q_projection".into())),
        Decision::FullModelAccepted
    );
    assert_eq!(required_decision("full_model_accepted"), Some(Decision::FullModelAccepted));
    assert_eq!(required_decision("rejected"), None);
}
