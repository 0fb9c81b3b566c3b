//! What the referee's verdicts mean.
use crate::json::{double_key, finite_bits};
use crate::order::strs;
use crate::referee::{
    agreements_in, best_token, calibration_outcome, case_from, case_outcome, cases_from, comparison,
    decision_of, failed_gates, file_outcome, fixture_ids, gate, greater, identity_outcome,
    input_outcome, is_best, is_full_route, is_nan, limitations_of, logits_in, observed_by,
    observed_ids, position_outcome, positions_from, required_roles, text_bytes, tokens_of,
    totals_of, ONE_BITS, REQUIRED_ROLES, Calibration, Decision, FileIdentity, FixtureCase, Input,
    Metrics, Observations, ObservedCase, ObservedPosition, PositionTally, RouteIdentity,
};
use crate::text::texts;
use vstd::prelude::*;

verus! {

// ---------------------------------------------------------------------------
// Gates and decisions
// ---------------------------------------------------------------------------

proof fn gate_holds(failed: bool, name: Seq<char>, x: Seq<char>)
    ensures
        gate(failed, name).contains(x) <==> failed && x == name,
{
    if failed {
        assert(gate(failed, name)[0] == name);
    }
}

proof fn either_holds(a: Seq<Seq<char>>, b: Seq<Seq<char>>, x: Seq<char>)
    ensures
        (a + b).contains(x) <==> a.contains(x) || b.contains(x),
{
    if a.contains(x) {
        let i = choose|i: int| 0 <= i < a.len() && a[i] == x;
        assert((a + b)[i] == x);
    }
    if b.contains(x) {
        let i = choose|i: int| 0 <= i < b.len() && b[i] == x;
        assert((a + b)[a.len() + i] == x);
    }
    if (a + b).contains(x) {
        let i = choose|i: int| 0 <= i < (a + b).len() && (a + b)[i] == x;
        if i < a.len() {
            assert(a[i] == x);
        } else {
            assert(b[i - a.len()] == x);
        }
    }
}

proof fn gate_names_differ()
    ensures
        "insufficient_target_positions"@ != "max_absolute_logit_delta"@,
        "insufficient_target_positions"@ != "mean_absolute_logit_delta"@,
        "insufficient_target_positions"@ != "mean_nll_increase"@,
        "insufficient_target_positions"@ != "perplexity_ratio"@,
        "insufficient_target_positions"@ != "representative_top1_agreement"@,
        "max_absolute_logit_delta"@ != "mean_absolute_logit_delta"@,
        "max_absolute_logit_delta"@ != "mean_nll_increase"@,
        "max_absolute_logit_delta"@ != "perplexity_ratio"@,
        "max_absolute_logit_delta"@ != "representative_top1_agreement"@,
        "mean_absolute_logit_delta"@ != "mean_nll_increase"@,
        "mean_absolute_logit_delta"@ != "perplexity_ratio"@,
        "mean_absolute_logit_delta"@ != "representative_top1_agreement"@,
        "mean_nll_increase"@ != "perplexity_ratio"@,
        "mean_nll_increase"@ != "representative_top1_agreement"@,
        "perplexity_ratio"@ != "representative_top1_agreement"@,
        "missing_calibration"@ != "insufficient_target_positions"@,
        "missing_calibration"@ != "max_absolute_logit_delta"@,
        "missing_calibration"@ != "mean_absolute_logit_delta"@,
        "missing_calibration"@ != "mean_nll_increase"@,
        "missing_calibration"@ != "perplexity_ratio"@,
        "missing_calibration"@ != "representative_top1_agreement"@,
{
    reveal_strlit("insufficient_target_positions");
    reveal_strlit("max_absolute_logit_delta");
    reveal_strlit("mean_absolute_logit_delta");
    reveal_strlit("mean_nll_increase");
    reveal_strlit("perplexity_ratio");
    reveal_strlit("representative_top1_agreement");
    reveal_strlit("missing_calibration");
    assert("insufficient_target_positions"@[0] != "representative_top1_agreement"@[0]);
    assert("insufficient_target_positions"@.len() == 29);
    assert("representative_top1_agreement"@.len() == 29);
    assert("max_absolute_logit_delta"@.len() == 24);
    assert("mean_absolute_logit_delta"@.len() == 25);
    assert("mean_nll_increase"@.len() == 17);
    assert("perplexity_ratio"@.len() == 16);
    assert("missing_calibration"@.len() == 19);
}

/// Whether a measurement is beyond a bound, both doubles given by their bits.
pub open spec fn beyond(value: u64, bound: u64) -> bool {
    &&& value % 0x8000_0000_0000_0000 <= 0x7ff0_0000_0000_0000
    &&& bound % 0x8000_0000_0000_0000 <= 0x7ff0_0000_0000_0000
    &&& if value < 0x8000_0000_0000_0000 && bound < 0x8000_0000_0000_0000 {
        value > bound
    } else if value >= 0x8000_0000_0000_0000 && bound >= 0x8000_0000_0000_0000 {
        value < bound
    } else {
        bound >= 0x8000_0000_0000_0000 && !(value == 0 && bound == 0x8000_0000_0000_0000)
    }
}

/// A double is greater than another as their bits tell: among numbers with the
/// same sign by magnitude, a positive one over a negative one, the two zeros equal,
/// and nothing where one is no number.
pub proof fn doubles_compare_by_their_bits(a: u64, b: u64)
    ensures
        greater(a, b) <==> beyond(a, b),
        is_nan(a) <==> a % 0x8000_0000_0000_0000 > 0x7ff0_0000_0000_0000,
{
}

/// With a calibration, each gate fails exactly where its own measurement is beyond
/// the bound that the calibration sets for it, and no other gate is named. Without
/// one, that alone is reported.
pub proof fn gates_hold_each_metric_to_its_bound(m: Metrics, c: Option<Calibration>, x: Seq<char>)
    ensures
        c is None ==> (failed_gates(m, c).contains(x) <==> x == "missing_calibration"@),
        c is Some ==> {
            let failed = failed_gates(m, c);
            let c = c->0;
            &&& failed.contains("insufficient_target_positions"@) <==> m.target_positions
                < c.minimum_target_positions
            &&& failed.contains("max_absolute_logit_delta"@) <==> beyond(
                m.max_absolute_logit_delta,
                c.max_absolute_logit_delta,
            )
            &&& failed.contains("mean_absolute_logit_delta"@) <==> beyond(
                m.mean_absolute_logit_delta,
                c.max_mean_absolute_logit_delta,
            )
            &&& failed.contains("mean_nll_increase"@) <==> beyond(
                m.mean_nll_increase,
                c.max_mean_nll_increase,
            )
            &&& failed.contains("perplexity_ratio"@) <==> beyond(
                m.perplexity_ratio,
                c.max_perplexity_ratio,
            )
            &&& failed.contains("representative_top1_agreement"@) <==> beyond(
                c.minimum_representative_top1_agreement,
                m.representative_top1_agreement,
            )
            &&& failed.contains(x) ==> x == "insufficient_target_positions"@ || x
                == "max_absolute_logit_delta"@ || x == "mean_absolute_logit_delta"@ || x
                == "mean_nll_increase"@ || x == "perplexity_ratio"@ || x
                == "representative_top1_agreement"@
        },
{
    match c {
        None => {
            assert(failed_gates(m, c)[0] == "missing_calibration"@);
        },
        Some(k) => {
            gate_names_differ();
            gates_contain(m, k, x);
            gates_contain(m, k, "insufficient_target_positions"@);
            gates_contain(m, k, "max_absolute_logit_delta"@);
            gates_contain(m, k, "mean_absolute_logit_delta"@);
            gates_contain(m, k, "mean_nll_increase"@);
            gates_contain(m, k, "perplexity_ratio"@);
            gates_contain(m, k, "representative_top1_agreement"@);
        },
    }
}

proof fn gates_contain(m: Metrics, c: Calibration, x: Seq<char>)
    ensures
        failed_gates(m, Some(c)).contains(x) <==> {
            ||| x == "insufficient_target_positions"@ && m.target_positions
                < c.minimum_target_positions
            ||| x == "max_absolute_logit_delta"@ && beyond(
                m.max_absolute_logit_delta,
                c.max_absolute_logit_delta,
            )
            ||| x == "mean_absolute_logit_delta"@ && beyond(
                m.mean_absolute_logit_delta,
                c.max_mean_absolute_logit_delta,
            )
            ||| x == "mean_nll_increase"@ && beyond(m.mean_nll_increase, c.max_mean_nll_increase)
            ||| x == "perplexity_ratio"@ && beyond(m.perplexity_ratio, c.max_perplexity_ratio)
            ||| x == "representative_top1_agreement"@ && beyond(
                c.minimum_representative_top1_agreement,
                m.representative_top1_agreement,
            )
        },
{
    doubles_compare_by_their_bits(m.max_absolute_logit_delta, c.max_absolute_logit_delta);
    doubles_compare_by_their_bits(m.mean_absolute_logit_delta, c.max_mean_absolute_logit_delta);
    doubles_compare_by_their_bits(m.mean_nll_increase, c.max_mean_nll_increase);
    doubles_compare_by_their_bits(m.perplexity_ratio, c.max_perplexity_ratio);
    doubles_compare_by_their_bits(
        c.minimum_representative_top1_agreement,
        m.representative_top1_agreement,
    );
    let g1 = gate(
        m.target_positions < c.minimum_target_positions,
        "insufficient_target_positions"@,
    );
    let g2 = gate(
        greater(m.max_absolute_logit_delta, c.max_absolute_logit_delta),
        "max_absolute_logit_delta"@,
    );
    let g3 = gate(
        greater(m.mean_absolute_logit_delta, c.max_mean_absolute_logit_delta),
        "mean_absolute_logit_delta"@,
    );
    let g4 = gate(greater(m.mean_nll_increase, c.max_mean_nll_increase), "mean_nll_increase"@);
    let g5 = gate(greater(m.perplexity_ratio, c.max_perplexity_ratio), "perplexity_ratio"@);
    let g6 = gate(
        greater(c.minimum_representative_top1_agreement, m.representative_top1_agreement),
        "representative_top1_agreement"@,
    );
    assert(failed_gates(m, Some(c)) == g1 + g2 + g3 + g4 + g5 + g6);
    either_holds(g1 + g2 + g3 + g4 + g5, g6, x);
    either_holds(g1 + g2 + g3 + g4, g5, x);
    either_holds(g1 + g2 + g3, g4, x);
    either_holds(g1 + g2, g3, x);
    either_holds(g1, g2, x);
    gate_holds(m.target_positions < c.minimum_target_positions, "insufficient_target_positions"@, x);
    gate_holds(
        greater(m.max_absolute_logit_delta, c.max_absolute_logit_delta),
        "max_absolute_logit_delta"@,
        x,
    );
    gate_holds(
        greater(m.mean_absolute_logit_delta, c.max_mean_absolute_logit_delta),
        "mean_absolute_logit_delta"@,
        x,
    );
    gate_holds(
        greater(m.mean_nll_increase, c.max_mean_nll_increase),
        "mean_nll_increase"@,
        x,
    );
    gate_holds(greater(m.perplexity_ratio, c.max_perplexity_ratio), "perplexity_ratio"@, x);
    gate_holds(
        greater(c.minimum_representative_top1_agreement, m.representative_top1_agreement),
        "representative_top1_agreement"@,
        x,
    );
}

/// Whether every measurement is within the bound that a calibration sets for it.
pub open spec fn within_bounds(m: Metrics, c: Calibration) -> bool {
    &&& m.target_positions >= c.minimum_target_positions
    &&& !beyond(m.max_absolute_logit_delta, c.max_absolute_logit_delta)
    &&& !beyond(m.mean_absolute_logit_delta, c.max_mean_absolute_logit_delta)
    &&& !beyond(m.mean_nll_increase, c.max_mean_nll_increase)
    &&& !beyond(m.perplexity_ratio, c.max_perplexity_ratio)
    &&& !beyond(c.minimum_representative_top1_agreement, m.representative_top1_agreement)
}

/// A candidate is accepted for the full model exactly where a calibration is there,
/// every measurement is within its bound, both routes run the whole model with every
/// projection of the checkpoint quantized, and operator correctness has a receipt. It
/// is rejected exactly where a measurement is beyond its bound.
pub proof fn decisions_follow_the_bounds(input: Input, m: Metrics, c: Option<Calibration>)
    ensures
        ({
            let whole = input.coverage.full_checkpoint_quantized
                && input.reference_route.full_model_route && input.candidate_route.full_model_route
                && texts(input.coverage.quantized_roles@).to_set() == set![
                "q_projection"@,
                "k_projection"@,
                "v_projection"@,
                "o_projection"@,
                "gate_projection"@,
                "up_projection"@,
                "down_projection"@,
            ] && input.coverage.operator_correctness_receipt_sha256 is Some;
            match decision_of(input, m, c) {
                Decision::CalibrationRequired => c is None,
                Decision::Rejected => c is Some && !within_bounds(m, c->0),
                Decision::BoundedSliceEvidence => c is Some && within_bounds(m, c->0) && !whole,
                Decision::FullModelAccepted => c is Some && within_bounds(m, c->0) && whole,
            }
        }),
{
    roles_are_the_seven_projections();
    match c {
        None => {},
        Some(k) => {
            let failed = failed_gates(m, c);
            if failed.len() > 0 {
                gates_contain(m, k, failed[0]);
                assert(failed.contains(failed[0]));
            } else {
                gates_hold_each_metric_to_its_bound(m, c, "perplexity_ratio"@);
            }
            if within_bounds(m, k) && failed.len() > 0 {
                assert(false);
            }
        },
    }
}

/// A fully quantized checkpoint covers seven projections.
pub proof fn roles_are_the_seven_projections()
    ensures
        required_roles() == set![
            "q_projection"@,
            "k_projection"@,
            "v_projection"@,
            "o_projection"@,
            "gate_projection"@,
            "up_projection"@,
            "down_projection"@,
        ],
{
    let all = strs(REQUIRED_ROLES@);
    assert(all.len() == 7);
    assert(all[0] == "q_projection"@);
    assert(all[1] == "k_projection"@);
    assert(all[2] == "v_projection"@);
    assert(all[3] == "o_projection"@);
    assert(all[4] == "gate_projection"@);
    assert(all[5] == "up_projection"@);
    assert(all[6] == "down_projection"@);
    assert(required_roles() =~= set![
        "q_projection"@,
        "k_projection"@,
        "v_projection"@,
        "o_projection"@,
        "gate_projection"@,
        "up_projection"@,
        "down_projection"@,
    ]) by {
        assert forall|x: Seq<char>| required_roles().contains(x) implies x == all[0] || x == all[1]
            || x == all[2] || x == all[3] || x == all[4] || x == all[5] || x == all[6] by {
            let i = choose|i: int| 0 <= i < all.len() && all[i] == x;
            assert(0 <= i < 7);
        }
    }
}

// ---------------------------------------------------------------------------
// Requests and calibrations
// ---------------------------------------------------------------------------

/// Whether a name may stand in a receipt: some text of at most 256 bytes without
/// control characters.
pub open spec fn is_name(value: Seq<char>) -> bool {
    &&& value.len() > 0
    &&& text_bytes(value) <= 256
    &&& forall|i: int|
        0 <= i < value.len() ==> (#[trigger] value[i]) as nat >= 0x20 && !(0x7f <= value[i] as nat
            <= 0x9f)
}

proof fn names_are_plain(label: Seq<char>, value: Seq<char>)
    ensures
        identity_outcome(label, value) is Ok <==> is_name(value),
{
    if is_name(value) && crate::referee::has_control(value) {
        let i = choose|i: int|
            0 <= i < value.len() && crate::referee::is_control(#[trigger] value[i]);
        assert(value[i] as nat >= 0x20);
    }
    if !crate::referee::has_control(value) {
        assert forall|i: int| 0 <= i < value.len() implies (#[trigger] value[i]) as nat >= 0x20
            && !(0x7f <= value[i] as nat <= 0x9f) by {
            assert(!crate::referee::is_control(value[i]));
        }
    }
}

/// A request is accepted exactly where it is of this schema, names its checkpoint
/// and its quantizer, and is for four or eight bits in groups of some size.
pub proof fn accepted_requests_are_low_bit(input: Input)
    ensures
        input_outcome(input) is Ok <==> {
            &&& input.schema@ == "rvllm.gemma4_quality_referee.input.v1"@
            &&& is_name(input.checkpoint.repository@)
            &&& is_name(input.checkpoint.revision@)
            &&& is_name(input.quantizer.name@)
            &&& is_name(input.quantizer.implementation_revision@)
            &&& input.quantizer.weight_bits == 4 || input.quantizer.weight_bits == 8
            &&& input.quantizer.group_size > 0
        },
{
    names_are_plain("repository"@, input.checkpoint.repository@);
    names_are_plain("revision"@, input.checkpoint.revision@);
    names_are_plain("quantizer"@, input.quantizer.name@);
    names_are_plain("quantizer revision"@, input.quantizer.implementation_revision@);
}

/// A file is accepted exactly where it was read and has the digest of its identity.
pub proof fn accepted_files_have_their_digest(
    identity: FileIdentity,
    actual: Result<Seq<char>, Seq<char>>,
)
    ensures
        file_outcome(identity, actual) is Ok <==> actual == Ok::<Seq<char>, Seq<char>>(
            identity.sha256@,
        ),
{
}

/// Observations are accepted exactly where they are of the request's checkpoint,
/// configuration and fixture, and of the route that is asked for, in every part of
/// its identity.
pub proof fn accepted_observations_are_of_the_request(
    input: Input,
    value: Observations,
    route: RouteIdentity,
)
    ensures
        observed_by(input, value, route) is Ok <==> {
            &&& value.checkpoint_manifest_sha256@ == input.checkpoint.manifest_sha256@
            &&& value.config_sha256@ == input.config.sha256@
            &&& value.fixture_sha256@ == input.fixture.sha256@
            &&& value.route.name@ == route.name@
            &&& value.route.source_tree_sha256@ == route.source_tree_sha256@
            &&& value.route.executable_sha256@ == route.executable_sha256@
            &&& value.route.model_package_sha256@ == route.model_package_sha256@
            &&& value.route.full_model_route == route.full_model_route
        },
{
}

/// Whether a double is a number from a bound up: finite and not below it.
pub open spec fn from_up(bits: u64, least: u64) -> bool {
    bits % 0x8000_0000_0000_0000 < 0x7ff0_0000_0000_0000 && !beyond(least, bits)
}

/// A calibration is accepted only for the fixture that was held out of it, with a
/// protocol and a rationale, for some positions, and with bounds that are finite and
/// not permissive: no delta or increase below zero, a perplexity ratio of one or
/// more, an agreement between nothing and all.
pub proof fn accepted_calibrations_are_not_permissive(c: Calibration, fixture_sha: Seq<char>)
    ensures
        calibration_outcome(c, fixture_sha) is Ok <==> {
            &&& c.schema@ == "rvllm.gemma4_quality_calibration.v1"@
            &&& crate::text::trimmed(c.protocol@).len() > 0
            &&& crate::text::trimmed(c.rationale@).len() > 0
            &&& c.minimum_target_positions > 0
            &&& c.held_out_fixture_sha256@ == fixture_sha
            &&& from_up(c.max_absolute_logit_delta, 0)
            &&& from_up(c.max_mean_absolute_logit_delta, 0)
            &&& from_up(c.max_mean_nll_increase, 0)
            &&& from_up(c.max_perplexity_ratio, 0x3ff0_0000_0000_0000)
            &&& from_up(c.minimum_representative_top1_agreement, 0)
            &&& !beyond(c.minimum_representative_top1_agreement, 0x3ff0_0000_0000_0000)
        },
{
    assert(ONE_BITS == 0x3ff0_0000_0000_0000);
    finite_doubles(c.max_absolute_logit_delta);
    finite_doubles(c.max_mean_absolute_logit_delta);
    finite_doubles(c.max_mean_nll_increase);
    finite_doubles(c.max_perplexity_ratio);
    finite_doubles(c.minimum_representative_top1_agreement);
}

/// A double is finite exactly where its magnitude is below that of infinity.
pub proof fn finite_doubles(bits: u64)
    ensures
        finite_bits(bits) <==> bits % 0x8000_0000_0000_0000 < 0x7ff0_0000_0000_0000,
{
}

// ---------------------------------------------------------------------------
// Comparisons
// ---------------------------------------------------------------------------

/// Whether a token's logit is the largest of some, the first of several.
pub open spec fn leads(logits: Seq<(u32, u64)>, token: u32) -> bool {
    exists|k: int|
        0 <= k < logits.len() && (#[trigger] logits[k]).0 == token && (forall|i: int|
            0 <= i < logits.len() ==> double_key((#[trigger] logits[i]).1) <= double_key(
                logits[k].1,
            )) && forall|i: int|
            0 <= i < k ==> double_key((#[trigger] logits[i]).1) < double_key(logits[k].1)
}

proof fn some_place_is_best(logits: Seq<(u32, u64)>, n: int) -> (k: int)
    requires
        0 < n <= logits.len(),
    ensures
        0 <= k < n,
        forall|i: int|
            0 <= i < n ==> double_key((#[trigger] logits[i]).1) <= double_key(logits[k].1),
        forall|i: int|
            0 <= i < k ==> double_key((#[trigger] logits[i]).1) < double_key(logits[k].1),
    decreases n,
{
    if n == 1 {
        0
    } else {
        let k = some_place_is_best(logits, n - 1);
        if double_key(logits[n - 1].1) > double_key(logits[k].1) {
            n - 1
        } else {
            k
        }
    }
}

proof fn best_leads(logits: Seq<(u32, u64)>)
    requires
        logits.len() > 0,
    ensures
        leads(logits, best_token(logits)),
        forall|t: u32| leads(logits, t) ==> t == best_token(logits),
{
    let k = some_place_is_best(logits, logits.len() as int);
    assert(is_best(logits, k));
    let b = choose|b: int| is_best(logits, b);
    assert(logits[b].0 == best_token(logits));
    assert(leads(logits, best_token(logits)));
    assert forall|t: u32| leads(logits, t) implies t == best_token(logits) by {
        let j = choose|k: int|
            0 <= k < logits.len() && (#[trigger] logits[k]).0 == t && (forall|i: int|
                0 <= i < logits.len() ==> double_key((#[trigger] logits[i]).1) <= double_key(
                    logits[k].1,
                )) && forall|i: int|
                0 <= i < k ==> double_key((#[trigger] logits[i]).1) < double_key(logits[k].1);
        assert(double_key(logits[j].1) <= double_key(logits[b].1));
        assert(double_key(logits[b].1) <= double_key(logits[j].1));
    }
}

/// A position is compared exactly where both routes observed the fixture's target,
/// with likelihoods that are finite and not negative, over the same tokens, with
/// finite logits. It counts those tokens, and agrees exactly where one token has the
/// largest logit in both.
pub proof fn positions_agree_on_the_leading_token(
    id: Seq<char>,
    r: ObservedPosition,
    c: ObservedPosition,
    target: u32,
)
    ensures
        position_outcome(id, r, c, target) is Ok <==> {
            &&& r.target_token_id == target
            &&& c.target_token_id == target
            &&& from_up(r.target_negative_log_likelihood, 0)
            &&& from_up(c.target_negative_log_likelihood, 0)
            &&& r.logits@.len() > 0
            &&& tokens_of(r.logits@) == tokens_of(c.logits@)
            &&& forall|i: int|
                0 <= i < r.logits@.len() ==> finite_bits((#[trigger] r.logits@[i]).1)
            &&& forall|i: int|
                0 <= i < c.logits@.len() ==> finite_bits((#[trigger] c.logits@[i]).1)
        },
        position_outcome(id, r, c, target) matches Ok(tally) ==> {
            &&& tally.logits == r.logits@.len() as usize
            &&& tally.top1_agrees <==> exists|t: u32| #[trigger]
                leads(r.logits@, t) && leads(c.logits@, t)
        },
{
    finite_doubles(r.target_negative_log_likelihood);
    finite_doubles(c.target_negative_log_likelihood);
    if position_outcome(id, r, c, target) is Ok {
        assert(tokens_of(r.logits@).len() == tokens_of(c.logits@).len());
        best_leads(r.logits@);
        best_leads(c.logits@);
    }
}

proof fn positions_in_order(
    id: Seq<char>,
    r: Seq<ObservedPosition>,
    c: Seq<ObservedPosition>,
    targets: Seq<u32>,
    i: int,
    done: Seq<PositionTally>,
)
    requires
        0 <= i <= targets.len(),
        done.len() == i,
    ensures
        positions_from(id, r, c, targets, i, done) matches Ok(tallies) ==> {
            &&& tallies.len() == targets.len()
            &&& forall|j: int| 0 <= j < i ==> #[trigger] tallies[j] == done[j]
            &&& forall|j: int|
                i <= j < targets.len() ==> position_outcome(id, r[j], c[j], targets[j]) == Ok::<
                    PositionTally,
                    Seq<char>,
                >(#[trigger] tallies[j])
        },
    decreases targets.len() - i,
{
    if i < targets.len() {
        match position_outcome(id, r[i], c[i], targets[i]) {
            Err(_) => {},
            Ok(tally) => {
                positions_in_order(id, r, c, targets, i + 1, done.push(tally));
                if positions_from(id, r, c, targets, i, done) is Ok {
                    let tallies = positions_from(id, r, c, targets, i, done)->Ok_0;
                    assert(tallies[i] == done.push(tally)[i]);
                    assert forall|j: int| 0 <= j < i implies #[trigger] tallies[j] == done[j] by {
                        assert(tallies[j] == done.push(tally)[j]);
                    }
                }
            },
        }
    }
}

/// A case is compared position by position: each of its tallies is that of both
/// routes' observations at the position, for the target that the fixture has there,
/// and there is one for each of its tokens.
pub proof fn cases_are_compared_position_by_position(
    f: FixtureCase,
    r: ObservedCase,
    c: ObservedCase,
    j: int,
)
    requires
        case_outcome(f, r, c) is Ok,
    ensures
        ({
            let tallies = case_outcome(f, r, c)->Ok_0;
            &&& tallies.len() == f.token_ids@.len() == f.target_token_ids@.len()
            &&& tallies.len() == r.positions@.len() == c.positions@.len()
            &&& tallies.len() > 0
            &&& 0 <= j < tallies.len() ==> position_outcome(
                f.id@,
                r.positions@[j],
                c.positions@[j],
                f.target_token_ids@[j],
            ) == Ok::<PositionTally, Seq<char>>(tallies[j])
        }),
{
    positions_in_order(
        f.id@,
        r.positions@,
        c.positions@,
        f.target_token_ids@,
        0,
        Seq::empty(),
    );
}

proof fn case_is_found(cases: Seq<ObservedCase>, id: Seq<char>, i: int)
    requires
        0 <= i <= cases.len(),
        exists|k: int| i <= k < cases.len() && (#[trigger] cases[k]).id@ == id,
    ensures
        i <= case_from(cases, id, i) < cases.len(),
        cases[case_from(cases, id, i)].id@ == id,
    decreases cases.len() - i,
{
    if i < cases.len() && cases[i].id@ != id {
        let k = choose|k: int| i <= k < cases.len() && (#[trigger] cases[k]).id@ == id;
        assert(k != i);
        case_is_found(cases, id, i + 1);
    }
}

proof fn cases_in_order(
    fixture: Seq<FixtureCase>,
    r: Seq<ObservedCase>,
    c: Seq<ObservedCase>,
    i: int,
    done: Seq<Seq<PositionTally>>,
)
    requires
        0 <= i <= fixture.len(),
        done.len() == i,
    ensures
        cases_from(fixture, r, c, i, done) matches Ok(tallies) ==> {
            &&& tallies.len() == fixture.len()
            &&& forall|j: int| 0 <= j < i ==> #[trigger] tallies[j] == done[j]
            &&& forall|j: int|
                i <= j < fixture.len() ==> case_outcome(
                    fixture[j],
                    r[case_from(r, fixture[j].id@, 0)],
                    c[case_from(c, fixture[j].id@, 0)],
                ) == Ok::<Seq<PositionTally>, Seq<char>>(#[trigger] tallies[j])
        },
    decreases fixture.len() - i,
{
    if i < fixture.len() {
        match case_outcome(
            fixture[i],
            r[case_from(r, fixture[i].id@, 0)],
            c[case_from(c, fixture[i].id@, 0)],
        ) {
            Err(_) => {},
            Ok(tally) => {
                cases_in_order(fixture, r, c, i + 1, done.push(tally));
                if cases_from(fixture, r, c, i, done) is Ok {
                    let tallies = cases_from(fixture, r, c, i, done)->Ok_0;
                    assert(tallies[i] == done.push(tally)[i]);
                    assert forall|j: int| 0 <= j < i implies #[trigger] tallies[j] == done[j] by {
                        assert(tallies[j] == done.push(tally)[j]);
                    }
                }
            },
        }
    }
}

/// A comparison covers the fixture: each case of it is compared once, in order,
/// between the reference's observations of that case and the candidate's, and
/// neither observed a case that the fixture does not have.
pub proof fn comparisons_cover_the_fixture(
    fixture: Seq<FixtureCase>,
    r: Seq<ObservedCase>,
    c: Seq<ObservedCase>,
    i: int,
    k: int,
)
    requires
        comparison(fixture, r, c) is Ok,
        0 <= i < fixture.len(),
    ensures
        ({
            let tallies = comparison(fixture, r, c)->Ok_0;
            &&& tallies.len() == fixture.len()
            &&& exists|a: int, b: int|
                0 <= a < r.len() && 0 <= b < c.len() && #[trigger] r[a].id@ == fixture[i].id@
                    && #[trigger] c[b].id@ == fixture[i].id@ && case_outcome(
                    fixture[i],
                    r[a],
                    c[b],
                ) == Ok::<Seq<PositionTally>, Seq<char>>(tallies[i])
            &&& r.len() == fixture.len() == c.len()
            &&& 0 <= k < fixture.len() && k != i ==> fixture[k].id@ != fixture[i].id@
        }),
{
    let ids = fixture_ids(fixture);
    cases_in_order(fixture, r, c, 0, Seq::empty());
    assert(ids[i] == fixture[i].id@);
    assert(ids.contains(ids[i]));
    assert(ids.to_set().contains(ids[i]));
    assert(observed_ids(r).to_set().contains(ids[i]));
    let a = choose|a: int| 0 <= a < observed_ids(r).len() && observed_ids(r)[a] == ids[i];
    assert(r[a].id@ == fixture[i].id@);
    case_is_found(r, fixture[i].id@, 0);
    assert(observed_ids(c).to_set().contains(ids[i]));
    let b = choose|b: int| 0 <= b < observed_ids(c).len() && observed_ids(c)[b] == ids[i];
    assert(c[b].id@ == fixture[i].id@);
    case_is_found(c, fixture[i].id@, 0);
    let tallies = comparison(fixture, r, c)->Ok_0;
    assert(tallies == cases_from(fixture, r, c, 0, Seq::empty())->Ok_0);
    assert(case_outcome(
        fixture[i],
        r[case_from(r, fixture[i].id@, 0)],
        c[case_from(c, fixture[i].id@, 0)],
    ) == Ok::<Seq<PositionTally>, Seq<char>>(tallies[i]));
    ids.unique_seq_to_set();
    observed_ids(r).unique_seq_to_set();
    observed_ids(c).unique_seq_to_set();
    if 0 <= k < fixture.len() && k != i {
        assert(ids[k] != ids[i]);
    }
}

// ---------------------------------------------------------------------------
// Totals
// ---------------------------------------------------------------------------

/// The totals of cases are those of their positions: how many there are, how many
/// of them agree, and their logits added up, whichever way the cases are parted.
pub proof fn totals_add_up(
    a: Seq<Seq<PositionTally>>,
    b: Seq<Seq<PositionTally>>,
    position: PositionTally,
)
    ensures
        totals_of(a + b).0 == totals_of(a).0 + totals_of(b).0,
        totals_of(a + b).1 == totals_of(a).1 + totals_of(b).1,
        totals_of(a + b).2 == totals_of(a).2 + totals_of(b).2,
        totals_of(Seq::empty()) == (0nat, 0nat, 0nat),
        totals_of(seq![seq![position]]) == (
            1nat,
            position.logits as nat,
            if position.top1_agrees {
                1nat
            } else {
                0
            },
        ),
    decreases b.len(),
{
    let one = seq![position];
    assert(one.drop_last() =~= Seq::empty());
    assert(seq![one].drop_last() =~= Seq::empty());
    assert(logits_in(one.drop_last()) == 0);
    assert(agreements_in(one.drop_last()) == 0);
    assert(totals_of(seq![one].drop_last()) == (0nat, 0nat, 0nat));
    assert(seq![one].last() == one);
    if b.len() == 0 {
        assert(a + b =~= a);
    } else {
        totals_add_up(a, b.drop_last(), position);
        assert((a + b).drop_last() =~= a + b.drop_last());
    }
}

/// A case's positions count the same together as one by one.
pub proof fn cases_add_up(a: Seq<PositionTally>, b: Seq<PositionTally>)
    ensures
        totals_of(seq![a + b]).0 == totals_of(seq![a]).0 + totals_of(seq![b]).0,
        totals_of(seq![a + b]).1 == totals_of(seq![a]).1 + totals_of(seq![b]).1,
        totals_of(seq![a + b]).2 == totals_of(seq![a]).2 + totals_of(seq![b]).2,
{
    one_case(a);
    one_case(b);
    one_case(a + b);
    tallies_add_up(a, b);
}

proof fn one_case(a: Seq<PositionTally>)
    ensures
        totals_of(seq![a]) == (a.len(), logits_in(a), agreements_in(a)),
{
    assert(seq![a].drop_last() =~= Seq::empty());
    assert(totals_of(seq![a].drop_last()) == (0nat, 0nat, 0nat));
}

proof fn tallies_add_up(a: Seq<PositionTally>, b: Seq<PositionTally>)
    ensures
        logits_in(a + b) == logits_in(a) + logits_in(b),
        agreements_in(a + b) == agreements_in(a) + agreements_in(b),
    decreases b.len(),
{
    if b.len() == 0 {
        assert(a + b =~= a);
    } else {
        tallies_add_up(a, b.drop_last());
        assert((a + b).drop_last() =~= a + b.drop_last());
    }
}

/// A receipt always says that operator correctness is not inferred, and says of a
/// missing calibration, a missing receipt and a partial route exactly where that is
/// so.
pub proof fn limitations_tell_what_is_missing(input: Input, c: Option<Calibration>)
    ensures
        ({
            let said = limitations_of(input, c);
            let missing = (if c is None {
                1int
            } else {
                0
            }) + (if input.coverage.operator_correctness_receipt_sha256 is None {
                1int
            } else {
                0
            }) + (if is_full_route(input) {
                0int
            } else {
                1
            });
            &&& said.len() == 1 + missing
            &&& said[0]
                == "operator correctness is an independent prerequisite and is not inferred from logits or perplexity"@
            &&& c is None ==> said[1]
                == "no acceptance thresholds were supplied; this receipt records metrics but cannot accept quality"@
            &&& !is_full_route(input) ==> said.last()
                == "bounded or partial route: this receipt must not be used as full-model W4/W8 acceptance"@
            &&& input.coverage.operator_correctness_receipt_sha256 is None ==> said.contains(
                "no independently sealed operator-correctness receipt was bound"@,
            )
        }),
{
    let said = limitations_of(input, c);
    if input.coverage.operator_correctness_receipt_sha256 is None {
        let at = if c is None {
            2int
        } else {
            1
        };
        assert(said[at] == "no independently sealed operator-correctness receipt was bound"@);
    }
}

} // verus!
