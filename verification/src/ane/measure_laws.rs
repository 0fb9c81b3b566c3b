//! What the comparison of outputs measures, and what a cache visit records.
use crate::ane::equivalence::{
    bucket, compared, counts, element_equivalent, error_units, material, measured, shorter, spacing,
    tallied, ulps, units, BoundedComparison, Peak, Tally,
};
use crate::ane::half_bits::{half_is_finite, half_units, half_units_monotone, magnitude_of};
use crate::ane::shape::{HEAD_ROWS, VOCAB};
use crate::ane::static_cache::{
    absent_message, graph_at, graph_count, graph_name, layer_program_of, AneStaticCachePart,
    CacheCallModel, CacheGraph, CacheReply, GraphOutcome, LayerProgram, VisitModel,
};
use crate::ane::weight_plan::{AneProgramCachePolicy, StaticFfnPrecision};
use crate::text::decimal;
use vstd::arithmetic::power2::{lemma2_to64, lemma_pow2_unfold, pow2};
use vstd::prelude::*;

verus! {

// ---------------------------------------------------------------------------
// Values
// ---------------------------------------------------------------------------

/// An FP16 number in units of its least magnitude: the subnormal ones count up by
/// one, and every further exponent doubles the number.
pub proof fn exponents_double_the_value(m: nat)
    ensures
        m <= 0x400 ==> half_units(m) == m,
        m >= 0x400 ==> half_units(m + 0x400) == 2 * half_units(m),
{
    lemma2_to64();
    if m >= 0x400 {
        let e = (m / 0x400 - 1) as nat;
        assert((m + 0x400) / 0x400 == m / 0x400 + 1);
        assert((m + 0x400) % 0x400 == m % 0x400);
        lemma_pow2_unfold(e + 1);
        assert((0x400 + m % 0x400) * pow2(e + 1) == 2 * ((0x400 + m % 0x400) * pow2(e)))
            by (nonlinear_arith)
            requires
                pow2(e + 1) == 2 * pow2(e),
        ;
    }
}

proof fn sixty_fourth()
    ensures
        half_units(0x2400) == 0x4_0000,
{
    lemma2_to64();
    let p = pow2(8);
    assert(p == 0x100);
    assert(0x2400nat % 0x400 == 0);
    assert(0x2400nat / 0x400 - 1 == 8);
    assert((0x400 + 0x2400nat % 0x400) * p == 0x4_0000) by (nonlinear_arith)
        requires
            p == 0x100,
            0x2400nat % 0x400 == 0,
    ;
}

/// The value of a number has its sign, the two zeros are one, and the error between
/// two numbers is how far their values are apart, whichever comes first.
pub proof fn errors_are_distances(a: u16, b: u16)
    ensures
        a < 0x8000 ==> units(a) == half_units(a as nat),
        a >= 0x8000 ==> units(a) == -(half_units((a - 0x8000) as nat) as int),
        error_units(a, b) == error_units(b, a),
        error_units(a, b) as int == if units(a) < units(b) {
            units(b) - units(a)
        } else {
            units(a) - units(b)
        },
{
}

/// A pair is material exactly where one of the two is a sixty-fourth or more.
pub proof fn material_pairs_are_a_sixty_fourth_or_more(a: u16, b: u16)
    requires
        half_is_finite(a),
        half_is_finite(b),
    ensures
        material(a, b) <==> a % 0x8000 >= 0x2400 || b % 0x8000 >= 0x2400,
{
    sixty_fourth();
    let (m, n) = (magnitude_of(a), magnitude_of(b));
    if m < 0x2400 {
        half_units_monotone(m, 0x2400);
    } else if m > 0x2400 {
        half_units_monotone(0x2400, m);
    }
    if n < 0x2400 {
        half_units_monotone(n, 0x2400);
    } else if n > 0x2400 {
        half_units_monotone(0x2400, n);
    }
}

/// The spacing of a control is the distance to its neighbour on the side of the
/// candidate: away from zero, or towards it.
#[verifier::rlimit(40)]
pub proof fn spacings_reach_the_next_number(control: u16, candidate: u16)
    requires
        half_is_finite(control),
        half_is_finite(candidate),
        control % 0x8000 != 0,
    ensures
        ({
            let outward = if control < 0x8000 {
                units(candidate) >= units(control)
            } else {
                units(candidate) < units(control)
            };
            if outward {
                spacing(control, candidate) == error_units(control, (control + 1) as u16)
            } else {
                spacing(control, candidate) == error_units(control, (control - 1) as u16)
            }
        }),
{
    let m = magnitude_of(control);
    half_units_monotone(m, m + 1);
    half_units_monotone((m - 1) as nat, m);
    let (more, less) = ((control + 1) as u16, (control - 1) as u16);
    assert(magnitude_of(more) == m + 1);
    assert(magnitude_of(less) == m - 1);
    neighbours(control, m, half_units(m), half_units(m + 1), half_units((m - 1) as nat));
}

proof fn neighbours(control: u16, m: nat, own: nat, more: nat, less: nat)
    requires
        m == magnitude_of(control),
        0 < m < 0x7c00,
        own == half_units(m),
        more == half_units(m + 1),
        less == half_units((m - 1) as nat),
        less < own < more,
    ensures
        error_units(control, (control + 1) as u16) == more - own,
        error_units(control, (control - 1) as u16) == own - less,
{
    assert(magnitude_of((control + 1) as u16) == m + 1);
    assert(magnitude_of((control - 1) as u16) == m - 1);
    assert((control < 0x8000) == (control - 1 < 0x8000));
    assert((control < 0x8000) == (control + 1 < 0x8000));
}

/// An element is equivalent exactly where both numbers are finite, the error is at
/// most a thirty-second, and at most a thousand-and-twenty-fourth or four spacings of
/// the control; and where a sixty-fourth is reached, they are at most four places
/// apart, and otherwise at most 1024 places and a thousand-and-twenty-fourth.
pub proof fn equivalence_bounds_the_error(a: u16, b: u16)
    ensures
        element_equivalent(a, b) <==> {
            &&& a % 0x8000 < 0x7c00
            &&& b % 0x8000 < 0x7c00
            &&& error_units(a, b) * 32 <= 0x100_0000
            &&& error_units(a, b) * 1024 <= 0x100_0000 || error_units(a, b) <= 4 * spacing(a, b)
            &&& if a % 0x8000 >= 0x2400 || b % 0x8000 >= 0x2400 {
                ulps(a, b) <= 4
            } else {
                ulps(a, b) <= 1024 && error_units(a, b) * 1024 <= 0x100_0000
            }
        },
{
    if half_is_finite(a) && half_is_finite(b) {
        material_pairs_are_a_sixty_fourth_or_more(a, b);
    }
}

/// Every number is finite, an infinity or no number, and counts as just that.
pub proof fn numbers_are_of_one_kind(a: u16, b: u16)
    ensures
        counts(Tally::ControlNan, a, b) <==> a % 0x8000 > 0x7c00,
        counts(Tally::ControlPosInf, a, b) <==> a == 0x7c00,
        counts(Tally::ControlNegInf, a, b) <==> a == 0x7c00 + 0x8000,
        counts(Tally::CandidateNan, a, b) <==> b % 0x8000 > 0x7c00,
        counts(Tally::CandidatePosInf, a, b) <==> b == 0x7c00,
        counts(Tally::CandidateNegInf, a, b) <==> b == 0x7c00 + 0x8000,
        counts(Tally::Mismatch, a, b) <==> a % 0x8000 < 0x7c00 && b % 0x8000 < 0x7c00 && a != b,
        half_is_finite(a) <==> !counts(Tally::ControlNan, a, b) && !counts(
            Tally::ControlPosInf,
            a,
            b,
        ) && !counts(Tally::ControlNegInf, a, b),
        half_is_finite(b) <==> !counts(Tally::CandidateNan, a, b) && !counts(
            Tally::CandidatePosInf,
            a,
            b,
        ) && !counts(Tally::CandidateNegInf, a, b),
{
}

/// The places by which two numbers are apart fall into one bucket each: up to four
/// by themselves, then up to 8, 16, 64, 256, 1024, and the rest.
pub proof fn buckets_part_the_places(n: nat)
    ensures
        0 <= bucket(n) <= 10,
        bucket(n) <= 4 <==> n <= 4,
        n <= 4 ==> bucket(n) == n,
        bucket(n) <= 5 <==> n <= 8,
        bucket(n) <= 6 <==> n <= 16,
        bucket(n) <= 7 <==> n <= 64,
        bucket(n) <= 8 <==> n <= 256,
        bucket(n) <= 9 <==> n <= 1024,
{
}

/// A tally is how many of the elements count, each once.
pub proof fn tallies_count_elements(
    tally: Tally,
    control: Seq<u16>,
    candidate: Seq<u16>,
    n: int,
)
    requires
        0 <= n <= shorter(control, candidate),
    ensures
        tallied(tally, control, candidate, n) == Seq::new(n as nat, |i: int| i).filter(
            |i: int| counts(tally, control[i], candidate[i]),
        ).len(),
    decreases n,
{
    reveal(Seq::filter);
    if n > 0 {
        tallies_count_elements(tally, control, candidate, n - 1);
        assert(Seq::new(n as nat, |i: int| i).drop_last() =~= Seq::new((n - 1) as nat, |i: int| i));
    }
}

/// What a peak measures of a pair that is compared: the error, or the places apart,
/// of all pairs, of material ones or of the others.
pub proof fn peaks_measure_their_pairs(a: u16, b: u16)
    requires
        a % 0x8000 < 0x7c00,
        b % 0x8000 < 0x7c00,
    ensures
        measured(Peak::Error, a, b) == error_units(a, b),
        measured(Peak::Ulp, a, b) == ulps(a, b),
        measured(Peak::MaterialUlp, a, b) + measured(Peak::NearZeroUlp, a, b) == ulps(a, b),
        measured(Peak::MaterialUlp, a, b) > 0 ==> a % 0x8000 >= 0x2400 || b % 0x8000 >= 0x2400,
        measured(Peak::NearZeroUlp, a, b) > 0 ==> a % 0x8000 < 0x2400 && b % 0x8000 < 0x2400,
{
    material_pairs_are_a_sixty_fourth_or_more(a, b);
}

proof fn one_bucket_each(control: Seq<u16>, candidate: Seq<u16>, n: int)
    requires
        0 <= n <= shorter(control, candidate),
        forall|i: int|
            0 <= i < n ==> compared(#[trigger] control[i], candidate[i]),
    ensures
        tallied(Tally::Bucket(0), control, candidate, n) + tallied(
            Tally::Bucket(1),
            control,
            candidate,
            n,
        ) + tallied(Tally::Bucket(2), control, candidate, n) + tallied(
            Tally::Bucket(3),
            control,
            candidate,
            n,
        ) + tallied(Tally::Bucket(4), control, candidate, n) + tallied(
            Tally::Bucket(5),
            control,
            candidate,
            n,
        ) + tallied(Tally::Bucket(6), control, candidate, n) + tallied(
            Tally::Bucket(7),
            control,
            candidate,
            n,
        ) + tallied(Tally::Bucket(8), control, candidate, n) + tallied(
            Tally::Bucket(9),
            control,
            candidate,
            n,
        ) + tallied(Tally::Bucket(10), control, candidate, n) == n,
    decreases n,
{
    if n > 0 {
        one_bucket_each(control, candidate, n - 1);
        buckets_part_the_places(ulps(control[n - 1], candidate[n - 1]));
        assert(compared(control[n - 1], candidate[n - 1]));
    }
}

/// The histogram of finite outputs of one length counts every element once.
pub proof fn histograms_count_every_element(
    comparison: BoundedComparison,
    control: Seq<u16>,
    candidate: Seq<u16>,
)
    requires
        comparison.compares(control, candidate),
        comparison.finite_control,
        comparison.finite_candidate,
        control.len() == candidate.len(),
    ensures
        ({
            let h = comparison.ulp_histogram@;
            h.len() == 11 && h[0] + h[1] + h[2] + h[3] + h[4] + h[5] + h[6] + h[7] + h[8] + h[9]
                + h[10] == control.len()
        }),
{
    let n = shorter(control, candidate);
    assert forall|i: int| 0 <= i < n implies compared(#[trigger] control[i], candidate[i]) by {
        assert(half_is_finite(control[i]));
        assert(half_is_finite(candidate[i]));
    }
    one_bucket_each(control, candidate, n);
    let h = comparison.ulp_histogram@;
    assert(h[0] == tallied(Tally::Bucket(0), control, candidate, n));
    assert(h[1] == tallied(Tally::Bucket(1), control, candidate, n));
    assert(h[2] == tallied(Tally::Bucket(2), control, candidate, n));
    assert(h[3] == tallied(Tally::Bucket(3), control, candidate, n));
    assert(h[4] == tallied(Tally::Bucket(4), control, candidate, n));
    assert(h[5] == tallied(Tally::Bucket(5), control, candidate, n));
    assert(h[6] == tallied(Tally::Bucket(6), control, candidate, n));
    assert(h[7] == tallied(Tally::Bucket(7), control, candidate, n));
    assert(h[8] == tallied(Tally::Bucket(8), control, candidate, n));
    assert(h[9] == tallied(Tally::Bucket(9), control, candidate, n));
    assert(h[10] == tallied(Tally::Bucket(10), control, candidate, n));
}

// ---------------------------------------------------------------------------
// Cache visits
// ---------------------------------------------------------------------------

/// Whether a part of the cache has one program for each layer.
pub open spec fn per_layer(part: AneStaticCachePart) -> bool {
    !(part is VocabularyAndAttention) && !(part is AttentionTransposeFlags)
}

/// A part holds a program for each of the forty-eight layers, in order; but for the
/// one that holds both kinds of attention and every row of the vocabulary, and the
/// one that holds both kinds of transposed attention.
pub proof fn parts_hold_their_graphs(part: AneStaticCachePart, layer: usize, row: usize)
    requires
        layer < 48,
        row < VOCAB,
    ensures
        per_layer(part) ==> graph_count(part) == 48 && graph_at(part, layer as int) == (
        CacheGraph::Layer { index: layer }),
        part is AttentionTransposeFlags ==> graph_count(part) == 2 && graph_at(part, 0) == (
        CacheGraph::AttentionTranspose { sliding: true }) && graph_at(part, 1) == (
        CacheGraph::AttentionTranspose { sliding: false }),
        part is VocabularyAndAttention ==> graph_count(part) == 18 && graph_at(part, 0) == (
        CacheGraph::Attention { sliding: true }) && graph_at(part, 1) == (CacheGraph::Attention {
            sliding: false,
        }) && graph_at(part, 2 + row as int / 16384) == (CacheGraph::Vocabulary {
            first: (row - row % 16384) as usize,
        }) && 2 + row as int / 16384 < graph_count(part),
{
    assert(VOCAB == 262144 && HEAD_ROWS == 16384);
    assert((row as int / 16384) * 16384 == row - row % 16384);
}

/// The program of a part for a kind of layer: its projections have the layer's rows
/// and are quantized and tiled only where the part says so of sliding layers, its
/// outputs the layer's width, and its feed-forward the part's precision.
pub proof fn parts_hold_programs_of_their_name(part: AneStaticCachePart, sliding: bool)
    requires
        per_layer(part),
    ensures
        ({
            let rows: usize = if sliding {
                8192
            } else {
                8704
            };
            let width: usize = if sliding {
                4096
            } else {
                8192
            };
            let program = layer_program_of(part, sliding);
            &&& part is QueryKeyValue ==> program == (LayerProgram::Qkv {
                rows,
                int8: false,
                tiles4: false,
            })
            &&& part is QueryKeyValueSlidingInt8 ==> program == (LayerProgram::Qkv {
                rows,
                int8: sliding,
                tiles4: false,
            })
            &&& part is QueryKeyValueSlidingInt8Tiles4 ==> program == (LayerProgram::Qkv {
                rows,
                int8: sliding,
                tiles4: sliding,
            })
            &&& part is Output ==> program == (LayerProgram::Output { width })
            &&& part is FeedForward ==> program == (LayerProgram::Ffn {
                precision: StaticFfnPrecision::Fp16,
            })
            &&& part is FeedForwardLut4 ==> program == (LayerProgram::Ffn {
                precision: StaticFfnPrecision::Lut4,
            })
            &&& part is FeedForwardInt8 ==> program == (LayerProgram::Ffn {
                precision: StaticFfnPrecision::Int8,
            })
            &&& part is FeedForwardInt8Stacked ==> program == (LayerProgram::Ffn {
                precision: StaticFfnPrecision::Int8Stacked,
            })
            &&& part is FeedForwardInt8Chunk4 ==> program == (LayerProgram::Ffn {
                precision: StaticFfnPrecision::Int8Chunk4,
            })
            &&& part is FeedForwardInt8Down4 ==> program == (LayerProgram::Ffn {
                precision: StaticFfnPrecision::Int8Down4,
            })
            &&& part is FeedForwardInt8Interleaved ==> program == (LayerProgram::Ffn {
                precision: StaticFfnPrecision::Int8Interleaved,
            })
        }),
{
}

/// A visit records each graph under its own name: as available exactly where it was
/// loaded. Only an inspection goes on where a program is absent; any other failure
/// ends the visit and is told, with the graph's name where the program was refused.
pub proof fn visits_record_what_was_loaded(m: VisitModel, outcome: GraphOutcome)
    requires
        m.well_formed(),
        m.stage is Preparing,
    ensures
        ({
            let k = m.entries.len() as int;
            let name = graph_name(m.part, graph_at(m.part, k));
            let (n, call) = m.resumed(CacheReply::Prepared(outcome));
            match outcome {
                GraphOutcome::Loaded => n.entries == m.entries.push((name, true)) && !(
                call is Failed),
                GraphOutcome::Refused(e) => if m.inspect && e@ == absent_message() {
                    n.entries == m.entries.push((name, false)) && !(call is Failed)
                } else {
                    n.entries == m.entries && call == (CacheCallModel::Failed {
                        error: "ANE cache "@ + name + ": "@ + e@,
                    })
                },
                GraphOutcome::Unreadable(e) => n.entries == m.entries && call == (
                CacheCallModel::Failed { error: e@ }),
            }
        }),
{
}

/// A visit prepares the next graph it has not recorded, under a policy that an
/// inspection never compiles by and that allows any other visit as many programs as
/// the part has; it completes only when every graph was recorded.
pub proof fn visits_prepare_the_next_graph(m: VisitModel, reply: CacheReply)
    requires
        m.well_formed(),
        m.expects(reply),
    ensures
        ({
            let (n, call) = m.resumed(reply);
            &&& n.part == m.part
            &&& n.inspect == m.inspect
            &&& call matches CacheCallModel::Prepare { graph, policy } ==> {
                &&& n.entries.len() < graph_count(m.part)
                &&& graph == graph_at(m.part, n.entries.len() as int)
                &&& policy == if m.inspect {
                    AneProgramCachePolicy::RequireExisting
                } else {
                    AneProgramCachePolicy::ReuseOrCompileUpTo(graph_count(m.part) as usize)
                }
            }
            &&& call is Completed ==> n.entries.len() == graph_count(m.part)
            &&& call matches CacheCallModel::Validate { capacity } ==> capacity == m.capacity
        }),
{
}

/// The names of graphs tell them apart by what they are: a layer's by its part and
/// number, a tile's by its first row, an attention's by its kind.
pub proof fn graph_names_tell_what_they_are(part: AneStaticCachePart, index: usize, first: usize)
    ensures
        graph_name(part, CacheGraph::Attention { sliding: true }) == "attention/sliding"@,
        graph_name(part, CacheGraph::Attention { sliding: false }) == "attention/global"@,
        graph_name(part, CacheGraph::AttentionTranspose { sliding: true })
            == "attention-transpose/sliding"@,
        graph_name(part, CacheGraph::AttentionTranspose { sliding: false })
            == "attention-transpose/global"@,
        graph_name(part, CacheGraph::Vocabulary { first }) == "vocabulary/"@ + decimal(
            first as nat,
        ),
        part is Output ==> graph_name(part, CacheGraph::Layer { index }) == "Output"@ + "/layer/"@
            + decimal(index as nat),
{
}

} // verus!
