//! What the weight plans are called, and how many programs they hold.
use crate::ane::static_cache::{graph_count, AneStaticCachePart};
use crate::ane::weight_plan::{cached_only, plan_name, plan_programs, AneWeightPlan};
use vstd::prelude::*;

verus! {

/// Each plan is known by the name that the command line documents.
pub proof fn plans_have_their_names()
    ensures
        plan_name(AneWeightPlan::DynamicFfn) == "dynamic-ffn"@,
        plan_name(AneWeightPlan::StaticFfnDynamicOutput) == "static-ffn"@,
        plan_name(AneWeightPlan::StaticAllCached) == "static-all-cached"@,
        plan_name(AneWeightPlan::StaticLut4FfnCached) == "static-lut4-ffn-cached"@,
        plan_name(AneWeightPlan::StaticInt8FfnCached) == "static-int8-ffn-cached"@,
        plan_name(AneWeightPlan::StaticInt8Chunk4FfnCached) == "static-int8-chunk4-ffn-cached"@,
        plan_name(AneWeightPlan::StaticInt8Down4FfnCached) == "static-int8-down4-ffn-cached"@,
        plan_name(AneWeightPlan::StaticInt8InterleavedFfnCached)
            == "static-int8-interleaved-ffn-cached"@,
        plan_name(AneWeightPlan::StaticInt8FfnTransposeAttentionCached)
            == "static-int8-ffn-transpose-attention-cached"@,
        plan_name(AneWeightPlan::StaticInt8FfnSlidingQkvCached)
            == "static-int8-ffn-sliding-qkv-cached"@,
        plan_name(AneWeightPlan::StaticInt8FfnSlidingQkvTiles4Cached)
            == "static-int8-ffn-sliding-qkv-tiles4-cached"@,
        plan_name(AneWeightPlan::StaticInt8StackedFfnCached) == "static-int8-stacked-ffn-cached"@,
        plan_name(AneWeightPlan::StaticInt8StackedFfnChecked)
            == "static-int8-stacked-ffn-checked"@,
{
}

/// A plan holds the programs of its four cache parts; one that shares its output
/// projection or its feed-forward holds fewer, and one that compares two layouts holds
/// both.
pub proof fn plans_hold_the_programs_of_their_parts(plan: AneWeightPlan)
    ensures
        ({
            let parts = graph_count(AneStaticCachePart::QueryKeyValue) + graph_count(
                AneStaticCachePart::Output,
            ) + graph_count(AneStaticCachePart::FeedForward) + graph_count(
                AneStaticCachePart::VocabularyAndAttention,
            );
            &&& plan is DynamicFfn ==> plan_programs(plan) + 47 == parts
            &&& plan is StaticFfnDynamicOutput ==> plan_programs(plan) + 46 == parts
            &&& plan is StaticInt8StackedFfnChecked ==> plan_programs(plan) == parts + graph_count(
                AneStaticCachePart::FeedForwardInt8Stacked,
            )
            &&& !(plan is DynamicFfn || plan is StaticFfnDynamicOutput || plan
                is StaticInt8StackedFfnChecked) ==> plan_programs(plan) == parts
        }),
        cached_only(plan) <==> !(plan is DynamicFfn || plan is StaticFfnDynamicOutput),
{
}

} // verus!
