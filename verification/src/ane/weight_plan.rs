//! Where a decoder keeps its weights: which programs hold them, how precise
//! they are, and whether a missing program may be compiled.
use crate::text::same;
use vstd::prelude::*;

verus! {

/// Alternate placement keeps the larger FFN weights compiled into each graph.
/// Every arrangement retains all programs and weight allocations during decode.
#[derive(Clone, Copy, Debug, PartialEq, Eq, Structural)]
pub enum AneWeightPlan {
    DynamicFfn,
    StaticFfnDynamicOutput,
    /// Every constant program must already exist in this client's daemon cache.
    /// No compile fallback: preparation stops cleanly on the first cache miss.
    StaticAllCached,
    /// Experimental scalar LUT4 FFNs; other weights remain FP16 constants.
    StaticLut4FfnCached,
    /// Experimental per-output-channel INT8 FFNs; other weights remain FP16.
    StaticInt8FfnCached,
    /// Default-off, single-I/O output-channel chunked INT8 FFN.
    StaticInt8Chunk4FfnCached,
    StaticInt8Down4FfnCached,
    StaticInt8InterleavedFfnCached,
    StaticInt8FfnTransposeAttentionCached,
    /// Experimental INT8 sliding QKV and ordinary INT8 FFNs. Global QKV stays FP16.
    StaticInt8FfnSlidingQkvCached,
    /// Four output-row tiles, only for the already-experimental INT8 sliding QKV.
    StaticInt8FfnSlidingQkvTiles4Cached,
    /// Experimental stacked gate/up layout with the same INT8 weights.
    StaticInt8StackedFfnCached,
    /// Qualification only: compare both FFNs on every activation, bit for bit.
    StaticInt8StackedFfnChecked,
}

/// What happens when a program is not in the client's cache.
#[derive(Clone, Copy, Debug, PartialEq, Eq, Structural)]
pub enum AneProgramCachePolicy {
    Compile,
    RequireExisting,
    ReuseOrCompileUpTo(usize),
}

/// How a constant FFN program stores its weights.
#[derive(Clone, Copy, Debug, PartialEq, Eq, Structural)]
pub enum StaticFfnPrecision {
    Fp16,
    Int8,
    Int8Stacked,
    Int8Chunk4,
    Int8Down4,
    Int8Interleaved,
    Lut4,
}

/// The name of a plan on the command line and in reports.
pub open spec fn plan_name(plan: AneWeightPlan) -> Seq<char> {
    match plan {
        AneWeightPlan::DynamicFfn => "dynamic-ffn"@,
        AneWeightPlan::StaticFfnDynamicOutput => "static-ffn"@,
        AneWeightPlan::StaticAllCached => "static-all-cached"@,
        AneWeightPlan::StaticLut4FfnCached => "static-lut4-ffn-cached"@,
        AneWeightPlan::StaticInt8FfnCached => "static-int8-ffn-cached"@,
        AneWeightPlan::StaticInt8Chunk4FfnCached => "static-int8-chunk4-ffn-cached"@,
        AneWeightPlan::StaticInt8Down4FfnCached => "static-int8-down4-ffn-cached"@,
        AneWeightPlan::StaticInt8InterleavedFfnCached => "static-int8-interleaved-ffn-cached"@,
        AneWeightPlan::StaticInt8FfnTransposeAttentionCached =>
            "static-int8-ffn-transpose-attention-cached"@,
        AneWeightPlan::StaticInt8FfnSlidingQkvCached => "static-int8-ffn-sliding-qkv-cached"@,
        AneWeightPlan::StaticInt8FfnSlidingQkvTiles4Cached =>
            "static-int8-ffn-sliding-qkv-tiles4-cached"@,
        AneWeightPlan::StaticInt8StackedFfnCached => "static-int8-stacked-ffn-cached"@,
        AneWeightPlan::StaticInt8StackedFfnChecked => "static-int8-stacked-ffn-checked"@,
    }
}

/// Whether every constant program of the plan must already be cached.
pub open spec fn cached_only(plan: AneWeightPlan) -> bool {
    plan != AneWeightPlan::DynamicFfn && plan != AneWeightPlan::StaticFfnDynamicOutput
}

pub open spec fn plan_policy(plan: AneWeightPlan) -> AneProgramCachePolicy {
    if cached_only(plan) {
        AneProgramCachePolicy::RequireExisting
    } else {
        AneProgramCachePolicy::Compile
    }
}

/// The precision of a plan's constant FFN programs.
pub open spec fn ffn_precision(plan: AneWeightPlan) -> StaticFfnPrecision {
    match plan {
        AneWeightPlan::DynamicFfn => StaticFfnPrecision::Fp16,
        AneWeightPlan::StaticFfnDynamicOutput => StaticFfnPrecision::Fp16,
        AneWeightPlan::StaticAllCached => StaticFfnPrecision::Fp16,
        AneWeightPlan::StaticLut4FfnCached => StaticFfnPrecision::Lut4,
        AneWeightPlan::StaticInt8FfnCached => StaticFfnPrecision::Int8,
        AneWeightPlan::StaticInt8Chunk4FfnCached => StaticFfnPrecision::Int8Chunk4,
        AneWeightPlan::StaticInt8Down4FfnCached => StaticFfnPrecision::Int8Down4,
        AneWeightPlan::StaticInt8InterleavedFfnCached => StaticFfnPrecision::Int8Interleaved,
        AneWeightPlan::StaticInt8FfnTransposeAttentionCached => StaticFfnPrecision::Int8,
        AneWeightPlan::StaticInt8FfnSlidingQkvCached => StaticFfnPrecision::Int8,
        AneWeightPlan::StaticInt8FfnSlidingQkvTiles4Cached => StaticFfnPrecision::Int8,
        AneWeightPlan::StaticInt8StackedFfnCached => StaticFfnPrecision::Int8Stacked,
        AneWeightPlan::StaticInt8StackedFfnChecked => StaticFfnPrecision::Int8Stacked,
    }
}

/// Whether the plan stores a layer's QKV projection as INT8.
pub open spec fn int8_qkv(plan: AneWeightPlan, sliding: bool) -> bool {
    sliding && (plan == AneWeightPlan::StaticInt8FfnSlidingQkvCached || plan
        == AneWeightPlan::StaticInt8FfnSlidingQkvTiles4Cached)
}

/// How many programs a plan holds: a QKV projection and an FFN per layer of 48,
/// an output projection per layer unless two programs share it, one FFN in all
/// where it is dynamic and two per layer where both are compared, 16 vocabulary
/// tiles and two attention graphs.
pub open spec fn plan_programs(plan: AneWeightPlan) -> nat {
    let qkv: nat = 48;
    let output: nat = if plan == AneWeightPlan::StaticFfnDynamicOutput {
        2
    } else {
        48
    };
    let ffn: nat = if plan == AneWeightPlan::DynamicFfn {
        1
    } else if plan == AneWeightPlan::StaticInt8StackedFfnChecked {
        96
    } else {
        48
    };
    qkv + output + ffn + 16 + 2
}

impl AneWeightPlan {
    pub fn name(self) -> (r: &'static str)
        ensures
            r@ == plan_name(self),
    {
        match self {
            AneWeightPlan::DynamicFfn => "dynamic-ffn",
            AneWeightPlan::StaticFfnDynamicOutput => "static-ffn",
            AneWeightPlan::StaticAllCached => "static-all-cached",
            AneWeightPlan::StaticLut4FfnCached => "static-lut4-ffn-cached",
            AneWeightPlan::StaticInt8FfnCached => "static-int8-ffn-cached",
            AneWeightPlan::StaticInt8Chunk4FfnCached => "static-int8-chunk4-ffn-cached",
            AneWeightPlan::StaticInt8Down4FfnCached => "static-int8-down4-ffn-cached",
            AneWeightPlan::StaticInt8InterleavedFfnCached => "static-int8-interleaved-ffn-cached",
            AneWeightPlan::StaticInt8FfnTransposeAttentionCached =>
                "static-int8-ffn-transpose-attention-cached",
            AneWeightPlan::StaticInt8FfnSlidingQkvCached => "static-int8-ffn-sliding-qkv-cached",
            AneWeightPlan::StaticInt8FfnSlidingQkvTiles4Cached =>
                "static-int8-ffn-sliding-qkv-tiles4-cached",
            AneWeightPlan::StaticInt8StackedFfnCached => "static-int8-stacked-ffn-cached",
            AneWeightPlan::StaticInt8StackedFfnChecked => "static-int8-stacked-ffn-checked",
        }
    }

    pub fn program_count(self) -> (r: usize)
        ensures
            r == plan_programs(self),
    {
        match self {
            AneWeightPlan::DynamicFfn => 115,
            AneWeightPlan::StaticFfnDynamicOutput => 116,
            AneWeightPlan::StaticInt8StackedFfnChecked => 210,
            _ => 162,
        }
    }

    pub fn cache_policy(self) -> (r: AneProgramCachePolicy)
        ensures
            r == plan_policy(self),
    {
        match self {
            AneWeightPlan::DynamicFfn => AneProgramCachePolicy::Compile,
            AneWeightPlan::StaticFfnDynamicOutput => AneProgramCachePolicy::Compile,
            _ => AneProgramCachePolicy::RequireExisting,
        }
    }

    pub fn static_ffn_precision(self) -> (r: StaticFfnPrecision)
        ensures
            r == ffn_precision(self),
    {
        match self {
            AneWeightPlan::StaticInt8Chunk4FfnCached => StaticFfnPrecision::Int8Chunk4,
            AneWeightPlan::StaticInt8Down4FfnCached => StaticFfnPrecision::Int8Down4,
            AneWeightPlan::StaticInt8InterleavedFfnCached => StaticFfnPrecision::Int8Interleaved,
            AneWeightPlan::StaticInt8FfnTransposeAttentionCached => StaticFfnPrecision::Int8,
            AneWeightPlan::StaticInt8FfnCached => StaticFfnPrecision::Int8,
            AneWeightPlan::StaticInt8FfnSlidingQkvCached => StaticFfnPrecision::Int8,
            AneWeightPlan::StaticInt8FfnSlidingQkvTiles4Cached => StaticFfnPrecision::Int8,
            AneWeightPlan::StaticInt8StackedFfnCached => StaticFfnPrecision::Int8Stacked,
            AneWeightPlan::StaticInt8StackedFfnChecked => StaticFfnPrecision::Int8Stacked,
            AneWeightPlan::StaticLut4FfnCached => StaticFfnPrecision::Lut4,
            _ => StaticFfnPrecision::Fp16,
        }
    }

    pub fn quantizes_qkv(self, sliding: bool) -> (r: bool)
        ensures
            r == int8_qkv(self, sliding),
    {
        match self {
            AneWeightPlan::StaticInt8FfnSlidingQkvCached => sliding,
            AneWeightPlan::StaticInt8FfnSlidingQkvTiles4Cached => sliding,
            _ => false,
        }
    }

    /// The plan of a name; no other text names one.
    pub fn from_name(name: &str) -> (r: Option<AneWeightPlan>)
        ensures
            match r {
                Some(plan) => plan_name(plan) == name@,
                None => forall|plan: AneWeightPlan| #[trigger] plan_name(plan) != name@,
            },
    {
        if same(name, "dynamic-ffn") {
            Some(AneWeightPlan::DynamicFfn)
        } else if same(name, "static-ffn") {
            Some(AneWeightPlan::StaticFfnDynamicOutput)
        } else if same(name, "static-all-cached") {
            Some(AneWeightPlan::StaticAllCached)
        } else if same(name, "static-lut4-ffn-cached") {
            Some(AneWeightPlan::StaticLut4FfnCached)
        } else if same(name, "static-int8-ffn-cached") {
            Some(AneWeightPlan::StaticInt8FfnCached)
        } else if same(name, "static-int8-chunk4-ffn-cached") {
            Some(AneWeightPlan::StaticInt8Chunk4FfnCached)
        } else if same(name, "static-int8-down4-ffn-cached") {
            Some(AneWeightPlan::StaticInt8Down4FfnCached)
        } else if same(name, "static-int8-interleaved-ffn-cached") {
            Some(AneWeightPlan::StaticInt8InterleavedFfnCached)
        } else if same(name, "static-int8-ffn-transpose-attention-cached") {
            Some(AneWeightPlan::StaticInt8FfnTransposeAttentionCached)
        } else if same(name, "static-int8-ffn-sliding-qkv-cached") {
            Some(AneWeightPlan::StaticInt8FfnSlidingQkvCached)
        } else if same(name, "static-int8-ffn-sliding-qkv-tiles4-cached") {
            Some(AneWeightPlan::StaticInt8FfnSlidingQkvTiles4Cached)
        } else if same(name, "static-int8-stacked-ffn-cached") {
            Some(AneWeightPlan::StaticInt8StackedFfnCached)
        } else if same(name, "static-int8-stacked-ffn-checked") {
            Some(AneWeightPlan::StaticInt8StackedFfnChecked)
        } else {
            None
        }
    }
}

proof fn name_lengths()
    ensures
        "dynamic-ffn"@.len() == 11,
        "static-ffn"@.len() == 10,
        "static-all-cached"@.len() == 17,
        "static-lut4-ffn-cached"@.len() == 22,
        "static-int8-ffn-cached"@.len() == 22,
        "static-lut4-ffn-cached"@[7] == 'l',
        "static-int8-ffn-cached"@[7] == 'i',
        "static-int8-chunk4-ffn-cached"@.len() == 29,
        "static-int8-down4-ffn-cached"@.len() == 28,
        "static-int8-interleaved-ffn-cached"@.len() == 34,
        "static-int8-interleaved-ffn-cached"@[12] == 'i',
        "static-int8-ffn-transpose-attention-cached"@.len() == 42,
        "static-int8-ffn-sliding-qkv-cached"@.len() == 34,
        "static-int8-ffn-sliding-qkv-cached"@[12] == 'f',
        "static-int8-ffn-sliding-qkv-tiles4-cached"@.len() == 41,
        "static-int8-stacked-ffn-cached"@.len() == 30,
        "static-int8-stacked-ffn-checked"@.len() == 31,
{
    reveal_strlit("dynamic-ffn");
    reveal_strlit("static-ffn");
    reveal_strlit("static-all-cached");
    reveal_strlit("static-lut4-ffn-cached");
    reveal_strlit("static-int8-ffn-cached");
    reveal_strlit("static-int8-chunk4-ffn-cached");
    reveal_strlit("static-int8-down4-ffn-cached");
    reveal_strlit("static-int8-interleaved-ffn-cached");
    reveal_strlit("static-int8-ffn-transpose-attention-cached");
    reveal_strlit("static-int8-ffn-sliding-qkv-cached");
    reveal_strlit("static-int8-ffn-sliding-qkv-tiles4-cached");
    reveal_strlit("static-int8-stacked-ffn-cached");
    reveal_strlit("static-int8-stacked-ffn-checked");
}

/// No two plans share a name.
pub proof fn plan_names_are_distinct(a: AneWeightPlan, b: AneWeightPlan)
    requires
        plan_name(a) == plan_name(b),
    ensures
        a == b,
{
    name_lengths();
}

/// INT8 QKV is confined to sliding layers: a global projection keeps its FP16
/// weights under every plan.
pub proof fn global_qkv_is_never_quantized(plan: AneWeightPlan)
    ensures
        !int8_qkv(plan, false),
{
}

} // verus!
