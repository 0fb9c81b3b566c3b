//! The engine's own state and decisions: request admission, deferred release
//! of paged KV, the route of a step, and what a completed step commits,
//! surfaces and releases.
use crate::engine::laws::{ended, held_back};
use crate::engine::reservation::{KvCall, KvReservation, PlannedChain, ReservationModel, Stage};
use crate::engine::types::{
    kv_error, paged_kv_error, refused, scheduler_transition_error,
    ChainView, EngineError, KvChainHandle, MissingCapability, PagedKvError, Refusal,
};
use std::collections::HashSet;
use vstd::prelude::*;
use vstd::std_specs::hash::*;

verus! {

/// How prefill and decode share the accelerators.
#[derive(Clone, Copy, Debug, PartialEq, Eq, Structural)]
pub enum AppleBackendMode {
    MetalOnly,
    MlxPrototype,
    MetalPrefillMetalDecode,
    MetalPrefillAneFfnRollout,
    MetalPrefillAneRolloutExperimental,
}

/// The mode that a runtime configuration asks for.
#[derive(Clone, Copy, Debug, PartialEq, Eq, Structural)]
pub enum ConfiguredBackendMode {
    Disabled,
    MetalOnly,
    MetalPrefillMetalDecode,
    MetalPrefillAneFfnRollout,
    MetalPrefillAneRolloutExperimental,
}

/// What a prefill hands over to.
#[derive(Clone, Copy, Debug, PartialEq, Eq, Structural)]
pub enum HandoffKind {
    MetalPrefillToMetalDecode,
    MetalPrefillToAneFfnRollout,
    MetalPrefillToAneRolloutExperimental,
}

#[derive(Clone, Copy, Debug, PartialEq, Eq, Structural)]
pub enum Platform {
    MacOs,
    Ios,
    Other,
}

/// A rollout's batch: sequences by tokens.
#[derive(Clone, Copy, Debug, PartialEq, Eq, Structural)]
pub struct RolloutBucket {
    pub seqs: u32,
    pub tokens: u32,
}

/// What the engine reads of a runtime plan.
#[derive(Clone, Copy, Debug, PartialEq, Eq, Structural)]
pub struct AppleRuntimePlan {
    pub mode: AppleBackendMode,
    pub rollout_bucket: Option<RolloutBucket>,
    pub rollout_tokens: u32,
    pub ane_cores: u32,
}

pub open spec fn private_ane(mode: AppleBackendMode) -> bool {
    mode == AppleBackendMode::MetalPrefillAneFfnRollout || mode
        == AppleBackendMode::MetalPrefillAneRolloutExperimental
}

impl AppleBackendMode {
    pub fn requires_private_ane(self) -> (r: bool)
        ensures
            r == private_ane(self),
    {
        match self {
            AppleBackendMode::MetalPrefillAneFfnRollout => true,
            AppleBackendMode::MetalPrefillAneRolloutExperimental => true,
            _ => false,
        }
    }
}

/// The prototype mode runs outside the engine's backend.
pub fn backend_plan_is_enabled(plan: &AppleRuntimePlan) -> (r: bool)
    ensures
        r == (plan.mode != AppleBackendMode::MlxPrototype),
{
    !matches!(plan.mode, AppleBackendMode::MlxPrototype)
}

pub open spec fn mode_availability(plan: AppleRuntimePlan, platform: Platform) -> Result<
    (),
    EngineError,
> {
    if private_ane(plan.mode) && platform != Platform::MacOs {
        Err(EngineError::FeatureNotAvailable { missing: MissingCapability::PrivateAne })
    } else if private_ane(plan.mode) && plan.ane_cores == 0 {
        Err(EngineError::FeatureNotAvailable { missing: MissingCapability::AneCores })
    } else {
        Ok(())
    }
}

/// Private ANE modes need macOS and a target with ANE cores.
pub fn enforce_apple_mode_availability(plan: &AppleRuntimePlan, platform: Platform) -> (r: Result<
    (),
    EngineError,
>)
    ensures
        r == mode_availability(*plan, platform),
{
    if plan.mode.requires_private_ane() && !matches!(platform, Platform::MacOs) {
        return Err(EngineError::FeatureNotAvailable { missing: MissingCapability::PrivateAne });
    }
    if plan.mode.requires_private_ane() && plan.ane_cores == 0 {
        return Err(EngineError::FeatureNotAvailable { missing: MissingCapability::AneCores });
    }
    Ok(())
}

pub open spec fn planned_mode(mode: ConfiguredBackendMode) -> Option<AppleBackendMode> {
    match mode {
        ConfiguredBackendMode::Disabled => None,
        ConfiguredBackendMode::MetalOnly => Some(AppleBackendMode::MetalOnly),
        ConfiguredBackendMode::MetalPrefillMetalDecode => Some(
            AppleBackendMode::MetalPrefillMetalDecode,
        ),
        ConfiguredBackendMode::MetalPrefillAneFfnRollout => Some(
            AppleBackendMode::MetalPrefillAneFfnRollout,
        ),
        ConfiguredBackendMode::MetalPrefillAneRolloutExperimental => Some(
            AppleBackendMode::MetalPrefillAneRolloutExperimental,
        ),
    }
}

/// The plan of a runtime configuration; a disabled backend has none.
pub fn runtime_to_apple_plan(
    ane_cores: u32,
    mode: ConfiguredBackendMode,
    rollout_bucket: Option<RolloutBucket>,
    rollout_tokens: u32,
) -> (r: Option<AppleRuntimePlan>)
    ensures
        r == match planned_mode(mode) {
            Some(planned) => Some(
                AppleRuntimePlan { mode: planned, rollout_bucket, rollout_tokens, ane_cores },
            ),
            None => None,
        },
{
    let planned = match mode {
        ConfiguredBackendMode::Disabled => {
            return None;
        },
        ConfiguredBackendMode::MetalOnly => AppleBackendMode::MetalOnly,
        ConfiguredBackendMode::MetalPrefillMetalDecode => AppleBackendMode::MetalPrefillMetalDecode,
        ConfiguredBackendMode::MetalPrefillAneFfnRollout =>
            AppleBackendMode::MetalPrefillAneFfnRollout,
        ConfiguredBackendMode::MetalPrefillAneRolloutExperimental =>
            AppleBackendMode::MetalPrefillAneRolloutExperimental,
    };
    Some(AppleRuntimePlan { mode: planned, rollout_bucket, rollout_tokens, ane_cores })
}

/// The backend that a plan runs on when none was given.
#[derive(Clone, Copy, Debug, PartialEq, Eq, Structural)]
pub enum BackendRoute {
    Production,
    ModelMetal,
    ModelPackage,
    ToyMetal,
}

pub open spec fn backend_route(
    mode: AppleBackendMode,
    platform: Platform,
    has_weights: bool,
    toy_enabled: bool,
) -> Result<BackendRoute, EngineError> {
    if private_ane(mode) {
        if platform == Platform::MacOs {
            Ok(BackendRoute::Production)
        } else {
            Err(EngineError::FeatureNotAvailable { missing: MissingCapability::PrivateAne })
        }
    } else {
        match platform {
            Platform::Other => Err(
                EngineError::FeatureNotAvailable { missing: MissingCapability::AppleTarget },
            ),
            Platform::MacOs => if has_weights {
                Ok(BackendRoute::ModelMetal)
            } else if toy_enabled {
                Ok(BackendRoute::ToyMetal)
            } else {
                Err(EngineError::FeatureNotAvailable { missing: MissingCapability::MetalModelDir })
            },
            Platform::Ios => if has_weights {
                Ok(BackendRoute::ModelPackage)
            } else {
                Err(EngineError::FeatureNotAvailable { missing: MissingCapability::MetalModelDir })
            },
        }
    }
}

/// Selects the default backend of a plan. The toy backend needs an explicit
/// opt-in and exists on macOS only.
pub fn default_apple_backend_for_plan(
    plan: &AppleRuntimePlan,
    platform: Platform,
    has_weights: bool,
    toy_enabled: bool,
) -> (r: Result<BackendRoute, EngineError>)
    ensures
        r == backend_route(plan.mode, platform, has_weights, toy_enabled),
{
    if plan.mode.requires_private_ane() {
        return match platform {
            Platform::MacOs => Ok(BackendRoute::Production),
            _ => Err(
                EngineError::FeatureNotAvailable { missing: MissingCapability::PrivateAne },
            ),
        };
    }
    match platform {
        Platform::MacOs => {
            if has_weights {
                return Ok(BackendRoute::ModelMetal);
            }
            if toy_enabled {
                return Ok(BackendRoute::ToyMetal);
            }
            Err(EngineError::FeatureNotAvailable { missing: MissingCapability::MetalModelDir })
        },
        Platform::Ios => {
            if has_weights {
                return Ok(BackendRoute::ModelPackage);
            }
            Err(EngineError::FeatureNotAvailable { missing: MissingCapability::MetalModelDir })
        },
        Platform::Other => Err(
            EngineError::FeatureNotAvailable { missing: MissingCapability::AppleTarget },
        ),
    }
}

pub open spec fn handoff_kind(mode: AppleBackendMode) -> HandoffKind {
    match mode {
        AppleBackendMode::MetalPrefillAneFfnRollout => HandoffKind::MetalPrefillToAneFfnRollout,
        AppleBackendMode::MetalPrefillAneRolloutExperimental =>
            HandoffKind::MetalPrefillToAneRolloutExperimental,
        _ => HandoffKind::MetalPrefillToMetalDecode,
    }
}

pub fn match_apple_mode_to_handoff_kind(mode: AppleBackendMode) -> (r: HandoffKind)
    ensures
        r == handoff_kind(mode),
{
    match mode {
        AppleBackendMode::MetalPrefillAneFfnRollout => HandoffKind::MetalPrefillToAneFfnRollout,
        AppleBackendMode::MetalPrefillAneRolloutExperimental =>
            HandoffKind::MetalPrefillToAneRolloutExperimental,
        _ => HandoffKind::MetalPrefillToMetalDecode,
    }
}

/// A batch that the scheduler planned.
#[derive(Debug)]
pub enum BatchPlan {
    Prefill {
        req_ids: Vec<u64>,
        cu_seqlens_q: Vec<u32>,
        context_lens: Vec<u32>,
        kv_chains: Vec<Option<KvChainHandle>>,
    },
    Decode { req_ids: Vec<u64>, context_lens: Vec<u32>, kv_chains: Vec<Option<KvChainHandle>> },
    Idle,
}

/// A token that the backend sampled for a request.
#[derive(Clone, Copy, Debug, PartialEq, Eq, Structural)]
pub struct StepToken {
    pub req_id: u64,
    pub token_id: u32,
    pub finished: bool,
}

/// Output of one step: request, new token, finished flag.
#[derive(Clone, Copy, Debug, PartialEq, Eq, Structural)]
pub struct StepOutput {
    pub req_id: u64,
    pub new_token: u32,
    pub finished: bool,
}

/// What a request's admission asks of the host next.
#[derive(Clone, Copy, Debug, PartialEq, Eq, Structural)]
pub enum AdmissionCall {
    /// Allocate an empty chain for the request.
    Allocate { req_id: u64 },
    /// Offer the request, with its chain, to the scheduler.
    Enqueue { chain: Option<KvChainHandle> },
    /// Release the chain, ignoring failures, and report the error.
    Release { handle: KvChainHandle, error: EngineError },
    Admitted,
    Rejected { error: EngineError },
}

/// How an admission starts: with a pool, a chain is allocated first.
pub open spec fn admission_begun(paged_kv: bool, req_id: u64) -> AdmissionCall {
    if paged_kv {
        AdmissionCall::Allocate { req_id }
    } else {
        AdmissionCall::Enqueue { chain: None }
    }
}

pub open spec fn after_allocation(
    req_id: u64,
    allocated: Result<KvChainHandle, PagedKvError>,
) -> AdmissionCall {
    match allocated {
        Ok(handle) => AdmissionCall::Enqueue { chain: Some(handle) },
        Err(e) => AdmissionCall::Rejected { error: kv_error(e, Some(req_id)) },
    }
}

/// A request that the scheduler turns down gives its chain back.
pub open spec fn after_offer(accepted: bool, chain: Option<KvChainHandle>) -> AdmissionCall {
    if accepted {
        AdmissionCall::Admitted
    } else {
        match chain {
            Some(handle) => AdmissionCall::Release {
                handle,
                error: refused(None, Refusal::AdmissionRejected),
            },
            None => AdmissionCall::Rejected {
                error: refused(None, Refusal::AdmissionRejected),
            },
        }
    }
}

/// How the scheduler answered a request that restores a cached prefix.
#[derive(Clone, Copy, Debug, PartialEq, Eq, Structural)]
pub enum CachedAdmission {
    ExceedsPrompt,
    Rejected,
    Accepted,
}

/// What a submitted step launches.
#[derive(Clone, Copy, Debug, PartialEq, Eq, Structural)]
pub enum Launch {
    /// No accelerator takes part.
    Unaccelerated,
    /// The step needs a backend and there is none: undo the reservation and
    /// report the error.
    MissingBackend { error: EngineError },
    /// Nothing was planned.
    Idle,
    Prefill { kind: HandoffKind },
    /// A decode; a bucketed one selects its rollout bucket first.
    Rollout { kind: HandoffKind, bucketed: bool },
}

/// The route of a step: whether KV is reserved first, and what is launched.
#[derive(Clone, Copy, Debug, PartialEq, Eq, Structural)]
pub struct StepRoute {
    pub reserve: bool,
    pub launch: Launch,
}

/// What a completed step commits and surfaces.
#[derive(Debug)]
pub struct CollectedStep {
    pub decoded: Vec<(u64, u32)>,
    pub outputs: Vec<StepOutput>,
    pub finished: Vec<u64>,
}

/// The engine: its requests whose KV outlives them, and its configuration.
pub struct Engine {
    /// Requests whose chain is paired with a cache attachment or deferred:
    /// normal terminal and cancellation paths leave their pages alone.
    pub cache_managed_kv: HashSet<u64>,
    pub paged_kv: bool,
    pub paged_kv_layout_fingerprint: [u8; 32],
    pub apple_backend: bool,
    pub apple_runtime_plan: Option<AppleRuntimePlan>,
}

/// The kinds of batch that a step's route depends on.
pub open spec fn step_route(
    plan: BatchPlan,
    apple: Option<AppleRuntimePlan>,
    paged_kv: bool,
    backend: bool,
    platform: Platform,
) -> Result<StepRoute, EngineError> {
    match apple {
        None => Ok(StepRoute { reserve: false, launch: Launch::Unaccelerated }),
        Some(apple) => match mode_availability(apple, platform) {
            Err(e) => Err(e),
            Ok(_) => if apple.mode == AppleBackendMode::MlxPrototype {
                Ok(StepRoute { reserve: false, launch: Launch::Unaccelerated })
            } else {
                Ok(
                    StepRoute {
                        reserve: !(plan is Idle) && paged_kv,
                        launch: if !backend {
                            Launch::MissingBackend {
                                error: EngineError::FeatureNotAvailable {
                                    missing: MissingCapability::Backend,
                                },
                            }
                        } else {
                            match plan {
                                BatchPlan::Prefill { .. } => Launch::Prefill {
                                    kind: handoff_kind(apple.mode),
                                },
                                BatchPlan::Decode { .. } => Launch::Rollout {
                                    kind: handoff_kind(apple.mode),
                                    bucketed: private_ane(apple.mode),
                                },
                                BatchPlan::Idle => Launch::Idle,
                            }
                        },
                    },
                )
            },
        },
    }
}

/// The requests of a plan, in order.
pub open spec fn plan_requests(plan: BatchPlan) -> Seq<u64> {
    match plan {
        BatchPlan::Prefill { req_ids, .. } => req_ids@,
        BatchPlan::Decode { req_ids, .. } => req_ids@,
        BatchPlan::Idle => Seq::empty(),
    }
}

pub open spec fn plan_contexts(plan: BatchPlan) -> Seq<u32> {
    match plan {
        BatchPlan::Prefill { context_lens, .. } => context_lens@,
        BatchPlan::Decode { context_lens, .. } => context_lens@,
        BatchPlan::Idle => Seq::empty(),
    }
}

pub open spec fn plan_chains(plan: BatchPlan) -> Seq<Option<KvChainHandle>> {
    match plan {
        BatchPlan::Prefill { kv_chains, .. } => kv_chains@,
        BatchPlan::Decode { kv_chains, .. } => kv_chains@,
        BatchPlan::Idle => Seq::empty(),
    }
}

/// The rows of a plan's reservation.
pub open spec fn plan_rows(plan: BatchPlan) -> Seq<PlannedChain> {
    Seq::new(
        plan_requests(plan).len(),
        |i: int|
            PlannedChain {
                req_id: plan_requests(plan)[i],
                context_len: plan_contexts(plan)[i],
                chain: plan_chains(plan)[i],
            },
    )
}

/// The prefilled lengths of the requests that are still alive.
pub open spec fn completed_spans(
    req_ids: Seq<u64>,
    cu_seqlens: Seq<u32>,
    alive: Set<u64>,
    count: int,
) -> Seq<(u64, u32)>
    decreases count,
{
    if count <= 0 {
        Seq::empty()
    } else {
        let before = completed_spans(req_ids, cu_seqlens, alive, count - 1);
        if alive.contains(req_ids[count - 1]) {
            before.push(
                (req_ids[count - 1], (cu_seqlens[count] - cu_seqlens[count - 1]) as u32),
            )
        } else {
            before
        }
    }
}

/// How many requests of a prefill have a span: the shorter of the two lists.
pub open spec fn span_count(req_ids: Seq<u64>, cu_seqlens: Seq<u32>) -> int {
    if cu_seqlens.len() == 0 {
        0
    } else if req_ids.len() <= cu_seqlens.len() - 1 {
        req_ids.len() as int
    } else {
        cu_seqlens.len() - 1
    }
}

pub open spec fn spans_ascend(cu_seqlens: Seq<u32>) -> bool {
    forall|i: int| 0 <= i < cu_seqlens.len() - 1 ==> #[trigger] cu_seqlens[i] <= cu_seqlens[i + 1]
}

pub open spec fn output_of(token: StepToken) -> StepOutput {
    StepOutput { req_id: token.req_id, new_token: token.token_id, finished: token.finished }
}

/// The tokens of requests that are still alive, in order.
pub open spec fn surfaced(tokens: Seq<StepToken>, alive: Set<u64>) -> Seq<StepToken> {
    tokens.filter(|t: StepToken| alive.contains(t.req_id))
}

impl BatchPlan {
    pub fn req_ids(&self) -> (r: Vec<u64>)
        ensures
            r@ == plan_requests(*self),
    {
        match self {
            BatchPlan::Prefill { req_ids, .. } => req_ids.clone(),
            BatchPlan::Decode { req_ids, .. } => req_ids.clone(),
            BatchPlan::Idle => Vec::new(),
        }
    }
}

fn rows_of(
    req_ids: &Vec<u64>,
    context_lens: &Vec<u32>,
    kv_chains: &Vec<Option<KvChainHandle>>,
) -> (r: Vec<PlannedChain>)
    requires
        req_ids@.len() == context_lens@.len() == kv_chains@.len(),
    ensures
        r@ == Seq::new(
            req_ids@.len(),
            |i: int|
                PlannedChain {
                    req_id: req_ids@[i],
                    context_len: context_lens@[i],
                    chain: kv_chains@[i],
                },
        ),
{
    let mut rows: Vec<PlannedChain> = Vec::new();
    let mut i: usize = 0;
    while i < req_ids.len()
        invariant
            i <= req_ids@.len(),
            req_ids@.len() == context_lens@.len() == kv_chains@.len(),
            rows@ =~= Seq::new(
                i as nat,
                |j: int|
                    PlannedChain {
                        req_id: req_ids@[j],
                        context_len: context_lens@[j],
                        chain: kv_chains@[j],
                    },
            ),
        decreases req_ids@.len() - i,
    {
        rows.push(
            PlannedChain {
                req_id: req_ids[i],
                context_len: context_lens[i],
                chain: kv_chains[i],
            },
        );
        i = i + 1;
    }
    rows
}

impl Engine {
    /// The requests whose KV the engine leaves to their cache attachments.
    pub open spec fn managed(&self) -> Set<u64> {
        self.cache_managed_kv@
    }

    /// The configuration is that of `other`.
    pub open spec fn configured_as(&self, other: &Engine) -> bool {
        &&& self.paged_kv == other.paged_kv
        &&& self.paged_kv_layout_fingerprint == other.paged_kv_layout_fingerprint
        &&& self.apple_backend == other.apple_backend
        &&& self.apple_runtime_plan == other.apple_runtime_plan
    }

    pub fn new() -> (r: Engine)
        ensures
            r.managed() == Set::<u64>::empty(),
            !r.paged_kv,
            r.paged_kv_layout_fingerprint@ == Seq::new(32, |i: int| 0u8),
            !r.apple_backend,
            r.apple_runtime_plan is None,
    {
        let fingerprint: [u8; 32] = [0u8;32];
        assert(fingerprint@ =~= Seq::new(32, |i: int| 0u8));
        Engine {
            cache_managed_kv: HashSet::new(),
            paged_kv: false,
            paged_kv_layout_fingerprint: fingerprint,
            apple_backend: false,
            apple_runtime_plan: None,
        }
    }

    /// Records that the host keeps a paged KV pool with this layout.
    pub fn with_paged_kv_pool(self, model_layout_fingerprint: [u8; 32]) -> (r: Engine)
        ensures
            r.managed() == self.managed(),
            r.paged_kv,
            r.paged_kv_layout_fingerprint == model_layout_fingerprint,
            r.apple_backend == self.apple_backend,
            r.apple_runtime_plan == self.apple_runtime_plan,
    {
        Engine {
            cache_managed_kv: self.cache_managed_kv,
            paged_kv: true,
            paged_kv_layout_fingerprint: model_layout_fingerprint,
            apple_backend: self.apple_backend,
            apple_runtime_plan: self.apple_runtime_plan,
        }
    }

    /// Records a pool that the host tried to build from a configuration.
    pub fn with_paged_kv_config(
        self,
        pool: Result<(), PagedKvError>,
        model_layout_fingerprint: [u8; 32],
    ) -> (r: Result<Engine, EngineError>)
        ensures
            match (pool, r) {
                (Ok(_), Ok(e)) => {
                    &&& e.managed() == self.managed()
                    &&& e.paged_kv
                    &&& e.paged_kv_layout_fingerprint == model_layout_fingerprint
                    &&& e.apple_backend == self.apple_backend
                    &&& e.apple_runtime_plan == self.apple_runtime_plan
                },
                (Err(error), Err(e)) => e == kv_error(error, None),
                _ => false,
            },
    {
        match pool {
            Ok(_) => Ok(self.with_paged_kv_pool(model_layout_fingerprint)),
            Err(error) => Err(paged_kv_error(error, None)),
        }
    }

    pub fn with_apple_backend(self) -> (r: Engine)
        ensures
            r.managed() == self.managed(),
            r.paged_kv == self.paged_kv,
            r.paged_kv_layout_fingerprint == self.paged_kv_layout_fingerprint,
            r.apple_backend,
            r.apple_runtime_plan == self.apple_runtime_plan,
    {
        Engine {
            cache_managed_kv: self.cache_managed_kv,
            paged_kv: self.paged_kv,
            paged_kv_layout_fingerprint: self.paged_kv_layout_fingerprint,
            apple_backend: true,
            apple_runtime_plan: self.apple_runtime_plan,
        }
    }

    /// Adopts a validated plan. Without a backend the plan's default one is
    /// selected; the host builds it and prepares it with the plan.
    pub fn with_apple_runtime_plan(
        self,
        plan: AppleRuntimePlan,
        platform: Platform,
        has_weights: bool,
        toy_enabled: bool,
    ) -> (r: Result<(Engine, Option<BackendRoute>), EngineError>)
        ensures
            match r {
                Ok((e, route)) => {
                    &&& e.managed() == self.managed()
                    &&& e.paged_kv == self.paged_kv
                    &&& e.paged_kv_layout_fingerprint == self.paged_kv_layout_fingerprint
                    &&& e.apple_backend
                    &&& e.apple_runtime_plan == Some(plan)
                    &&& if self.apple_backend {
                        route is None
                    } else {
                        route is Some && backend_route(
                            plan.mode,
                            platform,
                            has_weights,
                            toy_enabled,
                        ) == Ok::<BackendRoute, EngineError>(route->0)
                    }
                },
                Err(e) => !self.apple_backend && backend_route(
                    plan.mode,
                    platform,
                    has_weights,
                    toy_enabled,
                ) == Err::<BackendRoute, EngineError>(e),
            },
    {
        let mut route: Option<BackendRoute> = None;
        if !self.apple_backend {
            match default_apple_backend_for_plan(&plan, platform, has_weights, toy_enabled) {
                Ok(selected) => {
                    route = Some(selected);
                },
                Err(e) => {
                    return Err(e);
                },
            }
        }
        Ok(
            (
                Engine {
                    cache_managed_kv: self.cache_managed_kv,
                    paged_kv: self.paged_kv,
                    paged_kv_layout_fingerprint: self.paged_kv_layout_fingerprint,
                    apple_backend: true,
                    apple_runtime_plan: Some(plan),
                },
                route,
            ),
        )
    }

    /// Adopts the plan of a runtime configuration; a disabled backend leaves the
    /// engine as it is.
    pub fn with_apple_runtime_config(
        self,
        configured: Option<AppleRuntimePlan>,
        platform: Platform,
        has_weights: bool,
        toy_enabled: bool,
    ) -> (r: Result<(Engine, Option<BackendRoute>), EngineError>)
        ensures
            match (configured, r) {
                (None, Ok((e, route))) => e == self && route is None,
                (None, Err(_)) => false,
                (Some(plan), Ok((e, route))) => {
                    &&& e.managed() == self.managed()
                    &&& e.paged_kv == self.paged_kv
                    &&& e.paged_kv_layout_fingerprint == self.paged_kv_layout_fingerprint
                    &&& e.apple_backend
                    &&& e.apple_runtime_plan == Some(plan)
                    &&& if self.apple_backend {
                        route is None
                    } else {
                        route is Some && backend_route(
                            plan.mode,
                            platform,
                            has_weights,
                            toy_enabled,
                        ) == Ok::<BackendRoute, EngineError>(route->0)
                    }
                },
                (Some(plan), Err(e)) => !self.apple_backend && backend_route(
                    plan.mode,
                    platform,
                    has_weights,
                    toy_enabled,
                ) == Err::<BackendRoute, EngineError>(e),
            },
    {
        match configured {
            None => Ok((self, None)),
            Some(plan) => self.with_apple_runtime_plan(plan, platform, has_weights, toy_enabled),
        }
    }

    /// Work is pending while the scheduler holds a live request.
    pub fn has_pending_work(&self, num_alive: usize) -> (r: bool)
        ensures
            r == (num_alive > 0),
    {
        num_alive > 0
    }

    /// Admits a request: with a pool, its chain is allocated first.
    pub fn enqueue_request(&self, req_id: u64) -> (r: AdmissionCall)
        ensures
            r == admission_begun(self.paged_kv, req_id),
    {
        if self.paged_kv {
            AdmissionCall::Allocate { req_id }
        } else {
            AdmissionCall::Enqueue { chain: None }
        }
    }

    pub fn admission_allocated(
        &self,
        req_id: u64,
        allocated: Result<KvChainHandle, PagedKvError>,
    ) -> (r: AdmissionCall)
        ensures
            r == after_allocation(req_id, allocated),
    {
        match allocated {
            Ok(handle) => AdmissionCall::Enqueue { chain: Some(handle) },
            Err(e) => AdmissionCall::Rejected { error: paged_kv_error(e, Some(req_id)) },
        }
    }

    /// A request that the scheduler turns down gives its chain back.
    pub fn admission_answered(&self, accepted: bool, chain: Option<KvChainHandle>) -> (r:
        AdmissionCall)
        ensures
            r == after_offer(accepted, chain),
    {
        if accepted {
            return AdmissionCall::Admitted;
        }
        let error = scheduler_transition_error(None, Refusal::AdmissionRejected);
        match chain {
            Some(handle) => AdmissionCall::Release { handle, error },
            None => AdmissionCall::Rejected { error },
        }
    }

    /// Whether a cache-created chain may be adopted: it must belong to the
    /// request and cover exactly the matched tokens. Without a pool the view is
    /// not looked at.
    pub fn check_cache_attachment(
        &self,
        req_id: u64,
        matched_tokens: u32,
        view: Result<ChainView, PagedKvError>,
    ) -> (r: Result<(), EngineError>)
        ensures
            r == if !self.paged_kv {
                Err::<(), EngineError>(refused(Some(req_id), Refusal::PoolNotConfigured))
            } else {
                match view {
                    Err(e) => Err(kv_error(e, Some(req_id))),
                    Ok(view) => if view.owner != req_id || view.token_len != matched_tokens {
                        Err(refused(Some(req_id), Refusal::AttachmentMismatch))
                    } else {
                        Ok(())
                    },
                }
            },
    {
        if !self.paged_kv {
            return Err(scheduler_transition_error(Some(req_id), Refusal::PoolNotConfigured));
        }
        match view {
            Err(e) => Err(paged_kv_error(e, Some(req_id))),
            Ok(view) => {
                if view.owner != req_id || view.token_len != matched_tokens {
                    return Err(
                        scheduler_transition_error(Some(req_id), Refusal::AttachmentMismatch),
                    );
                }
                Ok(())
            },
        }
    }

    /// Records how the scheduler answered a request with a checked cache
    /// attachment: an accepted one keeps its chain until the attachment is
    /// released.
    pub fn enqueue_request_with_cache_attachment(
        &mut self,
        req_id: u64,
        answer: CachedAdmission,
    ) -> (r: Result<(), EngineError>)
        ensures
            final(self).configured_as(old(self)),
            match answer {
                CachedAdmission::ExceedsPrompt => r == Err::<(), EngineError>(
                    refused(Some(req_id), Refusal::AttachmentExceedsPrompt),
                ) && final(self).managed() == old(self).managed(),
                CachedAdmission::Rejected => r == Err::<(), EngineError>(
                    refused(Some(req_id), Refusal::CachedAdmissionRejected),
                ) && final(self).managed() == old(self).managed(),
                CachedAdmission::Accepted => r == Ok::<(), EngineError>(()) && final(self).managed() == old(self).managed().insert(req_id),
            },
    {
        match answer {
            CachedAdmission::ExceedsPrompt => Err(
                scheduler_transition_error(Some(req_id), Refusal::AttachmentExceedsPrompt),
            ),
            CachedAdmission::Rejected => Err(
                scheduler_transition_error(Some(req_id), Refusal::CachedAdmissionRejected),
            ),
            CachedAdmission::Accepted => {
                broadcast use vstd::std_specs::hash::group_hash_axioms;

                self.cache_managed_kv.insert(req_id);
                Ok(())
            },
        }
    }

    /// Keeps a request's chain alive past its terminal collection. `chain` is
    /// the view of the chain bound to the request, or nothing where none is
    /// bound; without a pool the view is not looked at.
    pub fn defer_paged_kv_release(
        &mut self,
        req_id: u64,
        chain: Option<Result<ChainView, PagedKvError>>,
    ) -> (r: Result<(), EngineError>)
        ensures
            final(self).configured_as(old(self)),
            r == match chain {
                None => Err::<(), EngineError>(refused(Some(req_id), Refusal::NoChainToDefer)),
                Some(view) => if !old(self).paged_kv {
                    Err(refused(Some(req_id), Refusal::PoolNotConfigured))
                } else {
                    match view {
                        Err(e) => Err(kv_error(e, Some(req_id))),
                        Ok(view) => if view.owner != req_id {
                            Err(refused(Some(req_id), Refusal::DeferredOwnerMismatch))
                        } else {
                            Ok(())
                        },
                    }
                },
            },
            final(self).managed() == if r is Ok {
                old(self).managed().insert(req_id)
            } else {
                old(self).managed()
            },
    {
        match chain {
            None => Err(scheduler_transition_error(Some(req_id), Refusal::NoChainToDefer)),
            Some(view) => {
                if !self.paged_kv {
                    return Err(scheduler_transition_error(Some(req_id), Refusal::PoolNotConfigured));
                }
                match view {
                    Err(e) => Err(paged_kv_error(e, Some(req_id))),
                    Ok(view) => {
                        if view.owner != req_id {
                            return Err(
                                scheduler_transition_error(
                                    Some(req_id),
                                    Refusal::DeferredOwnerMismatch,
                                ),
                            );
                        }
                        broadcast use vstd::std_specs::hash::group_hash_axioms;

                        self.cache_managed_kv.insert(req_id);
                        Ok(())
                    },
                }
            },
        }
    }

    /// Whether a request's deferred KV may be released now.
    pub fn check_deferred_paged_kv(&self, req_id: u64) -> (r: Result<(), EngineError>)
        ensures
            r == if self.managed().contains(req_id) {
                Ok::<(), EngineError>(())
            } else {
                Err(refused(Some(req_id), Refusal::NotDeferred))
            },
    {
        broadcast use vstd::std_specs::hash::group_hash_axioms;

        if !self.cache_managed_kv.contains(&req_id) {
            return Err(scheduler_transition_error(Some(req_id), Refusal::NotDeferred));
        }
        Ok(())
    }

    /// Records the release of deferred KV. `released` is what the pool answered;
    /// a failed release keeps the request's pages deferred.
    pub fn release_deferred_paged_kv(
        &mut self,
        req_id: u64,
        released: Result<(), PagedKvError>,
    ) -> (r: Result<(), EngineError>)
        ensures
            final(self).configured_as(old(self)),
            r == if !old(self).managed().contains(req_id) {
                Err::<(), EngineError>(refused(Some(req_id), Refusal::NotDeferred))
            } else {
                match released {
                    Err(e) if old(self).paged_kv => Err(kv_error(e, Some(req_id))),
                    _ => Ok(()),
                }
            },
            final(self).managed() == if r is Ok {
                old(self).managed().remove(req_id)
            } else {
                old(self).managed()
            },
    {
        broadcast use vstd::std_specs::hash::group_hash_axioms;

        if !self.cache_managed_kv.contains(&req_id) {
            return Err(scheduler_transition_error(Some(req_id), Refusal::NotDeferred));
        }
        if self.paged_kv {
            match released {
                Err(e) => {
                    return Err(paged_kv_error(e, Some(req_id)));
                },
                Ok(_) => {},
            }
        }
        self.cache_managed_kv.remove(&req_id);
        Ok(())
    }

    /// The owner of an attachment that this engine manages, from the view of
    /// the attachment's chain; without a pool the view is not looked at.
    pub fn check_cache_attachment_release(&self, view: Result<ChainView, PagedKvError>) -> (r:
        Result<u64, EngineError>)
        ensures
            r == if !self.paged_kv {
                Err::<u64, EngineError>(refused(None, Refusal::PoolNotConfigured))
            } else {
                match view {
                    Err(e) => Err(kv_error(e, None)),
                    Ok(view) => if self.managed().contains(view.owner) {
                        Ok(view.owner)
                    } else {
                        Err(refused(Some(view.owner), Refusal::AttachmentNotOwned))
                    },
                }
            },
    {
        broadcast use vstd::std_specs::hash::group_hash_axioms;

        if !self.paged_kv {
            return Err(scheduler_transition_error(None, Refusal::PoolNotConfigured));
        }
        match view {
            Err(e) => Err(paged_kv_error(e, None)),
            Ok(view) => {
                if !self.cache_managed_kv.contains(&view.owner) {
                    return Err(
                        scheduler_transition_error(Some(view.owner), Refusal::AttachmentNotOwned),
                    );
                }
                Ok(view.owner)
            },
        }
    }

    /// Records that the cache released an attachment, or failed to: a failed
    /// release keeps the ownership guard.
    pub fn release_cache_attachment(&mut self, owner: u64, released: bool) -> (r: Result<
        (),
        EngineError,
    >)
        ensures
            final(self).configured_as(old(self)),
            r == if released {
                Ok::<(), EngineError>(())
            } else {
                Err(refused(Some(owner), Refusal::AttachmentReleaseFailed))
            },
            final(self).managed() == if released {
                old(self).managed().remove(owner)
            } else {
                old(self).managed()
            },
    {
        if !released {
            return Err(scheduler_transition_error(Some(owner), Refusal::AttachmentReleaseFailed));
        }
        broadcast use vstd::std_specs::hash::group_hash_axioms;

        self.cache_managed_kv.remove(&owner);
        Ok(())
    }

    /// Whether cancelling a request releases its pages now: not while the
    /// accelerator uses them, and not while a cache attachment owns them.
    pub fn cancel_request(&self, req_id: u64, accelerator_in_flight: bool, cancelled: bool) -> (r:
        bool)
        ensures
            r == (cancelled && !accelerator_in_flight && !self.managed().contains(req_id)
                && self.paged_kv),
    {
        broadcast use vstd::std_specs::hash::group_hash_axioms;

        cancelled && !accelerator_in_flight && !self.cache_managed_kv.contains(&req_id)
            && self.paged_kv
    }

    /// Whether finishing a request releases its pages now.
    pub fn finish_request(&self, req_id: u64, finished: bool) -> (r: bool)
        ensures
            r == (finished && !self.managed().contains(req_id) && self.paged_kv),
    {
        broadcast use vstd::std_specs::hash::group_hash_axioms;

        finished && !self.cache_managed_kv.contains(&req_id) && self.paged_kv
    }

    /// Reports whether the scheduler changed a request's eligibility.
    pub fn set_request_backpressured(&self, req_id: u64, updated: bool) -> (r: Result<
        (),
        EngineError,
    >)
        ensures
            r == if updated {
                Ok::<(), EngineError>(())
            } else {
                Err(refused(Some(req_id), Refusal::BackpressureFailed))
            },
    {
        if updated {
            Ok(())
        } else {
            Err(scheduler_transition_error(Some(req_id), Refusal::BackpressureFailed))
        }
    }

    /// The route of a scheduled batch.
    pub fn step_submit(&self, plan: &BatchPlan, platform: Platform) -> (r: Result<
        StepRoute,
        EngineError,
    >)
        ensures
            r == step_route(
                *plan,
                self.apple_runtime_plan,
                self.paged_kv,
                self.apple_backend,
                platform,
            ),
    {
        let apple = match self.apple_runtime_plan {
            None => {
                return Ok(StepRoute { reserve: false, launch: Launch::Unaccelerated });
            },
            Some(apple) => apple,
        };
        match enforce_apple_mode_availability(&apple, platform) {
            Err(e) => {
                return Err(e);
            },
            Ok(_) => {},
        }
        if !backend_plan_is_enabled(&apple) {
            return Ok(StepRoute { reserve: false, launch: Launch::Unaccelerated });
        }
        let reserve = !matches!(plan, BatchPlan::Idle) && self.paged_kv;
        if !self.apple_backend {
            return Ok(
                StepRoute {
                    reserve,
                    launch: Launch::MissingBackend {
                        error: EngineError::FeatureNotAvailable {
                            missing: MissingCapability::Backend,
                        },
                    },
                },
            );
        }
        let launch = match plan {
            BatchPlan::Prefill { .. } => Launch::Prefill {
                kind: match_apple_mode_to_handoff_kind(apple.mode),
            },
            BatchPlan::Decode { .. } => Launch::Rollout {
                kind: match_apple_mode_to_handoff_kind(apple.mode),
                bucketed: apple.mode.requires_private_ane(),
            },
            BatchPlan::Idle => Launch::Idle,
        };
        Ok(StepRoute { reserve, launch })
    }

    /// Starts the reservation of a planned step's KV.
    pub fn prepare_paged_kv_step(&self, plan: &BatchPlan) -> (r: Result<
        (KvReservation, KvCall),
        EngineError,
    >)
        ensures
            if plan_requests(*plan).len() != plan_contexts(*plan).len() || plan_requests(
                *plan,
            ).len() != plan_chains(*plan).len() {
                r is Err && r->Err_0 == refused(None, Refusal::PlanLengthsDiffer)
            } else {
                &&& r is Ok
                &&& r->Ok_0.0@.well_formed()
                &&& (r->Ok_0.0@, r->Ok_0.1) == (ReservationModel {
                    rows: plan_rows(*plan),
                    entries: Seq::empty(),
                    index: 0,
                    stage: Stage::Finished,
                }).row_started()
            },
    {
        match plan {
            BatchPlan::Prefill { req_ids, context_lens, kv_chains, .. } => {
                if req_ids.len() != context_lens.len() || req_ids.len() != kv_chains.len() {
                    return Err(scheduler_transition_error(None, Refusal::PlanLengthsDiffer));
                }
                let rows = rows_of(req_ids, context_lens, kv_chains);
                assert(rows@ =~= plan_rows(*plan));
                Ok(KvReservation::start(rows))
            },
            BatchPlan::Decode { req_ids, context_lens, kv_chains } => {
                if req_ids.len() != context_lens.len() || req_ids.len() != kv_chains.len() {
                    return Err(scheduler_transition_error(None, Refusal::PlanLengthsDiffer));
                }
                let rows = rows_of(req_ids, context_lens, kv_chains);
                assert(rows@ =~= plan_rows(*plan));
                Ok(KvReservation::start(rows))
            },
            BatchPlan::Idle => {
                let rows: Vec<PlannedChain> = Vec::new();
                assert(rows@ =~= plan_rows(*plan));
                Ok(KvReservation::start(rows))
            },
        }
    }

    /// What a completed step commits and surfaces, given the requests that the
    /// scheduler still holds alive. Cancellation is final: no token of a request
    /// that is no longer alive is surfaced.
    pub fn collect_submitted(&self, tokens: &Vec<StepToken>, alive: &HashSet<u64>) -> (r:
        CollectedStep)
        ensures
            r.outputs@ == surfaced(tokens@, alive@).map_values(|t: StepToken| output_of(t)),
            r.decoded@ == surfaced(tokens@, alive@).map_values(
                |t: StepToken| (t.req_id, t.token_id),
            ),
            r.finished@ == surfaced(tokens@, alive@).filter(|t: StepToken| t.finished).map_values(
                |t: StepToken| t.req_id,
            ),
    {
        broadcast use vstd::std_specs::hash::group_hash_axioms;

        let mut decoded: Vec<(u64, u32)> = Vec::new();
        let mut outputs: Vec<StepOutput> = Vec::new();
        let mut finished: Vec<u64> = Vec::new();
        let mut i: usize = 0;
        let ghost live = |t: StepToken| alive@.contains(t.req_id);
        let ghost done = |t: StepToken| t.finished;
        let ghost pair = |t: StepToken| (t.req_id, t.token_id);
        let ghost out = |t: StepToken| output_of(t);
        let ghost id = |t: StepToken| t.req_id;
        proof {
            reveal(Seq::filter);
            assert(tokens@.take(0) =~= Seq::empty());
            assert(outputs@ =~= tokens@.take(0).filter(live).map_values(out));
            assert(decoded@ =~= tokens@.take(0).filter(live).map_values(pair));
            assert(finished@ =~= tokens@.take(0).filter(live).filter(done).map_values(id));
        }
        while i < tokens.len()
            invariant
                i <= tokens@.len(),
                live == (|t: StepToken| alive@.contains(t.req_id)),
                done == (|t: StepToken| t.finished),
                pair == (|t: StepToken| (t.req_id, t.token_id)),
                out == (|t: StepToken| output_of(t)),
                id == (|t: StepToken| t.req_id),
                outputs@ == tokens@.take(i as int).filter(live).map_values(out),
                decoded@ == tokens@.take(i as int).filter(live).map_values(pair),
                finished@ == tokens@.take(i as int).filter(live).filter(done).map_values(id),
            decreases tokens@.len() - i,
        {
            broadcast use vstd::std_specs::hash::group_hash_axioms;

            let token = tokens[i];
            let ghost seen = tokens@.take(i as int);
            let ghost kept = seen.filter(live);
            proof {
                reveal(Seq::filter);
                assert(tokens@.take(i + 1).drop_last() =~= seen);
                assert(tokens@.take(i + 1).last() == token);
            }
            if alive.contains(&token.req_id) {
                decoded.push((token.req_id, token.token_id));
                outputs.push(
                    StepOutput {
                        req_id: token.req_id,
                        new_token: token.token_id,
                        finished: token.finished,
                    },
                );
                if token.finished {
                    finished.push(token.req_id);
                }
                proof {
                    let grown = kept.push(token);
                    assert(tokens@.take(i + 1).filter(live) =~= grown);
                    assert(grown.drop_last() =~= kept);
                    assert(grown.map_values(out) =~= kept.map_values(out).push(out(token)));
                    assert(grown.map_values(pair) =~= kept.map_values(pair).push(pair(token)));
                    if token.finished {
                        assert(grown.filter(done) =~= kept.filter(done).push(token));
                        assert(grown.filter(done).map_values(id) =~= kept.filter(done).map_values(
                            id,
                        ).push(token.req_id));
                    } else {
                        assert(grown.filter(done) =~= kept.filter(done));
                    }
                }
            } else {
                proof {
                    assert(tokens@.take(i + 1).filter(live) =~= kept);
                }
            }
            i = i + 1;
        }
        proof {
            assert(tokens@.take(tokens@.len() as int) =~= tokens@);
        }
        CollectedStep { decoded, outputs, finished }
    }

    /// The prefilled lengths that a completed prefill commits: one for each
    /// request that is still alive.
    pub fn completed_prefills(
        &self,
        req_ids: &Vec<u64>,
        cu_seqlens_q: &Vec<u32>,
        alive: &HashSet<u64>,
    ) -> (r: Vec<(u64, u32)>)
        requires
            spans_ascend(cu_seqlens_q@),
        ensures
            r@ == completed_spans(
                req_ids@,
                cu_seqlens_q@,
                alive@,
                span_count(req_ids@, cu_seqlens_q@),
            ),
    {
        let mut completed: Vec<(u64, u32)> = Vec::new();
        let mut i: usize = 0;
        while i < req_ids.len() && i + 1 < cu_seqlens_q.len()
            invariant
                i <= req_ids@.len(),
                i == 0 || i + 1 <= cu_seqlens_q@.len(),
                spans_ascend(cu_seqlens_q@),
                completed@ == completed_spans(req_ids@, cu_seqlens_q@, alive@, i as int),
            decreases req_ids@.len() - i,
        {
            broadcast use vstd::std_specs::hash::group_hash_axioms;

            if alive.contains(&req_ids[i]) {
                assert(cu_seqlens_q@[i as int] <= cu_seqlens_q@[i + 1]);
                completed.push((req_ids[i], cu_seqlens_q[i + 1] - cu_seqlens_q[i]));
            }
            i = i + 1;
        }
        completed
    }

    /// The requests of a step whose pages were held back by the accelerator and
    /// are released now: no longer alive, and of no cache attachment.
    pub fn release_cancelled_step_kv(&self, req_ids: &Vec<u64>, alive: &HashSet<u64>) -> (r: Vec<
        u64,
    >)
        ensures
            r@ == held_back(req_ids@, alive@, self.managed(), self.paged_kv),
    {
        let mut released: Vec<u64> = Vec::new();
        let mut i: usize = 0;
        let ghost managed = self.managed();
        let ghost paged_kv = self.paged_kv;
        let ghost pick = |id: u64| !alive@.contains(id) && !managed.contains(id) && paged_kv;
        proof {
            reveal(Seq::filter);
            assert(released@ =~= req_ids@.take(0).filter(pick));
        }
        while i < req_ids.len()
            invariant
                i <= req_ids@.len(),
                managed == self.managed(),
                paged_kv == self.paged_kv,
                pick == (|id: u64| !alive@.contains(id) && !managed.contains(id) && paged_kv),
                released@ == req_ids@.take(i as int).filter(pick),
            decreases req_ids@.len() - i,
        {
            broadcast use vstd::std_specs::hash::group_hash_axioms;

            let id: u64 = req_ids[i];
            proof {
                reveal(Seq::filter);
                assert(req_ids@.take(i + 1).drop_last() =~= req_ids@.take(i as int));
            }
            if !alive.contains(&id) && !self.cache_managed_kv.contains(&id) && self.paged_kv {
                released.push(id);
            }
            i = i + 1;
        }
        proof {
            assert(req_ids@.take(req_ids@.len() as int) =~= req_ids@);
        }
        released
    }

    /// The requests that ended with a step and whose pages are released: those
    /// the backend finished or the scheduler no longer holds, of no cache
    /// attachment.
    pub fn release_terminal_kv(&self, outputs: &Vec<StepOutput>, alive: &HashSet<u64>) -> (r: Vec<
        u64,
    >)
        ensures
            r@ == ended(outputs@, alive@, self.managed(), self.paged_kv).map_values(
                |o: StepOutput| o.req_id,
            ),
    {
        let mut released: Vec<u64> = Vec::new();
        let mut i: usize = 0;
        let ghost managed = self.managed();
        let ghost paged_kv = self.paged_kv;
        let ghost pick = |o: StepOutput|
            (o.finished || !alive@.contains(o.req_id)) && !managed.contains(o.req_id) && paged_kv;
        let ghost id = |o: StepOutput| o.req_id;
        proof {
            reveal(Seq::filter);
            assert(released@ =~= outputs@.take(0).filter(pick).map_values(id));
        }
        while i < outputs.len()
            invariant
                i <= outputs@.len(),
                managed == self.managed(),
                paged_kv == self.paged_kv,
                pick == (|o: StepOutput|
                    (o.finished || !alive@.contains(o.req_id)) && !managed.contains(o.req_id)
                        && paged_kv),
                id == (|o: StepOutput| o.req_id),
                released@ == outputs@.take(i as int).filter(pick).map_values(id),
            decreases outputs@.len() - i,
        {
            broadcast use vstd::std_specs::hash::group_hash_axioms;

            let output = outputs[i];
            proof {
                reveal(Seq::filter);
                assert(outputs@.take(i + 1).drop_last() =~= outputs@.take(i as int));
            }
            if (output.finished || !alive.contains(&output.req_id))
                && !self.cache_managed_kv.contains(&output.req_id) && self.paged_kv {
                released.push(output.req_id);
                proof {
                    let kept = outputs@.take(i as int).filter(pick);
                    assert(kept.push(output).map_values(id) =~= kept.map_values(id).push(
                        output.req_id,
                    ));
                }
            }
            i = i + 1;
        }
        proof {
            assert(outputs@.take(outputs@.len() as int) =~= outputs@);
        }
        released
    }

    /// The error of a prefill that completed and could not be committed.
    pub fn prefill_not_committed(&self, req_id: u64) -> (r: EngineError)
        ensures
            r == refused(Some(req_id), Refusal::PrefillNotCommitted),
    {
        scheduler_transition_error(Some(req_id), Refusal::PrefillNotCommitted)
    }
}

} // verus!
