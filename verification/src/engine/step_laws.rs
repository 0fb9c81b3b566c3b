//! What holds of the routes, the commits and the outputs of every step.
use crate::engine::completion::{
    after, answering, opened, plan_ascends, CompletionCallModel, CompletionModel, CompletionReply,
    CompletionStage, StepFault,
};
use crate::engine::decisions::{
    after_allocation, after_offer, backend_route, completed_spans, handoff_kind, mode_availability,
    output_of, plan_rows, planned_mode, private_ane, span_count, spans_ascend, step_route, surfaced,
    AdmissionCall, AppleBackendMode, AppleRuntimePlan, BackendRoute, BatchPlan,
    ConfiguredBackendMode, Launch, Platform, StepOutput, StepToken,
};
use crate::engine::laws::{
    cancelled_pages_come_back, ended, held_back, late_tokens_never_surface,
    terminal_pages_come_back,
};
use crate::engine::types::{kv_error, EngineError, KvChainHandle, MissingCapability, PagedKvError};
use vstd::prelude::*;

verus! {

// ---------------------------------------------------------------------------
// Prefills
// ---------------------------------------------------------------------------

/// How many of the first requests of a list are alive.
pub open spec fn living(req_ids: Seq<u64>, alive: Set<u64>, n: int) -> int
    decreases n,
{
    if n <= 0 {
        0
    } else {
        living(req_ids, alive, n - 1) + if alive.contains(req_ids[n - 1]) {
            1int
        } else {
            0
        }
    }
}

proof fn living_grows(req_ids: Seq<u64>, alive: Set<u64>, i: int, n: int)
    requires
        0 <= i <= n,
    ensures
        0 <= living(req_ids, alive, i) <= living(req_ids, alive, n),
        i < n && alive.contains(req_ids[i]) ==> living(req_ids, alive, i) < living(
            req_ids,
            alive,
            n,
        ),
    decreases n,
{
    if i < n {
        living_grows(req_ids, alive, i, n - 1);
    } else if n > 0 {
        living_grows(req_ids, alive, n - 1, n - 1);
    }
}

proof fn spans_of_the_living(
    req_ids: Seq<u64>,
    cu_seqlens: Seq<u32>,
    alive: Set<u64>,
    n: int,
    i: int,
)
    requires
        spans_ascend(cu_seqlens),
        0 <= i < n <= req_ids.len(),
        n < cu_seqlens.len(),
        alive.contains(req_ids[i]),
    ensures
        ({
            let completed = completed_spans(req_ids, cu_seqlens, alive, n);
            let at = living(req_ids, alive, i);
            &&& 0 <= at < completed.len()
            &&& completed[at].0 == req_ids[i]
            &&& cu_seqlens[i] + completed[at].1 == cu_seqlens[i + 1]
        }),
    decreases n,
{
    spans_counted(req_ids, cu_seqlens, alive, n - 1);
    spans_counted(req_ids, cu_seqlens, alive, n);
    living_grows(req_ids, alive, i, n - 1);
    if i < n - 1 {
        spans_of_the_living(req_ids, cu_seqlens, alive, n - 1, i);
    } else {
        assert(cu_seqlens[i] <= cu_seqlens[i + 1]);
    }
}

proof fn spans_counted(req_ids: Seq<u64>, cu_seqlens: Seq<u32>, alive: Set<u64>, n: int)
    ensures
        completed_spans(req_ids, cu_seqlens, alive, n).len() == living(req_ids, alive, n),
    decreases n,
{
    if n > 0 {
        spans_counted(req_ids, cu_seqlens, alive, n - 1);
    }
}

/// A completed prefill commits one length for each request that is alive and has a
/// span, in the order of the requests, and the length is the number of tokens
/// between the request's own two boundaries.
pub proof fn prefills_commit_their_own_spans(
    req_ids: Seq<u64>,
    cu_seqlens: Seq<u32>,
    alive: Set<u64>,
    i: int,
)
    requires
        spans_ascend(cu_seqlens),
        0 <= i < req_ids.len(),
        i + 1 < cu_seqlens.len(),
    ensures
        ({
            let n = span_count(req_ids, cu_seqlens);
            let completed = completed_spans(req_ids, cu_seqlens, alive, n);
            let at = living(req_ids, alive, i);
            &&& i < n
            &&& completed.len() == living(req_ids, alive, n)
            &&& alive.contains(req_ids[i]) ==> 0 <= at < completed.len() && completed[at].0
                == req_ids[i] && cu_seqlens[i] + completed[at].1 == cu_seqlens[i + 1]
        }),
{
    let n = span_count(req_ids, cu_seqlens);
    spans_counted(req_ids, cu_seqlens, alive, n);
    if alive.contains(req_ids[i]) {
        spans_of_the_living(req_ids, cu_seqlens, alive, n, i);
    }
}

/// The lengths of a commit, added up.
pub open spec fn total_length(completed: Seq<(u64, u32)>) -> int
    decreases completed.len(),
{
    if completed.len() == 0 {
        0
    } else {
        total_length(completed.drop_last()) + completed.last().1
    }
}

proof fn spans_add_up(req_ids: Seq<u64>, cu_seqlens: Seq<u32>, alive: Set<u64>, n: int)
    requires
        spans_ascend(cu_seqlens),
        0 <= n <= req_ids.len(),
        n < cu_seqlens.len(),
        forall|i: int| 0 <= i < n ==> alive.contains(#[trigger] req_ids[i]),
    ensures
        total_length(completed_spans(req_ids, cu_seqlens, alive, n)) == cu_seqlens[n]
            - cu_seqlens[0],
    decreases n,
{
    if n > 0 {
        spans_add_up(req_ids, cu_seqlens, alive, n - 1);
        assert(alive.contains(req_ids[n - 1]));
        assert(cu_seqlens[n - 1] <= cu_seqlens[n - 1 + 1]);
        let before = completed_spans(req_ids, cu_seqlens, alive, n - 1);
        let completed = completed_spans(req_ids, cu_seqlens, alive, n);
        assert(completed.drop_last() =~= before);
    }
}

/// Where every request of a prefill is alive and has a span, what is committed
/// adds up to the whole batch.
pub proof fn prefills_commit_the_whole_batch(
    req_ids: Seq<u64>,
    cu_seqlens: Seq<u32>,
    alive: Set<u64>,
)
    requires
        spans_ascend(cu_seqlens),
        cu_seqlens.len() == req_ids.len() + 1,
        forall|i: int| 0 <= i < req_ids.len() ==> alive.contains(#[trigger] req_ids[i]),
    ensures
        total_length(
            completed_spans(req_ids, cu_seqlens, alive, span_count(req_ids, cu_seqlens)),
        ) == cu_seqlens.last() - cu_seqlens.first(),
{
    spans_add_up(req_ids, cu_seqlens, alive, req_ids.len() as int);
}

// ---------------------------------------------------------------------------
// Reservations
// ---------------------------------------------------------------------------

/// Each row of a reservation is a request of the plan with its own context and its
/// own chain.
pub proof fn rows_are_the_planned_requests(plan: BatchPlan, i: int)
    ensures
        match plan {
            BatchPlan::Prefill { req_ids, context_lens, kv_chains, .. } => {
                &&& plan_rows(plan).len() == req_ids@.len()
                &&& 0 <= i < req_ids@.len() ==> plan_rows(plan)[i].req_id == req_ids@[i]
                    && plan_rows(plan)[i].context_len == context_lens@[i] && plan_rows(
                    plan,
                )[i].chain == kv_chains@[i]
            },
            BatchPlan::Decode { req_ids, context_lens, kv_chains } => {
                &&& plan_rows(plan).len() == req_ids@.len()
                &&& 0 <= i < req_ids@.len() ==> plan_rows(plan)[i].req_id == req_ids@[i]
                    && plan_rows(plan)[i].context_len == context_lens@[i] && plan_rows(
                    plan,
                )[i].chain == kv_chains@[i]
            },
            BatchPlan::Idle => plan_rows(plan).len() == 0,
        },
{
}

/// An exhausted pool is reported with the pages that were needed and those that are
/// free; any other failure of the pool is the allocator's refusal. Both name the
/// request.
pub proof fn pool_failures_keep_their_counts(error: PagedKvError, req_id: Option<u64>)
    ensures
        match kv_error(error, req_id) {
            EngineError::KvExhausted { needed_blocks, free_blocks, req_id: named } => named
                == req_id && error == (PagedKvError::PagePoolExhausted {
                needed_pages: needed_blocks,
                free_pages: free_blocks,
            }),
            EngineError::InvalidTransition { reason, req_id: named } => named == req_id
                && reason is AllocatorRejected && error is Other,
            EngineError::FeatureNotAvailable { .. } => false,
        },
{
}

/// An admission offers the chain that was allocated for it and no other, is admitted
/// exactly where the scheduler takes it, and releases its chain otherwise.
pub proof fn admissions_keep_their_chain(
    req_id: u64,
    allocated: Result<KvChainHandle, PagedKvError>,
    accepted: bool,
)
    ensures
        match after_allocation(req_id, allocated) {
            AdmissionCall::Enqueue { chain } => {
                &&& chain is Some
                &&& allocated == Ok::<KvChainHandle, PagedKvError>(chain->0)
                &&& after_offer(accepted, chain) is Admitted <==> accepted
                &&& !accepted ==> (after_offer(accepted, chain) matches AdmissionCall::Release {
                    handle,
                    error,
                } && handle == chain->0 && error is InvalidTransition)
            },
            AdmissionCall::Rejected { error } => allocated is Err && match allocated->Err_0 {
                PagedKvError::PagePoolExhausted { needed_pages, free_pages } => error == (
                EngineError::KvExhausted {
                    needed_blocks: needed_pages,
                    free_blocks: free_pages,
                    req_id: Some(req_id),
                }),
                PagedKvError::Other => error is InvalidTransition,
            },
            _ => false,
        },
        after_offer(accepted, None) is Admitted <==> accepted,
        !accepted ==> after_offer(accepted, None) is Rejected,
{
}

// ---------------------------------------------------------------------------
// Routes
// ---------------------------------------------------------------------------

/// The modes that run on the private accelerator are the two rollouts, and each
/// hands its prefills over to its own decoder; every other mode decodes on Metal.
pub proof fn modes_hand_over_to_their_decoder(mode: AppleBackendMode)
    ensures
        handoff_kind(mode) is MetalPrefillToAneFfnRollout <==> mode is MetalPrefillAneFfnRollout,
        handoff_kind(mode) is MetalPrefillToAneRolloutExperimental <==> mode
            is MetalPrefillAneRolloutExperimental,
        private_ane(mode) <==> !(handoff_kind(mode) is MetalPrefillToMetalDecode),
{
}

/// A configured mode plans the mode of its own name; only a disabled backend plans
/// none.
pub proof fn configured_modes_are_planned(mode: ConfiguredBackendMode)
    ensures
        planned_mode(mode) is None <==> mode is Disabled,
        planned_mode(mode) == Some(AppleBackendMode::MetalOnly) <==> mode is MetalOnly,
        planned_mode(mode) == Some(AppleBackendMode::MetalPrefillMetalDecode) <==> mode
            is MetalPrefillMetalDecode,
        planned_mode(mode) == Some(AppleBackendMode::MetalPrefillAneFfnRollout) <==> mode
            is MetalPrefillAneFfnRollout,
        planned_mode(mode) == Some(AppleBackendMode::MetalPrefillAneRolloutExperimental) <==> mode
            is MetalPrefillAneRolloutExperimental,
{
}

/// An accelerated step launches what was planned: a prefill as a prefill, a decode
/// as a rollout whose bucket is selected exactly where the private accelerator
/// decodes. Pages are reserved for such a step exactly where there is a pool and
/// something was planned.
pub proof fn routes_launch_what_was_planned(
    plan: BatchPlan,
    apple: Option<AppleRuntimePlan>,
    paged_kv: bool,
    backend: bool,
    platform: Platform,
)
    ensures
        match step_route(plan, apple, paged_kv, backend, platform) {
            Ok(route) => {
                let accelerated = apple is Some && !(apple->0.mode is MlxPrototype);
                &&& route.launch is Unaccelerated <==> !accelerated
                &&& route.reserve <==> accelerated && paged_kv && !(plan is Idle)
                &&& accelerated && !backend <==> route.launch is MissingBackend
                &&& accelerated && backend ==> {
                    &&& plan is Prefill <==> route.launch is Prefill
                    &&& plan is Decode <==> route.launch is Rollout
                    &&& plan is Idle <==> route.launch is Idle
                }
                &&& route.launch matches Launch::Prefill { kind } ==> kind == handoff_kind(
                    apple->0.mode,
                )
                &&& route.launch matches Launch::Rollout { kind, bucketed } ==> kind
                    == handoff_kind(apple->0.mode) && (bucketed <==> !(
                kind is MetalPrefillToMetalDecode))
                &&& apple is Some && private_ane(apple->0.mode) ==> platform is MacOs
                    && apple->0.ane_cores > 0
            },
            Err(error) => apple is Some && private_ane(apple->0.mode) && match error {
                EngineError::FeatureNotAvailable { missing: MissingCapability::PrivateAne } => !(
                platform is MacOs),
                EngineError::FeatureNotAvailable { missing: MissingCapability::AneCores } =>
                    platform is MacOs && apple->0.ane_cores == 0,
                _ => false,
            },
        },
{
}

/// A default backend is real: the production one for the private accelerator, the
/// model's own where there are weights. The toy backend stands in only where it was
/// asked for, on macOS, and there are no weights.
pub proof fn default_backends_fail_closed(
    mode: AppleBackendMode,
    platform: Platform,
    has_weights: bool,
    toy_enabled: bool,
)
    ensures
        match backend_route(mode, platform, has_weights, toy_enabled) {
            Ok(BackendRoute::Production) => private_ane(mode) && platform is MacOs,
            Ok(BackendRoute::ModelMetal) => !private_ane(mode) && platform is MacOs && has_weights,
            Ok(BackendRoute::ModelPackage) => !private_ane(mode) && platform is Ios && has_weights,
            Ok(BackendRoute::ToyMetal) => !private_ane(mode) && platform is MacOs && !has_weights
                && toy_enabled,
            Err(EngineError::FeatureNotAvailable { missing: MissingCapability::PrivateAne }) =>
                private_ane(mode) && !(platform is MacOs),
            Err(EngineError::FeatureNotAvailable { missing: MissingCapability::AppleTarget }) =>
                !private_ane(mode) && platform is Other,
            Err(EngineError::FeatureNotAvailable { missing: MissingCapability::MetalModelDir }) =>
                !private_ane(mode) && !(platform is Other) && !has_weights && (platform is MacOs
                    ==> !toy_enabled),
            Err(_) => false,
        },
{
}

/// A mode is available unless it needs the private accelerator and that is missing.
pub proof fn only_the_private_accelerator_is_missed(plan: AppleRuntimePlan, platform: Platform)
    ensures
        mode_availability(plan, platform) is Ok <==> (plan.mode is MetalPrefillAneFfnRollout
            || plan.mode is MetalPrefillAneRolloutExperimental ==> platform is MacOs
            && plan.ane_cores > 0),
{
}

// ---------------------------------------------------------------------------
// Completions
// ---------------------------------------------------------------------------

/// The tokens of a step that are surfaced are committed, each for its own request,
/// in the order in which they are surfaced; where none is, nothing is committed.
/// The requests that end are those with a surfaced token that finishes them.
pub proof fn surfaced_tokens_are_committed(
    m: CompletionModel,
    reply: CompletionReply,
    managed: Set<u64>,
    paged_kv: bool,
    t: StepToken,
)
    requires
        m.stage == CompletionStage::SurfacingTokens,
        reply is Alive,
    ensures
        ({
            let (n, call) = m.resumed(reply, managed, paged_kv);
            let alive = reply->alive@;
            let live = m.tokens.contains(t) && alive.contains(t.req_id);
            &&& live ==> n.outputs.contains(
                StepOutput { req_id: t.req_id, new_token: t.token_id, finished: t.finished },
            )
            &&& live && t.finished ==> n.queue.contains(t.req_id)
            &&& live ==> call is CommitDecode
            &&& forall|i: int|
                #![trigger n.outputs[i]]
                0 <= i < n.outputs.len() ==> {
                    let o = n.outputs[i];
                    let from = StepToken {
                        req_id: o.req_id,
                        token_id: o.new_token,
                        finished: o.finished,
                    };
                    &&& m.tokens.contains(from)
                    &&& alive.contains(o.req_id)
                }
            &&& call matches CompletionCallModel::CommitDecode { decoded } ==> decoded.len()
                == n.outputs.len() > 0 && forall|i: int|
                #![trigger decoded[i]]
                0 <= i < decoded.len() ==> decoded[i] == (
                    n.outputs[i].req_id,
                    n.outputs[i].new_token,
                )
            &&& n.index == 0
        }),
{
    let (n, call) = m.resumed(reply, managed, paged_kv);
    let alive = reply->alive@;
    let kept = surfaced(m.tokens, alive);
    late_tokens_never_surface(m.tokens, alive, t);
    if m.tokens.contains(t) && alive.contains(t.req_id) {
        let i = choose|i: int| 0 <= i < kept.len() && kept[i] == t;
        assert(n.outputs[i] == output_of(t));
        if t.finished {
            let done = |t: StepToken| t.finished;
            kept.lemma_filter_contains(done, i);
            let ends = kept.filter(done);
            let k = choose|k: int| 0 <= k < ends.len() && ends[k] == t;
            assert(n.queue[k] == t.req_id);
        }
    }
    assert forall|i: int| #![trigger n.outputs[i]] 0 <= i < n.outputs.len() implies {
        let o = n.outputs[i];
        let from = StepToken { req_id: o.req_id, token_id: o.new_token, finished: o.finished };
        m.tokens.contains(from) && alive.contains(o.req_id)
    } by {
        late_tokens_never_surface(m.tokens, alive, kept[i]);
        assert(kept.contains(kept[i]));
        let o = n.outputs[i];
        assert(o == output_of(kept[i]));
        assert(kept[i] == (StepToken {
            req_id: o.req_id,
            token_id: o.new_token,
            finished: o.finished,
        }));
    }
}

/// A request is finished only where a surfaced token of its own finished it.
pub proof fn only_finished_requests_end(
    m: CompletionModel,
    reply: CompletionReply,
    managed: Set<u64>,
    paged_kv: bool,
    k: int,
)
    requires
        m.stage == CompletionStage::SurfacingTokens,
        reply is Alive,
        0 <= k < m.resumed(reply, managed, paged_kv).0.queue.len(),
    ensures
        ({
            let n = m.resumed(reply, managed, paged_kv).0;
            exists|t: StepToken| #[trigger]
                m.tokens.contains(t) && t.finished && t.req_id == n.queue[k]
                    && reply->alive@.contains(t.req_id)
        }),
{
    let alive = reply->alive@;
    let kept = surfaced(m.tokens, alive);
    let done = |t: StepToken| t.finished;
    let ends = kept.filter(done);
    kept.lemma_filter_pred(done, k);
    assert(ends.contains(ends[k]));
    kept.lemma_filter_contains_rev(done, ends[k]);
    late_tokens_never_surface(m.tokens, alive, ends[k]);
}

/// Ended requests are finished one after the other, none left out; then a prefill
/// asks who is alive to commit its spans, and anything else clears its flight.
pub proof fn ended_requests_are_finished_in_turn(
    m: CompletionModel,
    managed: Set<u64>,
    paged_kv: bool,
)
    requires
        m.stage == CompletionStage::CommittingDecode || m.stage == CompletionStage::Finishing,
    ensures
        ({
            let (n, call) = m.resumed(CompletionReply::Done, managed, paged_kv);
            let k = if m.stage == CompletionStage::Finishing {
                m.index + 1
            } else {
                m.index
            };
            &&& n.queue == m.queue
            &&& n.outputs == m.outputs
            &&& k < m.queue.len() ==> n.index == k && n.stage == CompletionStage::Finishing && call
                == (CompletionCallModel::FinishRequest { req_id: m.queue[k] })
            &&& k >= m.queue.len() ==> if m.spans is Some {
                n.stage == CompletionStage::SpanningPrefill && call is QueryAlive
            } else {
                n.stage == CompletionStage::ClearingFlight && call is ClearInFlight
            }
        }),
{
}

/// The pages of a request that ended or was cancelled are released one request
/// after the other, none left out and none twice; a release that fails ends the
/// step with the pool's failure, for that request.
pub proof fn pages_are_released_in_turn(
    m: CompletionModel,
    outcome: Result<(), PagedKvError>,
    managed: Set<u64>,
    paged_kv: bool,
)
    requires
        m.stage == CompletionStage::ReleasingCancelled || m.stage
            == CompletionStage::ReleasingTerminal,
        0 <= m.index < m.queue.len(),
    ensures
        ({
            let (n, call) = m.resumed(CompletionReply::Released { outcome }, managed, paged_kv);
            match outcome {
                Err(e) => call matches CompletionCallModel::Failed { fault } && fault == (
                StepFault::Engine { error: kv_error(e, Some(m.queue[m.index])) }),
                Ok(_) => {
                    &&& n.queue == m.queue
                    &&& m.index + 1 < m.queue.len() ==> n.stage == m.stage && n.index == m.index + 1
                        && call == (CompletionCallModel::Release {
                        req_id: m.queue[m.index + 1],
                    })
                    &&& m.index + 1 == m.queue.len() ==> if m.stage
                        == CompletionStage::ReleasingTerminal {
                        call == (CompletionCallModel::Completed { outputs: m.outputs })
                    } else if m.fault is Some {
                        call == (CompletionCallModel::Failed { fault: m.fault->0 })
                    } else {
                        n.stage == CompletionStage::FindingTerminal && call is QueryAlive
                    }
                },
            }
        }),
{
}

/// When a completion looks for pages to release, it takes those of cancelled
/// requests of the step first and those of ended requests later, never pages that a
/// cache attachment owns, and begins with the first of them.
pub proof fn released_pages_are_no_longer_used(
    m: CompletionModel,
    reply: CompletionReply,
    managed: Set<u64>,
    paged_kv: bool,
    id: u64,
)
    requires
        m.stage == CompletionStage::FindingCancelled || m.stage == CompletionStage::FindingTerminal,
        reply is Alive,
    ensures
        ({
            let (n, call) = m.resumed(reply, managed, paged_kv);
            let alive = reply->alive@;
            &&& n.queue.len() > 0 ==> n.index == 0 && call == (CompletionCallModel::Release {
                req_id: n.queue[0],
            })
            &&& n.queue.len() == 0 ==> !(call is Release)
            &&& m.stage == CompletionStage::FindingCancelled ==> (n.queue.contains(id) <==> paged_kv
                && m.req_ids.contains(id) && !alive.contains(id) && !managed.contains(id))
            &&& m.stage == CompletionStage::FindingTerminal ==> (n.queue.contains(id) <==> paged_kv
                && !managed.contains(id) && exists|k: int|
                0 <= k < m.outputs.len() && (#[trigger] m.outputs[k]).req_id == id && (
                m.outputs[k].finished || !alive.contains(id)))
        }),
{
    let (n, call) = m.resumed(reply, managed, paged_kv);
    let alive = reply->alive@;
    if m.stage == CompletionStage::FindingCancelled {
        cancelled_pages_come_back(m.req_ids, alive, managed, paged_kv, id);
        assert(n.queue == held_back(m.req_ids, alive, managed, paged_kv));
    } else {
        let kept = ended(m.outputs, alive, managed, paged_kv);
        if n.queue.contains(id) {
            let k = choose|k: int| 0 <= k < n.queue.len() && n.queue[k] == id;
            assert(kept[k].req_id == id);
            assert(kept.contains(kept[k]));
            terminal_pages_come_back(m.outputs, alive, managed, paged_kv, kept[k]);
            let j = choose|j: int| 0 <= j < m.outputs.len() && m.outputs[j] == kept[k];
            assert(m.outputs[j].req_id == id);
        }
        if paged_kv && !managed.contains(id) && exists|k: int|
            0 <= k < m.outputs.len() && (#[trigger] m.outputs[k]).req_id == id && (
            m.outputs[k].finished || !alive.contains(id)) {
            let k = choose|k: int|
                0 <= k < m.outputs.len() && (#[trigger] m.outputs[k]).req_id == id && (
                m.outputs[k].finished || !alive.contains(id));
            terminal_pages_come_back(m.outputs, alive, managed, paged_kv, m.outputs[k]);
            let j = choose|j: int| 0 <= j < kept.len() && kept[j] == m.outputs[k];
            assert(n.queue[j] == id);
        }
    }
}

/// Whether outputs are those of the tokens whose requests are alive.
pub open spec fn shows(outputs: Seq<StepOutput>, tokens: Seq<StepToken>, alive: Set<u64>) -> bool {
    outputs == tokens.filter(|t: StepToken| alive.contains(t.req_id)).map_values(
        |t: StepToken|
            StepOutput { req_id: t.req_id, new_token: t.token_id, finished: t.finished },
    )
}

/// Whether a stage is one that a faulty step may be in.
spec fn faulty(stage: CompletionStage) -> bool {
    stage == CompletionStage::ClearingFlight || stage == CompletionStage::RollingBack || stage
        == CompletionStage::FindingCancelled || stage == CompletionStage::ReleasingCancelled
        || stage == CompletionStage::Ended
}

proof fn completion_keeps(
    m: CompletionModel,
    reply: CompletionReply,
    managed: Set<u64>,
    paged_kv: bool,
)
    requires
        m.well_formed(),
        m.expects(reply),
        m.fault is Some ==> faulty(m.stage),
    ensures
        ({
            let (n, call) = m.resumed(reply, managed, paged_kv);
            &&& n.well_formed()
            &&& n.req_ids == m.req_ids
            &&& n.spans == m.spans
            &&& m.stage != CompletionStage::SurfacingTokens ==> n.outputs == m.outputs
            &&& m.stage != CompletionStage::Collecting ==> n.tokens == m.tokens
            &&& n.stage != CompletionStage::Collecting
            &&& n.stage == CompletionStage::SurfacingTokens ==> m.stage
                == CompletionStage::Collecting && reply is Tokens && n.tokens == reply->tokens@
                && n.fault is None
            &&& m.stage == CompletionStage::Collecting && !(reply is Tokens) ==> n.fault is Some
            &&& m.stage == CompletionStage::Collecting && reply is Tokens ==> n.stage
                == CompletionStage::SurfacingTokens
            &&& m.fault is Some ==> n.fault is Some
            &&& n.fault is Some ==> faulty(n.stage)
            &&& call matches CompletionCallModel::Completed { outputs } ==> n.fault is None
                && outputs == n.outputs && n.stage == CompletionStage::Ended
        }),
{
}

#[verifier::rlimit(50)]
proof fn outputs_so_far(
    plan: BatchPlan,
    launched: bool,
    managed: Set<u64>,
    paged_kv: bool,
    replies: Seq<CompletionReply>,
)
    requires
        plan_ascends(plan),
        answering(plan, launched, managed, paged_kv, replies),
    ensures
        ({
            let (m, call) = after(plan, launched, managed, paged_kv, replies);
            &&& m.req_ids == opened(plan).req_ids
            &&& m.spans == opened(plan).spans
            &&& !launched ==> m.outputs.len() == 0 && m.stage != CompletionStage::Collecting
                && m.stage != CompletionStage::SurfacingTokens
            &&& launched && replies.len() == 0 ==> m.stage == CompletionStage::Collecting
            &&& launched && replies.len() == 1 ==> (replies[0] is Tokens && m.stage
                == CompletionStage::SurfacingTokens && m.tokens == replies[0]->tokens@) || (
            replies[0] is BackendFailed && m.fault is Some)
            &&& launched && replies.len() >= 2 ==> m.fault is Some || (replies[0] is Tokens
                && replies[1] is Alive && shows(
                m.outputs,
                replies[0]->tokens@,
                replies[1]->alive@,
            ))
            &&& launched && replies.len() >= 1 ==> m.stage != CompletionStage::Collecting
            &&& launched && replies.len() >= 2 ==> m.stage != CompletionStage::SurfacingTokens
            &&& m.stage == CompletionStage::SurfacingTokens ==> m.fault is None
            &&& m.fault is Some ==> faulty(m.stage)
            &&& call matches CompletionCallModel::Completed { outputs } ==> m.fault is None
                && outputs == m.outputs && m.stage == CompletionStage::Ended
            &&& m.well_formed()
        }),
    decreases replies.len(),
{
    if replies.len() > 0 {
        let before = replies.drop_last();
        outputs_so_far(plan, launched, managed, paged_kv, before);
        let (m, old_call) = after(plan, launched, managed, paged_kv, before);
        let (n, call) = after(plan, launched, managed, paged_kv, replies);
        let reply = replies.last();
        assert(m.expects(reply));
        assert((n, call) == m.resumed(reply, managed, paged_kv));
        completion_keeps(m, reply, managed, paged_kv);
        assert(forall|i: int| 0 <= i < before.len() ==> before[i] == replies[i]);
        if m.stage == CompletionStage::SurfacingTokens {
            assert(replies.len() == 2);
            assert(n.outputs =~= surfaced(m.tokens, reply->alive@).map_values(
                |t: StepToken|
                    StepOutput { req_id: t.req_id, new_token: t.token_id, finished: t.finished },
            ));
        }
    }
}

/// A step that completes surfaces exactly the tokens that the backend sampled for
/// requests which were alive when they came in, in their order; a step that
/// launched nothing surfaces nothing.
pub proof fn completed_steps_surface_the_live_tokens(
    plan: BatchPlan,
    launched: bool,
    managed: Set<u64>,
    paged_kv: bool,
    replies: Seq<CompletionReply>,
)
    requires
        plan_ascends(plan),
        answering(plan, launched, managed, paged_kv, replies),
        after(plan, launched, managed, paged_kv, replies).1 is Completed,
    ensures
        ({
            let outputs = after(plan, launched, managed, paged_kv, replies).1->outputs;
            if launched {
                replies.len() >= 2 && replies[0] is Tokens && replies[1] is Alive && shows(
                    outputs,
                    replies[0]->tokens@,
                    replies[1]->alive@,
                )
            } else {
                outputs.len() == 0
            }
        }),
{
    outputs_so_far(plan, launched, managed, paged_kv, replies);
}

/// What a prefill commits, once it is asked who is alive, are the spans of its own
/// requests.
pub proof fn prefill_commits_are_of_the_plan(
    plan: BatchPlan,
    launched: bool,
    managed: Set<u64>,
    paged_kv: bool,
    replies: Seq<CompletionReply>,
    i: int,
)
    requires
        plan_ascends(plan),
        replies.len() > 0,
        answering(plan, launched, managed, paged_kv, replies),
        after(plan, launched, managed, paged_kv, replies).1 is CommitPrefill,
    ensures
        replies.last() is Alive,
        plan matches BatchPlan::Prefill { req_ids, cu_seqlens_q, .. } && {
            let completed = after(plan, launched, managed, paged_kv, replies).1->completed;
            let alive = replies.last()->alive@;
            let at = living(req_ids@, alive, i);
            0 <= i < req_ids@.len() && i + 1 < cu_seqlens_q@.len() && alive.contains(req_ids@[i])
                ==> 0 <= at < completed.len() && completed[at].0 == req_ids@[i] && cu_seqlens_q@[i]
                + completed[at].1 == cu_seqlens_q@[i + 1]
        },
{
    let before = replies.drop_last();
    outputs_so_far(plan, launched, managed, paged_kv, before);
    let m = after(plan, launched, managed, paged_kv, before).0;
    assert(m.expects(replies.last()));
    assert(m.stage == CompletionStage::SpanningPrefill);
    match plan {
        BatchPlan::Prefill { req_ids, cu_seqlens_q, .. } => {
            if 0 <= i < req_ids@.len() && i + 1 < cu_seqlens_q@.len() {
                prefills_commit_their_own_spans(
                    req_ids@,
                    cu_seqlens_q@,
                    replies.last()->alive@,
                    i,
                );
            }
        },
        _ => {},
    }
}

} // verus!
