//! The step engine with a pool, a scheduler and a backend in memory.
use rvllm_runtime::engine::completion::{
    Completion, CompletionCall, CompletionReply, StepFault,
};
use rvllm_runtime::engine::decisions::{
    default_apple_backend_for_plan, runtime_to_apple_plan, AdmissionCall, AppleBackendMode,
    AppleRuntimePlan, BackendRoute, BatchPlan, CachedAdmission, ConfiguredBackendMode, Engine,
    HandoffKind, Launch, Platform, RolloutBucket, StepOutput, StepToken,
};
use rvllm_runtime::engine::reservation::{KvCall, KvReply, KvReservation, ReservationEntry};
use rvllm_runtime::engine::submission::{Submission, SubmissionCall, SubmissionReply};
use rvllm_runtime::engine::types::{
    ChainView, EngineError, KvChainHandle, MissingCapability, PagedKvError, Refusal,
};
use std::collections::HashSet;

const PAGE: u32 = 32;

#[derive(Clone)]
struct Chain {
    handle: KvChainHandle,
    owner: u64,
    token_len: u32,
    pages: Vec<usize>,
}

/// A pool of pages, which chains may share.
struct Pool {
    refs: Vec<usize>,
    chains: Vec<Chain>,
    generations: Vec<u64>,
}

impl Pool {
    fn new(pages: usize, chains: usize) -> Self {
        Pool { refs: vec![0; pages], chains: vec![], generations: vec![0; chains] }
    }

    fn used_pages(&self) -> usize {
        self.refs.iter().filter(|n| **n > 0).count()
    }

    fn chain_for_owner(&self, owner: u64) -> Option<KvChainHandle> {
        self.chains.iter().find(|c| c.owner == owner).map(|c| c.handle)
    }

    fn view(&self, handle: KvChainHandle) -> Result<ChainView, PagedKvError> {
        self.chains
            .iter()
            .find(|c| c.handle == handle)
            .map(|c| ChainView { owner: c.owner, token_len: c.token_len })
            .ok_or(PagedKvError::Other)
    }

    fn pages(&self, handle: KvChainHandle) -> Vec<usize> {
        self.chains.iter().find(|c| c.handle == handle).unwrap().pages.clone()
    }

    fn open(&mut self, owner: u64, token_len: u32, pages: Vec<usize>) -> KvChainHandle {
        let id = (0..self.generations.len())
            .find(|i| self.chains.iter().all(|c| c.handle.id as usize != *i))
            .unwrap();
        self.generations[id] += 1;
        let handle = KvChainHandle { id: id as u32, generation: self.generations[id] };
        self.chains.push(Chain { handle, owner, token_len, pages });
        handle
    }

    fn allocate_chain(&mut self, owner: u64, tokens: u32) -> Result<KvChainHandle, PagedKvError> {
        let handle = self.open(owner, 0, vec![]);
        self.append_tokens(handle, tokens).map(|()| handle)
    }

    fn fork_chain(&mut self, source: KvChainHandle, owner: u64) -> KvChainHandle {
        let from = self.chains.iter().find(|c| c.handle == source).unwrap().clone();
        for page in &from.pages {
            self.refs[*page] += 1;
        }
        self.open(owner, from.token_len, from.pages)
    }

    fn append_tokens(&mut self, handle: KvChainHandle, tokens: u32) -> Result<(), PagedKvError> {
        let place = self.chains.iter().position(|c| c.handle == handle);
        let place = place.ok_or(PagedKvError::Other)?;
        let chain = self.chains[place].clone();
        if tokens > 0 && chain.token_len % PAGE != 0 && self.refs[*chain.pages.last().unwrap()] > 1
        {
            return Err(PagedKvError::Other);
        }
        let length = chain.token_len + tokens;
        let needed = length.div_ceil(PAGE) as usize - chain.pages.len();
        let free: Vec<usize> =
            (0..self.refs.len()).filter(|page| self.refs[*page] == 0).collect();
        if needed > free.len() {
            return Err(PagedKvError::PagePoolExhausted {
                needed_pages: needed,
                free_pages: free.len(),
            });
        }
        for page in &free[..needed] {
            self.refs[*page] = 1;
            self.chains[place].pages.push(*page);
        }
        self.chains[place].token_len = length;
        Ok(())
    }

    fn truncate_tokens(&mut self, handle: KvChainHandle, tokens: u32) {
        let chain = self.chains.iter_mut().find(|c| c.handle == handle).unwrap();
        chain.token_len = tokens;
        for page in chain.pages.split_off(tokens.div_ceil(PAGE) as usize) {
            self.refs[page] -= 1;
        }
    }

    fn release_chain(&mut self, handle: KvChainHandle) -> Result<(), PagedKvError> {
        let place = self.chains.iter().position(|c| c.handle == handle);
        let chain = self.chains.remove(place.ok_or(PagedKvError::Other)?);
        for page in chain.pages {
            self.refs[page] -= 1;
        }
        Ok(())
    }

    fn cancel_request(&mut self, owner: u64) -> Result<(), PagedKvError> {
        match self.chain_for_owner(owner) {
            Some(handle) => self.release_chain(handle),
            None => Ok(()),
        }
    }
}

struct Request {
    id: u64,
    prompt: u32,
    prefilled: u32,
    generated: u32,
    max_new: u32,
    chain: Option<KvChainHandle>,
    in_flight: bool,
    backpressured: bool,
    alive: bool,
}

fn request(id: u64, prompt: u32, max_new: u32) -> Request {
    Request {
        id,
        prompt,
        prefilled: 0,
        generated: 0,
        max_new,
        chain: None,
        in_flight: false,
        backpressured: false,
        alive: true,
    }
}

/// Prefills first, oldest first; decodes together.
struct Scheduler {
    requests: Vec<Request>,
    max_prefill_tokens: u32,
}

impl Scheduler {
    fn alive(&self) -> HashSet<u64> {
        self.requests.iter().filter(|r| r.alive).map(|r| r.id).collect()
    }

    fn find(&mut self, id: u64) -> &mut Request {
        self.requests.iter_mut().rev().find(|r| r.id == id).unwrap()
    }

    fn chain_for(&self, id: u64) -> Option<KvChainHandle> {
        self.requests.iter().rev().find(|r| r.id == id && r.alive).and_then(|r| r.chain)
    }

    fn schedule(&self) -> BatchPlan {
        let ready: Vec<&Request> = self
            .requests
            .iter()
            .filter(|r| r.alive && !r.in_flight && !r.backpressured)
            .collect();
        let mut budget = self.max_prefill_tokens;
        let mut spans = vec![0];
        let mut rows: Vec<(&Request, u32)> = vec![];
        for own in ready.iter().filter(|r| r.prefilled < r.prompt) {
            let span = (own.prompt - own.prefilled).min(budget);
            if span > 0 {
                budget -= span;
                spans.push(spans.last().unwrap() + span);
                rows.push((own, own.prefilled + span));
            }
        }
        let ids = |rows: &[(&Request, u32)]| rows.iter().map(|(r, _)| r.id).collect();
        let lens = |rows: &[(&Request, u32)]| rows.iter().map(|(_, n)| *n).collect();
        let chains = |rows: &[(&Request, u32)]| rows.iter().map(|(r, _)| r.chain).collect();
        if !rows.is_empty() {
            return BatchPlan::Prefill {
                req_ids: ids(&rows),
                cu_seqlens_q: spans,
                context_lens: lens(&rows),
                kv_chains: chains(&rows),
            };
        }
        let rows: Vec<(&Request, u32)> =
            ready.iter().map(|r| (*r, r.prompt + r.generated)).collect();
        if rows.is_empty() {
            return BatchPlan::Idle;
        }
        BatchPlan::Decode {
            req_ids: ids(&rows),
            context_lens: lens(&rows),
            kv_chains: chains(&rows),
        }
    }

    fn commit_prefill(&mut self, completed: &[(u64, u32)]) {
        for (id, span) in completed {
            self.find(*id).prefilled += span;
        }
    }

    fn commit_decode(&mut self, decoded: &[(u64, u32)]) {
        for (id, _) in decoded {
            let own = self.find(*id);
            own.generated += 1;
            if own.generated >= own.max_new {
                own.alive = false;
            }
        }
    }
}

#[derive(Clone, Copy, PartialEq)]
enum Backend {
    Silent,
    FailsLaunch,
    FailsCollect,
    /// Samples a last token for a request on a decode.
    Terminal(u64),
}

struct Host {
    engine: Engine,
    pool: Option<Pool>,
    scheduler: Scheduler,
    backend: Backend,
}

struct Submitted {
    plan: BatchPlan,
    entries: Option<Vec<ReservationEntry>>,
    launched: bool,
}

fn host(engine: Engine, pool: Option<Pool>) -> Host {
    Host {
        engine,
        pool,
        scheduler: Scheduler { requests: vec![], max_prefill_tokens: 2048 },
        backend: Backend::Silent,
    }
}

fn paged(pages: usize, chains: usize, layout: u8) -> Host {
    let engine = Engine::new().with_paged_kv_config(Ok(()), [layout; 32]).unwrap();
    host(engine, Some(Pool::new(pages, chains)))
}

fn metal_plan() -> AppleRuntimePlan {
    AppleRuntimePlan {
        mode: AppleBackendMode::MetalPrefillMetalDecode,
        rollout_bucket: None,
        rollout_tokens: 1,
        ane_cores: 0,
    }
}

fn accelerated(backend: Backend, pool: Option<Pool>) -> Host {
    let (engine, route) = Engine::new()
        .with_apple_backend()
        .with_apple_runtime_plan(metal_plan(), Platform::Other, false, false)
        .unwrap();
    assert!(route.is_none());
    let engine = match pool {
        Some(_) => engine.with_paged_kv_pool([0xcc; 32]),
        None => engine,
    };
    Host { backend, ..host(engine, pool) }
}

impl Host {
    fn used_pages(&self) -> usize {
        self.pool.as_ref().unwrap().used_pages()
    }

    fn enqueue(&mut self, mut own: Request) -> Result<(), EngineError> {
        let mut call = self.engine.enqueue_request(own.id);
        loop {
            call = match call {
                AdmissionCall::Allocate { req_id } => {
                    let made = self.pool.as_mut().unwrap().allocate_chain(req_id, 0);
                    self.engine.admission_allocated(req_id, made)
                }
                AdmissionCall::Enqueue { chain } => {
                    own.chain = chain;
                    self.engine.admission_answered(own.prompt > 0, chain)
                }
                AdmissionCall::Release { handle, error } => {
                    let _ = self.pool.as_mut().unwrap().release_chain(handle);
                    return Err(error);
                }
                AdmissionCall::Admitted => {
                    self.scheduler.requests.push(own);
                    return Ok(());
                }
                AdmissionCall::Rejected { error } => return Err(error),
            };
        }
    }

    fn converse(
        &mut self,
        (mut reservation, mut call): (KvReservation, KvCall),
    ) -> Result<Vec<ReservationEntry>, EngineError> {
        let pool = self.pool.as_mut().unwrap();
        loop {
            let reply = match call {
                KvCall::ChainForOwner { req_id } => KvReply::Chain(pool.chain_for_owner(req_id)),
                KvCall::Allocate { req_id } => {
                    KvReply::Allocated(pool.allocate_chain(req_id, 0))
                }
                KvCall::View { handle } => KvReply::Viewed(pool.view(handle)),
                KvCall::BoundChain { req_id } => {
                    KvReply::Chain(self.scheduler.chain_for(req_id))
                }
                KvCall::Bind { req_id, handle } => {
                    self.scheduler.find(req_id).chain = Some(handle);
                    KvReply::Bound(true)
                }
                KvCall::Append { handle, tokens } => {
                    KvReply::Appended(pool.append_tokens(handle, tokens))
                }
                KvCall::Release { handle } => {
                    let _ = pool.release_chain(handle);
                    KvReply::Undone
                }
                KvCall::Unbind { req_id, .. } => {
                    self.scheduler.find(req_id).chain = None;
                    KvReply::Undone
                }
                KvCall::Truncate { handle, tokens } => {
                    pool.truncate_tokens(handle, tokens);
                    KvReply::Undone
                }
                KvCall::Reserved => return Ok(reservation.into_entries()),
                KvCall::Refused { error } => return Err(error),
            };
            call = reservation.resume(reply);
        }
    }

    fn reserve(&mut self, plan: &BatchPlan) -> Result<Vec<ReservationEntry>, EngineError> {
        let start = self.engine.prepare_paged_kv_step(plan)?;
        self.converse(start)
    }

    fn roll_back(&mut self, entries: Vec<ReservationEntry>) {
        let error = EngineError::FeatureNotAvailable { missing: MissingCapability::Backend };
        let start = KvReservation::roll_back(entries, error);
        assert_eq!(self.converse(start), Err(error));
    }

    fn submit(&mut self) -> Result<Submitted, String> {
        let plan = self.scheduler.schedule();
        let mut entries = None;
        let (mut submission, mut call) =
            Submission::begin(&self.engine, &plan, Platform::Other);
        loop {
            let reply = match call {
                SubmissionCall::Reserve => match self.reserve(&plan) {
                    Ok(reserved) => {
                        entries = Some(reserved);
                        SubmissionReply::Reserved { refusal: None }
                    }
                    Err(error) => SubmissionReply::Reserved { refusal: Some(error) },
                },
                SubmissionCall::Launch { launch } => {
                    let (Launch::Prefill { kind } | Launch::Rollout { kind, bucketed: false }) =
                        launch
                    else {
                        panic!("nothing else is launched here");
                    };
                    assert_eq!(kind, HandoffKind::MetalPrefillToMetalDecode);
                    SubmissionReply::Launched { success: self.backend != Backend::FailsLaunch }
                }
                SubmissionCall::MarkInFlight { req_ids } => {
                    assert_eq!(req_ids, plan.req_ids());
                    for id in req_ids {
                        self.scheduler.find(id).in_flight = true;
                    }
                    SubmissionReply::Done
                }
                SubmissionCall::RollBack => {
                    self.roll_back(entries.take().unwrap());
                    SubmissionReply::Done
                }
                SubmissionCall::Submitted { launched } => {
                    return Ok(Submitted { plan, entries, launched });
                }
                SubmissionCall::Failed { fault: StepFault::Backend } => {
                    return Err("launch failed".into());
                }
                SubmissionCall::Failed { fault: StepFault::Engine { error } } => {
                    return Err(format!("{error:?}"));
                }
            };
            call = submission.resume(reply);
        }
    }

    fn collect(&mut self, step: Submitted) -> Result<Vec<StepOutput>, String> {
        let ids = step.plan.req_ids();
        let decode = matches!(step.plan, BatchPlan::Decode { .. });
        let mut entries = step.entries;
        let (mut completion, mut call) = Completion::begin(step.plan, step.launched);
        loop {
            let reply = match call {
                CompletionCall::Collect => match self.backend {
                    Backend::FailsCollect => CompletionReply::BackendFailed,
                    Backend::Terminal(req_id) if decode => CompletionReply::Tokens {
                        tokens: vec![StepToken { req_id, token_id: 12, finished: true }],
                    },
                    _ => CompletionReply::Tokens { tokens: vec![] },
                },
                CompletionCall::QueryAlive => {
                    CompletionReply::Alive { alive: self.scheduler.alive() }
                }
                CompletionCall::CommitDecode { decoded } => {
                    self.scheduler.commit_decode(&decoded);
                    CompletionReply::Done
                }
                CompletionCall::FinishRequest { req_id } => {
                    self.scheduler.find(req_id).alive = false;
                    CompletionReply::Done
                }
                CompletionCall::CommitPrefill { completed } => {
                    self.scheduler.commit_prefill(&completed);
                    CompletionReply::Prefill { outcome: Ok(()) }
                }
                CompletionCall::ClearInFlight => {
                    for id in &ids {
                        self.scheduler.find(*id).in_flight = false;
                    }
                    CompletionReply::Done
                }
                CompletionCall::RollBack => {
                    if let Some(entries) = entries.take() {
                        self.roll_back(entries);
                    }
                    CompletionReply::Done
                }
                CompletionCall::Release { req_id } => CompletionReply::Released {
                    outcome: self.pool.as_mut().unwrap().cancel_request(req_id),
                },
                CompletionCall::Completed { outputs } => return Ok(outputs),
                CompletionCall::Failed { fault: StepFault::Backend } => {
                    return Err("collect failed".into());
                }
                CompletionCall::Failed { fault } => return Err(format!("{fault:?}")),
            };
            call = completion.resume(&self.engine, reply);
        }
    }

    fn step(&mut self) -> Result<Vec<StepOutput>, String> {
        let step = self.submit()?;
        self.collect(step)
    }

    fn cancel(&mut self, id: u64) -> bool {
        let own = self.scheduler.find(id);
        let (in_flight, cancelled) = (own.in_flight, own.alive);
        own.alive = false;
        if self.engine.cancel_request(id, in_flight, cancelled) {
            self.pool.as_mut().unwrap().cancel_request(id).unwrap();
        }
        cancelled
    }
}

#[test]
fn empty_engine_has_no_pending_work() {
    let h = host(Engine::new(), None);
    assert!(!h.engine.has_pending_work(h.scheduler.alive().len()));
}

#[test]
fn launch_then_collect_releases_borrow_for_next_launch() {
    let mut h = host(Engine::new(), None);
    h.enqueue(request(1, 1, 1)).unwrap();
    assert!(h.engine.has_pending_work(h.scheduler.alive().len()));
    h.step().unwrap();
    h.step().unwrap();
}

#[test]
fn paged_kv_reservation_rolls_back_all_requests_on_exhaustion() {
    let mut h = paged(2, 4, 1);
    h.enqueue(request(1, 33, 1)).unwrap();
    h.enqueue(request(2, 33, 1)).unwrap();
    let plan = h.scheduler.schedule();
    assert!(h.reserve(&plan).is_err());
    let pool = h.pool.as_ref().unwrap();
    assert_eq!(pool.used_pages(), 0);
    for id in [1, 2] {
        let chain = pool.chain_for_owner(id).unwrap();
        assert_eq!(pool.view(chain).unwrap().token_len, 0);
    }
}

#[test]
fn exhaustion_names_the_pages_and_the_request() {
    let mut h = paged(2, 4, 1);
    h.enqueue(request(1, 33, 1)).unwrap();
    h.enqueue(request(2, 33, 1)).unwrap();
    let plan = h.scheduler.schedule();
    assert_eq!(
        h.reserve(&plan),
        Err(EngineError::KvExhausted { needed_blocks: 2, free_blocks: 0, req_id: Some(2) })
    );
}

#[test]
fn cancellation_releases_pages_and_request_id_reuse_gets_new_generation() {
    let mut h = paged(4, 1, 2);
    h.enqueue(request(7, 33, 1)).unwrap();
    let plan = h.scheduler.schedule();
    h.reserve(&plan).unwrap();
    let old = h.scheduler.chain_for(7).unwrap();
    h.scheduler.commit_prefill(&[(7, 33)]);
    assert_eq!(h.used_pages(), 2);

    h.engine.set_request_backpressured(7, true).unwrap();
    h.scheduler.find(7).backpressured = true;
    assert!(matches!(h.scheduler.schedule(), BatchPlan::Idle));
    assert_eq!(h.scheduler.chain_for(7), Some(old));
    assert_eq!(h.used_pages(), 2);
    assert!(h.cancel(7));
    assert_eq!(h.used_pages(), 0);
    h.enqueue(request(7, 1, 1)).unwrap();
    let new = h.scheduler.chain_for(7).unwrap();
    assert_eq!(old.id, new.id);
    assert_ne!(old.generation, new.generation);
    assert!(h.pool.as_mut().unwrap().release_chain(old).is_err());
    assert_eq!(h.pool.as_ref().unwrap().chain_for_owner(7), Some(new));
}

/// A chain with the whole pages of a cached prompt, for a request.
fn attach(h: &mut Host, owner: u64, tokens: u32) -> KvChainHandle {
    h.pool.as_mut().unwrap().allocate_chain(owner, tokens / PAGE * PAGE).unwrap()
}

fn enqueue_attached(h: &mut Host, mut own: Request, chain: KvChainHandle) {
    let matched = own.prompt / PAGE * PAGE;
    let view = h.pool.as_ref().unwrap().view(chain);
    h.engine.check_cache_attachment(own.id, matched, view).unwrap();
    own.chain = Some(chain);
    own.prefilled = matched;
    let id = own.id;
    h.scheduler.requests.push(own);
    h.engine
        .enqueue_request_with_cache_attachment(id, CachedAdmission::Accepted)
        .unwrap();
}

#[test]
fn cached_attachment_restores_exact_cursor_and_defers_cancel_release() {
    let mut h = paged(8, 4, 17);
    let chain = attach(&mut h, 7, 65);
    enqueue_attached(&mut h, request(7, 65, 1), chain);
    let BatchPlan::Prefill { context_lens, cu_seqlens_q, .. } = h.scheduler.schedule() else {
        panic!("expected one-token private-tail prefill")
    };
    assert_eq!(context_lens, vec![65]);
    assert_eq!(cu_seqlens_q, vec![0, 1]);

    assert!(h.cancel(7));
    let view = h.pool.as_ref().unwrap().view(chain);
    assert!(view.is_ok());
    let owner = h.engine.check_cache_attachment_release(view).unwrap();
    let released = h.pool.as_mut().unwrap().release_chain(chain).is_ok();
    h.engine.release_cache_attachment(owner, released).unwrap();
    assert!(h.pool.as_ref().unwrap().chain_for_owner(7).is_none());
    assert_eq!(h.used_pages(), 0);
}

#[test]
fn failed_stale_cache_release_keeps_engine_ownership_guard() {
    let mut h = paged(4, 3, 19);
    let chain = attach(&mut h, 8, 33);
    enqueue_attached(&mut h, request(8, 33, 1), chain);
    h.pool.as_mut().unwrap().release_chain(chain).unwrap();
    let view = h.pool.as_ref().unwrap().view(chain);
    assert!(h.engine.check_cache_attachment_release(view).is_err());
    assert!(h.engine.release_cache_attachment(8, false).is_err());
    assert!(h.engine.cache_managed_kv.contains(&8));
}

#[test]
fn failed_terminal_warm_capture_does_not_leak_deferred_chain() {
    let mut h = paged(4, 2, 23);
    h.enqueue(request(9, 33, 1)).unwrap();
    let chain = h.scheduler.chain_for(9).unwrap();
    let view = h.pool.as_ref().unwrap().view(chain);
    h.engine.defer_paged_kv_release(9, Some(view)).unwrap();
    let plan = h.scheduler.schedule();
    h.reserve(&plan).unwrap();
    h.scheduler.commit_prefill(&[(9, 33)]);
    h.scheduler.commit_decode(&[(9, 99)]);
    assert!(!h.scheduler.alive().contains(&9));
    assert!(!h.engine.finish_request(9, true), "a deferred chain outlives its request");
    assert!(h.pool.as_ref().unwrap().view(chain).is_ok());

    h.engine.check_deferred_paged_kv(9).unwrap();
    let released = h.pool.as_mut().unwrap().cancel_request(9);
    h.engine.release_deferred_paged_kv(9, released).unwrap();
    assert_eq!(h.used_pages(), 0);
    assert!(h.engine.check_deferred_paged_kv(9).is_err());
}

#[test]
fn chunked_prefill_and_decode_reserve_absolute_request_pages() {
    let mut h = paged(8, 2, 4);
    h.scheduler.max_prefill_tokens = 32;
    h.enqueue(request(5, 65, 2)).unwrap();
    for (start, length) in [(0, 32), (32, 32), (64, 1)] {
        let plan = h.scheduler.schedule();
        h.reserve(&plan).unwrap();
        let BatchPlan::Prefill { context_lens, .. } = plan else {
            panic!("expected prefill")
        };
        assert_eq!(context_lens, vec![start + length]);
        h.scheduler.commit_prefill(&[(5, length)]);
    }
    let handle = h.scheduler.chain_for(5).unwrap();
    let length = |h: &Host| h.pool.as_ref().unwrap().view(handle).unwrap().token_len;
    assert_eq!(length(&h), 65);

    let first = h.scheduler.schedule();
    h.reserve(&first).unwrap();
    assert_eq!(length(&h), 65);
    h.scheduler.commit_decode(&[(5, 7)]);
    let second = h.scheduler.schedule();
    h.reserve(&second).unwrap();
    assert_eq!(length(&h), 66);
}

#[test]
fn engine_fails_closed_on_shared_partial_tail_without_device_cow() {
    let mut pool = Pool::new(4, 3);
    let source = pool.allocate_chain(100, 17).unwrap();
    let fork = pool.fork_chain(source, 1);
    let before = pool.pages(fork);
    let mut own = request(1, 33, 1);
    own.chain = Some(fork);
    own.prefilled = 17;
    let mut h = host(Engine::new().with_paged_kv_pool([5; 32]), Some(pool));
    h.scheduler.requests.push(own);
    let plan = h.scheduler.schedule();
    assert!(h.reserve(&plan).is_err());
    let pool = h.pool.as_ref().unwrap();
    assert_eq!(pool.view(fork).unwrap().token_len, 17);
    assert_eq!(pool.pages(fork), before);
    assert_eq!(pool.refs[before[0]], 2);
}

#[test]
fn inserting_a_cache_miss_cannot_reassign_an_active_requests_pages() {
    let mut h = paged(8, 4, 6);
    h.enqueue(request(1, 1, 3)).unwrap();
    let prefill_a = h.scheduler.schedule();
    h.reserve(&prefill_a).unwrap();
    h.scheduler.commit_prefill(&[(1, 1)]);
    let chain_a = h.scheduler.chain_for(1).unwrap();
    let pages_a = h.pool.as_ref().unwrap().pages(chain_a);

    let decode_a = h.scheduler.schedule();
    h.reserve(&decode_a).unwrap();
    h.scheduler.commit_decode(&[(1, 2)]);

    h.enqueue(request(2, 33, 2)).unwrap();
    let prefill_b = h.scheduler.schedule();
    assert!(
        matches!(&prefill_b, BatchPlan::Prefill { req_ids, .. } if req_ids == &vec![2])
    );
    h.reserve(&prefill_b).unwrap();
    h.scheduler.commit_prefill(&[(2, 33)]);
    assert_eq!(h.pool.as_ref().unwrap().chain_for_owner(1), Some(chain_a));
    assert_eq!(h.pool.as_ref().unwrap().pages(chain_a), pages_a);

    let BatchPlan::Decode { req_ids, kv_chains, .. } = h.scheduler.schedule() else {
        panic!("expected decode batch")
    };
    let place = req_ids.iter().position(|id| *id == 1).unwrap();
    assert_eq!(kv_chains[place], Some(chain_a));
}

#[test]
fn launch_and_collect_failures_rollback_paged_reservations() {
    for backend in [Backend::FailsLaunch, Backend::FailsCollect] {
        let mut h = accelerated(backend, Some(Pool::new(4, 2)));
        h.enqueue(request(42, 33, 1)).unwrap();
        assert!(h.step().is_err());
        assert_eq!(h.used_pages(), 0);
        assert!(!h.scheduler.find(42).in_flight);
        assert_eq!(h.engine.paged_kv_layout_fingerprint, [0xcc; 32]);
    }
}

#[test]
fn owned_submissions_exclude_in_flight_requests_and_collect_out_of_order() {
    let mut h = accelerated(Backend::Silent, None);
    h.scheduler.max_prefill_tokens = 1;
    for id in 1..=3 {
        h.enqueue(request(id, 1, 1)).unwrap();
    }
    let first = h.submit().expect("submit first request");
    let second = h.submit().expect("submit second request");
    let third = h.submit().expect("submit third request");
    let plan_id = |step: &Submitted| step.plan.req_ids()[0];
    assert_eq!([plan_id(&first), plan_id(&second), plan_id(&third)], [1, 2, 3]);
    let idle = h.submit().expect("all live requests are owned");
    assert!(matches!(idle.plan, BatchPlan::Idle));
    h.collect(idle).expect("collect idle step");

    h.collect(second).expect("collect middle");
    h.collect(third).expect("collect last");
    h.collect(first).expect("collect first");
    assert_eq!(h.scheduler.alive().len(), 3);
}

#[test]
fn cancellation_defers_paged_kv_release_until_submitted_completion() {
    let mut h = accelerated(Backend::Silent, Some(Pool::new(2, 2)));
    h.enqueue(request(9, 1, 1)).unwrap();
    let submitted = h.submit().expect("submit prefill");
    assert_eq!(h.used_pages(), 1);
    assert!(h.cancel(9));
    assert_eq!(h.used_pages(), 1, "GPU-owned pages must remain live until completion");
    assert!(h.collect(submitted).unwrap().is_empty());
    assert_eq!(h.used_pages(), 0);
}

#[test]
fn terminal_backend_output_releases_request_owned_pages() {
    let mut h = accelerated(Backend::Terminal(77), Some(Pool::new(2, 2)));
    h.enqueue(request(77, 1, 8)).unwrap();
    h.step().unwrap();
    assert_eq!(h.used_pages(), 1);

    let outputs = h.step().unwrap();
    assert_eq!(outputs.len(), 1);
    assert!(outputs[0].finished);
    assert_eq!(h.used_pages(), 0);
    assert!(!h.engine.has_pending_work(h.scheduler.alive().len()));
}

#[test]
fn late_tokens_of_cancelled_requests_are_not_surfaced() {
    let mut h = accelerated(Backend::Terminal(77), Some(Pool::new(2, 2)));
    h.enqueue(request(77, 1, 8)).unwrap();
    h.step().unwrap();
    let decode = h.submit().unwrap();
    assert!(h.cancel(77));
    assert!(h.collect(decode).unwrap().is_empty());
    assert_eq!(h.used_pages(), 0);
}

#[test]
fn rejected_requests_give_their_chain_back() {
    let mut h = paged(2, 2, 1);
    assert_eq!(
        h.enqueue(request(1, 0, 1)),
        Err(EngineError::InvalidTransition {
            reason: Refusal::AdmissionRejected,
            req_id: None
        })
    );
    assert!(h.pool.as_ref().unwrap().chain_for_owner(1).is_none());
    assert_eq!(Refusal::AdmissionRejected.text().is_empty(), false);
}

fn missing(result: Result<(Engine, Option<BackendRoute>), EngineError>) -> &'static str {
    match result {
        Err(EngineError::FeatureNotAvailable { missing }) => missing.op(),
        _ => "accepted",
    }
}

#[test]
fn apple_runtime_plan_fails_closed_on_unsupported_platform() {
    let result =
        Engine::new().with_apple_runtime_plan(metal_plan(), Platform::Other, false, false);
    assert_eq!(missing(result), "apple_backend_unavailable_on_target");
}

#[test]
fn apple_default_metal_route_requires_model_dir_unless_toy_is_explicitly_enabled() {
    let route = |toy| {
        default_apple_backend_for_plan(&metal_plan(), Platform::MacOs, false, toy)
    };
    assert_eq!(
        route(false),
        Err(EngineError::FeatureNotAvailable { missing: MissingCapability::MetalModelDir })
    );
    assert_eq!(MissingCapability::MetalModelDir.op(), "metal_model_dir_required");
    assert_eq!(route(true), Ok(BackendRoute::ToyMetal));
}

#[test]
fn private_ane_mode_fails_closed_without_ane_target() {
    let plan = AppleRuntimePlan {
        mode: AppleBackendMode::MetalPrefillAneFfnRollout,
        rollout_bucket: Some(RolloutBucket { seqs: 4, tokens: 4 }),
        ..metal_plan()
    };
    let result = Engine::new().with_apple_runtime_plan(plan, Platform::Other, false, false);
    assert_eq!(missing(result), "private_ane_unavailable");
}

#[test]
fn disabled_configurations_leave_the_engine_alone() {
    let none = runtime_to_apple_plan(16, ConfiguredBackendMode::Disabled, None, 1);
    assert!(none.is_none());
    let (engine, route) = Engine::new()
        .with_apple_runtime_config(none, Platform::Other, false, false)
        .unwrap();
    assert!(!engine.apple_backend && route.is_none());
    let some = runtime_to_apple_plan(16, ConfiguredBackendMode::MetalOnly, None, 2);
    assert_eq!(some.unwrap().mode, AppleBackendMode::MetalOnly);
    let (engine, route) = Engine::new()
        .with_apple_runtime_config(some, Platform::MacOs, true, false)
        .unwrap();
    assert!(engine.apple_backend);
    assert_eq!(route, Some(BackendRoute::ModelMetal));
}

#[test]
fn submitted_steps_are_in_flight_without_an_accelerator_too() {
    let mut h = host(Engine::new(), None);
    h.enqueue(request(1, 1, 1)).unwrap();
    let step = h.submit().unwrap();
    assert!(!step.launched);
    assert!(h.scheduler.find(1).in_flight);
    h.collect(step).unwrap();
    assert!(!h.scheduler.find(1).in_flight);
}

#[test]
fn reserved_chains_are_those_the_scheduler_holds() {
    let mut h = paged(4, 4, 1);
    h.enqueue(request(1, 3, 1)).unwrap();
    h.enqueue(request(2, 5, 1)).unwrap();
    let plan = h.scheduler.schedule();
    let entries = h.reserve(&plan).unwrap();
    assert_eq!(entries.len(), 2);
    for entry in &entries {
        assert_eq!(h.scheduler.chain_for(entry.req_id), Some(entry.handle));
    }
}

#[test]
fn refused_admissions_leave_the_pool_alone() {
    let mut h = paged(4, 4, 1);
    h.enqueue(request(2, 1, 1)).unwrap();
    let held = h.pool.as_ref().unwrap().chain_for_owner(2);
    assert!(held.is_some());
    assert!(h.enqueue(request(1, 0, 1)).is_err());
    assert_eq!(h.pool.as_ref().unwrap().chain_for_owner(1), None);
    assert_eq!(h.pool.as_ref().unwrap().chain_for_owner(2), held);
    let refused = h.engine.admission_allocated(3, Err(PagedKvError::Other));
    assert!(matches!(refused, AdmissionCall::Rejected { .. }));
}
