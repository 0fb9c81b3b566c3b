//! Plain values that the engine exchanges with its scheduler, its paged KV
//! allocator and its accelerator backend.
use vstd::prelude::*;

verus! {

/// A generation-checked reference to one request's chain of KV pages.
#[derive(Clone, Copy, Debug, PartialEq, Eq, Structural)]
pub struct KvChainHandle {
    pub id: u32,
    pub generation: u64,
}

/// What the allocator reports of a chain: who owns it and how many tokens it
/// covers.
#[derive(Clone, Copy, Debug, PartialEq, Eq, Structural)]
pub struct ChainView {
    pub owner: u64,
    pub token_len: u32,
}

/// An allocator failure, as far as the engine tells one from another.
#[derive(Clone, Copy, Debug, PartialEq, Eq, Structural)]
pub enum PagedKvError {
    PagePoolExhausted { needed_pages: usize, free_pages: usize },
    Other,
}

/// Why the engine refused a transition.
#[derive(Clone, Copy, Debug, PartialEq, Eq, Structural)]
pub enum Refusal {
    AllocatorRejected,
    AdmissionRejected,
    PoolNotConfigured,
    AttachmentMismatch,
    AttachmentExceedsPrompt,
    CachedAdmissionRejected,
    NoChainToDefer,
    DeferredOwnerMismatch,
    NotDeferred,
    AttachmentNotOwned,
    AttachmentReleaseFailed,
    BackpressureFailed,
    PlanLengthsDiffer,
    OwnerMismatch,
    BindFailed,
    PrefillNotCommitted,
}

/// The sentence reported for a refused transition.
pub open spec fn refusal_text(refusal: Refusal) -> Seq<char> {
    match refusal {
        Refusal::AllocatorRejected => "paged KV allocator rejected the operation"@,
        Refusal::AdmissionRejected => "scheduler rejected request admission"@,
        Refusal::PoolNotConfigured => "paged KV pool is not configured"@,
        Refusal::AttachmentMismatch =>
            "cache attachment does not match request owner and restored length"@,
        Refusal::AttachmentExceedsPrompt => "cache attachment exceeds prompt length"@,
        Refusal::CachedAdmissionRejected => "scheduler rejected cached request admission"@,
        Refusal::NoChainToDefer => "request has no paged KV chain to defer"@,
        Refusal::DeferredOwnerMismatch => "deferred paged KV owner does not match request"@,
        Refusal::NotDeferred => "request does not own deferred paged KV"@,
        Refusal::AttachmentNotOwned => "cache attachment is not owned by this engine"@,
        Refusal::AttachmentReleaseFailed => "failed to release cache attachment"@,
        Refusal::BackpressureFailed => "failed to update request backpressure eligibility"@,
        Refusal::PlanLengthsDiffer => "paged KV plan vector lengths differ"@,
        Refusal::OwnerMismatch => "paged KV owner does not match scheduled request"@,
        Refusal::BindFailed => "failed to bind request-owned KV chain"@,
        Refusal::PrefillNotCommitted =>
            "backend completed a prefill plan that scheduler could not commit"@,
    }
}

impl Refusal {
    pub fn text(self) -> (r: &'static str)
        ensures
            r@ == refusal_text(self),
    {
        match self {
            Refusal::AllocatorRejected => "paged KV allocator rejected the operation",
            Refusal::AdmissionRejected => "scheduler rejected request admission",
            Refusal::PoolNotConfigured => "paged KV pool is not configured",
            Refusal::AttachmentMismatch =>
                "cache attachment does not match request owner and restored length",
            Refusal::AttachmentExceedsPrompt => "cache attachment exceeds prompt length",
            Refusal::CachedAdmissionRejected => "scheduler rejected cached request admission",
            Refusal::NoChainToDefer => "request has no paged KV chain to defer",
            Refusal::DeferredOwnerMismatch => "deferred paged KV owner does not match request",
            Refusal::NotDeferred => "request does not own deferred paged KV",
            Refusal::AttachmentNotOwned => "cache attachment is not owned by this engine",
            Refusal::AttachmentReleaseFailed => "failed to release cache attachment",
            Refusal::BackpressureFailed => "failed to update request backpressure eligibility",
            Refusal::PlanLengthsDiffer => "paged KV plan vector lengths differ",
            Refusal::OwnerMismatch => "paged KV owner does not match scheduled request",
            Refusal::BindFailed => "failed to bind request-owned KV chain",
            Refusal::PrefillNotCommitted =>
                "backend completed a prefill plan that scheduler could not commit",
        }
    }
}

/// A capability that the platform, the plan or the configuration lacks.
#[derive(Clone, Copy, Debug, PartialEq, Eq, Structural)]
pub enum MissingCapability {
    PrivateAne,
    AneCores,
    Backend,
    MetalModelDir,
    AppleTarget,
}

/// The operation that a missing capability is reported under.
pub open spec fn missing_op(missing: MissingCapability) -> Seq<char> {
    match missing {
        MissingCapability::PrivateAne => "private_ane_unavailable"@,
        MissingCapability::AneCores => "ane_cores"@,
        MissingCapability::Backend => "apple_backend_missing"@,
        MissingCapability::MetalModelDir => "metal_model_dir_required"@,
        MissingCapability::AppleTarget => "apple_backend_unavailable_on_target"@,
    }
}

/// The backend that a missing capability is reported for.
pub open spec fn missing_backend(missing: MissingCapability) -> Seq<char> {
    match missing {
        MissingCapability::PrivateAne => "private-ane"@,
        MissingCapability::AneCores => "private-ane"@,
        MissingCapability::Backend => "apple-runtime"@,
        MissingCapability::MetalModelDir => "apple-metal"@,
        MissingCapability::AppleTarget => "apple-runtime"@,
    }
}

impl MissingCapability {
    pub fn op(self) -> (r: &'static str)
        ensures
            r@ == missing_op(self),
    {
        match self {
            MissingCapability::PrivateAne => "private_ane_unavailable",
            MissingCapability::AneCores => "ane_cores",
            MissingCapability::Backend => "apple_backend_missing",
            MissingCapability::MetalModelDir => "metal_model_dir_required",
            MissingCapability::AppleTarget => "apple_backend_unavailable_on_target",
        }
    }

    pub fn backend(self) -> (r: &'static str)
        ensures
            r@ == missing_backend(self),
    {
        match self {
            MissingCapability::PrivateAne => "private-ane",
            MissingCapability::AneCores => "private-ane",
            MissingCapability::Backend => "apple-runtime",
            MissingCapability::MetalModelDir => "apple-metal",
            MissingCapability::AppleTarget => "apple-runtime",
        }
    }
}

/// An engine failure.
#[derive(Clone, Copy, Debug, PartialEq, Eq, Structural)]
pub enum EngineError {
    KvExhausted { needed_blocks: usize, free_blocks: usize, req_id: Option<u64> },
    InvalidTransition { reason: Refusal, req_id: Option<u64> },
    FeatureNotAvailable { missing: MissingCapability },
}

/// How an allocator failure is reported.
pub open spec fn kv_error(error: PagedKvError, req_id: Option<u64>) -> EngineError {
    match error {
        PagedKvError::PagePoolExhausted { needed_pages, free_pages } => EngineError::KvExhausted {
            needed_blocks: needed_pages,
            free_blocks: free_pages,
            req_id,
        },
        PagedKvError::Other => EngineError::InvalidTransition {
            reason: Refusal::AllocatorRejected,
            req_id,
        },
    }
}

/// Reports an allocator failure: exhaustion keeps its page counts, anything
/// else becomes a refused transition.
pub fn paged_kv_error(error: PagedKvError, req_id: Option<u64>) -> (r: EngineError)
    ensures
        r == kv_error(error, req_id),
{
    match error {
        PagedKvError::PagePoolExhausted { needed_pages, free_pages } => EngineError::KvExhausted {
            needed_blocks: needed_pages,
            free_blocks: free_pages,
            req_id,
        },
        PagedKvError::Other => EngineError::InvalidTransition {
            reason: Refusal::AllocatorRejected,
            req_id,
        },
    }
}

pub open spec fn refused(req_id: Option<u64>, reason: Refusal) -> EngineError {
    EngineError::InvalidTransition { reason, req_id }
}

pub fn scheduler_transition_error(req_id: Option<u64>, reason: Refusal) -> (r: EngineError)
    ensures
        r == refused(req_id, reason),
{
    EngineError::InvalidTransition { reason, req_id }
}

} // verus!
