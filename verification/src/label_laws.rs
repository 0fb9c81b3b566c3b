//! The names under which outcomes, refusals and capabilities are reported.
use crate::ane::decoder::hex4;
use crate::disagg::cache_batch::{status_name, BatchStatus};
use crate::disagg::options::policy_label;
use crate::ane::weight_plan::AneWeightPlan;
use crate::engine::types::{
    missing_backend, missing_op, refusal_text, MissingCapability, Refusal,
};
use crate::metal_infer::args::{finish_name, FinishReason};
use crate::path_laws::digit_value;
use crate::queue::trial::{status_text, Status};
use crate::referee::schemas_outcome;
use vstd::prelude::*;

verus! {

/// A trial succeeded, was rejected or failed, and a generation ended with a token or with
/// its length; a batch of visits runs, was cancelled, failed or is complete.
pub proof fn outcomes_have_their_names()
    ensures
        status_text(Status::Succeeded) == "succeeded"@,
        status_text(Status::Rejected) == "rejected"@,
        status_text(Status::Failed) == "failed"@,
        finish_name(FinishReason::Eos) == "eos"@,
        finish_name(FinishReason::Length) == "length"@,
        status_name(BatchStatus::Running) == "running"@,
        status_name(BatchStatus::Cancelled) == "cancelled"@,
        status_name(BatchStatus::Failed) == "failed"@,
        status_name(BatchStatus::Complete) == "complete"@,
{
}

/// A refusal is told in the words of what was refused.
pub proof fn refusals_have_their_words()
    ensures
        refusal_text(Refusal::AllocatorRejected) == "paged KV allocator rejected the operation"@,
        refusal_text(Refusal::AdmissionRejected) == "scheduler rejected request admission"@,
        refusal_text(Refusal::PoolNotConfigured) == "paged KV pool is not configured"@,
        refusal_text(Refusal::AttachmentMismatch)
            == "cache attachment does not match request owner and restored length"@,
        refusal_text(Refusal::AttachmentExceedsPrompt)
            == "cache attachment exceeds prompt length"@,
        refusal_text(Refusal::CachedAdmissionRejected)
            == "scheduler rejected cached request admission"@,
        refusal_text(Refusal::NoChainToDefer) == "request has no paged KV chain to defer"@,
        refusal_text(Refusal::DeferredOwnerMismatch)
            == "deferred paged KV owner does not match request"@,
        refusal_text(Refusal::NotDeferred) == "request does not own deferred paged KV"@,
        refusal_text(Refusal::AttachmentNotOwned)
            == "cache attachment is not owned by this engine"@,
        refusal_text(Refusal::AttachmentReleaseFailed) == "failed to release cache attachment"@,
        refusal_text(Refusal::BackpressureFailed)
            == "failed to update request backpressure eligibility"@,
        refusal_text(Refusal::PlanLengthsDiffer) == "paged KV plan vector lengths differ"@,
        refusal_text(Refusal::OwnerMismatch)
            == "paged KV owner does not match scheduled request"@,
        refusal_text(Refusal::BindFailed) == "failed to bind request-owned KV chain"@,
        refusal_text(Refusal::PrefillNotCommitted)
            == "backend completed a prefill plan that scheduler could not commit"@,
{
}

/// What is missing is told by its own name; the private accelerator is missed for itself,
/// a model for the public one, and a backend or a target for the runtime.
pub proof fn missing_capabilities_are_told(missing: MissingCapability)
    ensures
        missing_backend(missing) == "private-ane"@ <==> missing is PrivateAne || missing is AneCores,
        missing_backend(missing) == "apple-metal"@ <==> missing is MetalModelDir,
        missing_backend(missing) == "apple-runtime"@ <==> missing is Backend || missing
            is AppleTarget,
        missing_op(MissingCapability::PrivateAne) == "private_ane_unavailable"@,
        missing_op(MissingCapability::AneCores) == "ane_cores"@,
        missing_op(MissingCapability::Backend) == "apple_backend_missing"@,
        missing_op(MissingCapability::MetalModelDir) == "metal_model_dir_required"@,
        missing_op(MissingCapability::AppleTarget) == "apple_backend_unavailable_on_target"@,
{
    reveal_strlit("private-ane");
    reveal_strlit("apple-metal");
    reveal_strlit("apple-runtime");
    assert("private-ane"@.len() == 11 && "private-ane"@[0] == 'p');
    assert("apple-metal"@.len() == 11 && "apple-metal"@[0] == 'a');
    assert("apple-runtime"@.len() == 13);
}

/// A policy is told by what it may do: to compile within a budget, to reuse only what is
/// cached, or to compile.
pub proof fn policies_tell_what_may_be_compiled(plan: AneWeightPlan, budget: usize)
    ensures
        budget > 0 ==> policy_label(plan, budget) == "reuse-with-compile-budget"@,
        plan is DynamicFfn || plan is StaticFfnDynamicOutput ==> policy_label(plan, 0)
            == "compile"@,
        !(plan is DynamicFfn || plan is StaticFfnDynamicOutput) ==> policy_label(plan, 0)
            == "require-existing"@,
{
}

/// A number of sixteen bits is written in four digits, of which it is made up again.
pub proof fn halves_are_written_in_four_digits(bits: u16)
    ensures
        hex4(bits).len() == 4,
        4096 * digit_value(hex4(bits)[0]) + 256 * digit_value(hex4(bits)[1]) + 16 * digit_value(
            hex4(bits)[2],
        ) + digit_value(hex4(bits)[3]) == bits,
{
    let n = bits as nat;
    assert(n / 4096 < 16);
    assert(n == 4096 * (n / 4096) + 256 * (n / 256 % 16) + 16 * (n / 16 % 16) + n % 16);
}

/// A comparison is of a fixture and of two observations, each by its schema.
pub proof fn comparisons_are_of_their_schemas(
    fixture: Seq<char>,
    reference: Seq<char>,
    candidate: Seq<char>,
)
    ensures
        schemas_outcome(fixture, reference, candidate) is Ok <==> {
            &&& fixture == "rvllm.gemma4_token_fixture.v1"@
            &&& reference == "rvllm.gemma4_quality_observations.v1"@
            &&& candidate == "rvllm.gemma4_quality_observations.v1"@
        },
{
}

} // verus!
