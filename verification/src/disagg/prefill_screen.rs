//! Which options go with a prefill-only screen, and whether the candidate that
//! it asks for is the one that was resolved.
use vstd::prelude::*;

verus! {

/// The options that a prefill-only screen depends on.
#[derive(Clone, Copy, Debug, PartialEq, Eq, Structural)]
pub struct PrefillScreenOptions {
    pub enabled: bool,
    pub reference_count: usize,
    pub output_requested: bool,
    pub text_input: bool,
    pub interactive: bool,
    pub interleave: bool,
    pub retain_metal: bool,
    pub runtime_worker: bool,
    pub capture_ane: bool,
    pub cache_operation: bool,
    pub nonbaseline_ane: bool,
    pub nonbaseline_packing: bool,
    pub compile_budget: usize,
}

pub open spec fn screen_defaults() -> PrefillScreenOptions {
    PrefillScreenOptions {
        enabled: false,
        reference_count: 0,
        output_requested: false,
        text_input: false,
        interactive: false,
        interleave: false,
        retain_metal: false,
        runtime_worker: false,
        capture_ane: false,
        cache_operation: false,
        nonbaseline_ane: false,
        nonbaseline_packing: false,
        compile_budget: 0,
    }
}

impl Default for PrefillScreenOptions {
    fn default() -> (r: PrefillScreenOptions)
        ensures
            r == screen_defaults(),
    {
        PrefillScreenOptions {
            enabled: false,
            reference_count: 0,
            output_requested: false,
            text_input: false,
            interactive: false,
            interleave: false,
            retain_metal: false,
            runtime_worker: false,
            capture_ane: false,
            cache_operation: false,
            nonbaseline_ane: false,
            nonbaseline_packing: false,
            compile_budget: 0,
        }
    }
}

/// Whether an option asks for something other than a prefill.
pub open spec fn asks_for_more(o: PrefillScreenOptions) -> bool {
    o.interactive || o.interleave || o.retain_metal || o.runtime_worker || o.capture_ane
        || o.cache_operation || o.nonbaseline_ane || o.nonbaseline_packing || o.compile_budget != 0
}

pub open spec fn screen_outcome(o: PrefillScreenOptions) -> Result<(), Seq<char>> {
    if !o.enabled {
        Ok(())
    } else if !(1 <= o.reference_count <= 16) || !o.output_requested || o.text_input {
        Err(
            "prefill-only requires 1..=16 --hf-reference inputs and a fresh --output-dir; no text input"@,
        )
    } else if asks_for_more(o) {
        Err(
            "prefill-only cannot prepare/inspect ANE, compile, decode, or select ANE/KV candidates"@,
        )
    } else {
        Ok(())
    }
}

impl PrefillScreenOptions {
    pub fn validate(self) -> (r: Result<(), &'static str>)
        ensures
            match r {
                Ok(_) => screen_outcome(self) is Ok,
                Err(e) => screen_outcome(self) == Err::<(), Seq<char>>(e@),
            },
    {
        if !self.enabled {
            return Ok(());
        }
        if self.reference_count < 1 || self.reference_count > 16 || !self.output_requested
            || self.text_input {
            return Err(
                "prefill-only requires 1..=16 --hf-reference inputs and a fresh --output-dir; no text input",
            );
        }
        if self.interactive || self.interleave || self.retain_metal || self.runtime_worker
            || self.capture_ane || self.cache_operation || self.nonbaseline_ane
            || self.nonbaseline_packing || self.compile_budget != 0 {
            return Err(
                "prefill-only cannot prepare/inspect ANE, compile, decode, or select ANE/KV candidates",
            );
        }
        Ok(())
    }
}

/// A screen that is accepted loads nothing but the prefill: no decode, no
/// compilation and no candidate of the decoder.
pub proof fn accepted_screens_only_prefill(o: PrefillScreenOptions)
    requires
        o.enabled,
        screen_outcome(o) is Ok,
    ensures
        !asks_for_more(o),
        1 <= o.reference_count <= 16,
        o.output_requested && !o.text_input,
{
}

/// How the requested candidate was read; a candidate is a number, and zero is
/// none.
#[derive(Debug)]
pub enum Selector {
    Parsed(u32),
    Malformed(&'static str),
    NotPresent,
    NotUnicode,
}

pub open spec fn selection_outcome(requested: Selector, resolved: u32) -> Result<(), Seq<char>> {
    match requested {
        Selector::Malformed(message) => Err(message@),
        Selector::NotUnicode => Err("non-Unicode RVLLM_METAL_RESEARCH selector"@),
        Selector::Parsed(candidate) => if candidate != resolved {
            Err("requested Metal candidate differs from resolved options"@)
        } else {
            Ok(())
        },
        Selector::NotPresent => if resolved != 0 {
            Err("requested Metal candidate differs from resolved options"@)
        } else {
            Ok(())
        },
    }
}

/// A misspelling must not turn a requested screen into a successful baseline.
pub fn validate_requested_candidate(requested: Selector, resolved: u32) -> (r: Result<
    (),
    &'static str,
>)
    ensures
        match r {
            Ok(_) => selection_outcome(requested, resolved) is Ok,
            Err(e) => selection_outcome(requested, resolved) == Err::<(), Seq<char>>(e@),
        },
{
    let candidate: u32 = match requested {
        Selector::Parsed(candidate) => candidate,
        Selector::Malformed(message) => {
            return Err(message);
        },
        Selector::NotPresent => 0,
        Selector::NotUnicode => {
            return Err("non-Unicode RVLLM_METAL_RESEARCH selector");
        },
    };
    if candidate != resolved {
        return Err("requested Metal candidate differs from resolved options");
    }
    Ok(())
}

} // verus!
