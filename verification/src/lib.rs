//! The decisions of an inference runtime for Apple hardware, apart from the
//! hardware: how a step engine reserves and releases paged KV, how the ANE
//! decoder loads, imports and checks, what the inference and benchmark tools
//! accept and report, and how experiments are queued, gated and judged.
//!
//! Where the runtime works with a device, a scheduler or a disk, the library is
//! a state machine: it makes a call, the host performs it and replies.
pub mod acceptance_laws;
pub mod ane;
pub mod bench;
pub mod disagg;
pub mod engine;
pub mod evidence;
pub mod evidence_laws;
pub mod handoff;
pub mod handoff_laws;
pub mod hash;
pub mod json;
pub mod label_laws;
pub mod metal_infer;
pub mod mlx;
pub mod model_suite;
pub mod model_suite_laws;
pub mod order;
pub mod path_laws;
pub mod paths;
pub mod queue;
pub mod referee;
pub mod referee_laws;
pub mod text;
pub mod text_laws;
