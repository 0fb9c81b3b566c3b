//! The ANE decoder.
pub mod component;
pub mod component_laws;
pub mod config;
pub mod decoder;
pub mod equivalence;
pub mod half_bits;
pub mod load_laws;
pub mod measure_laws;
pub mod plan_laws;
pub mod ranking;
pub mod script;
pub mod shape;
pub mod static_cache;
pub mod tensors;
pub mod weight_plan;
