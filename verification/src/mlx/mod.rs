//! Summaries of MLX benchmark queues.
pub mod benchmark;
pub mod benchmark_laws;
pub mod queue_summary;
pub mod stage_identity;
pub mod stage_laws;
pub mod stage_receipt;
pub mod stage_summary;
pub mod summary_laws;
