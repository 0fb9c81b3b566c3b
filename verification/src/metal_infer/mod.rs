//! The Metal text inference workflow: its command line, token budgets, session
//! cases and reference comparisons.
pub mod args;
pub mod budget;
pub mod case_laws;
pub mod cases;
pub mod charsmap;
pub mod charsmap_laws;
pub mod engine_session;
pub mod generation;
pub mod logits;
pub mod reference;
pub mod session;
pub mod session_laws;
pub mod tokenizer;
pub mod tokenizer_laws;
