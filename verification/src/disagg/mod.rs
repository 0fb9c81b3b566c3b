//! Disaggregated inference: Metal prefill, ANE decode.
pub mod cache_batch;
pub mod cache_laws;
pub mod cache_receipt;
pub mod continuation;
pub mod option_laws;
pub mod options;
pub mod prefill_case;
pub mod prefill_laws;
pub mod prefill_screen;
pub mod references;
pub mod run;
pub mod run_laws;
