//! The step engine.
pub mod completion;
pub mod decisions;
pub mod laws;
pub mod reservation;
pub mod reservation_laws;
pub mod step_laws;
pub mod submission;
pub mod submission_laws;
pub mod types;
