//! A local, serial experiment queue: jobs with pinned files, sampled launch
//! gates, and one owner of the accelerator.
pub mod census;
pub mod census_laws;
pub mod condition_laws;
pub mod desk;
pub mod gate;
pub mod job;
pub mod job_laws;
pub mod pass_laws;
pub mod prelaunch;
pub mod processes;
pub mod qualification;
pub mod selection;
pub mod trial;
pub mod worker;
pub mod worker_laws;
