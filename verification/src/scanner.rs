//! The scanning side: jobs, workers and the rescan scheduler.

pub mod http;
pub mod rescan;
pub mod worker;
