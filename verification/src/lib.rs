//! A durable background-job runner: the queue semantics, the worker's
//! decisions around one job and the orchestrator's drain decisions, each
//! with a machine-checked contract.

pub mod errors;
pub mod isolation;
pub mod registry;
pub mod runner;
pub mod storage;
pub mod text;
pub mod worker;

pub use errors::FailedJobsError::JobsFailed;
pub use errors::{EnqueueError, FailedJobsError, FetchError, PerformError, StorageError};
pub use registry::Registry;
pub use runner::{Builder, NoConnectionPoolGiven, Runner};
pub use storage::{BackgroundJob, JobTable};
