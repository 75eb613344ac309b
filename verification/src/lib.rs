//! Core of a job queue: the job model, queue configuration, error type and
//! an in-memory job store, with their contracts.

pub mod errors;
pub mod storage;
pub mod types;

pub use errors::RustiqError;
pub use storage::MockStorage;
pub use types::{Job, JobStatus, QueueConfig, QueueConfigBuilder, Timestamp};
