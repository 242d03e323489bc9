//! Status tracking for the CI runs of watched pull requests: the data model of
//! the repository API, progress counting over job/step trees, the per-PR fetch
//! orchestration, the polling actor's watch list and the workflow cache.

pub mod config;
pub mod github;
pub mod progress;
pub mod fetcher;
pub mod poller;
pub mod cache;
