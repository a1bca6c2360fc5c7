//! A terminal-resident live log viewer library: structured log parsing,
//! trace correlation caching, single-step stream ingestion, and the
//! decision logic of a cooperative terminal runtime loop.
pub mod cache;
pub mod ingest;
pub mod log;
pub mod runtime;
