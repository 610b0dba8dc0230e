//! A scraping and ingestion engine for a paginated book catalog: extraction of
//! item stubs and detail fields from HTML, the fetcher's retry decisions, and
//! the per-item processing that turns fetch outcomes into records or failures.

pub mod model;
pub mod extract;
pub mod walk;
pub mod fetch;
pub mod ingest;
pub mod store;
