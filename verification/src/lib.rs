//! Orchestration core for batch media downloads: format catalogs, their
//! reconciliation across a batch, diagnostics of the downloader and retries.

pub mod catalog;
pub mod config;
pub mod errors;
pub mod format;
pub mod intersect;
pub mod laws;
pub mod numbers;
pub mod order;
pub mod record;
pub mod retry;
pub mod runner;
pub mod session;
pub mod sets;
pub mod table;
pub mod text;
pub mod wizard;
pub mod words;
