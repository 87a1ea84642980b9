//! Idempotent feed ingestion: entries of syndication feeds are normalised,
//! filtered, rendered and handed out for publishing, and a persistent ledger
//! records which entries were handled so that none is delivered twice.

pub mod config;
pub mod entry;
pub mod fetch;
pub mod fields;
pub mod filter;
pub mod ingest;
pub mod render;
pub mod storage;
pub mod text;
pub mod tick;
