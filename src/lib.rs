//! Aggregation of posts and articles from several publishing platforms into one store,
//! with a filtered, ordered query layer over it.
//!
//! - `kind`, `error`: the platforms and the error type.
//! - `item`, `store`: the canonical item, the filter, the storage contract and an
//!   in-memory store that meets it.
//! - `feeds`, `bluesky`: turning fetched documents into items, per platform.
//! - `sync`: which configured sources to sync, and syncing them in order.
//! - `config`, `config_text`, `settings`, `access`: configuration, read from TOML or from
//!   flat-text settings, and CORS decisions.
//! - `query`, `dates`: request parameters to filters, filters to SQL, timestamps.
//! - `export`: JSON, NDJSON and RSS documents, and a text table.
//! - `text`: character-level helpers with their mathematical meaning.

pub mod access;
pub mod bluesky;
pub mod config;
pub mod config_text;
pub mod dates;
pub mod error;
pub mod export;
pub mod feeds;
pub mod item;
pub mod json;
pub mod kind;
pub mod query;
pub mod settings;
pub mod store;
pub mod sync;
pub mod text;
