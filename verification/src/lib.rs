//! A small social-feed bot library: it polls news sources, filters out
//! items that were already posted, assembles normalized post payloads,
//! and keeps a bounded ledger of published URLs for deduplication. The
//! network I/O around it — fetching, publishing, durable storage — is
//! performed by the process hosting the library, one action at a time;
//! everything the library decides or computes is verified.

pub mod bsky;
pub mod clock;
pub mod commands;
pub mod database;
pub mod fetcher;
pub mod rss;
pub mod start;
pub mod textfmt;

pub use database::Database;
pub use database::DatabaseError;
