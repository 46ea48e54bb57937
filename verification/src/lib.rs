//! Verified core of a mirror-and-embed ingestion pipeline: page-cursor
//! arithmetic, upsert and reconciliation rules, shell-payout history
//! reconstruction, retry discipline, and embedding window planning.

pub mod cache;
pub mod client;
pub mod cursor;
pub mod embed;
pub mod errors;
pub mod fetch;
pub mod init;
pub mod jobs;
pub mod models;
pub mod prune;
pub mod queries;
pub mod reform;
pub mod shells;
pub mod store;
pub mod text;
pub mod trace;
pub mod timeparse;
pub mod zenith;

use vstd::prelude::*;

verus! {

/// Number of components in every text embedding vector.
pub const EMBEDDING_DIM: usize = 384;

} // verus!
