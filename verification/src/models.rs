//! Shapes of the records that the upstream platform serves, and the
//! process configuration. These are plain data: the jobs' logic reads
//! and rearranges them, and the surrounding binary fills them from the
//! wire.

use vstd::prelude::*;

verus! {

/// Pagination block attached to the upstream list responses.
#[derive(Debug, Clone, PartialEq, Eq)]
pub struct PaginationInfo {
    pub pages: Option<i32>,
    pub count: Option<i32>,
    pub page: Option<i32>,
    pub items: Option<i32>,
}

/// A generic page of records together with its pagination block.
#[derive(Debug, Clone, PartialEq, Eq)]
pub struct PaginatedResponse<T> {
    pub items: Vec<T>,
    pub pagination: Option<PaginationInfo>,
}

/// One page of the projects stream.
#[derive(Debug, Clone, PartialEq, Eq)]
pub struct ProjectsResponse {
    pub projects: Vec<RawProject>,
    pub pagination: Option<PaginationInfo>,
}

/// A project as the upstream API reports it.
#[derive(Debug, Clone, PartialEq, Eq)]
pub struct RawProject {
    pub id: i64,
    pub title: String,
    pub description: Option<String>,
    pub readme_link: Option<String>,
    pub slack_id: String,
    pub created_at: String,
    pub updated_at: String,
}

/// One page of the devlogs stream.
#[derive(Debug, Clone, PartialEq, Eq)]
pub struct DevlogsResponse {
    pub devlogs: Vec<RawDevlog>,
    pub pagination: Option<PaginationInfo>,
}

/// A devlog as the upstream API reports it.
#[derive(Debug, Clone, PartialEq, Eq)]
pub struct RawDevlog {
    pub id: i64,
    pub text: String,
    pub project_id: i64,
    pub slack_id: String,
    pub created_at: String,
    pub updated_at: String,
}

/// One page of the comments stream.
#[derive(Debug, Clone, PartialEq, Eq)]
pub struct CommentsResponse {
    pub comments: Vec<RawComment>,
    pub pagination: Option<PaginationInfo>,
}

/// A comment as the upstream API reports it. Comments carry no id of
/// their own; the mirror keys them by `(devlog_id, slack_id)`.
#[derive(Debug, Clone, PartialEq, Eq)]
pub struct RawComment {
    pub text: String,
    pub devlog_id: i64,
    pub slack_id: String,
    pub created_at: String,
}

/// Per-user statistics answered by the coding-time service.
#[derive(Debug, Clone, PartialEq, Eq)]
pub struct HackatimeResponse {
    pub data: HackatimeData,
    pub trust_factor: TrustFactor,
}

/// Identity block of a coding-time statistics response.
#[derive(Debug, Clone, PartialEq, Eq)]
pub struct HackatimeData {
    pub username: Option<String>,
    pub user_id: String,
}

/// Trust block of a coding-time statistics response.
#[derive(Debug, Clone, PartialEq, Eq)]
pub struct TrustFactor {
    pub trust_level: String,
    pub trust_value: i32,
}

/// Body of a 429 answer from the coding-time service.
#[derive(Debug, Clone, PartialEq, Eq)]
pub struct HackatimeRateLimitError {
    pub message: String,
    pub retry_after: u64,
}

/// One leaderboard row: a user's current shell total and, optionally,
/// the payout events behind it.
#[derive(Debug, Clone, PartialEq, Eq)]
pub struct RawLeaderboardEntry {
    pub slack_id: String,
    pub username: Option<String>,
    pub shells: i32,
    pub payouts: Option<Vec<RawPayout>>,
}

/// One payout event: a signed decimal amount and an RFC 3339 creation
/// time, both transported as strings.
#[derive(Debug, Clone, PartialEq, Eq)]
pub struct RawPayout {
    pub id: String,
    pub amount: String,
    pub created_at: String,
    pub payout_type: String,
}

/// A user as the trust-enrichment endpoint reports it.
#[derive(Debug, Clone, PartialEq, Eq)]
pub struct RawUser {
    pub user_id: Option<String>,
    pub username: Option<String>,
    pub trust_level: Option<String>,
    pub trust_value: Option<i32>,
}

/// Profile fields picked from the messaging platform's profile lookup.
#[derive(Debug, Clone, PartialEq, Eq)]
pub struct SlackProfile {
    pub display_name: Option<String>,
    pub real_name: Option<String>,
    pub image_24: Option<String>,
    pub image_32: Option<String>,
    pub image_48: Option<String>,
    pub image_72: Option<String>,
    pub image_192: Option<String>,
    pub image_512: Option<String>,
}

/// Process configuration, resolved from the environment by the binary
/// before any job runs.
#[derive(Debug, Clone, PartialEq, Eq)]
pub struct Config {
    pub database_url: String,
    pub journey_session_cookie: String,
    pub max_db_connections: u32,
    pub api_port: u16,
    pub first_sync_mode: bool,
    pub auto_sync_on_startup: bool,
    pub force_embedding_regen: Option<String>,
    pub skip_projects_sync: bool,
    pub skip_devlogs_sync: bool,
    pub skip_comments_sync: bool,
    pub skip_leaderboard_sync: bool,
    pub slack_token: String,
    pub embedding_cache_size: usize,
    pub embedding_cache_ttl_seconds: u64,
    pub embedding_max_concurrent_requests: usize,
}

} // verus!
