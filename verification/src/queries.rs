//! Filter and search shapes of the mirror's query surface, and the
//! page arithmetic behind its paged listings.

use vstd::prelude::*;

verus! {

/// Filter over mirrored projects.
#[derive(Debug, Clone, PartialEq, Eq)]
pub struct ProjectFilter {
    pub id: Option<i64>,
    pub slack_id: Option<String>,
    pub username: Option<String>,
    pub title: Option<String>,
    pub category: Option<String>,
    pub created_at: Option<String>,
    pub updated_at: Option<String>,
    pub from_date: Option<String>,
    pub to_date: Option<String>,
    pub limit: Option<u32>,
}

/// Semantic search request over projects.
#[derive(Debug, Clone, PartialEq, Eq)]
pub struct ProjectSearchRequest {
    pub query: String,
    pub limit: Option<u32>,
}

/// Filter over mirrored comments.
#[derive(Debug, Clone, PartialEq, Eq)]
pub struct CommentFilter {
    pub project_id: Option<i64>,
    pub slack_id: Option<String>,
    pub username: Option<String>,
    pub devlog_id: Option<i64>,
    pub text: Option<String>,
    pub created_at: Option<String>,
    pub from_date: Option<String>,
    pub to_date: Option<String>,
    pub limit: Option<u32>,
}

/// Semantic search request over comments.
#[derive(Debug, Clone, PartialEq, Eq)]
pub struct CommentSearchRequest {
    pub query: String,
    pub limit: Option<u32>,
}

/// Semantic search request over devlogs.
#[derive(Debug, Clone, PartialEq, Eq)]
pub struct LogSearchRequest {
    pub query: String,
    pub limit: Option<u32>,
}

/// Filter over mirrored users.
#[derive(Debug, Clone, PartialEq, Eq)]
pub struct UserFilter {
    pub slack_id: Option<String>,
    pub username: Option<String>,
    pub limit: Option<u32>,
}

/// A project title as it appears on a user's page.
#[derive(Debug, Clone, PartialEq, Eq)]
pub struct UserProject {
    pub id: i64,
    pub title: String,
}

/// A payout event as the leaderboard endpoint serves it back out.
#[derive(Debug, Clone, PartialEq, Eq)]
pub struct Payout {
    pub id: String,
    pub amount: String,
    pub created_at: String,
    pub payout_type: String,
}

/// Page, page size and row offset of one paged listing request.
#[derive(Debug, Clone, PartialEq, Eq)]
pub struct PaginationParams {
    pub page: i32,
    pub per_page: i32,
    pub offset: i32,
}

/// Rows shown per page of the mirror listings.
pub const MIRROR_PER_PAGE: i32 = 20;

/// Resolves the requested page (already parsed from the query string,
/// absent or unparsable meaning page 1) into page, size and offset.
pub fn extract_pagination(page_param: Option<i32>) -> (r: PaginationParams)
    requires
        page_param is Some ==> i32::MIN <= (page_param->0 - 1) * MIRROR_PER_PAGE
            <= i32::MAX,
    ensures
        r.page == (if page_param is Some { page_param->0 as int } else { 1int }),
        r.per_page == MIRROR_PER_PAGE,
        r.offset == (r.page - 1) * MIRROR_PER_PAGE,
{
    let page: i32 = match page_param {
        Some(p) => p,
        None => 1,
    };
    let per_page: i32 = MIRROR_PER_PAGE;
    let offset = (page - 1) * per_page;
    PaginationParams { page, per_page, offset }
}

/// Whether `page` addresses an existing page of a listing of `total`
/// rows shown `per_page` at a time. Page 1 of an empty listing counts
/// as valid.
pub fn validate_pagination(page: i32, total: i64, per_page: i32) -> (r: bool)
    requires
        total >= 0,
        per_page >= 1,
    ensures
        r == (page >= 1 && (page <= (total + per_page - 1) / (per_page as int) || total == 0)),
{
    if page < 1 {
        return false;
    }
    if total == 0 {
        return true;
    }
    let pages: u64 = ((total as u64) + (per_page as u64) - 1) / (per_page as u64);
    (page as u64) <= pages
}

} // verus!
