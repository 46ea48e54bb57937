//! Reconciliation decisions: for each mirrored row, whether upstream's
//! copy means deleting it, re-embedding and updating it, or leaving it
//! be. Orphan removal afterwards lives with the store model.

use vstd::prelude::*;

use crate::errors::JobError;
use crate::models::{RawDevlog, RawProject};
use crate::text::{project_embed_text, spec_project_text, trim_of};
use crate::timeparse::{parse_datetime, rfc3339_millis_of};

verus! {

/// What the reconciliation sweep does with one mirrored row.
#[derive(Debug, Clone, Copy, PartialEq, Eq, Structural)]
pub enum PruneAction {
    /// The record is gone upstream: delete the row.
    Delete,
    /// Upstream moved ahead or the text diverged: re-embed and update.
    Update,
    /// The row matches upstream: leave it.
    Keep,
}

/// Decides one mirrored project against upstream's copy: absent means
/// delete; a newer upstream timestamp or diverging joined text means
/// update; otherwise keep. A malformed upstream timestamp fails the
/// sweep.
pub fn project_prune_action(
    local_title: &String,
    local_description: &Option<String>,
    local_updated_at: i64,
    upstream: &Option<RawProject>,
) -> (r: Result<PruneAction, JobError>)
    ensures
        match r {
            Ok(action) => match upstream {
                None => action == PruneAction::Delete,
                Some(p) => {
                    let up_millis = rfc3339_millis_of(p.updated_at@);
                    &&& up_millis is Some
                    &&& action == (if up_millis->0 > local_updated_at || trim_of(
                        spec_project_text(p.title@, p.description),
                    ) != trim_of(spec_project_text(local_title@, *local_description)) {
                        PruneAction::Update
                    } else {
                        PruneAction::Keep
                    })
                },
            },
            Err(e) => upstream is Some && rfc3339_millis_of(upstream->0.updated_at@) is None
                && e is Database,
        },
{
    match upstream {
        None => Ok(PruneAction::Delete),
        Some(p) => {
            let up_millis = match parse_datetime(p.updated_at.as_str()) {
                Ok(t) => t,
                Err(e) => {
                    return Err(e);
                },
            };
            let external_content = project_embed_text(&p.title, &p.description);
            let local_content = project_embed_text(local_title, local_description);
            if up_millis > local_updated_at || external_content != local_content {
                Ok(PruneAction::Update)
            } else {
                Ok(PruneAction::Keep)
            }
        },
    }
}

/// Decides one mirrored devlog against upstream's copy, by its raw
/// text and timestamp.
pub fn devlog_prune_action(
    local_text: &String,
    local_updated_at: i64,
    upstream: &Option<RawDevlog>,
) -> (r: Result<PruneAction, JobError>)
    ensures
        match r {
            Ok(action) => match upstream {
                None => action == PruneAction::Delete,
                Some(d) => {
                    let up_millis = rfc3339_millis_of(d.updated_at@);
                    &&& up_millis is Some
                    &&& action == (if up_millis->0 > local_updated_at || d.text@ != local_text@ {
                        PruneAction::Update
                    } else {
                        PruneAction::Keep
                    })
                },
            },
            Err(e) => upstream is Some && rfc3339_millis_of(upstream->0.updated_at@) is None
                && e is Database,
        },
{
    match upstream {
        None => Ok(PruneAction::Delete),
        Some(d) => {
            let up_millis = match parse_datetime(d.updated_at.as_str()) {
                Ok(t) => t,
                Err(e) => {
                    return Err(e);
                },
            };
            if up_millis > local_updated_at || d.text != *local_text {
                Ok(PruneAction::Update)
            } else {
                Ok(PruneAction::Keep)
            }
        },
    }
}

/// The page a full reconciliation fetch requests next: none when the
/// current page came back empty or the reported total is reached,
/// else the next page.
pub fn fetch_all_next_page(page: i32, items_empty: bool, reported_pages: &Option<i32>) -> (r:
    Option<i32>)
    requires
        page < i32::MAX,
    ensures
        items_empty ==> r is None,
        !items_empty ==> match reported_pages {
            Some(total) => if page >= *total {
                r is None
            } else {
                r == Some((page + 1) as i32)
            },
            None => r == Some((page + 1) as i32),
        },
{
    if items_empty {
        return None;
    }
    match reported_pages {
        Some(total) => {
            if page >= *total {
                None
            } else {
                Some(page + 1)
            }
        },
        None => Some(page + 1),
    }
}

} // verus!
