//! Per-stream sync cursors. Each stream (projects, devlogs, comments)
//! stores the highest page whose records are durably mirrored; a sweep
//! resumes one past it and advances it to the highest page it drained.

use vstd::prelude::*;

verus! {

/// A stream's stored watermark: when it last synced and the last page
/// drained.
#[derive(Debug, Clone, Copy, PartialEq, Eq, Structural)]
pub struct SyncCursor {
    pub last_sync_millis: i64,
    pub last_page: i32,
}

/// Cursor arithmetic of the incremental sweep.
pub struct DataSyncer;

impl DataSyncer {
    /// First page to request: one past the stored watermark, or page 1
    /// when no cursor exists yet.
    pub fn calculate_start_page(last_page: Option<i32>) -> (r: i32)
        requires
            last_page is Some ==> last_page->0 < i32::MAX,
        ensures
            r == (if last_page is Some { last_page->0 + 1 } else { 1int }),
    {
        match last_page {
            Some(p) => p + 1,
            None => 1,
        }
    }

    /// A sweep stores a cursor only for a positive page: page zero or
    /// below means nothing was drained.
    pub fn should_store_cursor(last_page: i32) -> (r: bool)
        ensures
            r == (last_page > 0),
    {
        last_page > 0
    }

    /// The page value a sweep reports for a stream: one less than the
    /// start page when the stream's first page came back empty, else
    /// the highest drained page (at least the start page).
    pub fn sweep_last_page(start_page: i32, first_page_empty: bool, max_drained: i32) -> (r: i32)
        requires
            start_page > i32::MIN,
        ensures
            first_page_empty ==> r == start_page - 1,
            !first_page_empty ==> r == (if max_drained > start_page {
                max_drained as int
            } else {
                start_page as int
            }),
    {
        if first_page_empty {
            start_page - 1
        } else if max_drained > start_page {
            max_drained
        } else {
            start_page
        }
    }

    /// The higher of the pages drained so far and a page just drained.
    pub fn advance_drained(max_so_far: i32, page: i32) -> (r: i32)
        ensures
            r == (if page > max_so_far { page as int } else { max_so_far as int }),
            r >= max_so_far,
            r >= page,
    {
        if page > max_so_far {
            page
        } else {
            max_so_far
        }
    }
}

/// Across one successful sweep the stored watermark never decreases:
/// starting one past a stored page `prev`, the sweep reports `prev`
/// itself when the first page is empty and at least `prev + 1`
/// otherwise, so what it stores back is at least what was stored.
pub proof fn lemma_cursor_monotonic(
    prev: i32,
    first_page_empty: bool,
    max_drained: i32,
    reported: int,
)
    requires
        prev < i32::MAX,
        reported == (if first_page_empty {
            prev as int
        } else if max_drained > prev + 1 {
            max_drained as int
        } else {
            prev + 1
        }),
    ensures
        reported >= prev,
{
}

} // verus!
