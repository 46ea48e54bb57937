//! Planning of the incremental forward sweep: which pages to request,
//! and which fetched records are actually new.

use vstd::prelude::*;

use crate::models::{PaginationInfo, RawProject};

verus! {

/// The three record streams a sweep walks.
#[derive(Debug, Clone, Copy, PartialEq, Eq, Structural)]
pub enum DataType {
    Projects,
    Comments,
    Devlogs,
}

impl DataType {
    /// Rough per-sweep record count, used to size buffers.
    pub fn capacity_hint(&self) -> (r: usize)
        ensures
            r == match self {
                DataType::Projects => 100int,
                DataType::Comments => 200int,
                DataType::Devlogs => 500int,
            },
    {
        match self {
            DataType::Projects => 100,
            DataType::Comments => 200,
            DataType::Devlogs => 500,
        }
    }

    /// Progress label shown while this stream is fetched.
    pub fn progress_name(&self) -> (r: &'static str)
        ensures
            r@ == match self {
                DataType::Projects => "Fetching new projects"@,
                DataType::Comments => "Fetching new comments"@,
                DataType::Devlogs => "Fetching new devlogs"@,
            },
    {
        match self {
            DataType::Projects => "Fetching new projects",
            DataType::Comments => "Fetching new comments",
            DataType::Devlogs => "Fetching new devlogs",
        }
    }
}

/// Total page count a list response implies: the reported count, or
/// the current page alone where the response carries none.
pub fn effective_total_pages(pagination: &Option<PaginationInfo>, start_page: i32) -> (r: i32)
    ensures
        r == (match pagination {
            Some(info) => match info.pages {
                Some(pages) => pages as int,
                None => start_page as int,
            },
            None => start_page as int,
        }),
{
    match pagination {
        Some(info) => match info.pages {
            Some(pages) => pages,
            None => start_page,
        },
        None => start_page,
    }
}

/// The pages a sweep still fetches after its first: `start + 1`
/// through `total`, in order; empty when the first page was the last.
pub fn pages_to_fetch(start_page: i32, total_pages: i32) -> (r: Vec<i32>)
    requires
        start_page < i32::MAX,
    ensures
        r@.len() == (if total_pages > start_page {
            total_pages - start_page
        } else {
            0int
        }),
        forall|k: int| 0 <= k < r@.len() ==> #[trigger] r@[k] == start_page + 1 + k,
{
    let mut r: Vec<i32> = Vec::new();
    if total_pages <= start_page {
        return r;
    }
    let n = (total_pages as i64 - start_page as i64) as usize;
    let mut k: usize = 0;
    while k < n
        invariant
            n == total_pages - start_page,
            start_page < total_pages <= i32::MAX,
            k <= n,
            r@.len() == k,
            forall|j: int| 0 <= j < r@.len() ==> #[trigger] r@[j] == start_page + 1 + j,
        decreases n - k,
    {
        let page = ((start_page as i64) + 1 + (k as i64)) as i32;
        r.push(page);
        k = k + 1;
    }
    r
}

/// The projects of a fetched page that the mirror does not hold yet,
/// in page order.
pub open spec fn fresh_projects(projects: Seq<RawProject>, existing: Seq<i64>) -> Seq<RawProject> {
    projects.filter(|p: RawProject| !existing.contains(p.id))
}

/// One step of `fresh_projects` over a growing prefix.
proof fn lemma_fresh_projects_step(projects: Seq<RawProject>, existing: Seq<i64>, i: int)
    requires
        0 <= i < projects.len(),
    ensures
        !existing.contains(projects[i].id) ==> fresh_projects(projects.take(i + 1), existing)
            =~= fresh_projects(projects.take(i), existing).push(projects[i]),
        existing.contains(projects[i].id) ==> fresh_projects(projects.take(i + 1), existing)
            =~= fresh_projects(projects.take(i), existing),
{
    reveal(Seq::filter);
    let pred = |p: RawProject| !existing.contains(p.id);
    assert(projects.take(i + 1).drop_last() =~= projects.take(i));
    assert(projects.take(i + 1).drop_last() == projects.take(i));
    assert(projects.take(i + 1).last() == projects[i]);
}

/// New-record filtering of the projects stream.
pub struct DataFetcher;

impl DataFetcher {
    /// Whether the mirror already holds a project id.
    pub fn contains_id(existing: &Vec<i64>, id: i64) -> (r: bool)
        ensures
            r == existing@.contains(id),
    {
        let mut i: usize = 0;
        while i < existing.len()
            invariant
                i <= existing@.len(),
                forall|j: int| 0 <= j < i ==> #[trigger] existing@[j] != id,
            decreases existing@.len() - i,
        {
            if existing[i] == id {
                return true;
            }
            i = i + 1;
        }
        false
    }

    /// Keeps, in order, the fetched projects whose ids the mirror does
    /// not hold yet. The existing-id filter applies to projects alone;
    /// devlogs and comments are swept without one.
    pub fn filter_new_projects(projects: Vec<RawProject>, existing: &Vec<i64>) -> (r: Vec<
        RawProject,
    >)
        ensures
            r@ == fresh_projects(projects@, existing@),
    {
        let ghost orig = projects@;
        let mut src = projects;
        let mut out: Vec<RawProject> = Vec::new();
        proof {
            reveal(Seq::filter);
            assert(fresh_projects(orig.take(0), existing@) =~= Seq::<RawProject>::empty());
            assert(src@ == orig.skip(0)) by {
                assert(orig.skip(0) =~= orig);
            }
        }
        while src.len() > 0
            invariant
                src@.len() <= orig.len(),
                src@ == orig.skip(orig.len() - src@.len()),
                out@ == fresh_projects(orig.take(orig.len() - src@.len()), existing@),
            decreases src@.len(),
        {
            let ghost k = orig.len() - src@.len();
            proof {
                assert(src@ == orig.skip(k));
                assert(src@[0] == orig[k]);
            }
            let p = src.remove(0);
            proof {
                assert(p == orig[k]);
                assert(src@ == orig.skip(k + 1)) by {
                    assert(orig.skip(k).remove(0) =~= orig.skip(k + 1));
                }
                lemma_fresh_projects_step(orig, existing@, k);
            }
            if !Self::contains_id(existing, p.id) {
                out.push(p);
            }
        }
        proof {
            assert(orig.take(orig.len() as int) =~= orig);
        }
        out
    }
}

} // verus!
