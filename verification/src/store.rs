//! The mirror's write rules. Rows live in a relational store outside
//! the library; this model states exactly which rows each write leaves
//! behind — conflict targets, do-nothing inserts, coalescing upserts,
//! parent-existence checks — and the binary mirrors every change here
//! onto the real store. Timestamps are epoch milliseconds; a flag
//! stands for whether a row's vector column is set, as the vector
//! itself is floating point and lives outside.

use vstd::prelude::*;

use crate::models::{RawComment, RawDevlog, RawProject, SlackProfile};
use crate::shells::ShellHistoryEntry;

verus! {

/// A mirrored project row.
#[derive(Debug, PartialEq, Eq)]
pub struct ProjectRow {
    pub id: i64,
    pub title: String,
    pub description: Option<String>,
    pub readme_link: Option<String>,
    pub slack_id: String,
    pub created_at: i64,
    pub updated_at: i64,
    pub has_embedding: bool,
}

/// A mirrored devlog row.
#[derive(Debug, PartialEq, Eq)]
pub struct DevlogRow {
    pub id: i64,
    pub text: String,
    pub project_id: i64,
    pub slack_id: String,
    pub created_at: i64,
    pub updated_at: i64,
    pub has_embedding: bool,
}

/// A mirrored comment row, keyed by `(devlog_id, slack_id)`.
#[derive(Debug, PartialEq, Eq)]
pub struct CommentRow {
    pub text: String,
    pub devlog_id: i64,
    pub slack_id: String,
    pub created_at: i64,
    pub has_embedding: bool,
}

/// A mirrored user row, keyed by `slack_id`.
#[derive(Debug, PartialEq, Eq)]
pub struct UserRow {
    pub slack_id: String,
    pub username: Option<String>,
    pub current_shells: Option<i32>,
    pub pfp_url: String,
    pub trust_level: Option<String>,
    pub trust_value: Option<i32>,
    pub image_24: Option<String>,
    pub image_32: Option<String>,
    pub image_48: Option<String>,
    pub image_72: Option<String>,
    pub image_192: Option<String>,
    pub image_512: Option<String>,
}

/// A shell-history row, keyed by `(slack_id, recorded_at)`.
#[derive(Debug, PartialEq, Eq)]
pub struct HistoryRow {
    pub slack_id: String,
    pub entry: ShellHistoryEntry,
}

// ---------------------------------------------------------------------
// First-match lookups
// ---------------------------------------------------------------------

/// The first project row with this id.
pub open spec fn project_with_id(rows: Seq<ProjectRow>, id: i64) -> Option<ProjectRow>
    decreases rows.len(),
{
    if rows.len() == 0 {
        None
    } else if rows.first().id == id {
        Some(rows.first())
    } else {
        project_with_id(rows.drop_first(), id)
    }
}

/// The first devlog row with this id.
pub open spec fn devlog_with_id(rows: Seq<DevlogRow>, id: i64) -> Option<DevlogRow>
    decreases rows.len(),
{
    if rows.len() == 0 {
        None
    } else if rows.first().id == id {
        Some(rows.first())
    } else {
        devlog_with_id(rows.drop_first(), id)
    }
}

/// The first comment row with this `(devlog_id, slack_id)` key.
pub open spec fn comment_with_key(rows: Seq<CommentRow>, devlog_id: i64, slack_id: Seq<char>) -> Option<
    CommentRow,
>
    decreases rows.len(),
{
    if rows.len() == 0 {
        None
    } else if rows.first().devlog_id == devlog_id && rows.first().slack_id@ == slack_id {
        Some(rows.first())
    } else {
        comment_with_key(rows.drop_first(), devlog_id, slack_id)
    }
}

/// The first user row with this slack id.
pub open spec fn user_with_id(rows: Seq<UserRow>, slack_id: Seq<char>) -> Option<UserRow>
    decreases rows.len(),
{
    if rows.len() == 0 {
        None
    } else if rows.first().slack_id@ == slack_id {
        Some(rows.first())
    } else {
        user_with_id(rows.drop_first(), slack_id)
    }
}

/// The first history row with this `(slack_id, recorded_at)` key.
pub open spec fn history_with_key(rows: Seq<HistoryRow>, slack_id: Seq<char>, recorded_at: i64) -> Option<
    HistoryRow,
>
    decreases rows.len(),
{
    if rows.len() == 0 {
        None
    } else if rows.first().slack_id@ == slack_id && rows.first().entry.recorded_at == recorded_at {
        Some(rows.first())
    } else {
        history_with_key(rows.drop_first(), slack_id, recorded_at)
    }
}

/// Round trip: after a fresh project row is mirrored, reading it back
/// by id yields exactly that row, columns untouched.
pub proof fn lemma_project_round_trip(rows: Seq<ProjectRow>, row: ProjectRow)
    requires
        project_with_id(rows, row.id) is None,
    ensures
        project_with_id(rows.push(row), row.id) == Some(row),
    decreases rows.len(),
{
    if rows.len() == 0 {
        assert(rows.push(row).first() == row);
    } else {
        assert(rows.push(row).first() == rows.first());
        assert(rows.push(row).drop_first() =~= rows.drop_first().push(row));
        lemma_project_round_trip(rows.drop_first(), row);
    }
}

// ---------------------------------------------------------------------
// The store
// ---------------------------------------------------------------------

/// The mirrored tables.
#[derive(Debug, PartialEq, Eq)]
pub struct MirrorStore {
    pub projects: Vec<ProjectRow>,
    pub devlogs: Vec<DevlogRow>,
    pub comments: Vec<CommentRow>,
    pub users: Vec<UserRow>,
    pub shell_history: Vec<HistoryRow>,
}

impl MirrorStore {
    /// Key uniqueness of every table, as the store's unique indexes
    /// enforce it.
    pub open spec fn wf(self) -> bool {
        &&& forall|i: int, j: int|
            0 <= i < j < self.projects@.len() ==> (#[trigger] self.projects@[i]).id != (
            #[trigger] self.projects@[j]).id
        &&& forall|i: int, j: int|
            0 <= i < j < self.devlogs@.len() ==> (#[trigger] self.devlogs@[i]).id != (
            #[trigger] self.devlogs@[j]).id
        &&& forall|i: int, j: int|
            0 <= i < j < self.comments@.len() ==> !((#[trigger] self.comments@[i]).devlog_id == (
            #[trigger] self.comments@[j]).devlog_id && self.comments@[i].slack_id@
                == self.comments@[j].slack_id@)
        &&& forall|i: int, j: int|
            0 <= i < j < self.users@.len() ==> (#[trigger] self.users@[i]).slack_id@ != (
            #[trigger] self.users@[j]).slack_id@
        &&& forall|i: int, j: int|
            0 <= i < j < self.shell_history@.len() ==> !((
            #[trigger] self.shell_history@[i]).slack_id@ == (
            #[trigger] self.shell_history@[j]).slack_id@ && self.shell_history@[i].entry.recorded_at
                == self.shell_history@[j].entry.recorded_at)
    }

    /// Referential integrity: every devlog's project, every comment's
    /// devlog and every history row's user exists.
    pub open spec fn parent_integrity(self) -> bool {
        &&& forall|i: int|
            0 <= i < self.devlogs@.len() ==> project_with_id(
                self.projects@,
                (#[trigger] self.devlogs@[i]).project_id,
            ) is Some
        &&& forall|i: int|
            0 <= i < self.comments@.len() ==> devlog_with_id(
                self.devlogs@,
                (#[trigger] self.comments@[i]).devlog_id,
            ) is Some
        &&& forall|i: int|
            0 <= i < self.shell_history@.len() ==> user_with_id(
                self.users@,
                (#[trigger] self.shell_history@[i]).slack_id@,
            ) is Some
    }

    /// An empty mirror.
    pub fn new() -> (r: MirrorStore)
        ensures
            r.wf(),
            r.parent_integrity(),
            r.projects@.len() == 0,
            r.devlogs@.len() == 0,
            r.comments@.len() == 0,
            r.users@.len() == 0,
            r.shell_history@.len() == 0,
    {
        MirrorStore {
            projects: Vec::new(),
            devlogs: Vec::new(),
            comments: Vec::new(),
            users: Vec::new(),
            shell_history: Vec::new(),
        }
    }

    /// Index of the project row with this id, if one exists.
    #[verifier::loop_isolation(false)]
    fn find_project(&self, id: i64) -> (r: Option<usize>)
        ensures
            match r {
                Some(i) => i < self.projects@.len() && self.projects@[i as int].id == id
                    && project_with_id(self.projects@, id) == Some(self.projects@[i as int]),
                None => project_with_id(self.projects@, id) is None && forall|j: int|
                    0 <= j < self.projects@.len() ==> (#[trigger] self.projects@[j]).id != id,
            },
    {
        let rows = &self.projects;
        let mut i: usize = 0;
        proof {
            assert(rows@.skip(0) =~= rows@);
        }
        while i < rows.len()
            invariant
                i <= rows@.len(),
                project_with_id(rows@, id) == project_with_id(rows@.skip(i as int), id),
                forall|j: int| 0 <= j < i ==> (#[trigger] rows@[j]).id != id,
            decreases rows@.len() - i,
        {
            proof {
                assert(rows@.skip(i as int).first() == rows@[i as int]);
                assert(rows@.skip(i as int).drop_first() =~= rows@.skip(i + 1));
            }
            if rows[i].id == id {
                proof {
                    assert(project_with_id(rows@.skip(i as int), id) == Some(rows@[i as int]));
                }
                return Some(i);
            }
            i = i + 1;
        }
        proof {
            assert(rows@.skip(i as int) =~= Seq::<ProjectRow>::empty());
        }
        None
    }

    /// Index of the devlog row with this id, if one exists.
    #[verifier::loop_isolation(false)]
    fn find_devlog(&self, id: i64) -> (r: Option<usize>)
        ensures
            match r {
                Some(i) => i < self.devlogs@.len() && self.devlogs@[i as int].id == id
                    && devlog_with_id(self.devlogs@, id) == Some(self.devlogs@[i as int]),
                None => devlog_with_id(self.devlogs@, id) is None && forall|j: int|
                    0 <= j < self.devlogs@.len() ==> (#[trigger] self.devlogs@[j]).id != id,
            },
    {
        let rows = &self.devlogs;
        let mut i: usize = 0;
        proof {
            assert(rows@.skip(0) =~= rows@);
        }
        while i < rows.len()
            invariant
                i <= rows@.len(),
                devlog_with_id(rows@, id) == devlog_with_id(rows@.skip(i as int), id),
                forall|j: int| 0 <= j < i ==> (#[trigger] rows@[j]).id != id,
            decreases rows@.len() - i,
        {
            proof {
                assert(rows@.skip(i as int).first() == rows@[i as int]);
                assert(rows@.skip(i as int).drop_first() =~= rows@.skip(i + 1));
            }
            if rows[i].id == id {
                proof {
                    assert(devlog_with_id(rows@.skip(i as int), id) == Some(rows@[i as int]));
                }
                return Some(i);
            }
            i = i + 1;
        }
        proof {
            assert(rows@.skip(i as int) =~= Seq::<DevlogRow>::empty());
        }
        None
    }

    /// Index of the comment row with this key, if one exists.
    #[verifier::loop_isolation(false)]
    fn find_comment(&self, devlog_id: i64, slack_id: &String) -> (r: Option<usize>)
        ensures
            match r {
                Some(i) => i < self.comments@.len() && self.comments@[i as int].devlog_id
                    == devlog_id && self.comments@[i as int].slack_id@ == slack_id@
                    && comment_with_key(self.comments@, devlog_id, slack_id@) == Some(
                    self.comments@[i as int],
                ),
                None => comment_with_key(self.comments@, devlog_id, slack_id@) is None
                    && forall|j: int|
                    0 <= j < self.comments@.len() ==> !((#[trigger] self.comments@[j]).devlog_id
                        == devlog_id && self.comments@[j].slack_id@ == slack_id@),
            },
    {
        let rows = &self.comments;
        let mut i: usize = 0;
        proof {
            assert(rows@.skip(0) =~= rows@);
        }
        while i < rows.len()
            invariant
                i <= rows@.len(),
                comment_with_key(rows@, devlog_id, slack_id@) == comment_with_key(
                    rows@.skip(i as int),
                    devlog_id,
                    slack_id@,
                ),
                forall|j: int|
                    0 <= j < i ==> !((#[trigger] rows@[j]).devlog_id == devlog_id
                        && rows@[j].slack_id@ == slack_id@),
            decreases rows@.len() - i,
        {
            proof {
                assert(rows@.skip(i as int).first() == rows@[i as int]);
                assert(rows@.skip(i as int).drop_first() =~= rows@.skip(i + 1));
            }
            if rows[i].devlog_id == devlog_id && rows[i].slack_id == *slack_id {
                proof {
                    assert(comment_with_key(rows@.skip(i as int), devlog_id, slack_id@) == Some(
                        rows@[i as int],
                    ));
                }
                return Some(i);
            }
            i = i + 1;
        }
        proof {
            assert(rows@.skip(i as int) =~= Seq::<CommentRow>::empty());
        }
        None
    }

    /// Index of the user row with this slack id, if one exists.
    #[verifier::loop_isolation(false)]
    fn find_user(&self, slack_id: &String) -> (r: Option<usize>)
        ensures
            match r {
                Some(i) => i < self.users@.len() && self.users@[i as int].slack_id@ == slack_id@
                    && user_with_id(self.users@, slack_id@) == Some(self.users@[i as int]),
                None => user_with_id(self.users@, slack_id@) is None && forall|j: int|
                    0 <= j < self.users@.len() ==> (#[trigger] self.users@[j]).slack_id@
                        != slack_id@,
            },
    {
        let rows = &self.users;
        let mut i: usize = 0;
        proof {
            assert(rows@.skip(0) =~= rows@);
        }
        while i < rows.len()
            invariant
                i <= rows@.len(),
                user_with_id(rows@, slack_id@) == user_with_id(rows@.skip(i as int), slack_id@),
                forall|j: int| 0 <= j < i ==> (#[trigger] rows@[j]).slack_id@ != slack_id@,
            decreases rows@.len() - i,
        {
            proof {
                assert(rows@.skip(i as int).first() == rows@[i as int]);
                assert(rows@.skip(i as int).drop_first() =~= rows@.skip(i + 1));
            }
            if rows[i].slack_id == *slack_id {
                proof {
                    assert(user_with_id(rows@.skip(i as int), slack_id@) == Some(
                        rows@[i as int],
                    ));
                }
                return Some(i);
            }
            i = i + 1;
        }
        proof {
            assert(rows@.skip(i as int) =~= Seq::<UserRow>::empty());
        }
        None
    }

    /// Index of the history row with this key, if one exists.
    #[verifier::loop_isolation(false)]
    fn find_history(&self, slack_id: &String, recorded_at: i64) -> (r: Option<usize>)
        ensures
            match r {
                Some(i) => i < self.shell_history@.len() && self.shell_history@[i as int].slack_id@
                    == slack_id@ && self.shell_history@[i as int].entry.recorded_at == recorded_at
                    && history_with_key(self.shell_history@, slack_id@, recorded_at) == Some(
                    self.shell_history@[i as int],
                ),
                None => history_with_key(self.shell_history@, slack_id@, recorded_at) is None
                    && forall|j: int|
                    0 <= j < self.shell_history@.len() ==> !((
                    #[trigger] self.shell_history@[j]).slack_id@ == slack_id@
                        && self.shell_history@[j].entry.recorded_at == recorded_at),
            },
    {
        let rows = &self.shell_history;
        let mut i: usize = 0;
        proof {
            assert(rows@.skip(0) =~= rows@);
        }
        while i < rows.len()
            invariant
                i <= rows@.len(),
                history_with_key(rows@, slack_id@, recorded_at) == history_with_key(
                    rows@.skip(i as int),
                    slack_id@,
                    recorded_at,
                ),
                forall|j: int|
                    0 <= j < i ==> !((#[trigger] rows@[j]).slack_id@ == slack_id@
                        && rows@[j].entry.recorded_at == recorded_at),
            decreases rows@.len() - i,
        {
            proof {
                assert(rows@.skip(i as int).first() == rows@[i as int]);
                assert(rows@.skip(i as int).drop_first() =~= rows@.skip(i + 1));
            }
            if rows[i].entry.recorded_at == recorded_at && rows[i].slack_id == *slack_id {
                proof {
                    assert(history_with_key(rows@.skip(i as int), slack_id@, recorded_at) == Some(
                        rows@[i as int],
                    ));
                }
                return Some(i);
            }
            i = i + 1;
        }
        proof {
            assert(rows@.skip(i as int) =~= Seq::<HistoryRow>::empty());
        }
        None
    }

    /// Reads a project back by id: the row the lookup denotes.
    pub fn get_project(&self, id: i64) -> (r: Option<&ProjectRow>)
        ensures
            match r {
                Some(row) => project_with_id(self.projects@, id) == Some(*row),
                None => project_with_id(self.projects@, id) is None && forall|j: int|
                    0 <= j < self.projects@.len() ==> (#[trigger] self.projects@[j]).id != id,
            },
    {
        match self.find_project(id) {
            Some(i) => Some(&self.projects[i]),
            None => None,
        }
    }

    /// Mirrors a newly swept project with its vector: insert with
    /// conflict target `id`, on conflict do nothing.
    pub fn insert_project_new(&mut self, p: &RawProject, created_at: i64, updated_at: i64)
        requires
            old(self).wf(),
        ensures
            final(self).wf(),
            project_with_id(old(self).projects@, p.id) is Some ==> *final(self) == *old(self),
            project_with_id(old(self).projects@, p.id) is None ==> final(self).projects@ == old(
                self,
            ).projects@.push(spec_project_row(*p, created_at, updated_at, true)),
            final(self).devlogs@ == old(self).devlogs@,
            final(self).comments@ == old(self).comments@,
            final(self).users@ == old(self).users@,
            final(self).shell_history@ == old(self).shell_history@,
    {
        match self.find_project(p.id) {
            Some(_) => (),
            None => {
                let row = ProjectRow {
                    id: p.id,
                    title: p.title.clone(),
                    description: clone_opt_string(&p.description),
                    readme_link: clone_opt_string(&p.readme_link),
                    slack_id: p.slack_id.clone(),
                    created_at,
                    updated_at,
                    has_embedding: true,
                };
                proof {
                    assert(row == spec_project_row(*p, created_at, updated_at, true));
                }
                self.projects.push(row);
            },
        }
    }

    /// Mirrors a project during the backfill: insert with conflict
    /// target `id`; on conflict take the new title and timestamp and
    /// coalesce description and readme onto what is already there.
    pub fn upsert_project(&mut self, p: &RawProject, created_at: i64, updated_at: i64)
        requires
            old(self).wf(),
        ensures
            final(self).wf(),
            project_with_id(old(self).projects@, p.id) is None ==> final(self).projects@ == old(
                self,
            ).projects@.push(spec_project_row(*p, created_at, updated_at, false)),
            project_with_id(old(self).projects@, p.id) is Some ==> exists|i: int|
                0 <= i < old(self).projects@.len() && (#[trigger] old(self).projects@[i]).id
                    == p.id && final(self).projects@ == old(self).projects@.update(
                    i,
                    spec_project_update(old(self).projects@[i], *p, updated_at),
                ),
            final(self).devlogs@ == old(self).devlogs@,
            final(self).comments@ == old(self).comments@,
            final(self).users@ == old(self).users@,
            final(self).shell_history@ == old(self).shell_history@,
    {
        match self.find_project(p.id) {
            Some(i) => {
                let row = ProjectRow {
                    id: self.projects[i].id,
                    title: p.title.clone(),
                    description: coalesce_opt_string(&p.description, &self.projects[i].description),
                    readme_link: coalesce_opt_string(&p.readme_link, &self.projects[i].readme_link),
                    slack_id: self.projects[i].slack_id.clone(),
                    created_at: self.projects[i].created_at,
                    updated_at,
                    has_embedding: self.projects[i].has_embedding,
                };
                proof {
                    assert(row == spec_project_update(self.projects@[i as int], *p, updated_at));
                }
                self.projects.set(i, row);
                proof {
                    assert forall|a: int, b: int|
                        0 <= a < b < self.projects@.len() implies (
                        #[trigger] self.projects@[a]).id != (#[trigger] self.projects@[b]).id by {
                        assert(self.projects@[a].id == old(self).projects@[a].id);
                        assert(self.projects@[b].id == old(self).projects@[b].id);
                    }
                }
            },
            None => {
                let row = ProjectRow {
                    id: p.id,
                    title: p.title.clone(),
                    description: clone_opt_string(&p.description),
                    readme_link: clone_opt_string(&p.readme_link),
                    slack_id: p.slack_id.clone(),
                    created_at,
                    updated_at,
                    has_embedding: false,
                };
                proof {
                    assert(row == spec_project_row(*p, created_at, updated_at, false));
                }
                self.projects.push(row);
            },
        }
    }

    /// Mirrors a newly swept devlog with its vector. The row is written
    /// only when its parent project exists; a devlog whose parent is
    /// missing is skipped without error. Conflict target `id`, on
    /// conflict do nothing.
    pub fn insert_devlog_new(&mut self, d: &RawDevlog, created_at: i64, updated_at: i64) -> (stored:
        bool)
        requires
            old(self).wf(),
        ensures
            final(self).wf(),
            stored <==> (project_with_id(old(self).projects@, d.project_id) is Some
                && devlog_with_id(old(self).devlogs@, d.id) is None),
            stored ==> final(self).devlogs@ == old(self).devlogs@.push(
                spec_devlog_row(*d, created_at, updated_at, true),
            ),
            !stored ==> *final(self) == *old(self),
            final(self).projects@ == old(self).projects@,
            final(self).comments@ == old(self).comments@,
            final(self).users@ == old(self).users@,
            final(self).shell_history@ == old(self).shell_history@,
    {
        match self.find_project(d.project_id) {
            Some(_) => {},
            None => {
                return false;
            },
        }
        match self.find_devlog(d.id) {
            Some(_) => false,
            None => {
                let row = DevlogRow {
                    id: d.id,
                    text: d.text.clone(),
                    project_id: d.project_id,
                    slack_id: d.slack_id.clone(),
                    created_at,
                    updated_at,
                    has_embedding: true,
                };
                proof {
                    assert(row == spec_devlog_row(*d, created_at, updated_at, true));
                }
                self.devlogs.push(row);
                true
            },
        }
    }

    /// Mirrors a newly swept comment with its vector. The row is
    /// written only when its parent devlog exists. Conflict target
    /// `(devlog_id, slack_id)`, on conflict do nothing.
    pub fn insert_comment_new(&mut self, c: &RawComment, created_at: i64) -> (stored: bool)
        requires
            old(self).wf(),
        ensures
            final(self).wf(),
            stored <==> (devlog_with_id(old(self).devlogs@, c.devlog_id) is Some
                && comment_with_key(old(self).comments@, c.devlog_id, c.slack_id@) is None),
            stored ==> final(self).comments@ == old(self).comments@.push(
                spec_comment_row(*c, created_at, true),
            ),
            !stored ==> *final(self) == *old(self),
            final(self).projects@ == old(self).projects@,
            final(self).devlogs@ == old(self).devlogs@,
            final(self).users@ == old(self).users@,
            final(self).shell_history@ == old(self).shell_history@,
    {
        match self.find_devlog(c.devlog_id) {
            Some(_) => {},
            None => {
                return false;
            },
        }
        match self.find_comment(c.devlog_id, &c.slack_id) {
            Some(_) => false,
            None => {
                let row = CommentRow {
                    text: c.text.clone(),
                    devlog_id: c.devlog_id,
                    slack_id: c.slack_id.clone(),
                    created_at,
                    has_embedding: true,
                };
                proof {
                    assert(row == spec_comment_row(*c, created_at, true));
                }
                self.comments.push(row);
                true
            },
        }
    }

    /// Creates a placeholder user on first sighting: insert with
    /// conflict target `slack_id`, on conflict do nothing. The
    /// placeholder has no name, no shells, no trust and the sentinel
    /// avatar `notfound`.
    pub fn upsert_user_placeholder(&mut self, slack_id: &String)
        requires
            old(self).wf(),
        ensures
            final(self).wf(),
            user_with_id(old(self).users@, slack_id@) is Some ==> *final(self) == *old(self),
            user_with_id(old(self).users@, slack_id@) is None ==> {
                let row = final(self).users@.last();
                &&& final(self).users@.len() == old(self).users@.len() + 1
                &&& final(self).users@.drop_last() == old(self).users@
                &&& row.slack_id@ == slack_id@
                &&& row.username is None
                &&& row.current_shells is None
                &&& row.pfp_url@ == "notfound"@
                &&& row.trust_level is None
                &&& row.trust_value is None
            },
            final(self).projects@ == old(self).projects@,
            final(self).devlogs@ == old(self).devlogs@,
            final(self).comments@ == old(self).comments@,
            final(self).shell_history@ == old(self).shell_history@,
    {
        match self.find_user(slack_id) {
            Some(_) => (),
            None => {
                let row = UserRow {
                    slack_id: slack_id.clone(),
                    username: None,
                    current_shells: None,
                    pfp_url: String::from_str("notfound"),
                    trust_level: None,
                    trust_value: None,
                    image_24: None,
                    image_32: None,
                    image_48: None,
                    image_72: None,
                    image_192: None,
                    image_512: None,
                };
                self.users.push(row);
                proof {
                    assert(self.users@.drop_last() =~= old(self).users@);
                }
            },
        }
    }

    /// Mirrors one leaderboard row: a missing user is created with the
    /// reported shells; an existing one is updated only when the
    /// reported shells differ from what is stored, taking the new
    /// username where one is given. Returns whether anything changed.
    pub fn upsert_user_leaderboard(
        &mut self,
        slack_id: &String,
        username: &Option<String>,
        shells: i32,
    ) -> (changed: bool)
        requires
            old(self).wf(),
        ensures
            final(self).wf(),
            user_with_id(old(self).users@, slack_id@) is None ==> changed && {
                let row = final(self).users@.last();
                &&& final(self).users@.len() == old(self).users@.len() + 1
                &&& final(self).users@.drop_last() == old(self).users@
                &&& row.slack_id@ == slack_id@
                &&& row.username == *username
                &&& row.current_shells == Some(shells)
                &&& row.pfp_url@ == "notfound"@
            },
            user_with_id(old(self).users@, slack_id@) is Some ==> {
                let stored = user_with_id(old(self).users@, slack_id@)->0;
                if stored.current_shells == Some(shells) {
                    !changed && *final(self) == *old(self)
                } else {
                    changed && exists|i: int|
                        0 <= i < old(self).users@.len() && (#[trigger] old(
                            self,
                        ).users@[i]).slack_id@ == slack_id@ && final(self).users@ == old(
                            self,
                        ).users@.update(
                            i,
                            spec_leaderboard_update(old(self).users@[i], *username, shells),
                        )
                }
            },
            final(self).projects@ == old(self).projects@,
            final(self).devlogs@ == old(self).devlogs@,
            final(self).comments@ == old(self).comments@,
            final(self).shell_history@ == old(self).shell_history@,
    {
        match self.find_user(slack_id) {
            Some(i) => {
                let same = match &self.users[i].current_shells {
                    Some(cur) => *cur == shells,
                    None => false,
                };
                if same {
                    return false;
                }
                let row = UserRow {
                    slack_id: self.users[i].slack_id.clone(),
                    username: coalesce_opt_string(username, &self.users[i].username),
                    current_shells: Some(shells),
                    pfp_url: self.users[i].pfp_url.clone(),
                    trust_level: clone_opt_string(&self.users[i].trust_level),
                    trust_value: self.users[i].trust_value,
                    image_24: clone_opt_string(&self.users[i].image_24),
                    image_32: clone_opt_string(&self.users[i].image_32),
                    image_48: clone_opt_string(&self.users[i].image_48),
                    image_72: clone_opt_string(&self.users[i].image_72),
                    image_192: clone_opt_string(&self.users[i].image_192),
                    image_512: clone_opt_string(&self.users[i].image_512),
                };
                proof {
                    assert(row == spec_leaderboard_update(self.users@[i as int], *username, shells));
                }
                self.users.set(i, row);
                proof {
                    assert forall|a: int, b: int|
                        0 <= a < b < self.users@.len() implies (
                        #[trigger] self.users@[a]).slack_id@ != (
                        #[trigger] self.users@[b]).slack_id@ by {
                        assert(self.users@[a].slack_id@ == old(self).users@[a].slack_id@);
                        assert(self.users@[b].slack_id@ == old(self).users@[b].slack_id@);
                    }
                }
                true
            },
            None => {
                let row = UserRow {
                    slack_id: slack_id.clone(),
                    username: clone_opt_string(username),
                    current_shells: Some(shells),
                    pfp_url: String::from_str("notfound"),
                    trust_level: None,
                    trust_value: None,
                    image_24: None,
                    image_32: None,
                    image_48: None,
                    image_72: None,
                    image_192: None,
                    image_512: None,
                };
                self.users.push(row);
                proof {
                    assert(self.users@.drop_last() =~= old(self).users@);
                }
                true
            },
        }
    }

    /// Appends one shell-history row: insert with conflict target
    /// `(slack_id, recorded_at)`, on conflict do nothing.
    pub fn append_history(&mut self, slack_id: &String, entry: ShellHistoryEntry)
        requires
            old(self).wf(),
        ensures
            final(self).wf(),
            history_with_key(old(self).shell_history@, slack_id@, entry.recorded_at) is Some
                ==> *final(self) == *old(self),
            history_with_key(old(self).shell_history@, slack_id@, entry.recorded_at) is None ==> {
                let row = final(self).shell_history@.last();
                &&& final(self).shell_history@.len() == old(self).shell_history@.len() + 1
                &&& final(self).shell_history@.drop_last() == old(self).shell_history@
                &&& row.slack_id@ == slack_id@
                &&& row.entry == entry
            },
            final(self).projects@ == old(self).projects@,
            final(self).devlogs@ == old(self).devlogs@,
            final(self).comments@ == old(self).comments@,
            final(self).users@ == old(self).users@,
    {
        match self.find_history(slack_id, entry.recorded_at) {
            Some(_) => (),
            None => {
                let row = HistoryRow { slack_id: slack_id.clone(), entry };
                self.shell_history.push(row);
                proof {
                    assert(self.shell_history@.drop_last() =~= old(self).shell_history@);
                }
            },
        }
    }

    /// Records trust enrichment on an existing user; an unknown user
    /// is left untouched, as the update matches no row.
    pub fn update_user_trust(&mut self, slack_id: &String, trust_level: &String, trust_value: i32)
        requires
            old(self).wf(),
        ensures
            final(self).wf(),
            user_with_id(old(self).users@, slack_id@) is None ==> *final(self) == *old(self),
            user_with_id(old(self).users@, slack_id@) is Some ==> exists|i: int|
                0 <= i < old(self).users@.len() && (#[trigger] old(self).users@[i]).slack_id@
                    == slack_id@ && final(self).users@ == old(self).users@.update(
                    i,
                    spec_trust_update(old(self).users@[i], *trust_level, trust_value),
                ),
            final(self).projects@ == old(self).projects@,
            final(self).devlogs@ == old(self).devlogs@,
            final(self).comments@ == old(self).comments@,
            final(self).shell_history@ == old(self).shell_history@,
    {
        match self.find_user(slack_id) {
            Some(i) => {
                let row = UserRow {
                    slack_id: self.users[i].slack_id.clone(),
                    username: clone_opt_string(&self.users[i].username),
                    current_shells: self.users[i].current_shells,
                    pfp_url: self.users[i].pfp_url.clone(),
                    trust_level: Some(trust_level.clone()),
                    trust_value: Some(trust_value),
                    image_24: clone_opt_string(&self.users[i].image_24),
                    image_32: clone_opt_string(&self.users[i].image_32),
                    image_48: clone_opt_string(&self.users[i].image_48),
                    image_72: clone_opt_string(&self.users[i].image_72),
                    image_192: clone_opt_string(&self.users[i].image_192),
                    image_512: clone_opt_string(&self.users[i].image_512),
                };
                proof {
                    assert(row == spec_trust_update(
                        self.users@[i as int],
                        *trust_level,
                        trust_value,
                    ));
                }
                self.users.set(i, row);
                proof {
                    assert forall|a: int, b: int|
                        0 <= a < b < self.users@.len() implies (
                        #[trigger] self.users@[a]).slack_id@ != (
                        #[trigger] self.users@[b]).slack_id@ by {
                        assert(self.users@[a].slack_id@ == old(self).users@[a].slack_id@);
                        assert(self.users@[b].slack_id@ == old(self).users@[b].slack_id@);
                    }
                }
            },
            None => (),
        }
    }

    /// Records profile enrichment on an existing user: the resolved
    /// username, the chosen avatar and all six size variants. An
    /// unknown user is left untouched.
    pub fn update_user_profile(
        &mut self,
        slack_id: &String,
        username: &String,
        pfp_url: &String,
        profile: &SlackProfile,
    )
        requires
            old(self).wf(),
        ensures
            final(self).wf(),
            user_with_id(old(self).users@, slack_id@) is None ==> *final(self) == *old(self),
            user_with_id(old(self).users@, slack_id@) is Some ==> exists|i: int|
                0 <= i < old(self).users@.len() && (#[trigger] old(self).users@[i]).slack_id@
                    == slack_id@ && final(self).users@ == old(self).users@.update(
                    i,
                    spec_profile_update(old(self).users@[i], *username, *pfp_url, *profile),
                ),
            final(self).projects@ == old(self).projects@,
            final(self).devlogs@ == old(self).devlogs@,
            final(self).comments@ == old(self).comments@,
            final(self).shell_history@ == old(self).shell_history@,
    {
        match self.find_user(slack_id) {
            Some(i) => {
                let row = UserRow {
                    slack_id: self.users[i].slack_id.clone(),
                    username: Some(username.clone()),
                    current_shells: self.users[i].current_shells,
                    pfp_url: pfp_url.clone(),
                    trust_level: clone_opt_string(&self.users[i].trust_level),
                    trust_value: self.users[i].trust_value,
                    image_24: clone_opt_string(&profile.image_24),
                    image_32: clone_opt_string(&profile.image_32),
                    image_48: clone_opt_string(&profile.image_48),
                    image_72: clone_opt_string(&profile.image_72),
                    image_192: clone_opt_string(&profile.image_192),
                    image_512: clone_opt_string(&profile.image_512),
                };
                proof {
                    assert(row == spec_profile_update(
                        self.users@[i as int],
                        *username,
                        *pfp_url,
                        *profile,
                    ));
                }
                self.users.set(i, row);
                proof {
                    assert forall|a: int, b: int|
                        0 <= a < b < self.users@.len() implies (
                        #[trigger] self.users@[a]).slack_id@ != (
                        #[trigger] self.users@[b]).slack_id@ by {
                        assert(self.users@[a].slack_id@ == old(self).users@[a].slack_id@);
                        assert(self.users@[b].slack_id@ == old(self).users@[b].slack_id@);
                    }
                }
            },
            None => (),
        }
    }

    /// Deletes the project row with this id, as the reconciliation
    /// sweep does for records gone upstream. Dependent rows are left
    /// for the orphan sweep.
    #[verifier::loop_isolation(false)]
    pub fn delete_project(&mut self, id: i64)
        requires
            old(self).wf(),
        ensures
            final(self).wf(),
            final(self).projects@ == projects_without(old(self).projects@, id),
            final(self).devlogs@ == old(self).devlogs@,
            final(self).comments@ == old(self).comments@,
            final(self).users@ == old(self).users@,
            final(self).shell_history@ == old(self).shell_history@,
    {
        let mut kept: Vec<ProjectRow> = Vec::new();
        let mut i: usize = 0;
        proof {
            assert(self.projects@.take(0) =~= Seq::<ProjectRow>::empty());
            assert(projects_without(self.projects@.take(0), id) =~= Seq::<ProjectRow>::empty());
        }
        while i < self.projects.len()
            invariant
                i <= self.projects@.len(),
                kept@ == projects_without(self.projects@.take(i as int), id),
                forall|a: int, b: int|
                    0 <= a < b < kept@.len() ==> (#[trigger] kept@[a]).id != (
                    #[trigger] kept@[b]).id,
                forall|k: int, j2: int|
                    0 <= k < kept@.len() && i <= j2 < self.projects@.len() ==> (
                    #[trigger] kept@[k]).id != (#[trigger] self.projects@[j2]).id,
            decreases self.projects@.len() - i,
        {
            proof {
                lemma_projects_without_step(self.projects@, id, i as int);
            }
            if self.projects[i].id != id {
                kept.push(self.projects[i].clone());
            }
            i = i + 1;
        }
        proof {
            assert(self.projects@.take(self.projects@.len() as int) =~= self.projects@);
        }
        self.projects = kept;
    }

    /// Deletes the devlog row with this id, as the reconciliation
    /// sweep does for records gone upstream.
    #[verifier::loop_isolation(false)]
    pub fn delete_devlog(&mut self, id: i64)
        requires
            old(self).wf(),
        ensures
            final(self).wf(),
            final(self).devlogs@ == devlogs_without(old(self).devlogs@, id),
            final(self).projects@ == old(self).projects@,
            final(self).comments@ == old(self).comments@,
            final(self).users@ == old(self).users@,
            final(self).shell_history@ == old(self).shell_history@,
    {
        let mut kept: Vec<DevlogRow> = Vec::new();
        let mut i: usize = 0;
        proof {
            assert(self.devlogs@.take(0) =~= Seq::<DevlogRow>::empty());
            assert(devlogs_without(self.devlogs@.take(0), id) =~= Seq::<DevlogRow>::empty());
        }
        while i < self.devlogs.len()
            invariant
                i <= self.devlogs@.len(),
                kept@ == devlogs_without(self.devlogs@.take(i as int), id),
                forall|a: int, b: int|
                    0 <= a < b < kept@.len() ==> (#[trigger] kept@[a]).id != (
                    #[trigger] kept@[b]).id,
                forall|k: int, j2: int|
                    0 <= k < kept@.len() && i <= j2 < self.devlogs@.len() ==> (
                    #[trigger] kept@[k]).id != (#[trigger] self.devlogs@[j2]).id,
            decreases self.devlogs@.len() - i,
        {
            proof {
                lemma_devlogs_without_step(self.devlogs@, id, i as int);
            }
            if self.devlogs[i].id != id {
                kept.push(self.devlogs[i].clone());
            }
            i = i + 1;
        }
        proof {
            assert(self.devlogs@.take(self.devlogs@.len() as int) =~= self.devlogs@);
        }
        self.devlogs = kept;
    }

    /// The orphan sweep, always run last in reconciliation: drop
    /// comments whose devlog is gone, then devlogs whose project is
    /// gone, then history rows whose user is gone — in that order, so
    /// a comment orphaned by this very sweep's devlog step waits for
    /// the next sweep.
    #[verifier::loop_isolation(false)]
    pub fn cleanup_orphaned_data(&mut self)
        requires
            old(self).wf(),
        ensures
            final(self).wf(),
            final(self).comments@ == live_comments(old(self).comments@, old(self).devlogs@),
            final(self).devlogs@ == live_devlogs(old(self).devlogs@, old(self).projects@),
            final(self).shell_history@ == live_history(old(self).shell_history@, old(self).users@),
            final(self).projects@ == old(self).projects@,
            final(self).users@ == old(self).users@,
    {
        // comments are checked against the devlogs as they stand now
        let mut kept_comments: Vec<CommentRow> = Vec::new();
        let mut i: usize = 0;
        proof {
            assert(self.comments@.take(0) =~= Seq::<CommentRow>::empty());
            assert(live_comments(self.comments@.take(0), self.devlogs@) =~= Seq::<
                CommentRow,
            >::empty());
        }
        while i < self.comments.len()
            invariant
                i <= self.comments@.len(),
                kept_comments@ == live_comments(self.comments@.take(i as int), self.devlogs@),
                forall|a: int, b: int|
                    0 <= a < b < kept_comments@.len() ==> !((
                    #[trigger] kept_comments@[a]).devlog_id == (
                    #[trigger] kept_comments@[b]).devlog_id && kept_comments@[a].slack_id@
                        == kept_comments@[b].slack_id@),
                forall|k: int, j2: int|
                    0 <= k < kept_comments@.len() && i <= j2 < self.comments@.len() ==> !((
                    #[trigger] kept_comments@[k]).devlog_id == (
                    #[trigger] self.comments@[j2]).devlog_id && kept_comments@[k].slack_id@
                        == self.comments@[j2].slack_id@),
            decreases self.comments@.len() - i,
        {
            proof {
                lemma_live_comments_step(self.comments@, self.devlogs@, i as int);
            }
            if devlog_row_exists(&self.devlogs, self.comments[i].devlog_id) {
                kept_comments.push(self.comments[i].clone());
            }
            i = i + 1;
        }
        proof {
            assert(self.comments@.take(self.comments@.len() as int) =~= self.comments@);
        }
        self.comments = kept_comments;

        // devlogs are checked against the projects
        let mut kept_devlogs: Vec<DevlogRow> = Vec::new();
        let mut j: usize = 0;
        proof {
            assert(self.devlogs@.take(0) =~= Seq::<DevlogRow>::empty());
            assert(live_devlogs(self.devlogs@.take(0), self.projects@) =~= Seq::<
                DevlogRow,
            >::empty());
        }
        while j < self.devlogs.len()
            invariant
                j <= self.devlogs@.len(),
                kept_devlogs@ == live_devlogs(self.devlogs@.take(j as int), self.projects@),
                forall|a: int, b: int|
                    0 <= a < b < kept_devlogs@.len() ==> (#[trigger] kept_devlogs@[a]).id != (
                    #[trigger] kept_devlogs@[b]).id,
                forall|k: int, j2: int|
                    0 <= k < kept_devlogs@.len() && j <= j2 < self.devlogs@.len() ==> (
                    #[trigger] kept_devlogs@[k]).id != (#[trigger] self.devlogs@[j2]).id,
            decreases self.devlogs@.len() - j,
        {
            proof {
                lemma_live_devlogs_step(self.devlogs@, self.projects@, j as int);
            }
            if project_row_exists(&self.projects, self.devlogs[j].project_id) {
                kept_devlogs.push(self.devlogs[j].clone());
            }
            j = j + 1;
        }
        proof {
            assert(self.devlogs@.take(self.devlogs@.len() as int) =~= self.devlogs@);
        }
        self.devlogs = kept_devlogs;

        // history rows are checked against the users
        let mut kept_history: Vec<HistoryRow> = Vec::new();
        let mut k: usize = 0;
        proof {
            assert(self.shell_history@.take(0) =~= Seq::<HistoryRow>::empty());
            assert(live_history(self.shell_history@.take(0), self.users@) =~= Seq::<
                HistoryRow,
            >::empty());
        }
        while k < self.shell_history.len()
            invariant
                k <= self.shell_history@.len(),
                kept_history@ == live_history(self.shell_history@.take(k as int), self.users@),
                forall|a: int, b: int|
                    0 <= a < b < kept_history@.len() ==> !((
                    #[trigger] kept_history@[a]).slack_id@ == (
                    #[trigger] kept_history@[b]).slack_id@ && kept_history@[a].entry.recorded_at
                        == kept_history@[b].entry.recorded_at),
                forall|k2: int, j2: int|
                    0 <= k2 < kept_history@.len() && k <= j2 < self.shell_history@.len() ==> !((
                    #[trigger] kept_history@[k2]).slack_id@ == (
                    #[trigger] self.shell_history@[j2]).slack_id@
                        && kept_history@[k2].entry.recorded_at
                        == self.shell_history@[j2].entry.recorded_at),
            decreases self.shell_history@.len() - k,
        {
            proof {
                lemma_live_history_step(self.shell_history@, self.users@, k as int);
            }
            if user_row_exists(&self.users, &self.shell_history[k].slack_id) {
                kept_history.push(self.shell_history[k].clone());
            }
            k = k + 1;
        }
        proof {
            assert(self.shell_history@.take(self.shell_history@.len() as int)
                =~= self.shell_history@);
        }
        self.shell_history = kept_history;
    }
}

/// Rows kept by the orphan sweep: comments whose devlog exists.
pub open spec fn live_comments(comments: Seq<CommentRow>, devlogs: Seq<DevlogRow>) -> Seq<
    CommentRow,
> {
    comments.filter(|c: CommentRow| devlog_with_id(devlogs, c.devlog_id) is Some)
}

/// Rows kept by the orphan sweep: devlogs whose project exists.
pub open spec fn live_devlogs(devlogs: Seq<DevlogRow>, projects: Seq<ProjectRow>) -> Seq<
    DevlogRow,
> {
    devlogs.filter(|d: DevlogRow| project_with_id(projects, d.project_id) is Some)
}

/// Rows kept by the orphan sweep: history rows whose user exists.
pub open spec fn live_history(history: Seq<HistoryRow>, users: Seq<UserRow>) -> Seq<HistoryRow> {
    history.filter(|h: HistoryRow| user_with_id(users, h.slack_id@) is Some)
}

/// The project rows left after deleting one id.
pub open spec fn projects_without(rows: Seq<ProjectRow>, id: i64) -> Seq<ProjectRow> {
    rows.filter(|r: ProjectRow| r.id != id)
}

/// The devlog rows left after deleting one id.
pub open spec fn devlogs_without(rows: Seq<DevlogRow>, id: i64) -> Seq<DevlogRow> {
    rows.filter(|r: DevlogRow| r.id != id)
}

/// One step of `live_comments` over a growing prefix.
proof fn lemma_live_comments_step(comments: Seq<CommentRow>, devlogs: Seq<DevlogRow>, i: int)
    requires
        0 <= i < comments.len(),
    ensures
        devlog_with_id(devlogs, comments[i].devlog_id) is Some ==> live_comments(
            comments.take(i + 1),
            devlogs,
        ) =~= live_comments(comments.take(i), devlogs).push(comments[i]),
        devlog_with_id(devlogs, comments[i].devlog_id) is None ==> live_comments(
            comments.take(i + 1),
            devlogs,
        ) =~= live_comments(comments.take(i), devlogs),
{
    reveal(Seq::filter);
    assert(comments.take(i + 1).drop_last() =~= comments.take(i));
    assert(comments.take(i + 1).drop_last() == comments.take(i));
    assert(comments.take(i + 1).last() == comments[i]);
}

/// One step of `live_devlogs` over a growing prefix.
proof fn lemma_live_devlogs_step(devlogs: Seq<DevlogRow>, projects: Seq<ProjectRow>, i: int)
    requires
        0 <= i < devlogs.len(),
    ensures
        project_with_id(projects, devlogs[i].project_id) is Some ==> live_devlogs(
            devlogs.take(i + 1),
            projects,
        ) =~= live_devlogs(devlogs.take(i), projects).push(devlogs[i]),
        project_with_id(projects, devlogs[i].project_id) is None ==> live_devlogs(
            devlogs.take(i + 1),
            projects,
        ) =~= live_devlogs(devlogs.take(i), projects),
{
    reveal(Seq::filter);
    assert(devlogs.take(i + 1).drop_last() =~= devlogs.take(i));
    assert(devlogs.take(i + 1).drop_last() == devlogs.take(i));
    assert(devlogs.take(i + 1).last() == devlogs[i]);
}

/// One step of `live_history` over a growing prefix.
proof fn lemma_live_history_step(history: Seq<HistoryRow>, users: Seq<UserRow>, i: int)
    requires
        0 <= i < history.len(),
    ensures
        user_with_id(users, history[i].slack_id@) is Some ==> live_history(
            history.take(i + 1),
            users,
        ) =~= live_history(history.take(i), users).push(history[i]),
        user_with_id(users, history[i].slack_id@) is None ==> live_history(
            history.take(i + 1),
            users,
        ) =~= live_history(history.take(i), users),
{
    reveal(Seq::filter);
    assert(history.take(i + 1).drop_last() =~= history.take(i));
    assert(history.take(i + 1).drop_last() == history.take(i));
    assert(history.take(i + 1).last() == history[i]);
}

/// One step of `projects_without` over a growing prefix.
proof fn lemma_projects_without_step(rows: Seq<ProjectRow>, id: i64, i: int)
    requires
        0 <= i < rows.len(),
    ensures
        rows[i].id != id ==> projects_without(rows.take(i + 1), id) =~= projects_without(
            rows.take(i),
            id,
        ).push(rows[i]),
        rows[i].id == id ==> projects_without(rows.take(i + 1), id) =~= projects_without(
            rows.take(i),
            id,
        ),
{
    reveal(Seq::filter);
    assert(rows.take(i + 1).drop_last() =~= rows.take(i));
    assert(rows.take(i + 1).drop_last() == rows.take(i));
    assert(rows.take(i + 1).last() == rows[i]);
}

/// One step of `devlogs_without` over a growing prefix.
proof fn lemma_devlogs_without_step(rows: Seq<DevlogRow>, id: i64, i: int)
    requires
        0 <= i < rows.len(),
    ensures
        rows[i].id != id ==> devlogs_without(rows.take(i + 1), id) =~= devlogs_without(
            rows.take(i),
            id,
        ).push(rows[i]),
        rows[i].id == id ==> devlogs_without(rows.take(i + 1), id) =~= devlogs_without(
            rows.take(i),
            id,
        ),
{
    reveal(Seq::filter);
    assert(rows.take(i + 1).drop_last() =~= rows.take(i));
    assert(rows.take(i + 1).drop_last() == rows.take(i));
    assert(rows.take(i + 1).last() == rows[i]);
}

/// Whether a project row list holds an id.
#[verifier::loop_isolation(false)]
fn project_row_exists(rows: &Vec<ProjectRow>, id: i64) -> (r: bool)
    ensures
        r == (project_with_id(rows@, id) is Some),
{
    let mut i: usize = 0;
    proof {
        assert(rows@.skip(0) =~= rows@);
    }
    while i < rows.len()
        invariant
            i <= rows@.len(),
            project_with_id(rows@, id) == project_with_id(rows@.skip(i as int), id),
        decreases rows@.len() - i,
    {
        proof {
            assert(rows@.skip(i as int).first() == rows@[i as int]);
            assert(rows@.skip(i as int).drop_first() =~= rows@.skip(i + 1));
        }
        if rows[i].id == id {
            return true;
        }
        i = i + 1;
    }
    proof {
        assert(rows@.skip(i as int) =~= Seq::<ProjectRow>::empty());
    }
    false
}

/// Whether a devlog row list holds an id.
#[verifier::loop_isolation(false)]
fn devlog_row_exists(rows: &Vec<DevlogRow>, id: i64) -> (r: bool)
    ensures
        r == (devlog_with_id(rows@, id) is Some),
{
    let mut i: usize = 0;
    proof {
        assert(rows@.skip(0) =~= rows@);
    }
    while i < rows.len()
        invariant
            i <= rows@.len(),
            devlog_with_id(rows@, id) == devlog_with_id(rows@.skip(i as int), id),
        decreases rows@.len() - i,
    {
        proof {
            assert(rows@.skip(i as int).first() == rows@[i as int]);
            assert(rows@.skip(i as int).drop_first() =~= rows@.skip(i + 1));
        }
        if rows[i].id == id {
            return true;
        }
        i = i + 1;
    }
    proof {
        assert(rows@.skip(i as int) =~= Seq::<DevlogRow>::empty());
    }
    false
}

/// Whether a user row list holds a slack id.
#[verifier::loop_isolation(false)]
fn user_row_exists(rows: &Vec<UserRow>, slack_id: &String) -> (r: bool)
    ensures
        r == (user_with_id(rows@, slack_id@) is Some),
{
    let mut i: usize = 0;
    proof {
        assert(rows@.skip(0) =~= rows@);
    }
    while i < rows.len()
        invariant
            i <= rows@.len(),
            user_with_id(rows@, slack_id@) == user_with_id(rows@.skip(i as int), slack_id@),
        decreases rows@.len() - i,
    {
        proof {
            assert(rows@.skip(i as int).first() == rows@[i as int]);
            assert(rows@.skip(i as int).drop_first() =~= rows@.skip(i + 1));
        }
        if rows[i].slack_id == *slack_id {
            return true;
        }
        i = i + 1;
    }
    proof {
        assert(rows@.skip(i as int) =~= Seq::<UserRow>::empty());
    }
    false
}

/// Copies an optional string.
fn clone_opt_string(o: &Option<String>) -> (r: Option<String>)
    ensures
        r == *o,
{
    match o {
        Some(s) => Some(s.clone()),
        None => None,
    }
}

/// `COALESCE(new, old)`: the new value where one is given, else what
/// is already stored.
fn coalesce_opt_string(new: &Option<String>, old: &Option<String>) -> (r: Option<String>)
    ensures
        r == (if new is Some {
            *new
        } else {
            *old
        }),
{
    match new {
        Some(s) => Some(s.clone()),
        None => clone_opt_string(old),
    }
}

/// The row a fresh project insert writes.
pub open spec fn spec_project_row(
    p: RawProject,
    created_at: i64,
    updated_at: i64,
    has_embedding: bool,
) -> ProjectRow {
    ProjectRow {
        id: p.id,
        title: p.title,
        description: p.description,
        readme_link: p.readme_link,
        slack_id: p.slack_id,
        created_at,
        updated_at,
        has_embedding,
    }
}

/// The row a backfill conflict-update leaves: new title and timestamp,
/// description and readme coalesced onto the stored ones, everything
/// else kept.
pub open spec fn spec_project_update(row: ProjectRow, p: RawProject, updated_at: i64) -> ProjectRow {
    ProjectRow {
        id: row.id,
        title: p.title,
        description: if p.description is Some {
            p.description
        } else {
            row.description
        },
        readme_link: if p.readme_link is Some {
            p.readme_link
        } else {
            row.readme_link
        },
        slack_id: row.slack_id,
        created_at: row.created_at,
        updated_at,
        has_embedding: row.has_embedding,
    }
}

/// The row a fresh devlog insert writes.
pub open spec fn spec_devlog_row(
    d: RawDevlog,
    created_at: i64,
    updated_at: i64,
    has_embedding: bool,
) -> DevlogRow {
    DevlogRow {
        id: d.id,
        text: d.text,
        project_id: d.project_id,
        slack_id: d.slack_id,
        created_at,
        updated_at,
        has_embedding,
    }
}

/// The row a fresh comment insert writes.
pub open spec fn spec_comment_row(c: RawComment, created_at: i64, has_embedding: bool) -> CommentRow {
    CommentRow {
        text: c.text,
        devlog_id: c.devlog_id,
        slack_id: c.slack_id,
        created_at,
        has_embedding,
    }
}

/// The row a trust enrichment leaves on an existing user.
pub open spec fn spec_trust_update(row: UserRow, trust_level: String, trust_value: i32) -> UserRow {
    UserRow {
        slack_id: row.slack_id,
        username: row.username,
        current_shells: row.current_shells,
        pfp_url: row.pfp_url,
        trust_level: Some(trust_level),
        trust_value: Some(trust_value),
        image_24: row.image_24,
        image_32: row.image_32,
        image_48: row.image_48,
        image_72: row.image_72,
        image_192: row.image_192,
        image_512: row.image_512,
    }
}

/// The row a profile enrichment leaves on an existing user.
pub open spec fn spec_profile_update(
    row: UserRow,
    username: String,
    pfp_url: String,
    profile: crate::models::SlackProfile,
) -> UserRow {
    UserRow {
        slack_id: row.slack_id,
        username: Some(username),
        current_shells: row.current_shells,
        pfp_url,
        trust_level: row.trust_level,
        trust_value: row.trust_value,
        image_24: profile.image_24,
        image_32: profile.image_32,
        image_48: profile.image_48,
        image_72: profile.image_72,
        image_192: profile.image_192,
        image_512: profile.image_512,
    }
}

/// The row a leaderboard update leaves on an existing user.
pub open spec fn spec_leaderboard_update(
    row: UserRow,
    username: Option<String>,
    shells: i32,
) -> UserRow {
    UserRow {
        slack_id: row.slack_id,
        username: if username is Some {
            username
        } else {
            row.username
        },
        current_shells: Some(shells),
        pfp_url: row.pfp_url,
        trust_level: row.trust_level,
        trust_value: row.trust_value,
        image_24: row.image_24,
        image_32: row.image_32,
        image_48: row.image_48,
        image_72: row.image_72,
        image_192: row.image_192,
        image_512: row.image_512,
    }
}

impl Clone for ProjectRow {
    /// An exact copy, field for field.
    fn clone(&self) -> (res: Self)
        ensures
            res == *self,
    {
        ProjectRow {
            id: self.id,
            title: self.title.clone(),
            description: clone_opt_string(&self.description),
            readme_link: clone_opt_string(&self.readme_link),
            slack_id: self.slack_id.clone(),
            created_at: self.created_at,
            updated_at: self.updated_at,
            has_embedding: self.has_embedding,
        }
    }
}

impl Clone for DevlogRow {
    /// An exact copy, field for field.
    fn clone(&self) -> (res: Self)
        ensures
            res == *self,
    {
        DevlogRow {
            id: self.id,
            text: self.text.clone(),
            project_id: self.project_id,
            slack_id: self.slack_id.clone(),
            created_at: self.created_at,
            updated_at: self.updated_at,
            has_embedding: self.has_embedding,
        }
    }
}

impl Clone for CommentRow {
    /// An exact copy, field for field.
    fn clone(&self) -> (res: Self)
        ensures
            res == *self,
    {
        CommentRow {
            text: self.text.clone(),
            devlog_id: self.devlog_id,
            slack_id: self.slack_id.clone(),
            created_at: self.created_at,
            has_embedding: self.has_embedding,
        }
    }
}

impl Clone for UserRow {
    /// An exact copy, field for field.
    fn clone(&self) -> (res: Self)
        ensures
            res == *self,
    {
        UserRow {
            slack_id: self.slack_id.clone(),
            username: clone_opt_string(&self.username),
            current_shells: self.current_shells,
            pfp_url: self.pfp_url.clone(),
            trust_level: clone_opt_string(&self.trust_level),
            trust_value: self.trust_value,
            image_24: clone_opt_string(&self.image_24),
            image_32: clone_opt_string(&self.image_32),
            image_48: clone_opt_string(&self.image_48),
            image_72: clone_opt_string(&self.image_72),
            image_192: clone_opt_string(&self.image_192),
            image_512: clone_opt_string(&self.image_512),
        }
    }
}

impl Clone for HistoryRow {
    /// An exact copy, field for field.
    fn clone(&self) -> (res: Self)
        ensures
            res == *self,
    {
        HistoryRow { slack_id: self.slack_id.clone(), entry: self.entry }
    }
}

/// A filter that every element already satisfies keeps every devlog.
proof fn lemma_live_devlogs_all(devlogs: Seq<DevlogRow>, projects: Seq<ProjectRow>)
    requires
        forall|i: int|
            0 <= i < devlogs.len() ==> project_with_id(
                projects,
                (#[trigger] devlogs[i]).project_id,
            ) is Some,
    ensures
        live_devlogs(devlogs, projects) == devlogs,
    decreases devlogs.len(),
{
    reveal(Seq::filter);
    if devlogs.len() > 0 {
        lemma_live_devlogs_all(devlogs.drop_last(), projects);
        assert(live_devlogs(devlogs, projects) =~= devlogs);
    }
}

/// Parent integrity is reached by the orphan sweep: after two
/// consecutive sweeps over an otherwise quiet store, every comment's
/// devlog, every devlog's project and every history row's user
/// exists. One sweep alone can leave a comment orphaned by that very
/// sweep's devlog step; the next sweep removes it.
pub proof fn lemma_cleanup_restores_integrity(s0: MirrorStore, s1: MirrorStore, s2: MirrorStore)
    requires
        s1.projects@ == s0.projects@,
        s1.users@ == s0.users@,
        s1.comments@ == live_comments(s0.comments@, s0.devlogs@),
        s1.devlogs@ == live_devlogs(s0.devlogs@, s0.projects@),
        s1.shell_history@ == live_history(s0.shell_history@, s0.users@),
        s2.projects@ == s1.projects@,
        s2.users@ == s1.users@,
        s2.comments@ == live_comments(s1.comments@, s1.devlogs@),
        s2.devlogs@ == live_devlogs(s1.devlogs@, s1.projects@),
        s2.shell_history@ == live_history(s1.shell_history@, s1.users@),
    ensures
        s2.parent_integrity(),
{
    broadcast use vstd::seq_lib::group_filter_ensures;

    // every devlog the first sweep kept has its project, so the second
    // sweep's devlog step keeps everything
    assert forall|i: int|
        0 <= i < s1.devlogs@.len() implies project_with_id(
        s1.projects@,
        (#[trigger] s1.devlogs@[i]).project_id,
    ) is Some by {
        assert(s1.devlogs@[i] == live_devlogs(s0.devlogs@, s0.projects@)[i]);
    }
    lemma_live_devlogs_all(s1.devlogs@, s1.projects@);
    assert(s2.devlogs@ == s1.devlogs@);
    // devlog integrity of the final state
    assert forall|i: int|
        0 <= i < s2.devlogs@.len() implies project_with_id(
        s2.projects@,
        (#[trigger] s2.devlogs@[i]).project_id,
    ) is Some by {
        assert(project_with_id(s1.projects@, s2.devlogs@[i].project_id) is Some);
    }
    // comment integrity: the second sweep checked against s1's
    // devlogs, which the final state still holds
    assert forall|i: int|
        0 <= i < s2.comments@.len() implies devlog_with_id(
        s2.devlogs@,
        (#[trigger] s2.comments@[i]).devlog_id,
    ) is Some by {
        assert(s2.comments@[i] == live_comments(s1.comments@, s1.devlogs@)[i]);
    }
    // history integrity: users never change across a sweep
    assert forall|i: int|
        0 <= i < s2.shell_history@.len() implies user_with_id(
        s2.users@,
        (#[trigger] s2.shell_history@[i]).slack_id@,
    ) is Some by {
        assert(s2.shell_history@[i] == live_history(s1.shell_history@, s1.users@)[i]);
    }
}

} // verus!
