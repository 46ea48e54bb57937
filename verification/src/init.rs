//! The one-time backfill's decisions: how far the full page walk goes,
//! and which authors get placeholder user rows.

use vstd::prelude::*;

use crate::models::{RawComment, RawDevlog, RawProject};

verus! {

/// Page cap of the backfill in development mode.
pub const DEV_MODE_MAX_PAGES: i32 = 5;

/// How many pages a full backfill may walk: five in development mode,
/// otherwise unbounded.
pub fn backfill_max_pages(dev_mode: bool) -> (r: i32)
    ensures
        dev_mode ==> r == DEV_MODE_MAX_PAGES,
        !dev_mode ==> r == i32::MAX,
{
    if dev_mode {
        DEV_MODE_MAX_PAGES
    } else {
        i32::MAX
    }
}

/// What the backfill's page walk does after fetching one page.
#[derive(Debug, Clone, Copy, PartialEq, Eq, Structural)]
pub enum BackfillStep {
    /// An empty page, or the cap reached: stop without keeping this
    /// page's records.
    DiscardAndStop,
    /// The reported last page: keep its records and stop.
    StoreAndStop,
    /// Keep this page's records and fetch the given page next.
    StoreAndContinue(i32),
}

/// Decides the walk's next move: an empty page or the development cap
/// ends it before the page is kept; the reported total ends it after;
/// otherwise the next page follows.
pub fn backfill_step(
    page: i32,
    max_pages: i32,
    items_empty: bool,
    reported_pages: &Option<i32>,
) -> (r: BackfillStep)
    requires
        page < i32::MAX,
    ensures
        (items_empty || page >= max_pages) ==> r == BackfillStep::DiscardAndStop,
        !(items_empty || page >= max_pages) ==> match reported_pages {
            Some(total) => if page >= *total {
                r == BackfillStep::StoreAndStop
            } else {
                r == BackfillStep::StoreAndContinue((page + 1) as i32)
            },
            None => r == BackfillStep::StoreAndContinue((page + 1) as i32),
        },
{
    if items_empty || page >= max_pages {
        return BackfillStep::DiscardAndStop;
    }
    match reported_pages {
        Some(total) => {
            if page >= *total {
                BackfillStep::StoreAndStop
            } else {
                BackfillStep::StoreAndContinue(page + 1)
            }
        },
        None => BackfillStep::StoreAndContinue(page + 1),
    }
}

/// Whether a string list holds these characters.
pub open spec fn seq_has_string(v: Seq<String>, s: Seq<char>) -> bool
    decreases v.len(),
{
    if v.len() == 0 {
        false
    } else if v.first()@ == s {
        true
    } else {
        seq_has_string(v.drop_first(), s)
    }
}

/// Growing a list never loses what it holds, and gains what is pushed.
proof fn lemma_has_string_push(v: Seq<String>, s: Seq<char>, x: String)
    ensures
        seq_has_string(v, s) ==> seq_has_string(v.push(x), s),
        x@ == s ==> seq_has_string(v.push(x), s),
    decreases v.len(),
{
    if v.len() == 0 {
        assert(v.push(x).first() == x);
    } else {
        assert(v.push(x).first() == v.first());
        assert(v.push(x).drop_first() =~= v.drop_first().push(x));
        lemma_has_string_push(v.drop_first(), s, x);
    }
}

/// A list that does not hold the characters holds them at no index.
proof fn lemma_not_has_string(v: Seq<String>, s: Seq<char>)
    requires
        !seq_has_string(v, s),
    ensures
        forall|k: int| 0 <= k < v.len() ==> (#[trigger] v[k])@ != s,
    decreases v.len(),
{
    if v.len() > 0 {
        lemma_not_has_string(v.drop_first(), s);
        assert forall|k: int| 0 <= k < v.len() implies (#[trigger] v[k])@ != s by {
            if k > 0 {
                assert(v.drop_first()[k - 1] == v[k]);
            }
        }
    }
}

/// Whether these characters appear in the list.
#[verifier::loop_isolation(false)]
fn contains_string(v: &Vec<String>, s: &String) -> (r: bool)
    ensures
        r == seq_has_string(v@, s@),
{
    let mut i: usize = 0;
    proof {
        assert(v@.skip(0) =~= v@);
    }
    while i < v.len()
        invariant
            i <= v@.len(),
            seq_has_string(v@, s@) == seq_has_string(v@.skip(i as int), s@),
        decreases v@.len() - i,
    {
        proof {
            assert(v@.skip(i as int).first() == v@[i as int]);
            assert(v@.skip(i as int).drop_first() =~= v@.skip(i + 1));
        }
        if v[i] == *s {
            return true;
        }
        i = i + 1;
    }
    proof {
        assert(v@.skip(i as int) =~= Seq::<String>::empty());
    }
    false
}

/// Adds an author id unless the list already holds it.
fn push_unique(acc: &mut Vec<String>, s: &String)
    requires
        forall|a: int, b: int| 0 <= a < b < old(acc)@.len() ==> (#[trigger] old(acc)@[a])@ != (
        #[trigger] old(acc)@[b])@,
    ensures
        forall|a: int, b: int|
            0 <= a < b < final(acc)@.len() ==> (#[trigger] final(acc)@[a])@ != (
            #[trigger] final(acc)@[b])@,
        seq_has_string(final(acc)@, s@),
        forall|t: Seq<char>| #[trigger] seq_has_string(old(acc)@, t) ==> seq_has_string(
            final(acc)@,
            t,
        ),
        final(acc)@ == old(acc)@ || final(acc)@ == old(acc)@.push(*s),
{
    if !contains_string(acc, s) {
        proof {
            lemma_not_has_string(acc@, s@);
        }
        acc.push(s.clone());
        proof {
            assert forall|t: Seq<char>| #[trigger] seq_has_string(old(acc)@, t) implies
                seq_has_string(acc@, t) by {
                lemma_has_string_push(old(acc)@, t, *s);
            }
            lemma_has_string_push(old(acc)@, s@, *s);
        }
    }
}

/// The authors seen across a backfill: every `slack_id` of the fetched
/// projects, devlogs and comments, once each. Placeholder user rows
/// are created from this list.
pub fn collect_slack_ids(
    projects: &Vec<RawProject>,
    comments: &Vec<RawComment>,
    devlogs: &Vec<RawDevlog>,
) -> (r: Vec<String>)
    ensures
        forall|a: int, b: int| 0 <= a < b < r@.len() ==> (#[trigger] r@[a])@ != (
        #[trigger] r@[b])@,
        forall|i: int| 0 <= i < projects@.len() ==> seq_has_string(
            r@,
            (#[trigger] projects@[i]).slack_id@,
        ),
        forall|i: int| 0 <= i < comments@.len() ==> seq_has_string(
            r@,
            (#[trigger] comments@[i]).slack_id@,
        ),
        forall|i: int| 0 <= i < devlogs@.len() ==> seq_has_string(
            r@,
            (#[trigger] devlogs@[i]).slack_id@,
        ),
{
    let mut acc: Vec<String> = Vec::new();
    let mut i: usize = 0;
    while i < projects.len()
        invariant
            i <= projects@.len(),
            forall|a: int, b: int| 0 <= a < b < acc@.len() ==> (#[trigger] acc@[a])@ != (
            #[trigger] acc@[b])@,
            forall|j: int| 0 <= j < i ==> seq_has_string(
                acc@,
                (#[trigger] projects@[j]).slack_id@,
            ),
        decreases projects@.len() - i,
    {
        push_unique(&mut acc, &projects[i].slack_id);
        i = i + 1;
    }
    let mut i2: usize = 0;
    while i2 < comments.len()
        invariant
            i2 <= comments@.len(),
            forall|a: int, b: int| 0 <= a < b < acc@.len() ==> (#[trigger] acc@[a])@ != (
            #[trigger] acc@[b])@,
            forall|j: int| 0 <= j < projects@.len() ==> seq_has_string(
                acc@,
                (#[trigger] projects@[j]).slack_id@,
            ),
            forall|j: int| 0 <= j < i2 ==> seq_has_string(
                acc@,
                (#[trigger] comments@[j]).slack_id@,
            ),
        decreases comments@.len() - i2,
    {
        push_unique(&mut acc, &comments[i2].slack_id);
        i2 = i2 + 1;
    }
    let mut i3: usize = 0;
    while i3 < devlogs.len()
        invariant
            i3 <= devlogs@.len(),
            forall|a: int, b: int| 0 <= a < b < acc@.len() ==> (#[trigger] acc@[a])@ != (
            #[trigger] acc@[b])@,
            forall|j: int| 0 <= j < projects@.len() ==> seq_has_string(
                acc@,
                (#[trigger] projects@[j]).slack_id@,
            ),
            forall|j: int| 0 <= j < comments@.len() ==> seq_has_string(
                acc@,
                (#[trigger] comments@[j]).slack_id@,
            ),
            forall|j: int| 0 <= j < i3 ==> seq_has_string(
                acc@,
                (#[trigger] devlogs@[j]).slack_id@,
            ),
        decreases devlogs@.len() - i3,
    {
        push_unique(&mut acc, &devlogs[i3].slack_id);
        i3 = i3 + 1;
    }
    acc
}

} // verus!
