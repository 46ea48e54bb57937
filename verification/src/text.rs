//! Text assembled for embedding. A project embeds its title and
//! description joined by a space and trimmed; devlogs and comments
//! embed their text as is.

use vstd::prelude::*;

verus! {

/// The characters left after trimming leading and trailing whitespace
/// from a string. Trimming depends on the characters alone.
pub uninterp spec fn trim_of(s: Seq<char>) -> Seq<char>;

/// Relies on `str::trim` of std: it returns the input without leading
/// and trailing whitespace, so the result is never longer and an empty
/// input stays empty.
#[verifier::external_body]
pub(crate) fn trim_owned(s: &str) -> (r: String)
    ensures
        r@ == trim_of(s@),
        r@.len() <= s@.len(),
        s@.len() == 0 ==> r@.len() == 0,
{
    s.trim().to_string()
}

/// Title and description joined by one space; a missing description
/// contributes nothing after the space.
pub open spec fn spec_project_text(title: Seq<char>, description: Option<String>) -> Seq<char> {
    title + " "@ + (if description is Some {
        description->0@
    } else {
        Seq::<char>::empty()
    })
}

/// The text a project's embedding is computed from: title and
/// description joined by a space, then trimmed.
pub fn project_embed_text(title: &String, description: &Option<String>) -> (r: String)
    ensures
        r@ == trim_of(spec_project_text(title@, *description)),
{
    let mut s = title.clone();
    s.append(" ");
    match description {
        Some(d) => {
            s.append(d.as_str());
        },
        None => {
            proof {
                assert(s@ =~= spec_project_text(title@, *description));
            }
        },
    }
    proof {
        assert(s@ =~= spec_project_text(title@, *description));
    }
    trim_owned(s.as_str())
}

/// The text a re-embedding pass computes for a project: the same join,
/// left untrimmed as that pass leaves it.
pub fn reform_project_text(title: &String, description: &Option<String>) -> (r: String)
    ensures
        r@ == spec_project_text(title@, *description),
{
    let mut s = title.clone();
    s.append(" ");
    match description {
        Some(d) => {
            s.append(d.as_str());
        },
        None => (),
    }
    proof {
        assert(s@ =~= spec_project_text(title@, *description));
    }
    s
}

} // verus!
