//! The re-embedding pass: which tables it targets. The text each row
//! re-embeds lives with the text assembly.

use vstd::prelude::*;

verus! {

/// What the re-embedding pass walks.
#[derive(Debug, Clone, Copy, PartialEq, Eq, Structural)]
pub enum Target {
    Projects,
    Comments,
    Devlogs,
    All,
}

/// Reads the configured target, already lowercased by the caller:
/// anything unrecognized means everything.
pub fn parse_reembed_target(configured: &String) -> (r: Target)
    ensures
        configured@ == "projects"@ ==> r == Target::Projects,
        configured@ == "comments"@ ==> r == Target::Comments,
        configured@ == "devlogs"@ ==> r == Target::Devlogs,
        configured@ != "projects"@ && configured@ != "comments"@ && configured@ != "devlogs"@
            ==> r == Target::All,
{
    proof {
        reveal_strlit("projects");
        reveal_strlit("comments");
        reveal_strlit("devlogs");
        assert("projects"@ != "comments"@) by {
            assert("projects"@[0] == 'p' && "comments"@[0] == 'c');
        }
        assert("projects"@ != "devlogs"@) by {
            assert("projects"@[0] == 'p' && "devlogs"@[0] == 'd');
        }
        assert("comments"@ != "devlogs"@) by {
            assert("comments"@[0] == 'c' && "devlogs"@[0] == 'd');
        }
    }
    let projects = String::from_str("projects");
    if *configured == projects {
        return Target::Projects;
    }
    let comments = String::from_str("comments");
    if *configured == comments {
        return Target::Comments;
    }
    let devlogs = String::from_str("devlogs");
    if *configured == devlogs {
        return Target::Devlogs;
    }
    Target::All
}

} // verus!
