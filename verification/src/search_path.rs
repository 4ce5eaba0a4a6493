//! The library search path of the process, and how a staging directory is
//! put on it.

use crate::paths::text_of;
use crate::platform::Platform;
use vstd::prelude::*;
use vstd::string::StringExecFns;

verus! {

/// The search path `existing` with `dir` as its new last entry. What was on
/// the path stays as it was, entry for entry; a path that was not set
/// counts as the empty one.
pub open spec fn appended(platform: Platform, existing: Option<Seq<char>>, dir: Seq<char>) -> Seq<
    char,
> {
    let before = match existing {
        Some(p) => p,
        None => Seq::empty(),
    };
    before + seq![platform.list_separator()] + dir
}

/// Appending keeps the order: the new search path begins with the old
/// one, unchanged, goes on with one separator, and ends with the new
/// entry. Nothing is moved, and nothing is left out because it is on the
/// path already.
pub proof fn append_keeps_order(platform: Platform, existing: Seq<char>, dir: Seq<char>)
    ensures
        ({
            let path = appended(platform, Some(existing), dir);
            &&& path.len() == existing.len() + 1 + dir.len()
            &&& path.subrange(0, existing.len() as int) == existing
            &&& path[existing.len() as int] == platform.list_separator()
            &&& path.subrange(existing.len() as int + 1, path.len() as int) == dir
        }),
{
    let path = appended(platform, Some(existing), dir);
    assert(path.subrange(0, existing.len() as int) =~= existing);
    assert(path.subrange(existing.len() as int + 1, path.len() as int) =~= dir);
}

impl Platform {
    /// The separator of the entries of the search path, as a string of one
    /// character.
    pub fn list_separator_str(self) -> (s: &'static str)
        ensures
            s@ == seq![self.list_separator()],
    {
        proof {
            reveal_strlit(";");
            reveal_strlit(":");
        }
        match self {
            Platform::Windows => {
                assert(";"@ =~= seq![';']);
                ";"
            },
            _ => {
                assert(":"@ =~= seq![':']);
                ":"
            },
        }
    }
}

/// Puts `dir` at the end of the search path `existing`.
pub fn append_search_path(platform: Platform, existing: Option<String>, dir: &str) -> (path:
    String)
    ensures
        path@ == appended(platform, text_of(existing), dir@),
{
    let mut path = match existing {
        Some(p) => p,
        None => String::new(),
    };
    path.append(platform.list_separator_str());
    path.append(dir);
    path
}

} // verus!
