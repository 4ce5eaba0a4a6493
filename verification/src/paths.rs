//! Where a bundle is staged, and how the paths below that place are formed.

use crate::platform::{Group, Platform};
use vstd::prelude::*;
use vstd::string::StringExecFns;

verus! {

/// The view of an optional string.
pub open spec fn text_of(value: Option<String>) -> Option<Seq<char>> {
    match value {
        Some(s) => Some(s@),
        None => None,
    }
}

/// The relative path `rel` below `base`: the two are put together with
/// the platform's separator between them, which is left out where `base`
/// is empty or ends in a separator already.
pub open spec fn joined(platform: Platform, base: Seq<char>, rel: Seq<char>) -> Seq<char> {
    if base.len() == 0 || platform.is_separator(base.last()) {
        base + rel
    } else {
        base + seq![platform.separator()] + rel
    }
}

/// What is put below `base` lies below `base`, and two paths below one
/// `base` are the same only where they were the same before.
pub proof fn joined_is_faithful(platform: Platform, base: Seq<char>, a: Seq<char>, b: Seq<char>)
    ensures
        joined(platform, base, a).len() >= base.len(),
        joined(platform, base, a).subrange(0, base.len() as int) == base,
        joined(platform, base, a) == joined(platform, base, b) ==> a == b,
{
    let ja = joined(platform, base, a);
    let jb = joined(platform, base, b);
    assert(ja.subrange(0, base.len() as int) =~= base);
    if ja == jb {
        let head = ja.len() - a.len();
        assert(ja.subrange(head, ja.len() as int) =~= a);
        assert(jb.subrange(head, jb.len() as int) =~= b);
    }
}

/// The name of the staging directory of `group`, without what it lies in.
pub open spec fn staging_name(group: Group) -> Seq<char> {
    "hcomms_"@ + group.name()
}

/// The staging directory of `group`.
///
/// On Windows and macOS it lies in the temporary directory that the
/// environment names, or in the working directory `cwd` where it names
/// none; on the other platforms its place is fixed.
pub open spec fn staging_dir_of(
    platform: Platform,
    group: Group,
    temp: Option<Seq<char>>,
    cwd: Seq<char>,
) -> Seq<char> {
    let base = match temp {
        Some(t) => t,
        None => cwd,
    };
    match platform {
        Platform::Linux => "/tmp/"@ + staging_name(group) + "/"@,
        _ => joined(platform, base, staging_name(group)),
    }
}

/// Whether `path` lies at or below `root`: it begins with `root`.
pub open spec fn lies_below(path: Seq<char>, root: Seq<char>) -> bool {
    path.len() >= root.len() && path.subrange(0, root.len() as int) == root
}

/// The staging directory lies below the directory that it is resolved
/// from, so it is absolute wherever that directory is: below the temporary
/// directory where the environment names one, below the working directory
/// where it names none, and below `/tmp/` on the other platforms.
pub proof fn staging_dir_lies_below_its_base(
    platform: Platform,
    group: Group,
    temp: Option<Seq<char>>,
    cwd: Seq<char>,
)
    ensures
        platform != Platform::Linux && temp is Some ==> lies_below(
            staging_dir_of(platform, group, temp, cwd),
            temp->0,
        ),
        platform != Platform::Linux && temp is None ==> lies_below(
            staging_dir_of(platform, group, temp, cwd),
            cwd,
        ),
        platform == Platform::Linux ==> lies_below(
            staging_dir_of(platform, group, temp, cwd),
            "/tmp/"@,
        ),
{
    let dir = staging_dir_of(platform, group, temp, cwd);
    if platform == Platform::Linux {
        assert(dir.subrange(0, "/tmp/"@.len() as int) =~= "/tmp/"@);
    } else {
        let base = match temp {
            Some(t) => t,
            None => cwd,
        };
        joined_is_faithful(platform, base, staging_name(group), staging_name(group));
    }
}

/// The document that the UI engine is started on, below the staging
/// directory of the documents.
pub open spec fn entry_document_of(platform: Platform, dir: Seq<char>) -> Seq<char> {
    joined(platform, dir, "index.html"@)
}

impl Platform {
    /// The separator of directory names, as a string of one character.
    pub fn separator_str(self) -> (s: &'static str)
        ensures
            s@ == seq![self.separator()],
    {
        proof {
            reveal_strlit("\\");
            reveal_strlit("/");
        }
        match self {
            Platform::Windows => {
                assert("\\"@ =~= seq!['\\']);
                "\\"
            },
            _ => {
                assert("/"@ =~= seq!['/']);
                "/"
            },
        }
    }

    /// Whether `c` separates directory names on this platform.
    pub fn separates(self, c: char) -> (b: bool)
        ensures
            b == self.is_separator(c),
    {
        match self {
            Platform::Windows => c == '/' || c == '\\',
            _ => c == '/',
        }
    }
}

/// Puts the relative path `rel` below `base`.
pub fn join(platform: Platform, base: &str, rel: &str) -> (path: String)
    ensures
        path@ == joined(platform, base@, rel@),
{
    let n = base.unicode_len();
    let mut path = String::from_str(base);
    if n > 0 && !platform.separates(base.get_char(n - 1)) {
        path.append(platform.separator_str());
    }
    path.append(rel);
    path
}

/// Computes the staging directory of `group` from the value of the
/// platform's temporary-directory variable and the working directory.
pub fn staging_dir(platform: Platform, group: Group, temp: Option<String>, cwd: &str) -> (dir:
    String)
    ensures
        dir@ == staging_dir_of(platform, group, text_of(temp), cwd@),
{
    let mut name = String::from_str("hcomms_");
    name.append(group.dir_name());
    match platform {
        Platform::Linux => {
            let mut dir = String::from_str("/tmp/");
            dir.append(name.as_str());
            dir.append("/");
            dir
        },
        _ => match temp {
            Some(t) => join(platform, t.as_str(), name.as_str()),
            None => join(platform, cwd, name.as_str()),
        },
    }
}

/// The path of the document that the UI engine is started on.
pub fn entry_document(platform: Platform, dir: &str) -> (path: String)
    ensures
        path@ == entry_document_of(platform, dir@),
{
    join(platform, dir, "index.html")
}

} // verus!
