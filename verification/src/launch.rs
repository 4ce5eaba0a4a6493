//! What the launcher decides before the UI engine starts: whether to let
//! go of the console, and how the two embedded bundles are staged.

use crate::embedded::{mirror, mirrored, MAX_DEPTH};
use crate::paths::text_of;
use crate::platform::{Group, Platform};
use crate::staging::{Staging, StagingView};
use include_dir::Dir;
use vstd::prelude::*;

verus! {

/// The name of the variable that holds the library search path.
pub fn search_path_variable() -> (name: &'static str)
    ensures
        name@ == "PATH"@,
{
    "PATH"
}

/// The name of the variable by which the user keeps the console.
pub fn console_variable() -> (name: &'static str)
    ensures
        name@ == "NO_CONSOLE_DETATCH"@,
{
    "NO_CONSOLE_DETATCH"
}

/// Whether the value `flag` of the console variable asks to keep the
/// console: it does where it holds a `y`, in either case, or a `1`.
pub open spec fn keeps_console(flag: Seq<char>) -> bool {
    exists|i: int| 0 <= i < flag.len() && (flag[i] == 'y' || flag[i] == 'Y' || flag[i] == '1')
}

/// Decides whether the value `flag` of the console variable asks to keep
/// the console.
pub fn asks_to_keep_console(flag: &str) -> (keep: bool)
    ensures
        keep == keeps_console(flag@),
{
    let n = flag.unicode_len();
    let mut i: usize = 0;
    while i < n
        invariant
            n == flag@.len(),
            i <= n,
            forall|j: int| 0 <= j < i ==> !(flag@[j] == 'y' || flag@[j] == 'Y' || flag@[j] == '1'),
        decreases n - i,
    {
        let c = flag.get_char(i);
        if c == 'y' || c == 'Y' || c == '1' {
            return true;
        }
        i = i + 1;
    }
    false
}

/// Decides whether the launcher looks into letting go of the console: on
/// Windows only, and not where the console variable is set and asks to
/// keep it.
pub fn hide_console_on_windows(platform: Platform, flag: Option<String>) -> (look: bool)
    ensures
        look == (platform == Platform::Windows && !(flag matches Some(f) && keeps_console(f@))),
{
    match platform {
        Platform::Windows => match flag {
            Some(f) => !asks_to_keep_console(f.as_str()),
            None => true,
        },
        _ => false,
    }
}

/// Decides whether the console is let go of, from the number of processes
/// that are attached to it: where this process is the only one, the
/// console was opened for it and is of no use.
pub fn console_is_own(processes: u32) -> (own: bool)
    ensures
        own == (processes == 1),
{
    processes == 1
}

/// Begins the staging of the embedded library bundle. Once it is staged,
/// its directory is put at the end of the search path.
///
/// `temp` is the value of the variable that `platform.temp_variable()`
/// names, `search_path` that of the variable `search_path_variable()`;
/// `cwd` is the working directory.
pub fn load_sciter_lib(
    platform: Platform,
    temp: Option<String>,
    cwd: &str,
    search_path: Option<String>,
    data: &Dir<'_>,
) -> (staging: Staging)
    ensures
        staging@ == StagingView::begin(
            platform,
            Group::Library,
            text_of(temp),
            cwd@,
            text_of(search_path),
            mirrored(*data, MAX_DEPTH as nat),
        ),
        staging@.wf(),
{
    let table = mirror(data, MAX_DEPTH);
    Staging::new(platform, Group::Library, temp, cwd, search_path, &table)
}

/// Begins the staging of the embedded document bundle. The search path is
/// left alone.
///
/// `temp` is the value of the variable that `platform.temp_variable()`
/// names; `cwd` is the working directory.
pub fn load_sciter_www(
    platform: Platform,
    temp: Option<String>,
    cwd: &str,
    data: &Dir<'_>,
) -> (staging: Staging)
    ensures
        staging@ == StagingView::begin(
            platform,
            Group::Documents,
            text_of(temp),
            cwd@,
            None,
            mirrored(*data, MAX_DEPTH as nat),
        ),
        staging@.wf(),
{
    let table = mirror(data, MAX_DEPTH);
    Staging::new(platform, Group::Documents, temp, cwd, None, &table)
}

} // verus!
