//! Bundles that `include_dir` has baked into the binary, read into the
//! asset table of this library.
//!
//! An embedded directory is opaque here. What it holds is named by the
//! functions without a body below, and the accessors of `include_dir` are
//! taken at their word: each hands out what its name stands for.

use crate::assets::{AssetDir, AssetFile, DirView, FileView};
use include_dir::{Dir, File};
use vstd::prelude::*;
use vstd::slice::slice_to_vec;

verus! {

/// `include_dir::Dir`, a directory baked into the binary. Nothing is known
/// of what is inside a value but what its accessors hand out.
#[verifier::external_type_specification]
#[verifier::external_body]
pub struct ExDir<'a>(include_dir::Dir<'a>);

/// `include_dir::File`, a file baked into the binary. Nothing is known of
/// what is inside a value but what its accessors hand out.
#[verifier::external_type_specification]
#[verifier::external_body]
pub struct ExFile<'a>(include_dir::File<'a>);

/// The path that an embedded directory was baked in with, as text.
pub uninterp spec fn dir_path(dir: Dir<'_>) -> Seq<char>;

/// The files that lie directly in an embedded directory, in their order.
pub uninterp spec fn dir_files(dir: Dir<'_>) -> Seq<File<'_>>;

/// The directories that lie directly in an embedded directory, in their
/// order.
pub uninterp spec fn dir_dirs(dir: Dir<'_>) -> Seq<Dir<'_>>;

/// The path that an embedded file was baked in with, as text.
pub uninterp spec fn file_path(file: File<'_>) -> Seq<char>;

/// The bytes of an embedded file.
pub uninterp spec fn file_contents(file: File<'_>) -> Seq<u8>;

/// `Dir::files` returns the slice of files that the directory holds: the
/// claim is only that this slice is what `dir_files` stands for.
pub assume_specification<'a>[ include_dir::Dir::<'a>::files ](dir: &include_dir::Dir<'a>) -> (files:
    &'a [include_dir::File<'a>])
    ensures
        files@ == dir_files(*dir),
;

/// `Dir::dirs` returns the slice of sub-directories that the directory
/// holds: the claim is only that this slice is what `dir_dirs` stands for.
pub assume_specification<'a>[ include_dir::Dir::<'a>::dirs ](dir: &include_dir::Dir<'a>) -> (dirs:
    &'a [include_dir::Dir<'a>])
    ensures
        dirs@ == dir_dirs(*dir),
;

/// `File::contents` returns the bytes that the file holds: the claim is
/// only that these bytes are what `file_contents` stands for.
pub assume_specification<'a>[ include_dir::File::<'a>::contents ](
    file: &include_dir::File<'a>,
) -> (bytes: &'a [u8])
    ensures
        bytes@ == file_contents(*file),
;

/// `File::path` returns the path that the file holds, which `include_dir`
/// keeps as text: the claim is only that this text is what `file_path`
/// stands for.
#[verifier::external_body]
fn path_of_file(file: &File<'_>) -> (path: String)
    ensures
        path@ == file_path(*file),
{
    file.path().to_string_lossy().into_owned()
}

/// `Dir::path` returns the path that the directory holds, which
/// `include_dir` keeps as text: the claim is only that this text is what
/// `dir_path` stands for.
#[verifier::external_body]
fn path_of_dir(dir: &Dir<'_>) -> (path: String)
    ensures
        path@ == dir_path(*dir),
{
    dir.path().to_string_lossy().into_owned()
}

/// The deepest nesting of sub-directories that is read from an embedded
/// bundle. It is there so that reading ends on every value; no bundle
/// that fits into a binary nests this deep.
pub const MAX_DEPTH: usize = usize::MAX;

/// The entry of the asset table that stands for an embedded file.
pub open spec fn mirrored_file(file: File<'_>) -> FileView {
    FileView { path: file_path(file), contents: file_contents(file) }
}

/// The asset table that stands for an embedded directory, read `depth`
/// levels of sub-directories deep: the directory with its files, and its
/// sub-directories likewise, those that lie deeper than `depth` levels
/// left out.
pub open spec fn mirrored(dir: Dir<'_>, depth: nat) -> DirView
    decreases depth,
{
    DirView {
        path: dir_path(dir),
        files: Seq::new(dir_files(dir).len(), |i: int| mirrored_file(dir_files(dir)[i])),
        dirs: if depth == 0 {
            Seq::empty()
        } else {
            Seq::new(
                dir_dirs(dir).len(),
                |i: int| mirrored(dir_dirs(dir)[i], (depth - 1) as nat),
            )
        },
    }
}

/// Reads an embedded file into an entry of the asset table.
pub fn mirror_file(file: &File<'_>) -> (entry: AssetFile)
    ensures
        entry@ == mirrored_file(*file),
{
    AssetFile { path: path_of_file(file), contents: slice_to_vec(file.contents()) }
}

/// Reads an embedded directory into an asset table, `depth` levels of
/// sub-directories deep.
pub fn mirror(dir: &Dir<'_>, depth: usize) -> (table: AssetDir)
    ensures
        table@ == mirrored(*dir, depth as nat),
    decreases depth,
{
    let embedded_files = dir.files();
    let mut files: Vec<AssetFile> = Vec::new();
    let mut i: usize = 0;
    while i < embedded_files.len()
        invariant
            i <= embedded_files.len(),
            embedded_files@ == dir_files(*dir),
            files.len() == i,
            forall|j: int| 0 <= j < i ==> files[j]@ == mirrored_file(dir_files(*dir)[j]),
        decreases embedded_files.len() - i,
    {
        files.push(mirror_file(&embedded_files[i]));
        i = i + 1;
    }
    let mut dirs: Vec<AssetDir> = Vec::new();
    if depth > 0 {
        let embedded_dirs = dir.dirs();
        let mut k: usize = 0;
        while k < embedded_dirs.len()
            invariant
                depth > 0,
                k <= embedded_dirs.len(),
                embedded_dirs@ == dir_dirs(*dir),
                dirs.len() == k,
                forall|j: int|
                    0 <= j < k ==> dirs[j]@ == mirrored(dir_dirs(*dir)[j], (depth - 1) as nat),
            decreases embedded_dirs.len() - k,
        {
            dirs.push(mirror(&embedded_dirs[k], depth - 1));
            k = k + 1;
        }
    }
    let table = AssetDir { path: path_of_dir(dir), files, dirs };
    proof {
        table.view_unfolds();
        reveal_with_fuel(mirrored, 2);
        assert(table@.files =~= mirrored(*dir, depth as nat).files);
        assert(table@.dirs =~= mirrored(*dir, depth as nat).dirs);
    }
    table
}

} // verus!
