//! The asset table: the files of one bundle with their paths and bytes, and
//! the sub-directories that hold more of them.

use vstd::prelude::*;

verus! {

/// What a bundled file is: its path below the root of the bundle, and its
/// bytes.
pub struct FileView {
    pub path: Seq<char>,
    pub contents: Seq<u8>,
}

/// What a bundled directory is: its path below the root of the bundle, its
/// files, and its sub-directories. The paths of the files and of the
/// sub-directories start at the root of the bundle too, not at this
/// directory.
pub struct DirView {
    pub path: Seq<char>,
    pub files: Seq<FileView>,
    pub dirs: Seq<DirView>,
}

impl DirView {
    /// `file` is a file of this directory, or of a directory at any depth
    /// below it.
    pub open spec fn holds_file(self, file: FileView) -> bool
        decreases self,
    {
        self.files.contains(file) || exists|k: int|
            0 <= k < self.dirs.len() && (#[trigger] self.dirs[k]).holds_file(file)
    }

    /// Files that this directory holds at one path have the same contents.
    /// A bundle read from a directory on disk holds one file at each path.
    pub open spec fn unambiguous(self) -> bool {
        forall|a: FileView, b: FileView|
            #![trigger self.holds_file(a), self.holds_file(b)]
            self.holds_file(a) && self.holds_file(b) && a.path == b.path ==> a.contents
                == b.contents
    }

    /// `dir` is a sub-directory of this directory, at any depth.
    pub open spec fn holds_dir(self, dir: DirView) -> bool
        decreases self,
    {
        exists|k: int|
            0 <= k < self.dirs.len() && ((#[trigger] self.dirs[k]) == dir || self.dirs[k].holds_dir(
                dir,
            ))
    }
}

/// A bundled file.
#[derive(Debug, PartialEq, Eq)]
pub struct AssetFile {
    pub path: String,
    pub contents: Vec<u8>,
}

/// A bundled directory. The paths of its files and of its sub-directories
/// start at the root of the bundle, as its own path does.
#[derive(Debug, PartialEq, Eq)]
pub struct AssetDir {
    pub path: String,
    pub files: Vec<AssetFile>,
    pub dirs: Vec<AssetDir>,
}

impl View for AssetFile {
    type V = FileView;

    open spec fn view(&self) -> FileView {
        FileView { path: self.path@, contents: self.contents@ }
    }
}

impl AssetDir {
    /// What this directory is.
    pub open spec fn model(self) -> DirView
        decreases self,
    {
        DirView {
            path: self.path@,
            files: Seq::new(self.files.len() as nat, |i: int| self.files[i]@),
            dirs: Seq::new(
                self.dirs.len() as nat,
                |i: int|
                    if 0 <= i < self.dirs.len() {
                        self.dirs[i].model()
                    } else {
                        arbitrary()
                    },
            ),
        }
    }

    /// The view of a directory is made of the views of what it holds.
    pub proof fn view_unfolds(self)
        ensures
            self@.path == self.path@,
            self@.files.len() == self.files.len(),
            forall|i: int| 0 <= i < self.files.len() ==> self@.files[i] == self.files[i]@,
            self@.dirs.len() == self.dirs.len(),
            forall|i: int| 0 <= i < self.dirs.len() ==> self@.dirs[i] == self.dirs[i]@,
    {
        reveal_with_fuel(AssetDir::model, 2);
    }
}

impl View for AssetDir {
    type V = DirView;

    open spec fn view(&self) -> DirView {
        self.model()
    }
}

} // verus!
