//! The host platforms, the two asset groups, and the conventions that differ
//! between platforms.

use vstd::prelude::*;

verus! {

/// The operating systems that staging distinguishes.
#[derive(Clone, Copy, Debug, PartialEq, Eq, Structural)]
pub enum Platform {
    Windows,
    MacOs,
    /// Linux and the other Unix-likes.
    Linux,
}

/// The two bundles that are staged independently of each other.
#[derive(Clone, Copy, Debug, PartialEq, Eq, Structural)]
pub enum Group {
    /// The shared libraries that the UI engine loads.
    Library,
    /// The documents that the UI engine renders.
    Documents,
}

impl Group {
    /// The name of the group as it appears in its staging directory.
    pub open spec fn name(self) -> Seq<char> {
        match self {
            Group::Library => "libsciter"@,
            Group::Documents => "www"@,
        }
    }

    /// The name of the group as it appears in its staging directory.
    pub fn dir_name(self) -> (name: &'static str)
        ensures
            name@ == self.name(),
    {
        match self {
            Group::Library => "libsciter",
            Group::Documents => "www",
        }
    }
}

impl Platform {
    /// The character that ends one directory name and starts the next.
    pub open spec fn separator(self) -> char {
        match self {
            Platform::Windows => '\\',
            _ => '/',
        }
    }

    /// Whether `c` separates directory names on this platform. Windows takes
    /// the forward slash as well as its own backslash.
    pub open spec fn is_separator(self, c: char) -> bool {
        c == '/' || (self == Platform::Windows && c == '\\')
    }

    /// The character between two entries of the library search path.
    pub open spec fn list_separator(self) -> char {
        match self {
            Platform::Windows => ';',
            _ => ':',
        }
    }

    /// The environment variable that names the temporary directory, where
    /// the platform has one that staging consults.
    pub open spec fn temp_variable_name(self) -> Option<Seq<char>> {
        match self {
            Platform::Windows => Some("TEMP"@),
            Platform::MacOs => Some("TMPDIR"@),
            Platform::Linux => None,
        }
    }

    /// The environment variable to read before staging, if any.
    pub fn temp_variable(self) -> (name: Option<&'static str>)
        ensures
            match name {
                Some(n) => self.temp_variable_name() == Some(n@),
                None => self.temp_variable_name().is_none(),
            },
    {
        match self {
            Platform::Windows => Some("TEMP"),
            Platform::MacOs => Some("TMPDIR"),
            Platform::Linux => None,
        }
    }
}

} // verus!
