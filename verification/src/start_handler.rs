//! The description of a file offered for transfer, which a receiver may be
//! shown before it accepts.
use vstd::prelude::*;

verus! {

#[verifier::external_type_specification]
#[verifier::external_body]
pub struct ExPathBuf(std::path::PathBuf);

/// What kind of file system entry a path names.
#[derive(Debug, Clone, Copy, PartialEq, Eq, Structural)]
pub enum FileKind {
    File,
    Symlink,
    Dir,
    Other,
}

impl FileKind {
    /// The kind of an entry from the three tests of its file type; a directory
    /// is a directory first, then a file, then a symbolic link.
    pub fn from_type(is_dir: bool, is_file: bool, is_symlink: bool) -> (r: Self)
        ensures
            r == (if is_dir {
                FileKind::Dir
            } else if is_file {
                FileKind::File
            } else if is_symlink {
                FileKind::Symlink
            } else {
                FileKind::Other
            }),
    {
        if is_dir {
            FileKind::Dir
        } else if is_file {
            FileKind::File
        } else if is_symlink {
            FileKind::Symlink
        } else {
            FileKind::Other
        }
    }

    /// The number that stands for the kind.
    pub open spec fn spec_code(self) -> u8 {
        match self {
            FileKind::File => 1,
            FileKind::Symlink => 2,
            FileKind::Dir => 3,
            FileKind::Other => 4,
        }
    }

    /// The number that stands for the kind.
    #[verifier::when_used_as_spec(spec_code)]
    pub fn code(self) -> (r: u8)
        ensures
            r == self.spec_code(),
    {
        match self {
            FileKind::File => 1,
            FileKind::Symlink => 2,
            FileKind::Dir => 3,
            FileKind::Other => 4,
        }
    }
}

/// [`FileInfo`] describes a file offered for transfer, to ask whether the user
/// wants to receive it.
pub struct FileInfo {
    name: String,
    path: std::path::PathBuf,
    kind: FileKind,
    size: u64,
}

impl FileInfo {
    pub closed spec fn spec_name(&self) -> Seq<char> {
        self.name@
    }

    pub closed spec fn spec_path(&self) -> std::path::PathBuf {
        self.path
    }

    pub closed spec fn spec_kind(&self) -> FileKind {
        self.kind
    }

    pub closed spec fn spec_size(&self) -> u64 {
        self.size
    }

    pub fn new(name: String, path: std::path::PathBuf, size: u64, kind: FileKind) -> (r: Self)
        ensures
            r.spec_name() == name@,
            r.spec_path() == path,
            r.spec_size() == size,
            r.spec_kind() == kind,
    {
        FileInfo { name, path, size, kind }
    }

    pub fn name(&self) -> (r: &str)
        ensures
            r@ == self.spec_name(),
    {
        self.name.as_str()
    }

    pub fn path(&self) -> (r: &std::path::PathBuf)
        ensures
            *r == self.spec_path(),
    {
        &self.path
    }

    pub fn kind(&self) -> (r: u8)
        ensures
            r == self.spec_kind().spec_code(),
    {
        self.kind.code()
    }

    pub fn size(&self) -> (r: u64)
        ensures
            r == self.spec_size(),
    {
        self.size
    }
}

} // verus!
