//! Directories and files to create.

use crate::unix_path::UnixPath;
use vstd::prelude::*;

verus! {

/// The mode of a private directory: its owner alone.
pub const PRIVATE_DIR_MODE: u32 = 0o700;

/// The mode of a private file: its owner alone, and not executable.
pub const PRIVATE_FILE_MODE: u32 = 0o600;

/// A directory to create.
#[derive(Debug)]
pub struct DirCreation {
    pub path: UnixPath,
    pub mode: u32,
    /// Whether creating it fails where anything is at the path already.
    pub must_be_new: bool,
}

/// What a [`DirCreation`] stands for.
pub struct NewDir {
    pub path: Seq<u8>,
    pub mode: u32,
    pub must_be_new: bool,
}

impl View for DirCreation {
    type V = NewDir;

    open spec fn view(&self) -> NewDir {
        NewDir { path: self.path@, mode: self.mode, must_be_new: self.must_be_new }
    }
}

/// A file to create.
#[derive(Debug)]
pub struct FileCreation {
    pub path: UnixPath,
    pub mode: u32,
    /// Whether creating it fails where anything is at the path already, which is
    /// then left as it is.
    pub must_be_new: bool,
    /// Whether it is open for writing afterwards.
    pub for_writing: bool,
}

/// What a [`FileCreation`] stands for.
pub struct NewFile {
    pub path: Seq<u8>,
    pub mode: u32,
    pub must_be_new: bool,
    pub for_writing: bool,
}

impl View for FileCreation {
    type V = NewFile;

    open spec fn view(&self) -> NewFile {
        NewFile {
            path: self.path@,
            mode: self.mode,
            must_be_new: self.must_be_new,
            for_writing: self.for_writing,
        }
    }
}

/// A new directory, for its owner alone.
pub open spec fn private_dir(path: Seq<u8>) -> NewDir {
    NewDir { path, mode: 0o700, must_be_new: true }
}

/// A new file that is open for writing, for its owner alone.
pub open spec fn private_file(path: Seq<u8>) -> NewFile {
    NewFile { path, mode: 0o600, must_be_new: true, for_writing: true }
}

/// What is created privately is new, at the path that was named, and no one but
/// its owner has any right to it; a directory can be entered, a file cannot be
/// run.
pub proof fn law_private_means_the_owner_alone(path: Seq<u8>)
    ensures
        private_dir(path).path == path,
        private_dir(path).mode == 0o700,
        private_dir(path).must_be_new,
        private_file(path).path == path,
        private_file(path).mode == 0o600,
        private_file(path).must_be_new,
        private_file(path).for_writing,
{
}

/// The creation of a directory for its owner alone. Whatever is at the path
/// already is refused.
pub fn create_remote_private_dir(path: UnixPath) -> (creation: DirCreation)
    ensures
        creation@ == private_dir(path@),
        creation.path@ == path@,
        creation.mode == 0o700,
        creation.must_be_new,
{
    DirCreation { path, mode: PRIVATE_DIR_MODE, must_be_new: true }
}

/// The creation of a file for its owner alone. Whatever is at the path already is
/// refused and left as it is.
pub fn create_private_file(path: UnixPath) -> (creation: FileCreation)
    ensures
        creation@ == private_file(path@),
        creation.path@ == path@,
        creation.mode == 0o600,
        creation.must_be_new,
        creation.for_writing,
{
    FileCreation { path, mode: PRIVATE_FILE_MODE, must_be_new: true, for_writing: true }
}

/// The creation of a connection's configuration file.
pub fn create_remote_ssh_config_file(path: UnixPath) -> (creation: FileCreation)
    ensures
        creation@ == private_file(path@),
        creation.path@ == path@,
        creation.mode == 0o600,
        creation.must_be_new,
        creation.for_writing,
{
    create_private_file(path)
}

} // verus!
