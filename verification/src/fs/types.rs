//! File statistics and the errors of the file system.

use crate::errno;
use crate::errno::Errno;
use vstd::prelude::*;

verus! {

/// The bits of a mode that hold the type of a file.
pub const S_IFMT: u32 = 0o170000;

/// A regular file.
pub const S_IFREG: u32 = 0o100000;

/// A directory.
pub const S_IFDIR: u32 = 0o040000;

/// A symbolic link.
pub const S_IFLNK: u32 = 0o120000;

/// A named pipe.
pub const S_IFIFO: u32 = 0o010000;

/// A character device.
pub const S_IFCHR: u32 = 0o020000;

/// A block device.
pub const S_IFBLK: u32 = 0o060000;

/// A socket.
pub const S_IFSOCK: u32 = 0o140000;

/// The mode of a new file: regular, `rw-r--r--`.
pub const DEFAULT_FILE_MODE: u32 = 0o100644;

/// The mode of a new directory: `rwxr-xr-x`.
pub const DEFAULT_DIR_MODE: u32 = 0o040755;

/// The mode of a symbolic link: `rwxrwxrwx`.
pub const SYMLINK_MODE: u32 = 0o120777;

/// The inode of the root directory.
pub const ROOT_INO: i64 = 1;

/// How many symbolic links are followed one after the other.
pub const MAX_SYMLINK_DEPTH: usize = 40;

/// The errors of the file system that have a number.
#[derive(Debug, Clone, Copy, PartialEq, Eq, Structural)]
pub enum FsError {
    NotFound,
    AlreadyExists,
    NotEmpty,
    NotADirectory,
    IsADirectory,
    NotASymlink,
    InvalidPath,
    RootOperation,
    SymlinkLoop,
    InvalidRename,
    NameTooLong,
}

pub open spec fn errno_of(e: FsError) -> Errno {
    match e {
        FsError::NotFound => Errno::NoEntry,
        FsError::AlreadyExists => Errno::Exists,
        FsError::NotEmpty => Errno::NotEmpty,
        FsError::NotADirectory => Errno::NotDirectory,
        FsError::IsADirectory => Errno::IsDirectory,
        FsError::NotASymlink => Errno::Invalid,
        FsError::InvalidPath => Errno::Invalid,
        FsError::RootOperation => Errno::Perm,
        FsError::SymlinkLoop => Errno::Loop,
        FsError::InvalidRename => Errno::Invalid,
        FsError::NameTooLong => Errno::NameTooLong,
    }
}

pub open spec fn fs_error_message(e: FsError) -> Seq<char> {
    match e {
        FsError::NotFound => "Path does not exist"@,
        FsError::AlreadyExists => "Path already exists"@,
        FsError::NotEmpty => "Directory not empty"@,
        FsError::NotADirectory => "Not a directory"@,
        FsError::IsADirectory => "Is a directory"@,
        FsError::NotASymlink => "Not a symbolic link"@,
        FsError::InvalidPath => "Invalid path"@,
        FsError::RootOperation => "Cannot modify root directory"@,
        FsError::SymlinkLoop => "Too many levels of symbolic links"@,
        FsError::InvalidRename => "Cannot rename directory into its own subdirectory"@,
        FsError::NameTooLong => "File name too long"@,
    }
}

impl FsError {
    /// The error of the operating system that this one stands for.
    pub fn errno(&self) -> (r: Errno)
        ensures
            r == errno_of(*self),
    {
        match self {
            FsError::NotFound => Errno::NoEntry,
            FsError::AlreadyExists => Errno::Exists,
            FsError::NotEmpty => Errno::NotEmpty,
            FsError::NotADirectory => Errno::NotDirectory,
            FsError::IsADirectory => Errno::IsDirectory,
            FsError::NotASymlink => Errno::Invalid,
            FsError::InvalidPath => Errno::Invalid,
            FsError::RootOperation => Errno::Perm,
            FsError::SymlinkLoop => Errno::Loop,
            FsError::InvalidRename => Errno::Invalid,
            FsError::NameTooLong => Errno::NameTooLong,
        }
    }

    /// The number of this error.
    pub fn to_errno(&self) -> (r: i32)
        ensures
            r == errno::number(errno_of(*self)),
    {
        self.errno().code()
    }

    /// The message that this error shows.
    pub fn message(&self) -> (r: &'static str)
        ensures
            r@ == fs_error_message(*self),
    {
        match self {
            FsError::NotFound => "Path does not exist",
            FsError::AlreadyExists => "Path already exists",
            FsError::NotEmpty => "Directory not empty",
            FsError::NotADirectory => "Not a directory",
            FsError::IsADirectory => "Is a directory",
            FsError::NotASymlink => "Not a symbolic link",
            FsError::InvalidPath => "Invalid path",
            FsError::RootOperation => "Cannot modify root directory",
            FsError::SymlinkLoop => "Too many levels of symbolic links",
            FsError::InvalidRename => "Cannot rename directory into its own subdirectory",
            FsError::NameTooLong => "File name too long",
        }
    }
}

/// How an operation fails: with one of the numbered errors, or with a plain
/// message.
#[derive(Debug, Clone, Copy)]
pub enum OpError {
    Fs(FsError),
    Message(&'static str),
}

/// What a failure holds.
pub enum OpErrorView {
    Fs(FsError),
    Message(Seq<char>),
}

impl View for OpError {
    type V = OpErrorView;

    open spec fn view(&self) -> OpErrorView {
        match self {
            OpError::Fs(e) => OpErrorView::Fs(*e),
            OpError::Message(m) => OpErrorView::Message(m@),
        }
    }
}

impl OpError {
    /// The message that this failure shows.
    pub fn to_string(&self) -> (r: String)
        ensures
            r@ == match self@ {
                OpErrorView::Fs(e) => fs_error_message(e),
                OpErrorView::Message(m) => m,
            },
    {
        match self {
            OpError::Fs(e) => e.message().to_owned(),
            OpError::Message(m) => (*m).to_owned(),
        }
    }
}

/// File statistics.
#[derive(Debug, Clone, Copy, PartialEq, Eq, Structural)]
pub struct Stats {
    pub ino: i64,
    pub mode: u32,
    pub nlink: u32,
    pub uid: u32,
    pub gid: u32,
    pub size: i64,
    pub atime: i64,
    pub mtime: i64,
    pub ctime: i64,
}

/// Whether `mode` is that of a regular file.
pub open spec fn file_mode(mode: u32) -> bool {
    mode & S_IFMT == S_IFREG
}

/// Whether `mode` is that of a directory.
pub open spec fn dir_mode(mode: u32) -> bool {
    mode & S_IFMT == S_IFDIR
}

/// Whether `mode` is that of a symbolic link.
pub open spec fn link_mode(mode: u32) -> bool {
    mode & S_IFMT == S_IFLNK
}

impl Stats {
    /// Whether these are the statistics of a regular file.
    pub fn is_file(&self) -> (r: bool)
        ensures
            r == file_mode(self.mode),
    {
        (self.mode & S_IFMT) == S_IFREG
    }

    /// Whether these are the statistics of a directory.
    pub fn is_directory(&self) -> (r: bool)
        ensures
            r == dir_mode(self.mode),
    {
        (self.mode & S_IFMT) == S_IFDIR
    }

    /// Whether these are the statistics of a symbolic link.
    pub fn is_symlink(&self) -> (r: bool)
        ensures
            r == link_mode(self.mode),
    {
        (self.mode & S_IFMT) == S_IFLNK
    }
}

/// No mode is of two types.
pub proof fn law_file_types_exclude_each_other(mode: u32)
    ensures
        !(file_mode(mode) && dir_mode(mode)),
        !(file_mode(mode) && link_mode(mode)),
        !(dir_mode(mode) && link_mode(mode)),
{
}

/// The modes of new files, directories and links are of their types.
pub proof fn law_default_modes()
    ensures
        file_mode(DEFAULT_FILE_MODE),
        dir_mode(DEFAULT_DIR_MODE),
        link_mode(SYMLINK_MODE),
{
    assert(0o100644u32 & 0o170000u32 == 0o100000u32) by (bit_vector);
    assert(0o040755u32 & 0o170000u32 == 0o040000u32) by (bit_vector);
    assert(0o120777u32 & 0o170000u32 == 0o120000u32) by (bit_vector);
}

} // verus!
