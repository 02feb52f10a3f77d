//! The file system by inode number: the calls on it and the replies.

use crate::fs::types::{FsError, Stats};
use crate::plan;
use crate::text;
use vstd::prelude::*;

verus! {

/// The kinds of input and output errors that are told apart.
#[derive(Debug, Clone, Copy, PartialEq, Eq, Structural)]
pub enum IoKind {
    NotFound,
    PermissionDenied,
    AlreadyExists,
    InvalidInput,
    StorageFull,
    Other,
}

/// How a call on the file system fails.
#[derive(Debug, Clone, Copy, PartialEq, Eq, Structural)]
pub enum SdkError {
    Fs(FsError),
    Io(IoKind),
    ConnectionPoolTimeout,
    Other,
}

/// Statistics, with the number of the device that a device file stands for.
#[derive(Debug, Clone, Copy, PartialEq, Eq, Structural)]
pub struct NodeStats {
    pub stats: Stats,
    pub rdev: u64,
}

/// A change of a time: none, or a point in time in seconds and nanoseconds.
#[derive(Debug, Clone, Copy, PartialEq, Eq, Structural)]
pub enum TimeChange {
    Omit,
    At(i64, u32),
}

/// An open file: the one that was opened last, or the one with a handle.
#[derive(Debug, Clone, Copy, PartialEq, Eq, Structural)]
pub enum FileRef {
    Opened,
    Handle(u64),
}

/// A call. Text and bytes are `String` and `Vec<u8>` in code, and sequences in
/// specifications.
#[derive(Debug)]
pub enum NodeCall<S, B> {
    Lookup { parent: i64, name: S },
    Getattr { ino: i64 },
    Chmod { ino: i64, mode: u32 },
    Chown { ino: i64, uid: Option<u32>, gid: Option<u32> },
    Utimens { ino: i64, atime: TimeChange, mtime: TimeChange },
    Open { ino: i64 },
    Truncate { file: FileRef, size: u64 },
    Pread { file: FileRef, offset: u64, size: u64 },
    Pwrite { file: FileRef, offset: u64, data: B },
    Fstat { file: FileRef },
    Fsync { file: FileRef },
    CreateFile { parent: i64, name: S, mode: u32, uid: u32, gid: u32 },
    Mkdir { parent: i64, name: S, mode: Option<u32>, uid: u32, gid: u32 },
    Mknod { parent: i64, name: S, mode: u32, rdev: u64, uid: u32, gid: u32 },
    Symlink { parent: i64, name: S, target: S, uid: u32, gid: u32 },
    Rmdir { parent: i64, name: S },
    Unlink { parent: i64, name: S },
    Rename { parent: i64, name: S, newparent: i64, newname: S },
    ReaddirPlus { ino: i64 },
    Readlink { ino: i64 },
    Statfs,
}

pub type NodeCallView = NodeCall<Seq<char>, Seq<u8>>;

pub type NodeRequest = NodeCall<String, Vec<u8>>;

impl View for NodeCall<String, Vec<u8>> {
    type V = NodeCallView;

    open spec fn view(&self) -> NodeCallView {
        match self {
            NodeCall::Lookup { parent, name } => NodeCall::Lookup { parent: *parent, name: name@ },
            NodeCall::Getattr { ino } => NodeCall::Getattr { ino: *ino },
            NodeCall::Chmod { ino, mode } => NodeCall::Chmod { ino: *ino, mode: *mode },
            NodeCall::Chown { ino, uid, gid } => NodeCall::Chown {
                ino: *ino,
                uid: *uid,
                gid: *gid,
            },
            NodeCall::Utimens { ino, atime, mtime } => NodeCall::Utimens {
                ino: *ino,
                atime: *atime,
                mtime: *mtime,
            },
            NodeCall::Open { ino } => NodeCall::Open { ino: *ino },
            NodeCall::Truncate { file, size } => NodeCall::Truncate { file: *file, size: *size },
            NodeCall::Pread { file, offset, size } => NodeCall::Pread {
                file: *file,
                offset: *offset,
                size: *size,
            },
            NodeCall::Pwrite { file, offset, data } => NodeCall::Pwrite {
                file: *file,
                offset: *offset,
                data: data@,
            },
            NodeCall::Fstat { file } => NodeCall::Fstat { file: *file },
            NodeCall::Fsync { file } => NodeCall::Fsync { file: *file },
            NodeCall::CreateFile { parent, name, mode, uid, gid } => NodeCall::CreateFile {
                parent: *parent,
                name: name@,
                mode: *mode,
                uid: *uid,
                gid: *gid,
            },
            NodeCall::Mkdir { parent, name, mode, uid, gid } => NodeCall::Mkdir {
                parent: *parent,
                name: name@,
                mode: *mode,
                uid: *uid,
                gid: *gid,
            },
            NodeCall::Mknod { parent, name, mode, rdev, uid, gid } => NodeCall::Mknod {
                parent: *parent,
                name: name@,
                mode: *mode,
                rdev: *rdev,
                uid: *uid,
                gid: *gid,
            },
            NodeCall::Symlink { parent, name, target, uid, gid } => NodeCall::Symlink {
                parent: *parent,
                name: name@,
                target: target@,
                uid: *uid,
                gid: *gid,
            },
            NodeCall::Rmdir { parent, name } => NodeCall::Rmdir { parent: *parent, name: name@ },
            NodeCall::Unlink { parent, name } => NodeCall::Unlink { parent: *parent, name: name@ },
            NodeCall::Rename { parent, name, newparent, newname } => NodeCall::Rename {
                parent: *parent,
                name: name@,
                newparent: *newparent,
                newname: newname@,
            },
            NodeCall::ReaddirPlus { ino } => NodeCall::ReaddirPlus { ino: *ino },
            NodeCall::Readlink { ino } => NodeCall::Readlink { ino: *ino },
            NodeCall::Statfs => NodeCall::Statfs,
        }
    }
}

/// An entry of a directory with its statistics.
#[derive(Debug)]
pub struct NodeEntry<S> {
    pub name: S,
    pub node: NodeStats,
}

pub type NodeEntryView = NodeEntry<Seq<char>>;

impl View for NodeEntry<String> {
    type V = NodeEntryView;

    open spec fn view(&self) -> NodeEntryView {
        NodeEntry { name: self.name@, node: self.node }
    }
}

/// A reply to a call.
#[derive(Debug)]
pub enum NodeReply<S, B, E> {
    Failed(SdkError),
    Done,
    Stats(Option<NodeStats>),
    Entries(Option<E>),
    Bytes(B),
    Target(Option<S>),
    Usage { inodes: u64, bytes_used: u64 },
}

pub type NodeReplyView = NodeReply<Seq<char>, Seq<u8>, Seq<NodeEntryView>>;

pub type NodeResponse = NodeReply<String, Vec<u8>, Vec<NodeEntry<String>>>;

impl View for NodeReply<String, Vec<u8>, Vec<NodeEntry<String>>> {
    type V = NodeReplyView;

    open spec fn view(&self) -> NodeReplyView {
        match self {
            NodeReply::Failed(e) => NodeReply::Failed(*e),
            NodeReply::Done => NodeReply::Done,
            NodeReply::Stats(s) => NodeReply::Stats(*s),
            NodeReply::Entries(Some(e)) => NodeReply::Entries(Some(plan::views(e@))),
            NodeReply::Entries(None) => NodeReply::Entries(None),
            NodeReply::Bytes(b) => NodeReply::Bytes(b@),
            NodeReply::Target(t) => NodeReply::Target(text::opt(*t)),
            NodeReply::Usage { inodes, bytes_used } => NodeReply::Usage {
                inodes: *inodes,
                bytes_used: *bytes_used,
            },
        }
    }
}

/// A reply as statistics that may be missing. A reply of another kind counts as
/// a failure.
pub open spec fn stats_reply(r: NodeReplyView) -> Result<Option<NodeStats>, SdkError> {
    match r {
        NodeReply::Failed(e) => Err(e),
        NodeReply::Stats(s) => Ok(s),
        _ => Err(SdkError::Other),
    }
}

/// A reply as statistics of something that is there.
pub open spec fn made_reply(r: NodeReplyView) -> Result<NodeStats, SdkError> {
    match r {
        NodeReply::Failed(e) => Err(e),
        NodeReply::Stats(Some(s)) => Ok(s),
        _ => Err(SdkError::Other),
    }
}

/// A reply as success or failure.
pub open spec fn unit_reply(r: NodeReplyView) -> Result<(), SdkError> {
    match r {
        NodeReply::Failed(e) => Err(e),
        _ => Ok(()),
    }
}

impl NodeReply<String, Vec<u8>, Vec<NodeEntry<String>>> {
    /// This reply as statistics that may be missing.
    pub fn stats(&self) -> (r: Result<Option<NodeStats>, SdkError>)
        ensures
            r == stats_reply(self@),
    {
        match self {
            NodeReply::Failed(e) => Err(*e),
            NodeReply::Stats(s) => Ok(*s),
            _ => Err(SdkError::Other),
        }
    }

    /// This reply as statistics of something that is there.
    pub fn made(&self) -> (r: Result<NodeStats, SdkError>)
        ensures
            r == made_reply(self@),
    {
        match self {
            NodeReply::Failed(e) => Err(*e),
            NodeReply::Stats(Some(s)) => Ok(*s),
            _ => Err(SdkError::Other),
        }
    }

    /// This reply as success or failure.
    pub fn unit(&self) -> (r: Result<(), SdkError>)
        ensures
            r == unit_reply(self@),
    {
        match self {
            NodeReply::Failed(e) => Err(*e),
            _ => Ok(()),
        }
    }
}

} // verus!
