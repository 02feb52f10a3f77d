//! What the handlers ask of the file system, and what they answer the kernel.

use crate::arith;
use crate::errno::Errno;
use crate::fs::types;
use crate::fs::types::{FsError, Stats};
use crate::plan;
use crate::text;
use vstd::prelude::*;

verus! {

/// A call on the file system, by path, or on an open file, by handle. Text and
/// bytes are `String` and `Vec<u8>` in code, and sequences in specifications.
#[derive(Debug)]
pub enum FsCall<S, B> {
    Lstat { path: S },
    Stat { path: S },
    Readlink { path: S },
    Readdir { path: S },
    ReaddirPlus { path: S },
    Mkdir { path: S },
    Remove { path: S },
    WriteFile { path: S, data: B },
    Symlink { target: S, path: S },
    Rename { from: S, to: S },
    Open { path: S },
    /// Sets the size of the file that was opened last.
    TruncateOpened { size: u64 },
    Truncate { fh: u64, size: u64 },
    Pread { fh: u64, offset: u64, size: u64 },
    Pwrite { fh: u64, offset: u64, data: B },
    Fsync { fh: u64 },
    Statfs,
}

pub type FsCallView = FsCall<Seq<char>, Seq<u8>>;

pub type FsRequest = FsCall<String, Vec<u8>>;

impl View for FsCall<String, Vec<u8>> {
    type V = FsCallView;

    open spec fn view(&self) -> FsCallView {
        match self {
            FsCall::Lstat { path } => FsCall::Lstat { path: path@ },
            FsCall::Stat { path } => FsCall::Stat { path: path@ },
            FsCall::Readlink { path } => FsCall::Readlink { path: path@ },
            FsCall::Readdir { path } => FsCall::Readdir { path: path@ },
            FsCall::ReaddirPlus { path } => FsCall::ReaddirPlus { path: path@ },
            FsCall::Mkdir { path } => FsCall::Mkdir { path: path@ },
            FsCall::Remove { path } => FsCall::Remove { path: path@ },
            FsCall::WriteFile { path, data } => FsCall::WriteFile { path: path@, data: data@ },
            FsCall::Symlink { target, path } => FsCall::Symlink { target: target@, path: path@ },
            FsCall::Rename { from, to } => FsCall::Rename { from: from@, to: to@ },
            FsCall::Open { path } => FsCall::Open { path: path@ },
            FsCall::TruncateOpened { size } => FsCall::TruncateOpened { size: *size },
            FsCall::Truncate { fh, size } => FsCall::Truncate { fh: *fh, size: *size },
            FsCall::Pread { fh, offset, size } => FsCall::Pread {
                fh: *fh,
                offset: *offset,
                size: *size,
            },
            FsCall::Pwrite { fh, offset, data } => FsCall::Pwrite {
                fh: *fh,
                offset: *offset,
                data: data@,
            },
            FsCall::Fsync { fh } => FsCall::Fsync { fh: *fh },
            FsCall::Statfs => FsCall::Statfs,
        }
    }
}

/// An entry of a directory with its statistics.
#[derive(Debug)]
pub struct ListedEntry<S> {
    pub name: S,
    pub stats: Stats,
}

impl View for ListedEntry<String> {
    type V = ListedEntry<Seq<char>>;

    open spec fn view(&self) -> ListedEntry<Seq<char>> {
        ListedEntry { name: self.name@, stats: self.stats }
    }
}

/// A reply to a call. A failure may carry one of the numbered errors.
#[derive(Debug)]
pub enum FsReply<S, B, N, E> {
    Failed(Option<FsError>),
    Done,
    Stats(Option<Stats>),
    Target(Option<S>),
    Names(Option<N>),
    Entries(Option<E>),
    Bytes(B),
    Usage { inodes: u64, bytes_used: u64 },
}

pub type FsReplyView = FsReply<
    Seq<char>,
    Seq<u8>,
    Seq<Seq<char>>,
    Seq<ListedEntry<Seq<char>>>,
>;

pub type FsResponse = FsReply<String, Vec<u8>, Vec<String>, Vec<ListedEntry<String>>>;

impl View for FsReply<String, Vec<u8>, Vec<String>, Vec<ListedEntry<String>>> {
    type V = FsReplyView;

    open spec fn view(&self) -> FsReplyView {
        match self {
            FsReply::Failed(e) => FsReply::Failed(*e),
            FsReply::Done => FsReply::Done,
            FsReply::Stats(s) => FsReply::Stats(*s),
            FsReply::Target(t) => FsReply::Target(text::opt(*t)),
            FsReply::Names(Some(n)) => FsReply::Names(Some(text::views(n@))),
            FsReply::Names(None) => FsReply::Names(None),
            FsReply::Entries(Some(e)) => FsReply::Entries(Some(plan::views(e@))),
            FsReply::Entries(None) => FsReply::Entries(None),
            FsReply::Bytes(b) => FsReply::Bytes(b@),
            FsReply::Usage { inodes, bytes_used } => FsReply::Usage {
                inodes: *inodes,
                bytes_used: *bytes_used,
            },
        }
    }
}

/// A reply as statistics. A reply of another kind counts as a failure.
pub open spec fn stats_reply(r: FsReplyView) -> Result<Option<Stats>, ()> {
    match r {
        FsReply::Stats(s) => Ok(s),
        _ => Err(()),
    }
}

/// A reply as success or failure.
pub open spec fn unit_reply(r: FsReplyView) -> Result<(), Option<FsError>> {
    match r {
        FsReply::Failed(e) => Err(e),
        _ => Ok(()),
    }
}

impl FsReply<String, Vec<u8>, Vec<String>, Vec<ListedEntry<String>>> {
    /// This reply as statistics.
    pub fn stats(&self) -> (r: Result<Option<Stats>, ()>)
        ensures
            r == stats_reply(self@),
    {
        match self {
            FsReply::Stats(s) => Ok(*s),
            _ => Err(()),
        }
    }

    /// This reply as success or failure.
    pub fn unit(&self) -> (r: Result<(), Option<FsError>>)
        ensures
            r == unit_reply(self@),
    {
        match self {
            FsReply::Failed(e) => Err(*e),
            _ => Ok(()),
        }
    }
}

/// The type of a file, as the kernel is told.
#[derive(Debug, Clone, Copy, PartialEq, Eq, Structural)]
pub enum FileType {
    Directory,
    Symlink,
    RegularFile,
}

/// The attributes of a file, as the kernel is told. Times are seconds.
#[derive(Debug, Clone, Copy, PartialEq, Eq, Structural)]
pub struct FileAttr {
    pub ino: u64,
    pub size: u64,
    pub blocks: u64,
    pub atime: u64,
    pub mtime: u64,
    pub ctime: u64,
    pub crtime: u64,
    pub kind: FileType,
    pub perm: u16,
    pub nlink: u32,
    pub uid: u32,
    pub gid: u32,
    pub rdev: u32,
    pub flags: u32,
    pub blksize: u32,
}

/// The type of a file with these statistics.
pub open spec fn kind_of(stats: Stats) -> FileType {
    if types::dir_mode(stats.mode) {
        FileType::Directory
    } else if types::link_mode(stats.mode) {
        FileType::Symlink
    } else {
        FileType::RegularFile
    }
}

/// How many blocks of 512 bytes hold `size` bytes, in the arithmetic of 64 bits.
pub open spec fn blocks_of(size: i64) -> int {
    arith::toward_zero(size.wrapping_add(511) as int, 512)
}

/// The attributes of a file, as the kernel is told: the owner is always the one
/// that the file system was mounted for.
pub open spec fn attr_of(stats: Stats, uid: u32, gid: u32) -> FileAttr {
    FileAttr {
        ino: stats.ino as u64,
        size: stats.size as u64,
        blocks: blocks_of(stats.size) as i64 as u64,
        atime: stats.atime as u64,
        mtime: stats.mtime as u64,
        ctime: stats.ctime as u64,
        crtime: 0,
        kind: kind_of(stats),
        perm: (stats.mode & 0o777) as u16,
        nlink: stats.nlink,
        uid,
        gid,
        rdev: 0,
        flags: 0,
        blksize: 512,
    }
}

/// The type of a file with these statistics.
pub fn file_type(stats: &Stats) -> (r: FileType)
    ensures
        r == kind_of(*stats),
{
    if stats.is_directory() {
        FileType::Directory
    } else if stats.is_symlink() {
        FileType::Symlink
    } else {
        FileType::RegularFile
    }
}

/// How many blocks of 512 bytes hold `size` bytes.
pub fn count_blocks(size: i64) -> (r: i64)
    ensures
        r == blocks_of(size),
{
    arith::divide(size.wrapping_add(511), 512)
}

/// The attributes of a file, as the kernel is told.
pub fn fillattr(stats: &Stats, uid: u32, gid: u32) -> (r: FileAttr)
    ensures
        r == attr_of(*stats, uid, gid),
{
    FileAttr {
        ino: stats.ino as u64,
        size: stats.size as u64,
        blocks: count_blocks(stats.size) as u64,
        atime: stats.atime as u64,
        mtime: stats.mtime as u64,
        ctime: stats.ctime as u64,
        crtime: 0,
        kind: file_type(stats),
        perm: (stats.mode & 0o777) as u16,
        nlink: stats.nlink,
        uid,
        gid,
        rdev: 0,
        flags: 0,
        blksize: 512,
    }
}

/// A line of a directory listing. A reader that has got this far goes on from
/// `offset`.
#[derive(Debug)]
pub struct Dirent<S> {
    pub ino: u64,
    pub offset: i64,
    pub kind: FileType,
    pub name: S,
}

impl View for Dirent<String> {
    type V = Dirent<Seq<char>>;

    open spec fn view(&self) -> Dirent<Seq<char>> {
        Dirent { ino: self.ino, offset: self.offset, kind: self.kind, name: self.name@ }
    }
}

/// A line of a directory listing with attributes. `path` is where the entry
/// lies, to be remembered when the line is handed out.
#[derive(Debug)]
pub struct DirentPlus<S> {
    pub ino: u64,
    pub offset: i64,
    pub name: S,
    pub attr: FileAttr,
    pub path: Option<S>,
}

impl View for DirentPlus<String> {
    type V = DirentPlus<Seq<char>>;

    open spec fn view(&self) -> DirentPlus<Seq<char>> {
        DirentPlus {
            ino: self.ino,
            offset: self.offset,
            name: self.name@,
            attr: self.attr,
            path: text::opt(self.path),
        }
    }
}

/// How much room there is.
#[derive(Debug, Clone, Copy, PartialEq, Eq, Structural)]
pub struct Space {
    pub blocks: u64,
    pub free_blocks: u64,
    pub available_blocks: u64,
    pub files: u64,
    pub free_files: u64,
    pub block_size: u32,
    pub name_length: u32,
    pub fragment_size: u32,
}

/// What the kernel is answered. `Create` and `Open` are completed by the handle
/// under which the opened file is entered.
#[derive(Debug)]
pub enum Answer<S, B, D, P> {
    Error(Errno),
    Done,
    Entry(FileAttr),
    Attr(FileAttr),
    Target(S),
    Data(B),
    Directory(D),
    DirectoryPlus(P),
    Create(FileAttr),
    Open,
    Written(u32),
    Space(Space),
}

pub type AnswerView = Answer<
    Seq<char>,
    Seq<u8>,
    Seq<Dirent<Seq<char>>>,
    Seq<DirentPlus<Seq<char>>>,
>;

pub type KernelAnswer = Answer<String, Vec<u8>, Vec<Dirent<String>>, Vec<DirentPlus<String>>>;

impl View for Answer<String, Vec<u8>, Vec<Dirent<String>>, Vec<DirentPlus<String>>> {
    type V = AnswerView;

    open spec fn view(&self) -> AnswerView {
        match self {
            Answer::Error(e) => Answer::Error(*e),
            Answer::Done => Answer::Done,
            Answer::Entry(a) => Answer::Entry(*a),
            Answer::Attr(a) => Answer::Attr(*a),
            Answer::Target(t) => Answer::Target(t@),
            Answer::Data(b) => Answer::Data(b@),
            Answer::Directory(d) => Answer::Directory(plan::views(d@)),
            Answer::DirectoryPlus(p) => Answer::DirectoryPlus(plan::views(p@)),
            Answer::Create(a) => Answer::Create(*a),
            Answer::Open => Answer::Open,
            Answer::Written(n) => Answer::Written(*n),
            Answer::Space(s) => Answer::Space(*s),
        }
    }
}

/// A change of the table of paths.
#[derive(Debug)]
pub enum Edit<S> {
    Insert { ino: u64, path: S },
    Remove { ino: u64 },
}

impl View for Edit<String> {
    type V = Edit<Seq<char>>;

    open spec fn view(&self) -> Edit<Seq<char>> {
        match self {
            Edit::Insert { ino, path } => Edit::Insert { ino: *ino, path: path@ },
            Edit::Remove { ino } => Edit::Remove { ino: *ino },
        }
    }
}

/// How a request ends: the answer, and what changes in the table of paths.
#[derive(Debug)]
pub struct Outcome<A, E> {
    pub answer: A,
    pub edits: E,
}

pub type OutcomeView = Outcome<AnswerView, Seq<Edit<Seq<char>>>>;

pub type RequestOutcome = Outcome<KernelAnswer, Vec<Edit<String>>>;

impl View for Outcome<KernelAnswer, Vec<Edit<String>>> {
    type V = OutcomeView;

    open spec fn view(&self) -> OutcomeView {
        Outcome { answer: self.answer@, edits: plan::views(self.edits@) }
    }
}

pub open spec fn plain_outcome(answer: AnswerView) -> OutcomeView {
    Outcome { answer, edits: Seq::empty() }
}

pub open spec fn edited_outcome(answer: AnswerView, edit: Edit<Seq<char>>) -> OutcomeView {
    Outcome { answer, edits: seq![edit] }
}

/// An answer without changes of the table.
pub fn simply(answer: KernelAnswer) -> (r: RequestOutcome)
    ensures
        r@ == plain_outcome(answer@),
{
    let edits: Vec<Edit<String>> = Vec::new();
    assert(plan::views(edits@) =~= Seq::<Edit<Seq<char>>>::empty());
    Outcome { answer, edits }
}

/// An answer with one change of the table.
pub fn with_edit(answer: KernelAnswer, edit: Edit<String>) -> (r: RequestOutcome)
    ensures
        r@ == edited_outcome(answer@, edit@),
{
    let mut edits: Vec<Edit<String>> = Vec::new();
    edits.push(edit);
    assert(plan::views(edits@) =~= seq![edit@]);
    Outcome { answer, edits }
}

} // verus!
