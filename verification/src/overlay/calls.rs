//! The calls that the overlay makes on its two layers and on the list of
//! whiteouts, and the replies to them.

use crate::fs::types::{FsError, Stats};
use crate::text;
use vstd::prelude::*;

verus! {

/// One of the two layers.
#[derive(Debug, Clone, Copy, PartialEq, Eq, Structural)]
pub enum Layer {
    Delta,
    Base,
}

/// A call. Only the delta is ever asked to change. Text and bytes are `String`
/// and `Vec<u8>` in code, and sequences in specifications.
#[derive(Debug)]
pub enum Call<S, B> {
    /// Whether there is a whiteout for exactly this path.
    HasWhiteout { path: S },
    /// Marks a path as deleted from the base.
    AddWhiteout { path: S, now: i64 },
    /// Takes such a mark back.
    DropWhiteout { path: S },
    /// The whiteouts whose path starts with a prefix.
    WhiteoutsUnder { prefix: S },
    Stat { layer: Layer, path: S },
    Lstat { layer: Layer, path: S },
    ReadFile { layer: Layer, path: S },
    Pread { layer: Layer, path: S, offset: u64, size: u64 },
    Readdir { layer: Layer, path: S },
    Readlink { layer: Layer, path: S },
    Mkdir { path: S },
    WriteFile { path: S, data: B },
    Pwrite { path: S, offset: u64, data: B },
    Truncate { path: S, size: u64 },
    Remove { path: S },
    Rename { from: S, to: S },
    Symlink { target: S, path: S },
    /// How much the delta holds.
    Statfs,
}

pub type CallView = Call<Seq<char>, Seq<u8>>;

pub type LayerCall = Call<String, Vec<u8>>;

impl View for Call<String, Vec<u8>> {
    type V = CallView;

    open spec fn view(&self) -> CallView {
        match self {
            Call::HasWhiteout { path } => Call::HasWhiteout { path: path@ },
            Call::AddWhiteout { path, now } => Call::AddWhiteout { path: path@, now: *now },
            Call::DropWhiteout { path } => Call::DropWhiteout { path: path@ },
            Call::WhiteoutsUnder { prefix } => Call::WhiteoutsUnder { prefix: prefix@ },
            Call::Stat { layer, path } => Call::Stat { layer: *layer, path: path@ },
            Call::Lstat { layer, path } => Call::Lstat { layer: *layer, path: path@ },
            Call::ReadFile { layer, path } => Call::ReadFile { layer: *layer, path: path@ },
            Call::Pread { layer, path, offset, size } => Call::Pread {
                layer: *layer,
                path: path@,
                offset: *offset,
                size: *size,
            },
            Call::Readdir { layer, path } => Call::Readdir { layer: *layer, path: path@ },
            Call::Readlink { layer, path } => Call::Readlink { layer: *layer, path: path@ },
            Call::Mkdir { path } => Call::Mkdir { path: path@ },
            Call::WriteFile { path, data } => Call::WriteFile { path: path@, data: data@ },
            Call::Pwrite { path, offset, data } => Call::Pwrite {
                path: path@,
                offset: *offset,
                data: data@,
            },
            Call::Truncate { path, size } => Call::Truncate { path: path@, size: *size },
            Call::Remove { path } => Call::Remove { path: path@ },
            Call::Rename { from, to } => Call::Rename { from: from@, to: to@ },
            Call::Symlink { target, path } => Call::Symlink { target: target@, path: path@ },
            Call::Statfs => Call::Statfs,
        }
    }
}

/// How an operation fails: with one of the numbered errors, or with the failure
/// of a layer, passed on.
#[derive(Debug)]
pub enum Failure<S> {
    Fs(FsError),
    Layer(S),
}

pub type FailureView = Failure<Seq<char>>;

pub type LayerFailure = Failure<String>;

impl View for Failure<String> {
    type V = FailureView;

    open spec fn view(&self) -> FailureView {
        match self {
            Failure::Fs(e) => Failure::Fs(*e),
            Failure::Layer(s) => Failure::Layer(s@),
        }
    }
}

impl Clone for Failure<String> {
    fn clone(&self) -> (r: Self)
        ensures
            r@ == self@,
    {
        match self {
            Failure::Fs(e) => Failure::Fs(*e),
            Failure::Layer(s) => Failure::Layer(s.clone()),
        }
    }
}

/// How many inodes and bytes are in use.
#[derive(Debug, Clone, Copy, PartialEq, Eq, Structural)]
pub struct FilesystemStats {
    pub inodes: u64,
    pub bytes_used: u64,
}

/// What a layer says where the list of whiteouts was never set up.
pub const NO_WHITEOUTS: &'static str = "no such table: fs_whiteout";

/// A reply to a call. `NoTable` says that the list of whiteouts was never set
/// up. Then no path has a whiteout, and to list whiteouts or to change them fails.
#[derive(Debug)]
pub enum Reply<S, B, N> {
    Failed(Failure<S>),
    NoTable,
    Done,
    Flag(bool),
    Stats(Option<Stats>),
    Bytes(Option<B>),
    Names(Option<N>),
    Target(Option<S>),
    Usage(FilesystemStats),
}

pub type ReplyView = Reply<Seq<char>, Seq<u8>, Seq<Seq<char>>>;

pub type LayerReply = Reply<String, Vec<u8>, Vec<String>>;

impl View for Reply<String, Vec<u8>, Vec<String>> {
    type V = ReplyView;

    open spec fn view(&self) -> ReplyView {
        match self {
            Reply::Failed(f) => Reply::Failed(f@),
            Reply::NoTable => Reply::NoTable,
            Reply::Done => Reply::Done,
            Reply::Flag(b) => Reply::Flag(*b),
            Reply::Stats(s) => Reply::Stats(*s),
            Reply::Bytes(Some(b)) => Reply::Bytes(Some(b@)),
            Reply::Bytes(None) => Reply::Bytes(None),
            Reply::Names(Some(n)) => Reply::Names(Some(text::views(n@))),
            Reply::Names(None) => Reply::Names(None),
            Reply::Target(t) => Reply::Target(text::opt(*t)),
            Reply::Usage(u) => Reply::Usage(*u),
        }
    }
}

/// A reply as statistics. A reply of another kind counts as nothing found.
pub open spec fn stats_reply(r: ReplyView) -> Result<Option<Stats>, FailureView> {
    match r {
        Reply::Failed(f) => Err(f),
        Reply::Stats(s) => Ok(s),
        _ => Ok(None),
    }
}

/// A reply as bytes.
pub open spec fn bytes_reply(r: ReplyView) -> Result<Option<Seq<u8>>, FailureView> {
    match r {
        Reply::Failed(f) => Err(f),
        Reply::Bytes(b) => Ok(b),
        _ => Ok(None),
    }
}

/// A reply as a list of names.
pub open spec fn names_reply(r: ReplyView) -> Result<Option<Seq<Seq<char>>>, FailureView> {
    match r {
        Reply::Failed(f) => Err(f),
        Reply::NoTable => Err(Failure::Layer(NO_WHITEOUTS@)),
        Reply::Names(n) => Ok(n),
        _ => Ok(None),
    }
}

/// A reply as the target of a link.
pub open spec fn target_reply(r: ReplyView) -> Result<Option<Seq<char>>, FailureView> {
    match r {
        Reply::Failed(f) => Err(f),
        Reply::Target(t) => Ok(t),
        _ => Ok(None),
    }
}

/// A reply as success or failure.
pub open spec fn unit_reply(r: ReplyView) -> Result<(), FailureView> {
    match r {
        Reply::Failed(f) => Err(f),
        Reply::NoTable => Err(Failure::Layer(NO_WHITEOUTS@)),
        _ => Ok(()),
    }
}

/// A reply as what is in use. A reply of another kind counts as nothing.
pub open spec fn usage_reply(r: ReplyView) -> Result<FilesystemStats, FailureView> {
    match r {
        Reply::Failed(f) => Err(f),
        Reply::Usage(u) => Ok(u),
        _ => Ok(FilesystemStats { inodes: 0, bytes_used: 0 }),
    }
}

pub open spec fn usage_result(r: Result<FilesystemStats, LayerFailure>) -> Result<
    FilesystemStats,
    FailureView,
> {
    match r {
        Ok(u) => Ok(u),
        Err(f) => Err(f@),
    }
}

pub open spec fn stats_result(r: Result<Option<Stats>, LayerFailure>) -> Result<
    Option<Stats>,
    FailureView,
> {
    match r {
        Ok(s) => Ok(s),
        Err(f) => Err(f@),
    }
}

pub open spec fn bytes_result(r: Result<Option<Vec<u8>>, LayerFailure>) -> Result<
    Option<Seq<u8>>,
    FailureView,
> {
    match r {
        Ok(Some(b)) => Ok(Some(b@)),
        Ok(None) => Ok(None),
        Err(f) => Err(f@),
    }
}

pub open spec fn names_result(r: Result<Option<Vec<String>>, LayerFailure>) -> Result<
    Option<Seq<Seq<char>>>,
    FailureView,
> {
    match r {
        Ok(Some(n)) => Ok(Some(text::views(n@))),
        Ok(None) => Ok(None),
        Err(f) => Err(f@),
    }
}

pub open spec fn target_result(r: Result<Option<String>, LayerFailure>) -> Result<
    Option<Seq<char>>,
    FailureView,
> {
    match r {
        Ok(t) => Ok(text::opt(t)),
        Err(f) => Err(f@),
    }
}

pub open spec fn unit_result(r: Result<(), LayerFailure>) -> Result<(), FailureView> {
    match r {
        Ok(()) => Ok(()),
        Err(f) => Err(f@),
    }
}

/// A copy of `data`.
pub fn copy_bytes(data: &[u8]) -> (r: Vec<u8>)
    ensures
        r@ == data@,
{
    let mut out: Vec<u8> = Vec::new();
    out.extend_from_slice(data);
    assert(out@ =~= data@);
    out
}

/// A copy of `names`.
pub fn copy_names(names: &Vec<String>) -> (r: Vec<String>)
    ensures
        text::views(r@) == text::views(names@),
{
    let mut out: Vec<String> = Vec::new();
    let mut i: usize = 0;
    while i < names.len()
        invariant
            i <= names@.len(),
            text::views(out@) == text::views(names@).take(i as int),
        decreases names@.len() - i,
    {
        let ghost before = text::views(out@);
        out.push(names[i].clone());
        i = i + 1;
        assert(text::views(out@) =~= before.push(names@[i - 1]@));
        assert(text::views(out@) =~= text::views(names@).take(i as int));
    }
    assert(text::views(names@).take(i as int) =~= text::views(names@));
    out
}

impl Reply<String, Vec<u8>, Vec<String>> {
    /// This reply as statistics.
    pub fn stats(&self) -> (r: Result<Option<Stats>, LayerFailure>)
        ensures
            stats_result(r) == stats_reply(self@),
    {
        match self {
            Reply::Failed(f) => Err(f.clone()),
            Reply::Stats(s) => Ok(*s),
            _ => Ok(None),
        }
    }

    /// This reply as bytes.
    pub fn bytes(&self) -> (r: Result<Option<Vec<u8>>, LayerFailure>)
        ensures
            bytes_result(r) == bytes_reply(self@),
    {
        match self {
            Reply::Failed(f) => Err(f.clone()),
            Reply::Bytes(Some(b)) => Ok(Some(copy_bytes(b.as_slice()))),
            _ => Ok(None),
        }
    }

    /// This reply as a list of names.
    pub fn names(&self) -> (r: Result<Option<Vec<String>>, LayerFailure>)
        ensures
            names_result(r) == names_reply(self@),
    {
        match self {
            Reply::Failed(f) => Err(f.clone()),
            Reply::NoTable => Err(Failure::Layer(NO_WHITEOUTS.to_owned())),
            Reply::Names(Some(n)) => Ok(Some(copy_names(n))),
            _ => Ok(None),
        }
    }

    /// This reply as the target of a link.
    pub fn target(&self) -> (r: Result<Option<String>, LayerFailure>)
        ensures
            target_result(r) == target_reply(self@),
    {
        match self {
            Reply::Failed(f) => Err(f.clone()),
            Reply::Target(t) => Ok(text::copy_opt(t)),
            _ => Ok(None),
        }
    }

    /// This reply as what is in use.
    pub fn usage(&self) -> (r: Result<FilesystemStats, LayerFailure>)
        ensures
            usage_result(r) == usage_reply(self@),
    {
        match self {
            Reply::Failed(f) => Err(f.clone()),
            Reply::Usage(u) => Ok(*u),
            _ => Ok(FilesystemStats { inodes: 0, bytes_used: 0 }),
        }
    }

    /// This reply as success or failure.
    pub fn unit(&self) -> (r: Result<(), LayerFailure>)
        ensures
            unit_result(r) == unit_reply(self@),
    {
        match self {
            Reply::Failed(f) => Err(f.clone()),
            Reply::NoTable => Err(Failure::Layer(NO_WHITEOUTS.to_owned())),
            _ => Ok(()),
        }
    }

    /// Whether this reply says yes.
    pub fn is_true(&self) -> (r: bool)
        ensures
            r == (self@ == ReplyView::Flag(true)),
    {
        match self {
            Reply::Flag(b) => *b,
            _ => false,
        }
    }
}

} // verus!
