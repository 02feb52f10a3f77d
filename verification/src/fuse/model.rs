//! A model of the file system behind the handlers: entries by path, files by inode,
//! and the files that are open. It says how calls are answered and what they change.

use crate::fs::types;
use crate::fs::types::{FsError, Stats, DEFAULT_DIR_MODE, DEFAULT_FILE_MODE, SYMLINK_MODE};
use crate::fuse::adapter::FusePlan;
use crate::fuse::calls::{FsCall, FsCallView, FsReply, FsReplyView, ListedEntry, OutcomeView};
use crate::overlay::layers;
use crate::paths;
use crate::plan::Plan;
use vstd::prelude::*;

verus! {

/// A file, a directory or a link: its statistics but for the size, what it holds, and
/// where it leads if it is a link.
#[verifier::ext_equal]
pub struct Node {
    pub stats: Stats,
    pub data: Seq<u8>,
    pub target: Seq<char>,
}

/// The file system: the inode of each path, what each inode is, where each link leads
/// in the end, the inode behind each handle, the inode that was opened last, those
/// that have been brought to storage, the next free inode number, and how much is in
/// use, where that can be told.
#[verifier::ext_equal]
pub struct Files {
    pub entries: Map<Seq<char>, i64>,
    pub nodes: Map<i64, Node>,
    pub leads: Map<Seq<char>, Seq<char>>,
    pub open: Map<u64, i64>,
    pub last: Option<i64>,
    pub stored: Set<i64>,
    pub next: i64,
    pub used: Option<(u64, u64)>,
}

/// The statistics of an inode: its size is the number of its bytes.
pub open spec fn stats_of(f: Files, ino: i64) -> Stats {
    Stats { ino, size: f.nodes[ino].data.len() as i64, ..f.nodes[ino].stats }
}

/// Where a path leads: a link leads elsewhere.
pub open spec fn followed(f: Files, path: Seq<char>) -> Seq<char> {
    if f.entries.contains_key(path) && types::link_mode(
        f.nodes[f.entries[path]].stats.mode,
    ) && f.leads.contains_key(path) {
        f.leads[path]
    } else {
        path
    }
}

pub open spec fn stats_at(f: Files, path: Seq<char>) -> Option<Stats> {
    if f.entries.contains_key(path) {
        Some(stats_of(f, f.entries[path]))
    } else {
        None
    }
}

/// The names of the entries of the directory at `path`.
pub open spec fn names_in(f: Files, path: Seq<char>) -> Set<Seq<char>> {
    Set::new(
        |name: Seq<char>| paths::plain(name) && f.entries.contains_key(paths::child(path, name)),
    )
}

/// The entries of the directory at `path`, in some order.
pub open spec fn listed(f: Files, path: Seq<char>) -> Seq<ListedEntry<Seq<char>>> {
    names_in(f, path).to_seq().map_values(
        |name: Seq<char>|
            ListedEntry { name, stats: stats_of(f, f.entries[paths::child(path, name)]) },
    )
}

/// Whether a new entry can be made at `path`.
pub open spec fn room(f: Files, path: Seq<char>) -> bool {
    !f.entries.contains_key(path) && f.entries.contains_key(paths::directory(path))
}

/// Why an entry cannot be moved, if it cannot.
pub open spec fn obstacle(f: Files, from: Seq<char>, to: Seq<char>) -> Option<FsError> {
    if !f.entries.contains_key(from) || !f.entries.contains_key(paths::directory(to)) {
        Some(FsError::NotFound)
    } else if layers::under(to, from) {
        Some(FsError::InvalidRename)
    } else if f.entries.contains_key(to) && names_in(f, to) != Set::<Seq<char>>::empty() {
        Some(FsError::NotEmpty)
    } else {
        None
    }
}

/// The entries once what is at and below `from` stands at and below `to`.
pub open spec fn moved(entries: Map<Seq<char>, i64>, from: Seq<char>, to: Seq<char>) -> Map<
    Seq<char>,
    i64,
> {
    Map::new(
        |q: Seq<char>|
            if layers::under(q, to) {
                entries.contains_key(from + q.skip(to.len() as int))
            } else {
                entries.contains_key(q) && !layers::under(q, from)
            },
        |q: Seq<char>|
            if layers::under(q, to) {
                entries[from + q.skip(to.len() as int)]
            } else {
                entries[q]
            },
    )
}

pub open spec fn done_if(ok: bool) -> FsReplyView {
    if ok {
        FsReply::Done
    } else {
        FsReply::Failed(None)
    }
}

/// How the file system answers a call.
pub open spec fn answer(f: Files, q: FsCallView) -> FsReplyView {
    match q {
        FsCall::Lstat { path } => FsReply::Stats(stats_at(f, path)),
        FsCall::Stat { path } => FsReply::Stats(stats_at(f, followed(f, path))),
        FsCall::Readlink { path } => if !f.entries.contains_key(path) {
            FsReply::Target(None)
        } else if types::link_mode(f.nodes[f.entries[path]].stats.mode) {
            FsReply::Target(Some(f.nodes[f.entries[path]].target))
        } else {
            FsReply::Failed(Some(FsError::NotASymlink))
        },
        FsCall::Readdir { path } => FsReply::Names(
            if f.entries.contains_key(path) {
                Some(names_in(f, path).to_seq())
            } else {
                None
            },
        ),
        FsCall::ReaddirPlus { path } => FsReply::Entries(
            if f.entries.contains_key(path) {
                Some(listed(f, path))
            } else {
                None
            },
        ),
        FsCall::Mkdir { path } => done_if(room(f, path)),
        FsCall::Symlink { path, .. } => done_if(room(f, path)),
        FsCall::WriteFile { path, .. } => done_if(f.entries.contains_key(path) || room(f, path)),
        FsCall::Remove { path } => done_if(
            f.entries.contains_key(path) && names_in(f, path) == Set::<Seq<char>>::empty(),
        ),
        FsCall::Rename { from, to } => match obstacle(f, from, to) {
            Some(e) => FsReply::Failed(Some(e)),
            None => FsReply::Done,
        },
        FsCall::Open { path } => done_if(f.entries.contains_key(followed(f, path))),
        FsCall::TruncateOpened { .. } => done_if(f.last is Some),
        FsCall::Truncate { fh, .. } => done_if(f.open.contains_key(fh)),
        FsCall::Pread { fh, offset, size } => if f.open.contains_key(fh) {
            FsReply::Bytes(layers::part(f.nodes[f.open[fh]].data, offset, size))
        } else {
            FsReply::Failed(None)
        },
        FsCall::Pwrite { fh, .. } => done_if(f.open.contains_key(fh)),
        FsCall::Fsync { fh } => done_if(f.open.contains_key(fh)),
        FsCall::Statfs => match f.used {
            Some((inodes, bytes_used)) => FsReply::Usage { inodes, bytes_used },
            None => FsReply::Failed(None),
        },
    }
}

pub open spec fn with_data(f: Files, ino: i64, data: Seq<u8>) -> Files {
    Files { nodes: f.nodes.insert(ino, Node { data, ..f.nodes[ino] }), ..f }
}

/// The file system with a new entry.
pub open spec fn with_entry(
    f: Files,
    path: Seq<char>,
    mode: u32,
    data: Seq<u8>,
    target: Seq<char>,
) -> Files {
    Files {
        entries: f.entries.insert(path, f.next),
        nodes: f.nodes.insert(
            f.next,
            Node {
                stats: Stats {
                    ino: f.next,
                    mode,
                    nlink: 1,
                    uid: 0,
                    gid: 0,
                    size: 0,
                    atime: 0,
                    mtime: 0,
                    ctime: 0,
                },
                data,
                target,
            },
        ),
        next: (f.next + 1) as i64,
        ..f
    }
}

/// The file system once a call is made. A call that fails changes nothing.
pub open spec fn effect(f: Files, q: FsCallView) -> Files {
    if answer(f, q) is Failed {
        f
    } else {
        match q {
            FsCall::Mkdir { path } => with_entry(
                f,
                path,
                DEFAULT_DIR_MODE,
                Seq::empty(),
                Seq::empty(),
            ),
            FsCall::Symlink { target, path } => with_entry(
                f,
                path,
                SYMLINK_MODE,
                Seq::empty(),
                target,
            ),
            FsCall::WriteFile { path, data } => if f.entries.contains_key(path) {
                with_data(f, f.entries[path], data)
            } else {
                with_entry(f, path, DEFAULT_FILE_MODE, data, Seq::empty())
            },
            FsCall::Remove { path } => Files { entries: f.entries.remove(path), ..f },
            FsCall::Rename { from, to } => Files { entries: moved(f.entries, from, to), ..f },
            FsCall::Open { path } => Files { last: Some(f.entries[followed(f, path)]), ..f },
            FsCall::TruncateOpened { size } => with_data(
                f,
                f.last->0,
                layers::resized(f.nodes[f.last->0].data, size),
            ),
            FsCall::Truncate { fh, size } => with_data(
                f,
                f.open[fh],
                layers::resized(f.nodes[f.open[fh]].data, size),
            ),
            FsCall::Pwrite { fh, offset, data } => with_data(
                f,
                f.open[fh],
                layers::overwritten(f.nodes[f.open[fh]].data, offset, data),
            ),
            FsCall::Fsync { fh } => Files { stored: f.stored.insert(f.open[fh]), ..f },
            _ => f,
        }
    }
}

/// What a request comes to: how it ends, and the file system as it leaves it.
pub open spec fn run(p: FusePlan, f: Files) -> (OutcomeView, Files)
    decreases p,
{
    match p {
        Plan::Done(t) => (t, f),
        Plan::Ask(q, next) => run(next(answer(f, q)), effect(f, q)),
    }
}

pub broadcast proof fn lemma_run_done(t: OutcomeView, f: Files)
    ensures
        #[trigger] run(Plan::Done(t), f) == (t, f),
{
}

pub broadcast proof fn lemma_run_ask(
    q: FsCallView,
    next: spec_fn(FsReplyView) -> FusePlan,
    f: Files,
)
    ensures
        #[trigger] run(Plan::Ask(q, next), f) == run(next(answer(f, q)), effect(f, q)),
{
}

pub broadcast group group_run {
    lemma_run_done,
    lemma_run_ask,
}

} // verus!
