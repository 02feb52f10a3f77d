//! A model of the files behind the calls by inode number: what each number stands for,
//! what each directory holds, and which files are open. It says how calls are answered
//! and what they change.

use crate::fs::types;
use crate::fs::types::{FsError, Stats, S_IFDIR, S_IFMT, SYMLINK_MODE};
use crate::nodes::{
    FileRef, NodeCall, NodeCallView, NodeEntry, NodeEntryView, NodeReply, NodeReplyView, NodeStats,
    SdkError, TimeChange,
};
use crate::overlay::layers;
use crate::plan::Plan;
use vstd::prelude::*;

verus! {

/// What a number stands for: its statistics but for the size, the bytes that it holds,
/// and the target if it is a link.
#[verifier::ext_equal]
pub struct VNode {
    pub meta: NodeStats,
    pub data: Seq<u8>,
    pub target: Seq<char>,
}

/// All files: what each number stands for, the entries of each directory, the numbers
/// behind the handles, the one that was opened last, those that have been brought to
/// storage, the next free number, and how much is in use, where that can be told.
#[verifier::ext_equal]
pub struct Volume {
    pub nodes: Map<i64, VNode>,
    pub entries: Map<(i64, Seq<char>), i64>,
    pub open: Map<u64, i64>,
    pub last: Option<i64>,
    pub stored: Set<i64>,
    pub next: i64,
    pub used: Option<(u64, u64)>,
}

/// The statistics of a number: its size is that of its bytes.
pub open spec fn stats_of(v: Volume, ino: i64) -> NodeStats {
    let n = v.nodes[ino];
    NodeStats {
        stats: Stats { ino, size: n.data.len() as i64, ..n.meta.stats },
        rdev: n.meta.rdev,
    }
}

pub open spec fn is_dir(v: Volume, ino: i64) -> bool {
    types::dir_mode(v.nodes[ino].meta.stats.mode)
}

/// The number of an open file.
pub open spec fn file_of(v: Volume, file: FileRef) -> Option<i64> {
    match file {
        FileRef::Opened => v.last,
        FileRef::Handle(fh) => if v.open.contains_key(fh) {
            Some(v.open[fh])
        } else {
            None
        },
    }
}

/// The names in a directory.
pub open spec fn names_in(v: Volume, dir: i64) -> Set<Seq<char>> {
    Set::new(|name: Seq<char>| v.entries.contains_key((dir, name)))
}

/// The entries of a directory, in some order.
pub open spec fn listed(v: Volume, dir: i64) -> Seq<NodeEntryView> {
    names_in(v, dir).to_seq().map_values(
        |name: Seq<char>| NodeEntry { name, node: stats_of(v, v.entries[(dir, name)]) },
    )
}

/// Why no entry can be made, if none can.
pub open spec fn taken(v: Volume, parent: i64, name: Seq<char>) -> Option<FsError> {
    if !v.nodes.contains_key(parent) {
        Some(FsError::NotFound)
    } else if v.entries.contains_key((parent, name)) {
        Some(FsError::AlreadyExists)
    } else {
        None
    }
}

pub open spec fn absent(v: Volume, ino: i64) -> Option<FsError> {
    if v.nodes.contains_key(ino) {
        None
    } else {
        Some(FsError::NotFound)
    }
}

/// Why a call fails, if it does.
pub open spec fn failure(v: Volume, q: NodeCallView) -> Option<FsError> {
    match q {
        NodeCall::Chmod { ino, .. } => absent(v, ino),
        NodeCall::Chown { ino, .. } => absent(v, ino),
        NodeCall::Utimens { ino, .. } => absent(v, ino),
        NodeCall::Open { ino } => absent(v, ino),
        NodeCall::Truncate { file, .. } => no_file(v, file),
        NodeCall::Pread { file, .. } => no_file(v, file),
        NodeCall::Pwrite { file, .. } => no_file(v, file),
        NodeCall::Fstat { file } => no_file(v, file),
        NodeCall::Fsync { file } => no_file(v, file),
        NodeCall::CreateFile { parent, name, .. } => taken(v, parent, name),
        NodeCall::Mkdir { parent, name, .. } => taken(v, parent, name),
        NodeCall::Mknod { parent, name, .. } => taken(v, parent, name),
        NodeCall::Symlink { parent, name, .. } => taken(v, parent, name),
        NodeCall::Rmdir { parent, name } => if !v.entries.contains_key((parent, name)) {
            Some(FsError::NotFound)
        } else if !is_dir(v, v.entries[(parent, name)]) {
            Some(FsError::NotADirectory)
        } else if names_in(v, v.entries[(parent, name)]) != Set::<Seq<char>>::empty() {
            Some(FsError::NotEmpty)
        } else {
            None
        },
        NodeCall::Unlink { parent, name } => if !v.entries.contains_key((parent, name)) {
            Some(FsError::NotFound)
        } else if is_dir(v, v.entries[(parent, name)]) {
            Some(FsError::IsADirectory)
        } else {
            None
        },
        NodeCall::Rename { parent, name, newparent, newname } => if !v.entries.contains_key(
            (parent, name),
        ) || !v.nodes.contains_key(newparent) {
            Some(FsError::NotFound)
        } else if v.entries.contains_key((newparent, newname)) && names_in(
            v,
            v.entries[(newparent, newname)],
        ) != Set::<Seq<char>>::empty() {
            Some(FsError::NotEmpty)
        } else {
            None
        },
        NodeCall::Readlink { ino } => if v.nodes.contains_key(ino) && !types::link_mode(
            v.nodes[ino].meta.stats.mode,
        ) {
            Some(FsError::NotASymlink)
        } else {
            None
        },
        _ => None,
    }
}

pub open spec fn no_file(v: Volume, file: FileRef) -> Option<FsError> {
    match file_of(v, file) {
        Some(ino) => absent(v, ino),
        None => Some(FsError::NotFound),
    }
}

/// The permissions of a mode, with the type that a file has.
pub open spec fn with_permissions(old_mode: u32, mode: u32) -> u32 {
    (old_mode & S_IFMT) | (mode & 0o7777)
}

/// A file that has just been made.
pub open spec fn new_node(
    ino: i64,
    mode: u32,
    uid: u32,
    gid: u32,
    rdev: u64,
    target: Seq<char>,
) -> VNode {
    VNode {
        meta: NodeStats {
            stats: Stats { ino, mode, nlink: 1, uid, gid, size: 0, atime: 0, mtime: 0, ctime: 0 },
            rdev,
        },
        data: Seq::empty(),
        target,
    }
}

/// What a call that makes an entry makes.
pub open spec fn product(v: Volume, q: NodeCallView) -> VNode {
    match q {
        NodeCall::CreateFile { mode, uid, gid, .. } => new_node(
            v.next,
            mode,
            uid,
            gid,
            0,
            Seq::empty(),
        ),
        NodeCall::Mkdir { mode, uid, gid, .. } => new_node(
            v.next,
            S_IFDIR | match mode {
                Some(m) => m & 0o7777,
                None => 0o755,
            },
            uid,
            gid,
            0,
            Seq::empty(),
        ),
        NodeCall::Mknod { mode, rdev, uid, gid, .. } => new_node(
            v.next,
            mode,
            uid,
            gid,
            rdev,
            Seq::empty(),
        ),
        NodeCall::Symlink { target, uid, gid, .. } => new_node(
            v.next,
            SYMLINK_MODE,
            uid,
            gid,
            0,
            target,
        ),
        _ => new_node(v.next, 0, 0, 0, 0, Seq::empty()),
    }
}

/// How a call is answered.
pub open spec fn answer(v: Volume, q: NodeCallView) -> NodeReplyView {
    match failure(v, q) {
        Some(e) => NodeReply::Failed(SdkError::Fs(e)),
        None => match q {
            NodeCall::Lookup { parent, name } => NodeReply::Stats(
                if v.entries.contains_key((parent, name)) {
                    Some(stats_of(v, v.entries[(parent, name)]))
                } else {
                    None
                },
            ),
            NodeCall::Getattr { ino } => NodeReply::Stats(
                if v.nodes.contains_key(ino) {
                    Some(stats_of(v, ino))
                } else {
                    None
                },
            ),
            NodeCall::Pread { file, offset, size } => NodeReply::Bytes(
                layers::part(v.nodes[file_of(v, file)->0].data, offset, size),
            ),
            NodeCall::Fstat { file } => NodeReply::Stats(Some(stats_of(v, file_of(v, file)->0))),
            NodeCall::CreateFile { .. } => NodeReply::Stats(Some(product(v, q).meta)),
            NodeCall::Mkdir { .. } => NodeReply::Stats(Some(product(v, q).meta)),
            NodeCall::Mknod { .. } => NodeReply::Stats(Some(product(v, q).meta)),
            NodeCall::Symlink { .. } => NodeReply::Stats(Some(product(v, q).meta)),
            NodeCall::ReaddirPlus { ino } => NodeReply::Entries(
                if v.nodes.contains_key(ino) {
                    Some(listed(v, ino))
                } else {
                    None
                },
            ),
            NodeCall::Readlink { ino } => NodeReply::Target(
                if v.nodes.contains_key(ino) {
                    Some(v.nodes[ino].target)
                } else {
                    None
                },
            ),
            NodeCall::Statfs => match v.used {
                Some((inodes, bytes_used)) => NodeReply::Usage { inodes, bytes_used },
                None => NodeReply::Failed(SdkError::Other),
            },
            _ => NodeReply::Done,
        },
    }
}

pub open spec fn with_stats(v: Volume, ino: i64, stats: Stats) -> Volume {
    let n = v.nodes[ino];
    Volume {
        nodes: v.nodes.insert(ino, VNode { meta: NodeStats { stats, ..n.meta }, ..n }),
        ..v
    }
}

pub open spec fn with_data(v: Volume, ino: i64, data: Seq<u8>) -> Volume {
    Volume { nodes: v.nodes.insert(ino, VNode { data, ..v.nodes[ino] }), ..v }
}

pub open spec fn with_entry(v: Volume, parent: i64, name: Seq<char>, n: VNode) -> Volume {
    Volume {
        nodes: v.nodes.insert(v.next, n),
        entries: v.entries.insert((parent, name), v.next),
        next: (v.next + 1) as i64,
        ..v
    }
}

pub open spec fn time_after(was: i64, change: TimeChange) -> i64 {
    match change {
        TimeChange::Omit => was,
        TimeChange::At(seconds, _) => seconds,
    }
}

/// The files once a call is made. A call that fails changes nothing.
pub open spec fn effect(v: Volume, q: NodeCallView) -> Volume {
    if answer(v, q) is Failed {
        v
    } else {
        match q {
            NodeCall::Chmod { ino, mode } => {
                let s = v.nodes[ino].meta.stats;
                with_stats(v, ino, Stats { mode: with_permissions(s.mode, mode), ..s })
            },
            NodeCall::Chown { ino, uid, gid } => {
                let s = v.nodes[ino].meta.stats;
                with_stats(
                    v,
                    ino,
                    Stats {
                        uid: match uid {
                            Some(u) => u,
                            None => s.uid,
                        },
                        gid: match gid {
                            Some(g) => g,
                            None => s.gid,
                        },
                        ..s
                    },
                )
            },
            NodeCall::Utimens { ino, atime, mtime } => {
                let s = v.nodes[ino].meta.stats;
                with_stats(
                    v,
                    ino,
                    Stats {
                        atime: time_after(s.atime, atime),
                        mtime: time_after(s.mtime, mtime),
                        ..s
                    },
                )
            },
            NodeCall::Open { ino } => Volume { last: Some(ino), ..v },
            NodeCall::Truncate { file, size } => {
                let ino = file_of(v, file)->0;
                with_data(v, ino, layers::resized(v.nodes[ino].data, size))
            },
            NodeCall::Pwrite { file, offset, data } => {
                let ino = file_of(v, file)->0;
                with_data(v, ino, layers::overwritten(v.nodes[ino].data, offset, data))
            },
            NodeCall::Fsync { file } => Volume {
                stored: v.stored.insert(file_of(v, file)->0),
                ..v
            },
            NodeCall::CreateFile { parent, name, .. } => Volume {
                last: Some(v.next),
                ..with_entry(v, parent, name, product(v, q))
            },
            NodeCall::Mkdir { parent, name, .. } => with_entry(v, parent, name, product(v, q)),
            NodeCall::Mknod { parent, name, .. } => with_entry(v, parent, name, product(v, q)),
            NodeCall::Symlink { parent, name, .. } => with_entry(v, parent, name, product(v, q)),
            NodeCall::Rmdir { parent, name } => Volume {
                entries: v.entries.remove((parent, name)),
                ..v
            },
            NodeCall::Unlink { parent, name } => Volume {
                entries: v.entries.remove((parent, name)),
                ..v
            },
            NodeCall::Rename { parent, name, newparent, newname } => Volume {
                entries: v.entries.remove((parent, name)).insert(
                    (newparent, newname),
                    v.entries[(parent, name)],
                ),
                ..v
            },
            _ => v,
        }
    }
}

/// What a plan comes to: its result, and the files as it leaves them.
pub open spec fn run<T>(p: Plan<NodeCallView, NodeReplyView, T>, v: Volume) -> (T, Volume)
    decreases p,
{
    match p {
        Plan::Done(t) => (t, v),
        Plan::Ask(q, next) => run(next(answer(v, q)), effect(v, q)),
    }
}

pub broadcast proof fn lemma_run_done<T>(t: T, v: Volume)
    ensures
        #[trigger] run(Plan::<NodeCallView, NodeReplyView, T>::Done(t), v) == (t, v),
{
}

pub broadcast proof fn lemma_run_ask<T>(
    q: NodeCallView,
    next: spec_fn(NodeReplyView) -> Plan<NodeCallView, NodeReplyView, T>,
    v: Volume,
)
    ensures
        #[trigger] run(Plan::Ask(q, next), v) == run(next(answer(v, q)), effect(v, q)),
{
}

pub broadcast group group_run {
    lemma_run_done,
    lemma_run_ask,
}

/// A file of `before` has in `after` exactly the bytes `data` from `offset` on; what it
/// had elsewhere is as it was, and what lies between its old end and them is zero. All
/// else that is known of it, and every other file, is as it was.
pub open spec fn holds_at(
    before: Volume,
    after: Volume,
    ino: i64,
    offset: u64,
    data: Seq<u8>,
) -> bool {
    let was = before.nodes[ino].data;
    let is = after.nodes[ino].data;
    let end = offset + data.len();
    &&& data.len() > 0 ==> is.len() == if end <= was.len() {
        was.len() as int
    } else {
        end
    }
    &&& data.len() == 0 ==> is == was
    &&& forall|i: int| offset <= i < end ==> #[trigger] is[i] == data[i - offset]
    &&& forall|i: int|
        0 <= i < was.len() && !(offset <= i < end) ==> #[trigger] is[i] == was[i]
    &&& forall|i: int| data.len() > 0 && was.len() <= i < offset ==> #[trigger] is[i] == 0
    &&& after.nodes.contains_key(ino)
    &&& after.nodes[ino].meta == before.nodes[ino].meta
    &&& after.nodes.remove(ino) =~= before.nodes.remove(ino)
    &&& after.entries == before.entries
}

/// A file of `before` has in `after` exactly `size` bytes: it was cut off there, or filled
/// up with zeros. All else that is known of it, and every other file, is as it was.
pub open spec fn sized(before: Volume, after: Volume, ino: i64, size: u64) -> bool {
    let was = before.nodes[ino].data;
    let is = after.nodes[ino].data;
    &&& is.len() == size
    &&& forall|i: int|
        0 <= i < size ==> #[trigger] is[i] == if i < was.len() {
            was[i]
        } else {
            0u8
        }
    &&& after.nodes.contains_key(ino)
    &&& after.nodes[ino].meta == before.nodes[ino].meta
    &&& after.nodes.remove(ino) =~= before.nodes.remove(ino)
    &&& after.entries == before.entries
}

/// An entry of `after` is new: nothing stood there in `before`, the number that it has is
/// new, it is of this mode and this owner, and empty; nothing else has changed.
pub open spec fn made(
    before: Volume,
    after: Volume,
    parent: i64,
    name: Seq<char>,
    mode: u32,
    uid: u32,
    gid: u32,
) -> bool {
    let n = after.nodes[before.next];
    &&& after.entries == before.entries.insert((parent, name), before.next)
    &&& after.nodes.contains_key(before.next)
    &&& n.meta.stats.ino == before.next
    &&& n.meta.stats.mode == mode
    &&& n.meta.stats.uid == uid
    &&& n.meta.stats.gid == gid
    &&& n.data.len() == 0
    &&& after.nodes.remove(before.next) =~= before.nodes.remove(before.next)
    &&& after.open == before.open
}

/// The elements of a finite set in a row: as many as there are, each one among them, and
/// no two alike.
pub proof fn lemma_in_a_row(s: Set<Seq<char>>)
    requires
        s.finite(),
    ensures
        s.to_seq().len() == s.len(),
        forall|i: int| 0 <= i < s.len() ==> s.contains(#[trigger] s.to_seq()[i]),
        forall|x: Seq<char>| #[trigger]
            s.contains(x) ==> exists|i: int| 0 <= i < s.len() && s.to_seq()[i] == x,
        forall|i: int, j: int|
            0 <= i < j < s.to_seq().len() ==> #[trigger] s.to_seq()[i] != #[trigger] s.to_seq()[j],
    decreases s.len(),
{
    s.lemma_to_seq_to_set_id();
    if s.len() > 0 {
        let x = s.choose();
        let rest = s.remove(x);
        lemma_in_a_row(rest);
        assert(s.to_seq() =~= seq![x] + rest.to_seq());
        assert forall|i: int, j: int|
            0 <= i < j < s.to_seq().len() implies #[trigger] s.to_seq()[i] != #[trigger] s.to_seq()[j] by {
            assert(s.to_seq()[j] == rest.to_seq()[j - 1]);
            assert(rest.contains(rest.to_seq()[j - 1]));
            if i > 0 {
                assert(s.to_seq()[i] == rest.to_seq()[i - 1]);
            }
        }
    }
    assert forall|i: int| 0 <= i < s.len() implies s.contains(#[trigger] s.to_seq()[i]) by {
        assert(s.to_seq().to_set().contains(s.to_seq()[i]));
    }
    assert forall|x: Seq<char>| #[trigger] s.contains(x) implies exists|i: int|
        0 <= i < s.len() && s.to_seq()[i] == x by {
        assert(s.to_seq().to_set().contains(x));
    }
}

} // verus!
