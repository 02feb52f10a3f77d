//! A model of the two layers and the whiteouts: how they answer the calls of the
//! overlay, and what these calls do to them.

use crate::fs::types::{FsError, Stats, DEFAULT_DIR_MODE, DEFAULT_FILE_MODE, SYMLINK_MODE};
use crate::overlay::calls::{Call, CallView, Failure, FilesystemStats, Layer, Reply, ReplyView};
use crate::overlay::ops;
use crate::overlay::ops::OvPlan;
use crate::plan::Plan;
use crate::text;
use vstd::prelude::*;

verus! {

pub enum Kind {
    File,
    Dir,
    Link,
}

/// What stands at a path of a layer. Links are not followed here: a link is what
/// is found at its path.
#[verifier::ext_equal]
pub struct Node {
    pub kind: Kind,
    pub data: Seq<u8>,
    pub target: Seq<char>,
}

/// The entries of a layer, by their paths.
pub type Tree = Map<Seq<char>, Node>;

/// The two layers and the whiteouts.
#[verifier::ext_equal]
pub struct Layers {
    pub whiteouts: Set<Seq<char>>,
    pub delta: Tree,
    pub base: Tree,
}

pub open spec fn layer_of(l: Layers, layer: Layer) -> Tree {
    match layer {
        Layer::Delta => l.delta,
        Layer::Base => l.base,
    }
}

pub open spec fn node_stats(n: Node) -> Stats {
    Stats {
        ino: 0,
        mode: match n.kind {
            Kind::File => DEFAULT_FILE_MODE,
            Kind::Dir => DEFAULT_DIR_MODE,
            Kind::Link => SYMLINK_MODE,
        },
        nlink: 1,
        uid: 0,
        gid: 0,
        size: n.data.len() as i64,
        atime: 0,
        mtime: 0,
        ctime: 0,
    }
}

pub open spec fn new_dir() -> Node {
    Node { kind: Kind::Dir, data: Seq::empty(), target: Seq::empty() }
}

pub open spec fn new_link(target: Seq<char>) -> Node {
    Node { kind: Kind::Link, data: Seq::empty(), target }
}

/// What stands at a path once `data` is written there: an entry keeps its kind.
pub open spec fn with_data(t: Tree, path: Seq<char>, data: Seq<u8>) -> Node {
    if t.contains_key(path) {
        Node { data, ..t[path] }
    } else {
        Node { kind: Kind::File, data, target: Seq::empty() }
    }
}

/// The path of the directory that an entry is in.
pub open spec fn dir_of(path: Seq<char>) -> Seq<char> {
    match ops::above(path) {
        Some(dir) => dir,
        None => "/"@,
    }
}

/// The path is `top`, or below it.
pub open spec fn under(path: Seq<char>, top: Seq<char>) -> bool {
    path == top || text::begins(path, top + "/"@)
}

/// The names of the entries of the directory at `dir`.
pub open spec fn names_in(t: Tree, dir: Seq<char>) -> Set<Seq<char>> {
    Set::new(
        |name: Seq<char>|
            name.len() > 0 && !name.contains('/') && t.contains_key(ops::child_prefix(dir) + name),
    )
}

/// The bytes of `data` from `offset` on, `size` at most.
pub open spec fn part(data: Seq<u8>, offset: u64, size: u64) -> Seq<u8> {
    let from = if offset <= data.len() {
        offset as int
    } else {
        data.len() as int
    };
    let to = if offset + size <= data.len() {
        offset + size
    } else {
        data.len() as int
    };
    data.subrange(from, to)
}

/// `data` cut off at `size`, or filled up with zeros.
pub open spec fn resized(data: Seq<u8>, size: u64) -> Seq<u8> {
    Seq::new(
        size as nat,
        |i: int|
            if i < data.len() {
                data[i]
            } else {
                0u8
            },
    )
}

/// `data` with `bytes` in the place of what it has from `offset` on, filled up with
/// zeros in between.
pub open spec fn overwritten(data: Seq<u8>, offset: u64, bytes: Seq<u8>) -> Seq<u8> {
    let end = offset + bytes.len();
    if bytes.len() == 0 {
        data
    } else {
        Seq::new(
            (if end <= data.len() {
                data.len() as int
            } else {
                end as int
            }) as nat,
            |i: int|
                if offset <= i < end {
                    bytes[i - offset]
                } else if i < data.len() {
                    data[i]
                } else {
                    0u8
                },
        )
    }
}

/// The bytes at a path of a layer: none where there is no entry.
pub open spec fn held(t: Tree, path: Seq<char>) -> Seq<u8> {
    if t.contains_key(path) {
        t[path].data
    } else {
        Seq::empty()
    }
}

/// Whether the delta takes a new entry: there is none yet, and its directory is
/// there.
pub open spec fn free(l: Layers, path: Seq<char>) -> bool {
    path != "/"@ && !l.delta.contains_key(path) && l.delta.contains_key(dir_of(path))
}

/// Whether the delta lets a file be written.
pub open spec fn writable(l: Layers, path: Seq<char>) -> bool {
    path != "/"@ && l.delta.contains_key(dir_of(path))
}

/// Whether the delta lets an entry be removed: it has it, and nothing below it.
pub open spec fn removable(l: Layers, path: Seq<char>) -> bool {
    path != "/"@ && l.delta.contains_key(path) && forall|q: Seq<char>| #[trigger]
        l.delta.contains_key(q) ==> !text::begins(q, path + "/"@)
}

/// Whether the delta lets an entry be moved: the source is there, the destination
/// has a directory and is not below a directory that moves, and what stands
/// there may be replaced.
pub open spec fn movable(l: Layers, from: Seq<char>, to: Seq<char>) -> bool {
    &&& from != "/"@ && to != "/"@
    &&& l.delta.contains_key(from)
    &&& l.delta[from].kind == Kind::Dir ==> !under(to, from)
    &&& l.delta.contains_key(dir_of(to))
    &&& l.delta.contains_key(to) ==> (l.delta[to].kind == Kind::Dir <==> l.delta[from].kind
        == Kind::Dir) && (l.delta[to].kind == Kind::Dir ==> removable(l, to))
}

/// A layer once what is at and below `from` stands at and below `to`. A file that
/// is moved onto itself is gone.
pub open spec fn moved(t: Tree, from: Seq<char>, to: Seq<char>) -> Tree {
    if from == to {
        t.remove(from)
    } else {
        Map::new(
            |q: Seq<char>|
                if under(q, to) {
                    t.contains_key(from + q.skip(to.len() as int))
                } else {
                    t.contains_key(q) && !under(q, from)
                },
            |q: Seq<char>|
                if under(q, to) {
                    t[from + q.skip(to.len() as int)]
                } else {
                    t[q]
                },
        )
    }
}

pub open spec fn done_if(ok: bool) -> ReplyView {
    if ok {
        Reply::Done
    } else {
        Reply::Failed(Failure::Fs(FsError::NotFound))
    }
}

/// How the layers answer a call. Which error a refusal comes with, and how many
/// bytes are said to be in use, is of no account.
pub open spec fn answer(l: Layers, q: CallView) -> ReplyView {
    match q {
        Call::HasWhiteout { path } => Reply::Flag(l.whiteouts.contains(path)),
        Call::WhiteoutsUnder { prefix } => Reply::Names(
            Some(l.whiteouts.filter(|w: Seq<char>| text::begins(w, prefix)).to_seq()),
        ),
        Call::Stat { layer, path } => Reply::Stats(
            if layer_of(l, layer).contains_key(path) {
                Some(node_stats(layer_of(l, layer)[path]))
            } else {
                None
            },
        ),
        Call::Lstat { layer, path } => Reply::Stats(
            if layer_of(l, layer).contains_key(path) {
                Some(node_stats(layer_of(l, layer)[path]))
            } else {
                None
            },
        ),
        Call::ReadFile { layer, path } => Reply::Bytes(
            if layer_of(l, layer).contains_key(path) {
                Some(layer_of(l, layer)[path].data)
            } else {
                None
            },
        ),
        Call::Pread { layer, path, offset, size } => Reply::Bytes(
            if layer_of(l, layer).contains_key(path) {
                Some(part(layer_of(l, layer)[path].data, offset, size))
            } else {
                None
            },
        ),
        Call::Readdir { layer, path } => Reply::Names(
            if layer_of(l, layer).contains_key(path) {
                Some(names_in(layer_of(l, layer), path).to_seq())
            } else {
                None
            },
        ),
        Call::Readlink { layer, path } => if !layer_of(l, layer).contains_key(path) {
            Reply::Target(None)
        } else if layer_of(l, layer)[path].kind == Kind::Link {
            Reply::Target(Some(layer_of(l, layer)[path].target))
        } else {
            Reply::Failed(Failure::Fs(FsError::NotASymlink))
        },
        Call::Mkdir { path } => done_if(free(l, path)),
        Call::Symlink { path, .. } => done_if(free(l, path)),
        Call::WriteFile { path, .. } => done_if(writable(l, path)),
        Call::Pwrite { path, .. } => done_if(l.delta.contains_key(path) || writable(l, path)),
        Call::Truncate { path, .. } => done_if(l.delta.contains_key(path)),
        Call::Remove { path } => done_if(removable(l, path)),
        Call::Rename { from, to } => done_if(movable(l, from, to)),
        Call::Statfs => Reply::Usage(
            FilesystemStats { inodes: l.delta.dom().len() as u64, bytes_used: 0 },
        ),
        Call::AddWhiteout { .. } => Reply::Done,
        Call::DropWhiteout { .. } => Reply::Done,
    }
}

/// The layers once a call is made. A refused call changes nothing.
pub open spec fn effect(l: Layers, q: CallView) -> Layers {
    if answer(l, q) is Failed {
        l
    } else {
        match q {
            Call::AddWhiteout { path, .. } => Layers { whiteouts: l.whiteouts.insert(path), ..l },
            Call::DropWhiteout { path } => Layers { whiteouts: l.whiteouts.remove(path), ..l },
            Call::Mkdir { path } => Layers { delta: l.delta.insert(path, new_dir()), ..l },
            Call::Symlink { target, path } => Layers {
                delta: l.delta.insert(path, new_link(target)),
                ..l
            },
            Call::WriteFile { path, data } => Layers {
                delta: l.delta.insert(path, with_data(l.delta, path, data)),
                ..l
            },
            Call::Pwrite { path, offset, data } => Layers {
                delta: l.delta.insert(
                    path,
                    with_data(l.delta, path, overwritten(held(l.delta, path), offset, data)),
                ),
                ..l
            },
            Call::Truncate { path, size } => Layers {
                delta: l.delta.insert(
                    path,
                    with_data(l.delta, path, resized(l.delta[path].data, size)),
                ),
                ..l
            },
            Call::Remove { path } => Layers { delta: l.delta.remove(path), ..l },
            Call::Rename { from, to } => Layers { delta: moved(l.delta, from, to), ..l },
            _ => l,
        }
    }
}

/// What a plan comes to: its result, and the layers as it leaves them.
pub open spec fn run<T>(p: Plan<CallView, ReplyView, T>, l: Layers) -> (T, Layers)
    decreases p,
{
    match p {
        Plan::Done(t) => (t, l),
        Plan::Ask(q, next) => run(next(answer(l, q)), effect(l, q)),
    }
}

pub broadcast proof fn lemma_run_done<T>(t: T, l: Layers)
    ensures
        #[trigger] run(Plan::<CallView, ReplyView, T>::Done(t), l) == (t, l),
{
}

pub broadcast proof fn lemma_run_ask<T>(
    q: CallView,
    next: spec_fn(ReplyView) -> Plan<CallView, ReplyView, T>,
    l: Layers,
)
    ensures
        #[trigger] run(Plan::Ask(q, next), l) == run(next(answer(l, q)), effect(l, q)),
{
}

/// Whether a path is deleted from the base: itself or a directory above it.
pub open spec fn hidden(l: Layers, path: Seq<char>) -> bool
    decreases path.len(),
{
    proof {
        ops::lemma_last_slash(path);
    }
    l.whiteouts.contains(path) || match ops::above(path) {
        Some(dir) => hidden(l, dir),
        None => false,
    }
}

pub broadcast proof fn lemma_run_whiteout<T>(
    path: Seq<char>,
    then: spec_fn(bool) -> OvPlan<T>,
    l: Layers,
)
    ensures
        #[trigger] run(ops::whiteout_plan::<T>(path, then), l) == run(then(hidden(l, path)), l),
    decreases path.len(),
{
    broadcast use lemma_run_done, lemma_run_ask;

    if !l.whiteouts.contains(path) {
        match ops::above(path) {
            Some(dir) => {
                ops::lemma_last_slash(path);
                lemma_run_whiteout(dir, then, l);
            },
            None => {},
        }
    }
}

/// The layers once the directories above an entry are there: `rest` are the
/// components still to go, below `current`.
pub open spec fn ensured(l: Layers, current: Seq<char>, rest: Seq<Seq<char>>) -> Layers
    decreases rest.len(),
{
    if rest.len() <= 1 {
        l
    } else {
        let dir = current + "/"@ + rest[0];
        ensured(with_dir(l, dir), dir, rest.drop_first())
    }
}

/// The layers once the delta has a directory at `dir`.
pub open spec fn with_dir(l: Layers, dir: Seq<char>) -> Layers {
    if l.delta.contains_key(dir) {
        l
    } else {
        effect(effect(l, Call::DropWhiteout { path: dir }), Call::Mkdir { path: dir })
    }
}

pub broadcast proof fn lemma_run_ensure<T>(
    current: Seq<char>,
    rest: Seq<Seq<char>>,
    then: spec_fn(()) -> OvPlan<T>,
    l: Layers,
)
    ensures
        #[trigger] run(ops::ensure_plan::<T>(current, rest, then), l) == run(
            then(()),
            ensured(l, current, rest),
        ),
    decreases rest.len(),
{
    broadcast use lemma_run_done, lemma_run_ask;

    if rest.len() > 1 {
        let dir = current + "/"@ + rest[0];
        lemma_run_ensure(dir, rest.drop_first(), then, with_dir(l, dir));
    }
}

pub broadcast group group_run {
    lemma_run_done,
    lemma_run_ask,
    lemma_run_whiteout,
    lemma_run_ensure,
}

} // verus!
