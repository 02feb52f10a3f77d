//! The operations of the overlay, each as a plan of calls and as the step
//! function that carries it out.

use crate::fs::types;
use crate::fs::types::{FsError, Stats};
use crate::overlay::calls;
use crate::overlay::calls::{
    Call, CallView, Failure, FailureView, FilesystemStats, Layer, LayerCall, LayerFailure,
    LayerReply, Reply, ReplyView,
};
use crate::overlay::copy;
use crate::overlay::copy::{CopyTree, Task, TaskView};
use crate::paths;
use crate::plan;
use crate::plan::{Head, Plan, Replay, Step};
use crate::strmap;
use crate::text;
use crate::text::Edge;
use vstd::prelude::*;
use vstd::string::*;

verus! {

broadcast use crate::plan::group_after;

pub type OvPlan<T> = Plan<CallView, ReplyView, Result<T, FailureView>>;

/// The path with a slash in front and none behind.
pub open spec fn normal(path: Seq<char>) -> Seq<char> {
    let t = text::trim_back(path, Edge::Slash);
    if t.len() == 0 {
        "/"@
    } else if t[0] != '/' {
        "/"@ + t
    } else {
        t
    }
}

/// Where the last slash of `path` stands.
pub open spec fn last_slash(path: Seq<char>) -> Option<int>
    decreases path.len(),
{
    if path.len() == 0 {
        None
    } else if path.last() == '/' {
        Some(path.len() - 1)
    } else {
        last_slash(path.drop_last())
    }
}

/// The path of the directory above, unless that is the root.
pub open spec fn above(path: Seq<char>) -> Option<Seq<char>> {
    match last_slash(path) {
        Some(i) => if i > 0 {
            Some(path.take(i))
        } else {
            None
        },
        None => None,
    }
}

pub proof fn lemma_last_slash(path: Seq<char>)
    ensures
        last_slash(path) is Some ==> 0 <= last_slash(path)->0 < path.len() && path[last_slash(
            path,
        )->0] == '/',
        forall|i: int|
            (match last_slash(path) {
                Some(k) => k,
                None => -1,
            }) < i < path.len() ==> path[i] != '/',
    decreases path.len(),
{
    if path.len() > 0 && path.last() != '/' {
        lemma_last_slash(path.drop_last());
        assert forall|i: int|
            (match last_slash(path) {
                Some(k) => k,
                None => -1,
            }) < i < path.len() implies path[i] != '/' by {
            if i < path.len() - 1 {
                assert(path.drop_last()[i] == path[i]);
            }
        }
    }
}

pub open spec fn on_stats<T>(q: CallView, then: spec_fn(Option<Stats>) -> OvPlan<T>) -> OvPlan<T> {
    Plan::Ask(
        q,
        |r: ReplyView|
            match calls::stats_reply(r) {
                Err(f) => Plan::Done(Err(f)),
                Ok(s) => then(s),
            },
    )
}

pub open spec fn on_bytes<T>(
    q: CallView,
    then: spec_fn(Option<Seq<u8>>) -> OvPlan<T>,
) -> OvPlan<T> {
    Plan::Ask(
        q,
        |r: ReplyView|
            match calls::bytes_reply(r) {
                Err(f) => Plan::Done(Err(f)),
                Ok(b) => then(b),
            },
    )
}

pub open spec fn on_names<T>(
    q: CallView,
    then: spec_fn(Option<Seq<Seq<char>>>) -> OvPlan<T>,
) -> OvPlan<T> {
    Plan::Ask(
        q,
        |r: ReplyView|
            match calls::names_reply(r) {
                Err(f) => Plan::Done(Err(f)),
                Ok(n) => then(n),
            },
    )
}

pub open spec fn on_target<T>(
    q: CallView,
    then: spec_fn(Option<Seq<char>>) -> OvPlan<T>,
) -> OvPlan<T> {
    Plan::Ask(
        q,
        |r: ReplyView|
            match calls::target_reply(r) {
                Err(f) => Plan::Done(Err(f)),
                Ok(t) => then(t),
            },
    )
}

pub open spec fn on_done<T>(q: CallView, then: spec_fn(()) -> OvPlan<T>) -> OvPlan<T> {
    Plan::Ask(
        q,
        |r: ReplyView|
            match calls::unit_reply(r) {
                Err(f) => Plan::Done(Err(f)),
                Ok(u) => then(u),
            },
    )
}

/// Whether a path is deleted from the base: itself or a directory above it.
pub open spec fn whiteout_plan<T>(path: Seq<char>, then: spec_fn(bool) -> OvPlan<T>) -> OvPlan<T>
    decreases path.len(),
{
    Plan::Ask(
        Call::HasWhiteout { path },
        |r: ReplyView|
            match r {
                Reply::Failed(f) => Plan::Done(Err(f)),
                Reply::NoTable => then(false),
                Reply::Flag(true) => then(true),
                _ => {
                    proof {
                        lemma_last_slash(path);
                    }
                    match above(path) {
                        Some(dir) => whiteout_plan(dir, then),
                        None => then(false),
                    }
                },
            },
    )
}

/// Makes sure that the directories above an entry are there in the delta:
/// `rest` are the components still to go, below `current`.
pub open spec fn ensure_plan<T>(
    current: Seq<char>,
    rest: Seq<Seq<char>>,
    then: spec_fn(()) -> OvPlan<T>,
) -> OvPlan<T>
    decreases rest.len(),
{
    if rest.len() <= 1 {
        then(())
    } else {
        let dir = current + "/"@ + rest[0];
        on_stats(
            Call::Stat { layer: Layer::Delta, path: dir },
            |s: Option<Stats>|
                if s is None {
                    on_done(
                        Call::DropWhiteout { path: dir },
                        |_u: ()|
                            Plan::Ask(
                                Call::Mkdir { path: dir },
                                |_r: ReplyView| ensure_plan(dir, rest.drop_first(), then),
                            ),
                    )
                } else {
                    ensure_plan(dir, rest.drop_first(), then)
                },
        )
    }
}

pub open spec fn parents_plan<T>(path: Seq<char>, then: spec_fn(()) -> OvPlan<T>) -> OvPlan<T> {
    ensure_plan(Seq::<char>::empty(), paths::parts(path), then)
}

/// Copies a file up from the base, unless the delta has it; `missing` is what
/// follows where the base does not have it either.
pub open spec fn copy_up_plan<T>(
    path: Seq<char>,
    missing: OvPlan<T>,
    then: spec_fn(()) -> OvPlan<T>,
) -> OvPlan<T> {
    on_stats(
        Call::Stat { layer: Layer::Delta, path },
        |s: Option<Stats>|
            if s is Some {
                then(())
            } else {
                on_bytes(
                    Call::ReadFile { layer: Layer::Base, path },
                    |b: Option<Seq<u8>>|
                        match b {
                            None => missing,
                            Some(data) => parents_plan(
                                path,
                                |_u: ()| on_done(Call::WriteFile { path, data }, then),
                            ),
                        },
                )
            },
    )
}

/// The root has the inode that the kernel expects.
pub open spec fn with_root_ino(path: Seq<char>, stats: Stats) -> Stats {
    if path == "/"@ {
        Stats { ino: 1, ..stats }
    } else {
        stats
    }
}

/// Statistics of what a path leads to: the delta's, else the base's.
pub open spec fn stat_plan(path: Seq<char>) -> OvPlan<Option<Stats>> {
    let p = normal(path);
    whiteout_plan(
        p,
        |hidden: bool|
            if hidden {
                Plan::Done(Ok(None))
            } else {
                on_stats(
                    Call::Stat { layer: Layer::Delta, path: p },
                    |s: Option<Stats>|
                        match s {
                            Some(stats) => Plan::Done(Ok(Some(stats))),
                            None => on_stats(
                                Call::Stat { layer: Layer::Base, path: p },
                                |b: Option<Stats>|
                                    match b {
                                        Some(stats) => Plan::Done(
                                            Ok(Some(with_root_ino(p, stats))),
                                        ),
                                        None => Plan::Done(Ok(None)),
                                    },
                            ),
                        },
                )
            },
    )
}

/// Statistics of the entry itself: the delta's, else the base's.
pub open spec fn lstat_plan(path: Seq<char>) -> OvPlan<Option<Stats>> {
    let p = normal(path);
    whiteout_plan(
        p,
        |hidden: bool|
            if hidden {
                Plan::Done(Ok(None))
            } else {
                on_stats(
                    Call::Lstat { layer: Layer::Delta, path: p },
                    |s: Option<Stats>|
                        match s {
                            Some(stats) => Plan::Done(Ok(Some(stats))),
                            None => on_stats(
                                Call::Lstat { layer: Layer::Base, path: p },
                                |b: Option<Stats>|
                                    match b {
                                        Some(stats) => Plan::Done(
                                            Ok(Some(with_root_ino(p, stats))),
                                        ),
                                        None => Plan::Done(Ok(None)),
                                    },
                            ),
                        },
                )
            },
    )
}

/// The contents of a file: the delta's, else the base's.
pub open spec fn read_file_plan(path: Seq<char>) -> OvPlan<Option<Seq<u8>>> {
    let p = normal(path);
    whiteout_plan(
        p,
        |hidden: bool|
            if hidden {
                Plan::Done(Ok(None))
            } else {
                on_bytes(
                    Call::ReadFile { layer: Layer::Delta, path: p },
                    |d: Option<Seq<u8>>|
                        match d {
                            Some(data) => Plan::Done(Ok(Some(data))),
                            None => on_bytes(
                                Call::ReadFile { layer: Layer::Base, path: p },
                                |b: Option<Seq<u8>>| Plan::Done(Ok(b)),
                            ),
                        },
                )
            },
    )
}

/// A part of a file, from the delta where that has it.
pub open spec fn pread_plan(path: Seq<char>, offset: u64, size: u64) -> OvPlan<Option<Seq<u8>>> {
    let p = normal(path);
    whiteout_plan(
        p,
        |hidden: bool|
            if hidden {
                Plan::Done(Ok(None))
            } else {
                on_stats(
                    Call::Stat { layer: Layer::Delta, path: p },
                    |s: Option<Stats>|
                        {
                            let layer = if s is Some {
                                Layer::Delta
                            } else {
                                Layer::Base
                            };
                            on_bytes(
                                Call::Pread { layer, path: p, offset, size },
                                |b: Option<Seq<u8>>| Plan::Done(Ok(b)),
                            )
                        },
                )
            },
    )
}

/// Clears the way for a new entry, and then creates it in the delta by `last`.
pub open spec fn create_plan(path: Seq<char>, last: CallView) -> OvPlan<()> {
    on_done(
        Call::DropWhiteout { path },
        |_u: ()| parents_plan(path, |_v: ()| on_done(last, |w: ()| Plan::Done(Ok(w)))),
    )
}

/// Writes a file in the delta.
pub open spec fn write_file_plan(path: Seq<char>, data: Seq<u8>) -> OvPlan<()> {
    let p = normal(path);
    create_plan(p, Call::WriteFile { path: p, data })
}

/// Creates a link in the delta.
pub open spec fn symlink_plan(target: Seq<char>, path: Seq<char>) -> OvPlan<()> {
    let p = normal(path);
    create_plan(p, Call::Symlink { target, path: p })
}

/// Writes a part of a file: a file of the base is copied up first.
pub open spec fn pwrite_plan(path: Seq<char>, offset: u64, data: Seq<u8>) -> OvPlan<()> {
    let p = normal(path);
    let rest = create_plan(p, Call::Pwrite { path: p, offset, data });
    copy_up_plan(p, rest, |_u: ()| rest)
}

/// Truncates a file: a file of the base is copied up first, and one that is
/// nowhere is not found.
pub open spec fn truncate_plan(path: Seq<char>, size: u64) -> OvPlan<()> {
    let p = normal(path);
    copy_up_plan(
        p,
        Plan::Done(Err(Failure::Fs(FsError::NotFound))),
        |_u: ()| on_done(Call::Truncate { path: p, size }, |v: ()| Plan::Done(Ok(v))),
    )
}

/// What the paths of the entries of a directory start with.
pub open spec fn child_prefix(path: Seq<char>) -> Seq<char> {
    if path == "/"@ {
        "/"@
    } else {
        path + "/"@
    }
}

/// The name of the direct child of a directory that a path belongs to, if it
/// does belong to one.
pub open spec fn child_name(prefix: Seq<char>, path: Seq<char>) -> Option<Seq<char>> {
    if text::begins(path, prefix) {
        let name = path.skip(prefix.len() as int);
        if name.len() > 0 && !name.contains('/') {
            Some(name)
        } else {
            None
        }
    } else {
        None
    }
}

/// The names of the direct children among some paths.
#[verifier::opaque]
pub open spec fn child_names(prefix: Seq<char>, list: Seq<Seq<char>>) -> Seq<Seq<char>>
    decreases list.len(),
{
    if list.len() == 0 {
        list
    } else {
        match child_name(prefix, list.last()) {
            Some(name) => child_names(prefix, list.drop_last()).push(name),
            None => child_names(prefix, list.drop_last()),
        }
    }
}

/// The names of `list` that are not among `hidden`.
pub open spec fn shown(list: Seq<Seq<char>>, hidden: Seq<Seq<char>>) -> Seq<Seq<char>>
    decreases list.len(),
{
    if list.len() == 0 {
        list
    } else if hidden.contains(list.last()) {
        shown(list.drop_last(), hidden)
    } else {
        shown(list.drop_last(), hidden).push(list.last())
    }
}

pub open spec fn or_none(n: Option<Seq<Seq<char>>>) -> Seq<Seq<char>> {
    match n {
        Some(names) => names,
        None => Seq::<Seq<char>>::empty(),
    }
}

/// The entries of a directory, in order: those of the delta, and those of the
/// base that are not deleted.
#[verifier::opaque]
pub open spec fn merged(
    delta: Option<Seq<Seq<char>>>,
    base: Option<Seq<Seq<char>>>,
    hidden: Seq<Seq<char>>,
) -> Seq<Seq<char>> {
    text::sorted_set(or_none(delta) + shown(or_none(base), hidden))
}

/// The entries of a directory, where one of the layers has it.
pub open spec fn present_plan(path: Seq<char>, entries: Seq<Seq<char>>) -> OvPlan<
    Option<Seq<Seq<char>>>,
> {
    on_stats(
        Call::Stat { layer: Layer::Delta, path },
        |d: Option<Stats>|
            on_stats(
                Call::Stat { layer: Layer::Base, path },
                |b: Option<Stats>|
                    if d is None && b is None {
                        Plan::Done(Ok(None))
                    } else {
                        Plan::Done(Ok(Some(entries)))
                    },
            ),
    )
}

/// Lists a directory that is not deleted.
pub open spec fn listing_plan(p: Seq<char>) -> OvPlan<Option<Seq<Seq<char>>>> {
    on_names(
        Call::WhiteoutsUnder { prefix: child_prefix(p) },
        |w: Option<Seq<Seq<char>>>|
            on_names(
                Call::Readdir { layer: Layer::Delta, path: p },
                |d: Option<Seq<Seq<char>>>|
                    on_names(
                        Call::Readdir { layer: Layer::Base, path: p },
                        |b: Option<Seq<Seq<char>>>|
                            present_plan(
                                p,
                                merged(d, b, child_names(child_prefix(p), or_none(w))),
                            ),
                    ),
            ),
    )
}

/// Lists a directory.
pub open spec fn readdir_plan(path: Seq<char>) -> OvPlan<Option<Seq<Seq<char>>>> {
    let p = normal(path);
    whiteout_plan(
        p,
        |hidden: bool|
            if hidden {
                Plan::Done(Ok(None))
            } else {
                listing_plan(p)
            },
    )
}

/// Creates a directory in the delta, unless it is visible already.
pub open spec fn mkdir_plan(path: Seq<char>) -> OvPlan<()> {
    let p = normal(path);
    let make = create_plan(p, Call::Mkdir { path: p });
    whiteout_plan(
        p,
        |hidden: bool|
            if hidden {
                make
            } else {
                on_stats(
                    Call::Stat { layer: Layer::Delta, path: p },
                    |d: Option<Stats>|
                        if d is Some {
                            Plan::Done(Err(Failure::Fs(FsError::AlreadyExists)))
                        } else {
                            on_stats(
                                Call::Stat { layer: Layer::Base, path: p },
                                |b: Option<Stats>|
                                    if b is Some {
                                        Plan::Done(Err(Failure::Fs(FsError::AlreadyExists)))
                                    } else {
                                        make
                                    },
                            )
                        },
                )
            },
    )
}

/// Removes an entry: it is taken out of the delta, and marked as deleted where
/// the base has it.
pub open spec fn remove_plan(path: Seq<char>, now: i64) -> OvPlan<()> {
    let p = normal(path);
    Plan::Ask(
        Call::Remove { path: p },
        |r: ReplyView|
            {
                let gone: OvPlan<()> = if calls::unit_reply(r) is Ok {
                    Plan::Done(Ok(()))
                } else {
                    Plan::Done(Err(Failure::Fs(FsError::NotFound)))
                };
                whiteout_plan(
                    p,
                    |hidden: bool|
                        if hidden {
                            gone
                        } else {
                            on_stats(
                                Call::Stat { layer: Layer::Base, path: p },
                                |b: Option<Stats>|
                                    if b is Some {
                                        on_done(
                                            Call::AddWhiteout { path: p, now },
                                            |u: ()| Plan::Done(Ok(u)),
                                        )
                                    } else {
                                        gone
                                    },
                            )
                        },
                )
            },
    )
}

/// Works through the tasks of a copy, the last one first. `most` bounds the calls
/// behind the first one, so that the plan comes to an end however deep the base
/// is.
pub open spec fn copy_plan<T>(
    tasks: Seq<TaskView>,
    most: nat,
    then: spec_fn(()) -> OvPlan<T>,
) -> OvPlan<T>
    decreases most,
{
    if tasks.len() == 0 {
        then(())
    } else {
        Plan::Ask(
            copy::task_call(tasks.last()),
            |r: ReplyView|
                match copy::task_next(tasks.last(), r) {
                    Err(f) => Plan::Done(Err(f)),
                    Ok(more) => if most == 0 {
                        Plan::Done(Err(Failure::Layer(Seq::empty())))
                    } else {
                        copy_plan(tasks.drop_last() + more, (most - 1) as nat, then)
                    },
                },
        )
    }
}

/// Moves an entry. What only the base has is copied up first, a directory with
/// all that is in it.
pub open spec fn rename_plan(from: Seq<char>, to: Seq<char>, now: i64, most: nat) -> OvPlan<()> {
    let f = normal(from);
    let finish = rename_finish_plan(from, to, now);
    on_stats(
        Call::Stat { layer: Layer::Delta, path: f },
        |d: Option<Stats>|
            if d is Some {
                finish
            } else {
                on_stats(
                    Call::Stat { layer: Layer::Base, path: f },
                    |b: Option<Stats>|
                        match b {
                            None => Plan::Done(Err(Failure::Fs(FsError::NotFound))),
                            Some(stats) => if types::dir_mode(stats.mode) {
                                copy_plan(seq![Task::MakeDir(f)], most, |_u: ()| finish)
                            } else {
                                on_bytes(
                                    Call::ReadFile { layer: Layer::Base, path: f },
                                    |c: Option<Seq<u8>>|
                                        match c {
                                            None => finish,
                                            Some(data) => parents_plan(
                                                f,
                                                |_u: ()|
                                                    on_done(
                                                        Call::WriteFile { path: f, data },
                                                        |_v: ()| finish,
                                                    ),
                                            ),
                                        },
                                )
                            },
                        },
                )
            },
    )
}

/// The end of a rename: the entry, which the delta has by now, moves there, and
/// where the base has the source it is marked as deleted.
pub open spec fn rename_finish_plan(from: Seq<char>, to: Seq<char>, now: i64) -> OvPlan<()> {
    let f = normal(from);
    let t = normal(to);
    on_done(
        Call::DropWhiteout { path: t },
        |_u: ()|
            parents_plan(
                t,
                |_v: ()|
                    on_done(
                        Call::Rename { from: f, to: t },
                        |_w: ()|
                            on_stats(
                                Call::Stat { layer: Layer::Base, path: f },
                                |b: Option<Stats>|
                                    if b is Some {
                                        on_done(
                                            Call::AddWhiteout { path: f, now },
                                            |x: ()| Plan::Done(Ok(x)),
                                        )
                                    } else {
                                        Plan::Done(Ok(()))
                                    },
                            ),
                    ),
            ),
    )
}

/// The target of a link: the delta's, else the base's.
pub open spec fn readlink_plan(path: Seq<char>) -> OvPlan<Option<Seq<char>>> {
    let p = normal(path);
    whiteout_plan(
        p,
        |hidden: bool|
            if hidden {
                Plan::Done(Ok(None))
            } else {
                on_target(
                    Call::Readlink { layer: Layer::Delta, path: p },
                    |d: Option<Seq<char>>|
                        match d {
                            Some(target) => Plan::Done(Ok(Some(target))),
                            None => on_target(
                                Call::Readlink { layer: Layer::Base, path: p },
                                |b: Option<Seq<char>>| Plan::Done(Ok(b)),
                            ),
                        },
                )
            },
    )
}

/// How much is in use: what the delta says, since what the base says would
/// mislead.
pub open spec fn statfs_plan() -> OvPlan<FilesystemStats> {
    Plan::Ask(Call::Statfs, |r: ReplyView| Plan::Done(calls::usage_reply(r)))
}

/// Why a step function stops: a call is to be made, or one has failed.
enum Halt {
    Ask(LayerCall),
    Fail(LayerFailure),
}

spec fn halted<T>(h: Halt) -> Head<CallView, Result<T, FailureView>> {
    match h {
        Halt::Ask(q) => Head::Ask(q@),
        Halt::Fail(f) => Head::Done(Err(f@)),
    }
}

impl Halt {
    fn step<T>(self) -> (r: Step<LayerCall, Result<T, LayerFailure>>)
        ensures
            match self {
                Halt::Ask(q) => r == Step::<LayerCall, Result<T, LayerFailure>>::Ask(q),
                Halt::Fail(f) => r == Step::<LayerCall, Result<T, LayerFailure>>::Done(Err(f)),
            },
    {
        match self {
            Halt::Ask(q) => Step::Ask(q),
            Halt::Fail(f) => Step::Done(Err(f)),
        }
    }
}

pub open spec fn unit_step(s: Step<LayerCall, Result<(), LayerFailure>>) -> Head<
    CallView,
    Result<(), FailureView>,
> {
    match s {
        Step::Ask(q) => Head::Ask(q@),
        Step::Done(r) => Head::Done(calls::unit_result(r)),
    }
}

pub open spec fn stats_step(s: Step<LayerCall, Result<Option<Stats>, LayerFailure>>) -> Head<
    CallView,
    Result<Option<Stats>, FailureView>,
> {
    match s {
        Step::Ask(q) => Head::Ask(q@),
        Step::Done(r) => Head::Done(calls::stats_result(r)),
    }
}

pub open spec fn bytes_step(s: Step<LayerCall, Result<Option<Vec<u8>>, LayerFailure>>) -> Head<
    CallView,
    Result<Option<Seq<u8>>, FailureView>,
> {
    match s {
        Step::Ask(q) => Head::Ask(q@),
        Step::Done(r) => Head::Done(calls::bytes_result(r)),
    }
}

pub open spec fn usage_step(s: Step<LayerCall, Result<FilesystemStats, LayerFailure>>) -> Head<
    CallView,
    Result<FilesystemStats, FailureView>,
> {
    match s {
        Step::Ask(q) => Head::Ask(q@),
        Step::Done(r) => Head::Done(calls::usage_result(r)),
    }
}

pub open spec fn names_step(s: Step<LayerCall, Result<Option<Vec<String>>, LayerFailure>>) -> Head<
    CallView,
    Result<Option<Seq<Seq<char>>>, FailureView>,
> {
    match s {
        Step::Ask(q) => Head::Ask(q@),
        Step::Done(r) => Head::Done(calls::names_result(r)),
    }
}

pub open spec fn target_step(s: Step<LayerCall, Result<Option<String>, LayerFailure>>) -> Head<
    CallView,
    Result<Option<Seq<char>>, FailureView>,
> {
    match s {
        Step::Ask(q) => Head::Ask(q@),
        Step::Done(r) => Head::Done(calls::target_result(r)),
    }
}

/// The path with a slash in front and none behind.
pub fn normalize_path(path: &str) -> (r: String)
    ensures
        r@ == normal(path@),
{
    let t = text::trim_end(path, Edge::Slash);
    let chars = text::chars_of(t.as_str());
    if chars.len() == 0 {
        "/".to_owned()
    } else if chars[0] != '/' {
        text::concat("/", t.as_str())
    } else {
        t
    }
}

/// The path of the directory above, unless that is the root.
pub fn path_above(path: &str) -> (r: Option<String>)
    ensures
        text::opt(r) == above(path@),
{
    let chars = text::chars_of(path);
    let mut n: usize = chars.len();
    assert(chars@.take(n as int) =~= chars@);
    while n > 0
        invariant
            n <= chars@.len(),
            chars@ == path@,
            last_slash(path@) == last_slash(path@.take(n as int)),
        decreases n,
    {
        let ghost upto = path@.take(n as int);
        assert(upto.last() == chars@[n - 1]);
        assert(upto.drop_last() =~= path@.take(n - 1));
        if chars[n - 1] == '/' {
            if n == 1 {
                return None;
            }
            let dir = text::string_of(&chars, 0, n - 1);
            assert(dir@ =~= path@.take(n - 1));
            return Some(dir);
        }
        n = n - 1;
    }
    None
}

fn stats_steps<T>(rp: &mut Replay<LayerReply>, q: LayerCall) -> (r: Result<Option<Stats>, Halt>)
    requires
        old(rp).ok(),
    ensures
        final(rp).ok(),
        final(rp).rest().len() <= old(rp).rest().len(),
        forall|then: spec_fn(Option<Stats>) -> OvPlan<T>|
            match r {
                Ok(s) => plan::after(#[trigger] on_stats::<T>(q@, then), old(rp).rest())
                    == plan::after(then(s), final(rp).rest()),
                Err(h) => plan::next(on_stats::<T>(q@, then), old(rp).rest()) == halted::<T>(h),
            },
{
    match rp.next() {
        None => Err(Halt::Ask(q)),
        Some(reply) => match reply.stats() {
            Err(f) => Err(Halt::Fail(f)),
            Ok(s) => Ok(s),
        },
    }
}

fn bytes_steps<T>(rp: &mut Replay<LayerReply>, q: LayerCall) -> (r: Result<Option<Vec<u8>>, Halt>)
    requires
        old(rp).ok(),
    ensures
        final(rp).ok(),
        forall|then: spec_fn(Option<Seq<u8>>) -> OvPlan<T>|
            match r {
                Ok(b) => plan::after(#[trigger] on_bytes::<T>(q@, then), old(rp).rest())
                    == plan::after(
                    then(
                        match b {
                            Some(data) => Some(data@),
                            None => None,
                        },
                    ),
                    final(rp).rest(),
                ),
                Err(h) => plan::next(on_bytes::<T>(q@, then), old(rp).rest()) == halted::<T>(h),
            },
{
    match rp.next() {
        None => Err(Halt::Ask(q)),
        Some(reply) => match reply.bytes() {
            Err(f) => Err(Halt::Fail(f)),
            Ok(b) => Ok(b),
        },
    }
}

fn names_steps<T>(rp: &mut Replay<LayerReply>, q: LayerCall) -> (r: Result<
    Option<Vec<String>>,
    Halt,
>)
    requires
        old(rp).ok(),
    ensures
        final(rp).ok(),
        forall|then: spec_fn(Option<Seq<Seq<char>>>) -> OvPlan<T>|
            match r {
                Ok(n) => plan::after(#[trigger] on_names::<T>(q@, then), old(rp).rest())
                    == plan::after(
                    then(
                        match n {
                            Some(names) => Some(text::views(names@)),
                            None => None,
                        },
                    ),
                    final(rp).rest(),
                ),
                Err(h) => plan::next(on_names::<T>(q@, then), old(rp).rest()) == halted::<T>(h),
            },
{
    match rp.next() {
        None => Err(Halt::Ask(q)),
        Some(reply) => match reply.names() {
            Err(f) => Err(Halt::Fail(f)),
            Ok(n) => Ok(n),
        },
    }
}

fn target_steps<T>(rp: &mut Replay<LayerReply>, q: LayerCall) -> (r: Result<Option<String>, Halt>)
    requires
        old(rp).ok(),
    ensures
        final(rp).ok(),
        forall|then: spec_fn(Option<Seq<char>>) -> OvPlan<T>|
            match r {
                Ok(t) => plan::after(#[trigger] on_target::<T>(q@, then), old(rp).rest())
                    == plan::after(then(text::opt(t)), final(rp).rest()),
                Err(h) => plan::next(on_target::<T>(q@, then), old(rp).rest()) == halted::<T>(h),
            },
{
    match rp.next() {
        None => Err(Halt::Ask(q)),
        Some(reply) => match reply.target() {
            Err(f) => Err(Halt::Fail(f)),
            Ok(t) => Ok(t),
        },
    }
}

fn done_steps<T>(rp: &mut Replay<LayerReply>, q: LayerCall) -> (r: Result<(), Halt>)
    requires
        old(rp).ok(),
    ensures
        final(rp).ok(),
        forall|then: spec_fn(()) -> OvPlan<T>|
            match r {
                Ok(u) => plan::after(#[trigger] on_done::<T>(q@, then), old(rp).rest())
                    == plan::after(then(u), final(rp).rest()),
                Err(h) => plan::next(on_done::<T>(q@, then), old(rp).rest()) == halted::<T>(h),
            },
{
    match rp.next() {
        None => Err(Halt::Ask(q)),
        Some(reply) => match reply.unit() {
            Err(f) => Err(Halt::Fail(f)),
            Ok(u) => Ok(u),
        },
    }
}

fn whiteout_steps<T>(rp: &mut Replay<LayerReply>, path: &str) -> (r: Result<bool, Halt>)
    requires
        old(rp).ok(),
    ensures
        final(rp).ok(),
        forall|then: spec_fn(bool) -> OvPlan<T>|
            match r {
                Ok(hidden) => plan::after(
                    #[trigger] whiteout_plan::<T>(path@, then),
                    old(rp).rest(),
                ) == plan::after(then(hidden), final(rp).rest()),
                Err(h) => plan::next(whiteout_plan::<T>(path@, then), old(rp).rest()) == halted::<
                    T,
                >(h),
            },
{
    let mut current = path.to_owned();
    loop
        invariant
            rp.ok(),
            forall|then: spec_fn(bool) -> OvPlan<T>|
                plan::after(#[trigger] whiteout_plan::<T>(path@, then), old(rp).rest())
                    == plan::after(whiteout_plan::<T>(current@, then), rp.rest()),
        decreases current@.len(),
    {
        let ghost was = current@;
        match rp.next() {
            None => {
                return Err(Halt::Ask(Call::HasWhiteout { path: current }));
            },
            Some(reply) => {
                match reply {
                    Reply::Failed(f) => {
                        return Err(Halt::Fail(f.clone()));
                    },
                    Reply::NoTable => {
                        return Ok(false);
                    },
                    _ => {},
                }
                if reply.is_true() {
                    return Ok(true);
                }
                match path_above(current.as_str()) {
                    Some(dir) => {
                        proof {
                            lemma_last_slash(was);
                        }
                        current = dir;
                    },
                    None => {
                        return Ok(false);
                    },
                }
            },
        }
    }
}

fn parents_steps<T>(rp: &mut Replay<LayerReply>, path: &str) -> (r: Result<(), Halt>)
    requires
        old(rp).ok(),
    ensures
        final(rp).ok(),
        forall|then: spec_fn(()) -> OvPlan<T>|
            match r {
                Ok(u) => plan::after(#[trigger] parents_plan::<T>(path@, then), old(rp).rest())
                    == plan::after(then(u), final(rp).rest()),
                Err(h) => plan::next(parents_plan::<T>(path@, then), old(rp).rest()) == halted::<
                    T,
                >(h),
            },
{
    let parts = paths::split_parts(path);
    let ghost all = text::views(parts@);
    let mut current = String::new();
    let mut i: usize = 0;
    assert(all.skip(0) =~= all);
    while parts.len() - i > 1
        invariant
            i <= parts@.len(),
            rp.ok(),
            all == text::views(parts@),
            all == paths::parts(path@),
            forall|then: spec_fn(()) -> OvPlan<T>|
                plan::after(#[trigger] parents_plan::<T>(path@, then), old(rp).rest())
                    == plan::after(ensure_plan::<T>(current@, all.skip(i as int), then), rp.rest()),
        decreases parts@.len() - i,
    {
        let ghost rest = all.skip(i as int);
        assert(rest[0] == parts@[i as int]@);
        assert(rest.drop_first() =~= all.skip(i + 1));
        let dir = text::concat3(current.as_str(), "/", parts[i].as_str());
        let found = match stats_steps::<T>(
            rp,
            Call::Stat { layer: Layer::Delta, path: dir.clone() },
        ) {
            Err(h) => {
                return Err(h);
            },
            Ok(s) => s,
        };
        if found.is_none() {
            match done_steps::<T>(rp, Call::DropWhiteout { path: dir.clone() }) {
                Err(h) => {
                    return Err(h);
                },
                Ok(_) => {},
            }
            if rp.next().is_none() {
                return Err(Halt::Ask(Call::Mkdir { path: dir }));
            }
        }
        current = dir;
        i = i + 1;
    }
    Ok(())
}

fn fix_root(path: &str, stats: Stats) -> (r: Stats)
    ensures
        r == with_root_ino(path@, stats),
{
    if text::same(path, "/") {
        Stats {
            ino: 1,
            mode: stats.mode,
            nlink: stats.nlink,
            uid: stats.uid,
            gid: stats.gid,
            size: stats.size,
            atime: stats.atime,
            mtime: stats.mtime,
            ctime: stats.ctime,
        }
    } else {
        stats
    }
}

fn create_steps(rp: &mut Replay<LayerReply>, path: &str, last: LayerCall) -> (r: Step<
    LayerCall,
    Result<(), LayerFailure>,
>)
    requires
        old(rp).ok(),
    ensures
        unit_step(r) == plan::next(create_plan(path@, last@), old(rp).rest()),
{
    match done_steps::<()>(rp, Call::DropWhiteout { path: path.to_owned() }) {
        Err(h) => {
            return h.step();
        },
        Ok(_) => {},
    }
    match parents_steps::<()>(rp, path) {
        Err(h) => {
            return h.step();
        },
        Ok(_) => {},
    }
    match done_steps::<()>(rp, last) {
        Err(h) => h.step(),
        Ok(_) => Step::Done(Ok(())),
    }
}

/// What copying up came to: the file is in the delta, or it is nowhere.
enum CopyUp {
    Ready,
    Missing,
}

fn copy_up_steps<T>(rp: &mut Replay<LayerReply>, path: &str) -> (r: Result<CopyUp, Halt>)
    requires
        old(rp).ok(),
    ensures
        final(rp).ok(),
        forall|missing: OvPlan<T>, then: spec_fn(()) -> OvPlan<T>|
            match r {
                Ok(CopyUp::Ready) => plan::after(
                    #[trigger] copy_up_plan::<T>(path@, missing, then),
                    old(rp).rest(),
                ) == plan::after(then(()), final(rp).rest()),
                Ok(CopyUp::Missing) => plan::after(
                    copy_up_plan::<T>(path@, missing, then),
                    old(rp).rest(),
                ) == plan::after(missing, final(rp).rest()),
                Err(h) => plan::next(copy_up_plan::<T>(path@, missing, then), old(rp).rest())
                    == halted::<T>(h),
            },
{
    match stats_steps::<T>(rp, Call::Stat { layer: Layer::Delta, path: path.to_owned() }) {
        Err(h) => {
            return Err(h);
        },
        Ok(Some(_)) => {
            return Ok(CopyUp::Ready);
        },
        Ok(None) => {},
    }
    let data = match bytes_steps::<T>(
        rp,
        Call::ReadFile { layer: Layer::Base, path: path.to_owned() },
    ) {
        Err(h) => {
            return Err(h);
        },
        Ok(None) => {
            return Ok(CopyUp::Missing);
        },
        Ok(Some(data)) => data,
    };
    match parents_steps::<T>(rp, path) {
        Err(h) => {
            return Err(h);
        },
        Ok(_) => {},
    }
    match done_steps::<T>(rp, Call::WriteFile { path: path.to_owned(), data }) {
        Err(h) => Err(h),
        Ok(_) => Ok(CopyUp::Ready),
    }
}

/// The names of the direct children of a directory among the paths in `list`;
/// `prefix` is what the paths of its entries start with.
pub fn get_child_whiteouts(prefix: &str, list: &Vec<String>) -> (r: Vec<String>)
    ensures
        text::views(r@) == child_names(prefix@, text::views(list@)),
{
    let ghost all = text::views(list@);
    proof {
        reveal(child_names);
    }
    let mut out: Vec<String> = Vec::new();
    let mut i: usize = 0;
    assert(text::views(out@) =~= child_names(prefix@, all.take(0)));
    while i < list.len()
        invariant
            i <= list@.len(),
            all == text::views(list@),
            text::views(out@) == child_names(prefix@, all.take(i as int)),
        decreases list@.len() - i,
    {
        proof {
            reveal(child_names);
        }
        assert(all.take(i + 1).drop_last() =~= all.take(i as int));
        assert(all.take(i + 1).last() == list@[i as int]@);
        let ghost before = text::views(out@);
        match text::strip_prefix(list[i].as_str(), prefix) {
            Some(name) => {
                let chars = text::chars_of(name.as_str());
                let mut plain = chars.len() > 0;
                let mut j: usize = 0;
                while j < chars.len()
                    invariant
                        j <= chars@.len(),
                        plain == (chars@.len() > 0 && forall|k: int|
                            0 <= k < j ==> chars@[k] != '/'),
                    decreases chars@.len() - j,
                {
                    if chars[j] == '/' {
                        plain = false;
                    }
                    j = j + 1;
                }
                if plain {
                    assert(!name@.contains('/'));
                    out.push(name);
                    assert(text::views(out@) =~= before.push(name@));
                } else {
                    assert(name@.len() == 0 || name@.contains('/'));
                }
            },
            None => {},
        }
        i = i + 1;
    }
    assert(all.take(i as int) =~= all);
    out
}

fn merge_names(delta: Option<Vec<String>>, base: Option<Vec<String>>, hidden: &Vec<String>) -> (r:
    Vec<String>)
    ensures
        text::views(r@) == merged(
            match delta {
                Some(n) => Some(text::views(n@)),
                None => None,
            },
            match base {
                Some(n) => Some(text::views(n@)),
                None => None,
            },
            text::views(hidden@),
        ),
{
    proof {
        reveal(merged);
    }
    let mut all: Vec<String> = match delta {
        Some(n) => n,
        None => Vec::new(),
    };
    let ghost head = text::views(all@);
    let below: Vec<String> = match base {
        Some(n) => n,
        None => Vec::new(),
    };
    let ghost bv = text::views(below@);
    proof {
        if delta is None {
            assert(head =~= Seq::<Seq<char>>::empty());
        }
        if base is None {
            assert(bv =~= Seq::<Seq<char>>::empty());
        }
        assert(shown(bv.take(0), text::views(hidden@)) =~= Seq::<Seq<char>>::empty());
        assert(head + shown(bv.take(0), text::views(hidden@)) =~= head);
    }
    let mut i: usize = 0;
    while i < below.len()
        invariant
            i <= below@.len(),
            bv == text::views(below@),
            text::views(all@) == head + shown(bv.take(i as int), text::views(hidden@)),
        decreases below@.len() - i,
    {
        assert(bv.take(i + 1).drop_last() =~= bv.take(i as int));
        assert(bv.take(i + 1).last() == below@[i as int]@);
        if !strmap::member(hidden, below[i].as_str()) {
            let ghost before = text::views(all@);
            all.push(below[i].clone());
            assert(text::views(all@) =~= before.push(below@[i as int]@));
            assert(text::views(all@) =~= head + shown(bv.take(i + 1), text::views(hidden@)));
        }
        i = i + 1;
    }
    assert(bv.take(i as int) =~= bv);
    text::sort_texts(&all)
}

fn present_steps(rp: &mut Replay<LayerReply>, path: &str, entries: Vec<String>) -> (r: Step<
    LayerCall,
    Result<Option<Vec<String>>, LayerFailure>,
>)
    requires
        old(rp).ok(),
    ensures
        names_step(r) == plan::next(
            present_plan(path@, text::views(entries@)),
            old(rp).rest(),
        ),
{
    let in_delta = match stats_steps::<Option<Seq<Seq<char>>>>(
        rp,
        Call::Stat { layer: Layer::Delta, path: path.to_owned() },
    ) {
        Err(h) => {
            return h.step();
        },
        Ok(s) => s.is_some(),
    };
    let in_base = match stats_steps::<Option<Seq<Seq<char>>>>(
        rp,
        Call::Stat { layer: Layer::Base, path: path.to_owned() },
    ) {
        Err(h) => {
            return h.step();
        },
        Ok(s) => s.is_some(),
    };
    if !in_delta && !in_base {
        Step::Done(Ok(None))
    } else {
        Step::Done(Ok(Some(entries)))
    }
}

fn listing_steps(rp: &mut Replay<LayerReply>, path: &str) -> (r: Step<
    LayerCall,
    Result<Option<Vec<String>>, LayerFailure>,
>)
    requires
        old(rp).ok(),
    ensures
        names_step(r) == plan::next(listing_plan(path@), old(rp).rest()),
{
    let prefix = if text::same(path, "/") {
        "/".to_owned()
    } else {
        text::concat(path, "/")
    };
    let whiteouts = match names_steps::<Option<Seq<Seq<char>>>>(
        rp,
        Call::WhiteoutsUnder { prefix: prefix.clone() },
    ) {
        Err(h) => {
            return h.step();
        },
        Ok(n) => n,
    };
    let delta = match names_steps::<Option<Seq<Seq<char>>>>(
        rp,
        Call::Readdir { layer: Layer::Delta, path: path.to_owned() },
    ) {
        Err(h) => {
            return h.step();
        },
        Ok(n) => n,
    };
    let base = match names_steps::<Option<Seq<Seq<char>>>>(
        rp,
        Call::Readdir { layer: Layer::Base, path: path.to_owned() },
    ) {
        Err(h) => {
            return h.step();
        },
        Ok(n) => n,
    };
    let listed: Vec<String> = match whiteouts {
        Some(n) => n,
        None => {
            let none: Vec<String> = Vec::new();
            assert(text::views(none@) =~= Seq::<Seq<char>>::empty());
            none
        },
    };
    let hidden = get_child_whiteouts(prefix.as_str(), &listed);
    let entries = merge_names(delta, base, &hidden);
    present_steps(rp, path, entries)
}

/// Copies the directory of the base at `path` up, with all that is in it.
fn copy_steps<T>(rp: &mut Replay<LayerReply>, path: &str) -> (r: Result<(), Halt>)
    requires
        old(rp).ok(),
    ensures
        final(rp).ok(),
        forall|most: nat, then: spec_fn(()) -> OvPlan<T>|
            most >= old(rp).rest().len() ==> match r {
                Ok(u) => plan::after(
                    #[trigger] copy_plan::<T>(seq![Task::MakeDir(path@)], most, then),
                    old(rp).rest(),
                ) == plan::after(then(u), final(rp).rest()),
                Err(h) => plan::next(
                    copy_plan::<T>(seq![Task::MakeDir(path@)], most, then),
                    old(rp).rest(),
                ) == halted::<T>(h),
            },
{
    let mut tree = CopyTree::new(path);
    let ghost start = seq![Task::<Seq<char>, Seq<u8>>::MakeDir(path@)];
    loop
        invariant
            rp.ok(),
            rp.rest().len() <= old(rp).rest().len(),
            start == seq![Task::<Seq<char>, Seq<u8>>::MakeDir(path@)],
            forall|most: nat, then: spec_fn(()) -> OvPlan<T>|
                most >= old(rp).rest().len() ==> plan::after(
                    #[trigger] copy_plan::<T>(start, most, then),
                    old(rp).rest(),
                ) == plan::after(
                    copy_plan::<T>(
                        tree@,
                        (most - (old(rp).rest().len() - rp.rest().len())) as nat,
                        then,
                    ),
                    rp.rest(),
                ),
        decreases rp.rest().len(),
    {
        let q = match tree.request() {
            None => {
                return Ok(());
            },
            Some(q) => q,
        };
        match rp.next() {
            None => {
                return Err(Halt::Ask(q));
            },
            Some(reply) => {
                match tree.reply(reply) {
                    Err(f) => {
                        return Err(Halt::Fail(f));
                    },
                    Ok(_) => {},
                }
            },
        }
    }
}

/// The end of a rename.
fn finish_steps(rp: &mut Replay<LayerReply>, from: &str, to: &str, now: i64) -> (r: Step<
    LayerCall,
    Result<(), LayerFailure>,
>)
    requires
        old(rp).ok(),
    ensures
        unit_step(r) == plan::next(rename_finish_plan(from@, to@, now), old(rp).rest()),
{
    let f = normalize_path(from);
    let t = normalize_path(to);
    match done_steps::<()>(rp, Call::DropWhiteout { path: t.clone() }) {
        Err(h) => {
            return h.step();
        },
        Ok(_) => {},
    }
    match parents_steps::<()>(rp, t.as_str()) {
        Err(h) => {
            return h.step();
        },
        Ok(_) => {},
    }
    match done_steps::<()>(rp, Call::Rename { from: f.clone(), to: t }) {
        Err(h) => {
            return h.step();
        },
        Ok(_) => {},
    }
    match stats_steps::<()>(rp, Call::Stat { layer: Layer::Base, path: f.clone() }) {
        Err(h) => {
            return h.step();
        },
        Ok(None) => {
            return Step::Done(Ok(()));
        },
        Ok(Some(_)) => {},
    }
    match done_steps::<()>(rp, Call::AddWhiteout { path: f, now }) {
        Err(h) => h.step(),
        Ok(_) => Step::Done(Ok(())),
    }
}

/// The overlay: a base that is only read, and a delta that takes all changes. It
/// holds nothing itself: each operation is handed the replies of the layers so
/// far.
pub struct OverlayFS;

impl OverlayFS {
    /// Statistics of what `path` leads to.
    pub fn stat(path: &str, replies: &Vec<LayerReply>) -> (r: Step<
        LayerCall,
        Result<Option<Stats>, LayerFailure>,
    >)
        ensures
            stats_step(r) == plan::next(stat_plan(path@), plan::views(replies@)),
    {
        let mut rp = Replay::new(replies);
        let p = normalize_path(path);
        match whiteout_steps::<Option<Stats>>(&mut rp, p.as_str()) {
            Err(h) => {
                return h.step();
            },
            Ok(hidden) => {
                if hidden {
                    return Step::Done(Ok(None));
                }
            },
        }
        match stats_steps::<Option<Stats>>(
            &mut rp,
            Call::Stat { layer: Layer::Delta, path: p.clone() },
        ) {
            Err(h) => {
                return h.step();
            },
            Ok(Some(stats)) => {
                return Step::Done(Ok(Some(stats)));
            },
            Ok(None) => {},
        }
        match stats_steps::<Option<Stats>>(&mut rp, Call::Stat { layer: Layer::Base, path: p.clone() }) {
            Err(h) => h.step(),
            Ok(Some(stats)) => Step::Done(Ok(Some(fix_root(p.as_str(), stats)))),
            Ok(None) => Step::Done(Ok(None)),
        }
    }

    /// Statistics of the entry at `path` itself.
    pub fn lstat(path: &str, replies: &Vec<LayerReply>) -> (r: Step<
        LayerCall,
        Result<Option<Stats>, LayerFailure>,
    >)
        ensures
            stats_step(r) == plan::next(lstat_plan(path@), plan::views(replies@)),
    {
        let mut rp = Replay::new(replies);
        let p = normalize_path(path);
        match whiteout_steps::<Option<Stats>>(&mut rp, p.as_str()) {
            Err(h) => {
                return h.step();
            },
            Ok(hidden) => {
                if hidden {
                    return Step::Done(Ok(None));
                }
            },
        }
        match stats_steps::<Option<Stats>>(
            &mut rp,
            Call::Lstat { layer: Layer::Delta, path: p.clone() },
        ) {
            Err(h) => {
                return h.step();
            },
            Ok(Some(stats)) => {
                return Step::Done(Ok(Some(stats)));
            },
            Ok(None) => {},
        }
        match stats_steps::<Option<Stats>>(
            &mut rp,
            Call::Lstat { layer: Layer::Base, path: p.clone() },
        ) {
            Err(h) => h.step(),
            Ok(Some(stats)) => Step::Done(Ok(Some(fix_root(p.as_str(), stats)))),
            Ok(None) => Step::Done(Ok(None)),
        }
    }

    /// Reads the file at `path`.
    pub fn read_file(path: &str, replies: &Vec<LayerReply>) -> (r: Step<
        LayerCall,
        Result<Option<Vec<u8>>, LayerFailure>,
    >)
        ensures
            bytes_step(r) == plan::next(read_file_plan(path@), plan::views(replies@)),
    {
        let mut rp = Replay::new(replies);
        let p = normalize_path(path);
        match whiteout_steps::<Option<Seq<u8>>>(&mut rp, p.as_str()) {
            Err(h) => {
                return h.step();
            },
            Ok(hidden) => {
                if hidden {
                    return Step::Done(Ok(None));
                }
            },
        }
        match bytes_steps::<Option<Seq<u8>>>(
            &mut rp,
            Call::ReadFile { layer: Layer::Delta, path: p.clone() },
        ) {
            Err(h) => {
                return h.step();
            },
            Ok(Some(data)) => {
                return Step::Done(Ok(Some(data)));
            },
            Ok(None) => {},
        }
        match bytes_steps::<Option<Seq<u8>>>(&mut rp, Call::ReadFile { layer: Layer::Base, path: p }) {
            Err(h) => h.step(),
            Ok(data) => Step::Done(Ok(data)),
        }
    }

    /// Writes `data` to the file at `path`.
    pub fn write_file(path: &str, data: &[u8], replies: &Vec<LayerReply>) -> (r: Step<
        LayerCall,
        Result<(), LayerFailure>,
    >)
        ensures
            unit_step(r) == plan::next(write_file_plan(path@, data@), plan::views(replies@)),
    {
        let mut rp = Replay::new(replies);
        let p = normalize_path(path);
        let last = Call::WriteFile { path: p.clone(), data: calls::copy_bytes(data) };
        create_steps(&mut rp, p.as_str(), last)
    }

    /// Reads a part of the file at `path`.
    pub fn pread(path: &str, offset: u64, size: u64, replies: &Vec<LayerReply>) -> (r: Step<
        LayerCall,
        Result<Option<Vec<u8>>, LayerFailure>,
    >)
        ensures
            bytes_step(r) == plan::next(pread_plan(path@, offset, size), plan::views(replies@)),
    {
        let mut rp = Replay::new(replies);
        let p = normalize_path(path);
        match whiteout_steps::<Option<Seq<u8>>>(&mut rp, p.as_str()) {
            Err(h) => {
                return h.step();
            },
            Ok(hidden) => {
                if hidden {
                    return Step::Done(Ok(None));
                }
            },
        }
        let layer = match stats_steps::<Option<Seq<u8>>>(
            &mut rp,
            Call::Stat { layer: Layer::Delta, path: p.clone() },
        ) {
            Err(h) => {
                return h.step();
            },
            Ok(Some(_)) => Layer::Delta,
            Ok(None) => Layer::Base,
        };
        match bytes_steps::<Option<Seq<u8>>>(&mut rp, Call::Pread { layer, path: p, offset, size }) {
            Err(h) => h.step(),
            Ok(data) => Step::Done(Ok(data)),
        }
    }

    /// Writes `data` into the file at `path`, from `offset` on.
    pub fn pwrite(path: &str, offset: u64, data: &[u8], replies: &Vec<LayerReply>) -> (r: Step<
        LayerCall,
        Result<(), LayerFailure>,
    >)
        ensures
            unit_step(r) == plan::next(pwrite_plan(path@, offset, data@), plan::views(replies@)),
    {
        let mut rp = Replay::new(replies);
        let p = normalize_path(path);
        match copy_up_steps::<()>(&mut rp, p.as_str()) {
            Err(h) => {
                return h.step();
            },
            Ok(_) => {},
        }
        let last = Call::Pwrite { path: p.clone(), offset, data: calls::copy_bytes(data) };
        create_steps(&mut rp, p.as_str(), last)
    }

    /// Cuts or extends the file at `path` to `size`.
    pub fn truncate(path: &str, size: u64, replies: &Vec<LayerReply>) -> (r: Step<
        LayerCall,
        Result<(), LayerFailure>,
    >)
        ensures
            unit_step(r) == plan::next(truncate_plan(path@, size), plan::views(replies@)),
    {
        let mut rp = Replay::new(replies);
        let p = normalize_path(path);
        match copy_up_steps::<()>(&mut rp, p.as_str()) {
            Err(h) => {
                return h.step();
            },
            Ok(CopyUp::Missing) => {
                return Step::Done(Err(Failure::Fs(FsError::NotFound)));
            },
            Ok(CopyUp::Ready) => {},
        }
        match done_steps::<()>(&mut rp, Call::Truncate { path: p, size }) {
            Err(h) => h.step(),
            Ok(_) => Step::Done(Ok(())),
        }
    }

    /// Lists the directory at `path`.
    pub fn readdir(path: &str, replies: &Vec<LayerReply>) -> (r: Step<
        LayerCall,
        Result<Option<Vec<String>>, LayerFailure>,
    >)
        ensures
            names_step(r) == plan::next(readdir_plan(path@), plan::views(replies@)),
    {
        let mut rp = Replay::new(replies);
        let p = normalize_path(path);
        match whiteout_steps::<Option<Seq<Seq<char>>>>(&mut rp, p.as_str()) {
            Err(h) => {
                return h.step();
            },
            Ok(hidden) => {
                if hidden {
                    return Step::Done(Ok(None));
                }
            },
        }
        listing_steps(&mut rp, p.as_str())
    }

    /// Creates a directory at `path`.
    pub fn mkdir(path: &str, replies: &Vec<LayerReply>) -> (r: Step<
        LayerCall,
        Result<(), LayerFailure>,
    >)
        ensures
            unit_step(r) == plan::next(mkdir_plan(path@), plan::views(replies@)),
    {
        let mut rp = Replay::new(replies);
        let p = normalize_path(path);
        let hidden = match whiteout_steps::<()>(&mut rp, p.as_str()) {
            Err(h) => {
                return h.step();
            },
            Ok(hidden) => hidden,
        };
        if !hidden {
            match stats_steps::<()>(&mut rp, Call::Stat { layer: Layer::Delta, path: p.clone() }) {
                Err(h) => {
                    return h.step();
                },
                Ok(Some(_)) => {
                    return Step::Done(Err(Failure::Fs(FsError::AlreadyExists)));
                },
                Ok(None) => {},
            }
            match stats_steps::<()>(&mut rp, Call::Stat { layer: Layer::Base, path: p.clone() }) {
                Err(h) => {
                    return h.step();
                },
                Ok(Some(_)) => {
                    return Step::Done(Err(Failure::Fs(FsError::AlreadyExists)));
                },
                Ok(None) => {},
            }
        }
        let last = Call::Mkdir { path: p.clone() };
        create_steps(&mut rp, p.as_str(), last)
    }

    /// Removes the entry at `path`.
    pub fn remove(path: &str, now: i64, replies: &Vec<LayerReply>) -> (r: Step<
        LayerCall,
        Result<(), LayerFailure>,
    >)
        ensures
            unit_step(r) == plan::next(remove_plan(path@, now), plan::views(replies@)),
    {
        let mut rp = Replay::new(replies);
        let p = normalize_path(path);
        let removed = match rp.next() {
            None => {
                return Step::Ask(Call::Remove { path: p });
            },
            Some(reply) => reply.unit().is_ok(),
        };
        let hidden = match whiteout_steps::<()>(&mut rp, p.as_str()) {
            Err(h) => {
                return h.step();
            },
            Ok(hidden) => hidden,
        };
        if !hidden {
            match stats_steps::<()>(&mut rp, Call::Stat { layer: Layer::Base, path: p.clone() }) {
                Err(h) => {
                    return h.step();
                },
                Ok(Some(_)) => {
                    return match done_steps::<()>(&mut rp, Call::AddWhiteout { path: p, now }) {
                        Err(h) => h.step(),
                        Ok(_) => Step::Done(Ok(())),
                    };
                },
                Ok(None) => {},
            }
        }
        if removed {
            Step::Done(Ok(()))
        } else {
            Step::Done(Err(Failure::Fs(FsError::NotFound)))
        }
    }

    /// Moves the entry at `from` to `to`. Each call of a copy has its reply, so the
    /// number of replies is bound enough for the plan.
    #[verifier::rlimit(60)]
    #[verifier::spinoff_prover]
    pub fn rename(from: &str, to: &str, now: i64, replies: &Vec<LayerReply>) -> (r: Step<
        LayerCall,
        Result<(), LayerFailure>,
    >)
        ensures
            forall|most: nat|
                most >= replies@.len() ==> unit_step(r) == plan::next(
                    #[trigger] rename_plan(from@, to@, now, most),
                    plan::views(replies@),
                ),
    {
        let mut rp = Replay::new(replies);
        let f = normalize_path(from);
        match stats_steps::<()>(&mut rp, Call::Stat { layer: Layer::Delta, path: f.clone() }) {
            Err(h) => {
                return h.step();
            },
            Ok(Some(_)) => {
                return finish_steps(&mut rp, from, to, now);
            },
            Ok(None) => {},
        }
        match stats_steps::<()>(&mut rp, Call::Stat { layer: Layer::Base, path: f.clone() }) {
            Err(h) => {
                return h.step();
            },
            Ok(None) => {
                return Step::Done(Err(Failure::Fs(FsError::NotFound)));
            },
            Ok(Some(stats)) => {
                if stats.is_directory() {
                    return match copy_steps::<()>(&mut rp, f.as_str()) {
                        Err(h) => h.step(),
                        Ok(_) => finish_steps(&mut rp, from, to, now),
                    };
                }
            },
        }
        match bytes_steps::<()>(&mut rp, Call::ReadFile { layer: Layer::Base, path: f.clone() }) {
            Err(h) => {
                return h.step();
            },
            Ok(None) => {},
            Ok(Some(data)) => {
                match parents_steps::<()>(&mut rp, f.as_str()) {
                    Err(h) => {
                        return h.step();
                    },
                    Ok(_) => {},
                }
                match done_steps::<()>(&mut rp, Call::WriteFile { path: f, data }) {
                    Err(h) => {
                        return h.step();
                    },
                    Ok(_) => {},
                }
            },
        }
        finish_steps(&mut rp, from, to, now)
    }

    /// Creates a symbolic link to `target` at `linkpath`.
    pub fn symlink(target: &str, linkpath: &str, replies: &Vec<LayerReply>) -> (r: Step<
        LayerCall,
        Result<(), LayerFailure>,
    >)
        ensures
            unit_step(r) == plan::next(symlink_plan(target@, linkpath@), plan::views(replies@)),
    {
        let mut rp = Replay::new(replies);
        let p = normalize_path(linkpath);
        let last = Call::Symlink { target: target.to_owned(), path: p.clone() };
        create_steps(&mut rp, p.as_str(), last)
    }

    /// The target of the link at `path`.
    pub fn readlink(path: &str, replies: &Vec<LayerReply>) -> (r: Step<
        LayerCall,
        Result<Option<String>, LayerFailure>,
    >)
        ensures
            target_step(r) == plan::next(readlink_plan(path@), plan::views(replies@)),
    {
        let mut rp = Replay::new(replies);
        let p = normalize_path(path);
        match whiteout_steps::<Option<Seq<char>>>(&mut rp, p.as_str()) {
            Err(h) => {
                return h.step();
            },
            Ok(hidden) => {
                if hidden {
                    return Step::Done(Ok(None));
                }
            },
        }
        match target_steps::<Option<Seq<char>>>(
            &mut rp,
            Call::Readlink { layer: Layer::Delta, path: p.clone() },
        ) {
            Err(h) => {
                return h.step();
            },
            Ok(Some(target)) => {
                return Step::Done(Ok(Some(target)));
            },
            Ok(None) => {},
        }
        match target_steps::<Option<Seq<char>>>(
            &mut rp,
            Call::Readlink { layer: Layer::Base, path: p },
        ) {
            Err(h) => h.step(),
            Ok(target) => Step::Done(Ok(target)),
        }
    }

    /// How much is in use.
    pub fn statfs(replies: &Vec<LayerReply>) -> (r: Step<
        LayerCall,
        Result<FilesystemStats, LayerFailure>,
    >)
        ensures
            usage_step(r) == plan::next(statfs_plan(), plan::views(replies@)),
    {
        let mut rp = Replay::new(replies);
        match rp.next() {
            None => Step::Ask(Call::Statfs),
            Some(reply) => Step::Done(reply.usage()),
        }
    }
}

} // verus!
