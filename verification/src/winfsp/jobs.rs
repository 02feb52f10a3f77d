//! The course of each request of Windows: the calls that it makes on the file
//! system, and how it ends.

use crate::fs::types;
use crate::nodes;
use crate::nodes::{
    FileRef, NodeCall, NodeCallView, NodeEntry, NodeEntryView, NodeReply, NodeReplyView,
    NodeRequest, NodeResponse, NodeStats, TimeChange,
};
use crate::overlay::calls::copy_bytes;
use crate::paths;
use crate::plan;
use crate::plan::{Head, Plan, Replay, Step};
use crate::text;
use crate::winfsp::info;
use crate::winfsp::info::{FileInfo, PathFailure};
use vstd::prelude::*;
use vstd::string::*;

verus! {

broadcast use crate::plan::group_after;

/// A line of a directory listing.
#[derive(Debug)]
pub struct DirLine<S> {
    pub name: S,
    pub info: FileInfo,
}

pub type DirLineView = DirLine<Seq<char>>;

impl View for DirLine<String> {
    type V = DirLineView;

    open spec fn view(&self) -> DirLineView {
        DirLine { name: self.name@, info: self.info }
    }
}

/// What a request comes to where it does not fail. `Option<FileInfo>` is what is
/// told of the file, if it could be found.
#[derive(Debug)]
pub enum Good<B, L> {
    /// Whether it is a link, and the attributes.
    Security { reparse: bool, attributes: u32 },
    /// The entry is open; a file has been opened, a directory needs not to be.
    Opened { info: FileInfo, ino: i64, is_dir: bool },
    Info(FileInfo),
    Changed(Option<FileInfo>),
    Data(B),
    Written { len: u32, info: Option<FileInfo> },
    Listing(L),
    Volume { total_size: u64, free_size: u64 },
    Done,
}

pub type GoodView = Good<Seq<u8>, Seq<DirLineView>>;

pub type WinGood = Good<Vec<u8>, Vec<DirLine<String>>>;

impl View for Good<Vec<u8>, Vec<DirLine<String>>> {
    type V = GoodView;

    open spec fn view(&self) -> GoodView {
        match self {
            Good::Security { reparse, attributes } => Good::Security {
                reparse: *reparse,
                attributes: *attributes,
            },
            Good::Opened { info, ino, is_dir } => Good::Opened {
                info: *info,
                ino: *ino,
                is_dir: *is_dir,
            },
            Good::Info(i) => Good::Info(*i),
            Good::Changed(i) => Good::Changed(*i),
            Good::Data(b) => Good::Data(b@),
            Good::Written { len, info } => Good::Written { len: *len, info: *info },
            Good::Listing(l) => Good::Listing(plan::views(l@)),
            Good::Volume { total_size, free_size } => Good::Volume {
                total_size: *total_size,
                free_size: *free_size,
            },
            Good::Done => Good::Done,
        }
    }
}

/// How a request ends: with what it comes to or a status code, and whether a
/// handle has been taken on the way.
#[derive(Debug)]
pub struct End<G> {
    pub result: Result<G, i32>,
    pub handle: bool,
}

pub type EndView = End<GoodView>;

pub type WinEnd = End<WinGood>;

pub open spec fn end_view(e: WinEnd) -> EndView {
    End {
        result: match e.result {
            Ok(g) => Ok(g@),
            Err(s) => Err(s),
        },
        handle: e.handle,
    }
}

pub type WinPlan = Plan<NodeCallView, NodeReplyView, EndView>;

pub type WinHead = Head<NodeCallView, EndView>;

pub type WinStep = Step<NodeRequest, WinEnd>;

pub open spec fn step_view(s: WinStep) -> WinHead {
    match s {
        Step::Done(e) => Head::Done(end_view(e)),
        Step::Ask(q) => Head::Ask(q@),
    }
}

pub open spec fn refuse(status: i32) -> WinPlan {
    Plan::Done(End { result: Err(status), handle: false })
}

pub open spec fn good(g: GoodView) -> WinPlan {
    Plan::Done(End { result: Ok(g), handle: false })
}

fn refused(status: i32) -> (r: WinStep)
    ensures
        step_view(r) == plan::head(refuse(status)),
{
    Step::Done(End { result: Err(status), handle: false })
}

fn done(g: WinGood) -> (r: WinStep)
    ensures
        step_view(r) == plan::head(good(g@)),
{
    Step::Done(End { result: Ok(g), handle: false })
}

/// Walks down from an inode through directories, component by component.
pub open spec fn walk_plan(
    ino: i64,
    components: Seq<Seq<char>>,
    then: spec_fn(Result<i64, PathFailure>) -> WinPlan,
) -> WinPlan
    decreases components.len(),
{
    if components.len() == 0 {
        then(Ok(ino))
    } else {
        Plan::Ask(
            NodeCall::Lookup { parent: ino, name: components[0] },
            |r: NodeReplyView|
                match nodes::stats_reply(r) {
                    Ok(Some(s)) => if types::dir_mode(s.stats.mode) {
                        walk_plan(s.stats.ino, components.drop_first(), then)
                    } else {
                        then(Err(PathFailure::Message))
                    },
                    Ok(None) => then(Err(PathFailure::Message)),
                    Err(e) => then(Err(PathFailure::Sdk(e))),
                },
        )
    }
}

pub type ParsedView = Result<(i64, Seq<char>), PathFailure>;

pub open spec fn parsed_view(r: Result<(i64, String), PathFailure>) -> ParsedView {
    match r {
        Ok(p) => Ok((p.0, p.1@)),
        Err(f) => Err(f),
    }
}

/// Finds the directory that holds the entry at `path`, and the name of the entry.
/// The root counts as the entry without a name in itself.
pub open spec fn parse_plan(path: Seq<char>, then: spec_fn(ParsedView) -> WinPlan) -> WinPlan {
    let components = paths::parts(path);
    if components.len() == 0 {
        then(Ok((1, Seq::<char>::empty())))
    } else {
        walk_plan(
            1,
            components.drop_last(),
            |r: Result<i64, PathFailure>|
                match r {
                    Ok(ino) => then(Ok((ino, components.last()))),
                    Err(f) => then(Err(f)),
                },
        )
    }
}

/// The reply to a lookup, as it is gone on with.
pub open spec fn looked_up(r: NodeReplyView) -> Result<Option<NodeStats>, PathFailure> {
    match nodes::stats_reply(r) {
        Ok(s) => Ok(s),
        Err(e) => Err(PathFailure::Sdk(e)),
    }
}

/// Finds the entry at `path`.
pub open spec fn find_plan(
    path: Seq<char>,
    then: spec_fn(Result<Option<NodeStats>, PathFailure>) -> WinPlan,
) -> WinPlan {
    if paths::parts(path).len() == 0 {
        Plan::Ask(NodeCall::Getattr { ino: 1 }, |r: NodeReplyView| then(looked_up(r)))
    } else {
        parse_plan(
            path,
            |p: ParsedView|
                match p {
                    Err(f) => then(Err(f)),
                    Ok(p) => Plan::Ask(
                        NodeCall::Lookup { parent: p.0, name: p.1 },
                        |r: NodeReplyView| then(looked_up(r)),
                    ),
                },
        )
    }
}

fn parse_steps<'a>(path: &str, rp: &mut Replay<'a, NodeResponse>) -> (r: Result<
    Result<(i64, String), PathFailure>,
    NodeRequest,
>)
    requires
        old(rp).ok(),
    ensures
        final(rp).ok(),
        forall|then: spec_fn(ParsedView) -> WinPlan|
            match r {
                Ok(p) => plan::after(#[trigger] parse_plan(path@, then), old(rp).rest())
                    == plan::after(then(parsed_view(p)), final(rp).rest()),
                Err(q) => plan::next(parse_plan(path@, then), old(rp).rest()) == WinHead::Ask(q@),
            },
{
    let mut components = paths::split_parts(path);
    let ghost all = text::views(components@);
    let name = match components.pop() {
        None => {
            let empty = String::new();
            assert(empty@ =~= Seq::<char>::empty());
            return Ok(Ok((1, empty)));
        },
        Some(name) => name,
    };
    let ghost front = all.drop_last();
    assert(text::views(components@) =~= front);
    let mut ino: i64 = 1;
    let mut i: usize = 0;
    assert(front.skip(0) =~= front);
    while i < components.len()
        invariant
            i <= components@.len(),
            rp.ok(),
            front == text::views(components@),
            all == paths::parts(path@),
            all.len() > 0,
            front == all.drop_last(),
            name@ == all.last(),
            forall|then: spec_fn(ParsedView) -> WinPlan|
                plan::after(#[trigger] parse_plan(path@, then), old(rp).rest()) == plan::after(
                    walk_plan(
                        ino,
                        front.skip(i as int),
                        |r: Result<i64, PathFailure>|
                            match r {
                                Ok(ino) => then(Ok((ino, all.last()))),
                                Err(f) => then(Err(f)),
                            },
                    ),
                    rp.rest(),
                ),
        decreases components@.len() - i,
    {
        assert(front.skip(i as int).drop_first() =~= front.skip(i + 1));
        assert(front.skip(i as int)[0] == components@[i as int]@);
        let reply = match rp.next() {
            None => {
                return Err(NodeCall::Lookup { parent: ino, name: components[i].clone() });
            },
            Some(x) => x,
        };
        match reply.stats() {
            Ok(Some(s)) => {
                if s.stats.is_directory() {
                    ino = s.stats.ino;
                } else {
                    return Ok(Err(PathFailure::Message));
                }
            },
            Ok(None) => {
                return Ok(Err(PathFailure::Message));
            },
            Err(e) => {
                return Ok(Err(PathFailure::Sdk(e)));
            },
        }
        i = i + 1;
    }
    Ok(Ok((ino, name)))
}

fn lookup_result(reply: &NodeResponse) -> (r: Result<Option<NodeStats>, PathFailure>)
    ensures
        r == looked_up(reply@),
{
    match reply.stats() {
        Ok(s) => Ok(s),
        Err(e) => Err(PathFailure::Sdk(e)),
    }
}

fn find_steps<'a>(path: &str, rp: &mut Replay<'a, NodeResponse>) -> (r: Result<
    Result<Option<NodeStats>, PathFailure>,
    NodeRequest,
>)
    requires
        old(rp).ok(),
    ensures
        final(rp).ok(),
        forall|then: spec_fn(Result<Option<NodeStats>, PathFailure>) -> WinPlan|
            match r {
                Ok(s) => plan::after(#[trigger] find_plan(path@, then), old(rp).rest())
                    == plan::after(then(s), final(rp).rest()),
                Err(q) => plan::next(find_plan(path@, then), old(rp).rest()) == WinHead::Ask(q@),
            },
{
    let components = paths::split_parts(path);
    if components.len() == 0 {
        return match rp.next() {
            None => Err(NodeCall::Getattr { ino: 1 }),
            Some(x) => Ok(lookup_result(x)),
        };
    }
    match parse_steps(path, rp) {
        Err(q) => Err(q),
        Ok(Err(f)) => Ok(Err(f)),
        Ok(Ok(p)) => match rp.next() {
            None => Err(NodeCall::Lookup { parent: p.0, name: p.1 }),
            Some(x) => Ok(lookup_result(x)),
        },
    }
}

/// What Windows is told of the rights to an entry.
pub open spec fn security_plan(path: Seq<char>) -> WinPlan {
    find_plan(
        path,
        |s: Result<Option<NodeStats>, PathFailure>|
            match s {
                Ok(Some(s)) => good(
                    Good::Security {
                        reparse: types::link_mode(s.stats.mode),
                        attributes: info::attributes_of(s.stats.mode),
                    },
                ),
                Ok(None) => refuse(info::STATUS_OBJECT_NAME_NOT_FOUND),
                Err(f) => refuse(info::path_status(f)),
            },
    )
}

/// What Windows is told of the rights to an entry.
pub fn run_security(path: &str, replies: &Vec<NodeResponse>) -> (r: WinStep)
    ensures
        step_view(r) == plan::next(security_plan(path@), plan::views(replies@)),
{
    let mut rp = Replay::new(replies);
    match find_steps(path, &mut rp) {
        Err(q) => Step::Ask(q),
        Ok(Ok(Some(s))) => done(
            Good::Security {
                reparse: s.stats.is_symlink(),
                attributes: info::mode_to_attributes(s.stats.mode),
            },
        ),
        Ok(Ok(None)) => refused(info::STATUS_OBJECT_NAME_NOT_FOUND),
        Ok(Err(f)) => refused(info::anyhow_to_ntstatus(f)),
    }
}

/// Enters the open entry with these statistics: a handle is taken, and a file is
/// opened.
pub open spec fn enter_plan(s: NodeStats, is_dir: bool) -> WinPlan {
    let opened = End {
        result: Ok::<GoodView, i32>(
            Good::Opened { info: info::info_of(s.stats), ino: s.stats.ino, is_dir },
        ),
        handle: true,
    };
    if is_dir {
        Plan::Done(opened)
    } else {
        Plan::Ask(
            NodeCall::Open { ino: s.stats.ino },
            |r: NodeReplyView|
                match nodes::unit_reply(r) {
                    Ok(_) => Plan::Done(opened),
                    Err(e) => Plan::Done(End { result: Err(info::status_of(e)), handle: true }),
                },
        )
    }
}

fn enter_steps<'a>(s: &NodeStats, is_dir: bool, rp: &mut Replay<'a, NodeResponse>) -> (r: WinStep)
    requires
        old(rp).ok(),
    ensures
        step_view(r) == plan::next(enter_plan(*s, is_dir), old(rp).rest()),
{
    if !is_dir {
        match rp.next() {
            None => {
                return Step::Ask(NodeCall::Open { ino: s.stats.ino });
            },
            Some(x) => {
                if let Err(e) = x.unit() {
                    return Step::Done(
                        End { result: Err(info::error_to_ntstatus(e)), handle: true },
                    );
                }
            },
        }
    }
    Step::Done(
        End {
            result: Ok(
                Good::Opened {
                    info: info::fill_file_info(&s.stats),
                    ino: s.stats.ino,
                    is_dir,
                },
            ),
            handle: true,
        },
    )
}

/// Opens an entry.
pub open spec fn open_plan(path: Seq<char>) -> WinPlan {
    find_plan(
        path,
        |s: Result<Option<NodeStats>, PathFailure>|
            match s {
                Ok(Some(s)) => enter_plan(s, types::dir_mode(s.stats.mode)),
                Ok(None) => refuse(info::STATUS_OBJECT_NAME_NOT_FOUND),
                Err(f) => refuse(info::path_status(f)),
            },
    )
}

/// Opens an entry.
pub fn run_open(path: &str, replies: &Vec<NodeResponse>) -> (r: WinStep)
    ensures
        step_view(r) == plan::next(open_plan(path@), plan::views(replies@)),
{
    let mut rp = Replay::new(replies);
    match find_steps(path, &mut rp) {
        Err(q) => Step::Ask(q),
        Ok(Ok(Some(s))) => {
            let is_dir = s.stats.is_directory();
            enter_steps(&s, is_dir, &mut rp)
        },
        Ok(Ok(None)) => refused(info::STATUS_OBJECT_NAME_NOT_FOUND),
        Ok(Err(f)) => refused(info::anyhow_to_ntstatus(f)),
    }
}

/// The call that makes a new directory or file.
pub open spec fn make_call(parent: i64, name: Seq<char>, is_dir: bool) -> NodeCallView {
    if is_dir {
        NodeCall::Mkdir { parent, name, mode: Some(0o755), uid: 0, gid: 0 }
    } else {
        NodeCall::Mknod { parent, name, mode: 0o100644, rdev: 0, uid: 0, gid: 0 }
    }
}

/// Opens an entry, which is made if it is not there.
pub open spec fn create_plan(path: Seq<char>, is_dir: bool) -> WinPlan {
    parse_plan(
        path,
        |p: ParsedView|
            match p {
                Err(f) => refuse(info::path_status(f)),
                Ok(p) => Plan::Ask(
                    NodeCall::Lookup { parent: p.0, name: p.1 },
                    |r: NodeReplyView|
                        match nodes::stats_reply(r) {
                            Ok(Some(s)) => enter_plan(s, is_dir),
                            Ok(None) => Plan::Ask(
                                make_call(p.0, p.1, is_dir),
                                |r: NodeReplyView|
                                    match nodes::made_reply(r) {
                                        Ok(s) => enter_plan(s, is_dir),
                                        Err(e) => refuse(info::status_of(e)),
                                    },
                            ),
                            Err(e) => refuse(info::status_of(e)),
                        },
                ),
            },
    )
}

/// Opens an entry, which is made if it is not there.
pub fn run_create(path: &str, is_dir: bool, replies: &Vec<NodeResponse>) -> (r: WinStep)
    ensures
        step_view(r) == plan::next(create_plan(path@, is_dir), plan::views(replies@)),
{
    let mut rp = Replay::new(replies);
    let (parent, name): (i64, String) = match parse_steps(path, &mut rp) {
        Err(q) => {
            return Step::Ask(q);
        },
        Ok(Err(f)) => {
            return refused(info::anyhow_to_ntstatus(f));
        },
        Ok(Ok(p)) => p,
    };
    let reply = match rp.next() {
        None => {
            return Step::Ask(NodeCall::Lookup { parent, name });
        },
        Some(x) => x,
    };
    match reply.stats() {
        Ok(Some(s)) => enter_steps(&s, is_dir, &mut rp),
        Err(e) => refused(info::error_to_ntstatus(e)),
        Ok(None) => match rp.next() {
            None => if is_dir {
                Step::Ask(NodeCall::Mkdir { parent, name, mode: Some(0o755), uid: 0, gid: 0 })
            } else {
                Step::Ask(NodeCall::Mknod { parent, name, mode: 0o100644, rdev: 0, uid: 0, gid: 0 })
            },
            Some(x) => match x.made() {
                Ok(s) => enter_steps(&s, is_dir, &mut rp),
                Err(e) => refused(info::error_to_ntstatus(e)),
            },
        },
    }
}

/// Deletes an entry that was to be deleted on closing. Failures are of no
/// account.
pub open spec fn delete_plan(path: Seq<char>, is_dir: bool) -> WinPlan {
    parse_plan(
        path,
        |p: ParsedView|
            match p {
                Err(_) => good(Good::Done),
                Ok(p) => Plan::Ask(
                    if is_dir {
                        NodeCall::Rmdir { parent: p.0, name: p.1 }
                    } else {
                        NodeCall::Unlink { parent: p.0, name: p.1 }
                    },
                    |r: NodeReplyView| good(Good::Done),
                ),
            },
    )
}

/// Deletes an entry that was to be deleted on closing.
pub fn run_delete(path: &str, is_dir: bool, replies: &Vec<NodeResponse>) -> (r: WinStep)
    ensures
        step_view(r) == plan::next(delete_plan(path@, is_dir), plan::views(replies@)),
{
    let mut rp = Replay::new(replies);
    match parse_steps(path, &mut rp) {
        Err(q) => Step::Ask(q),
        Ok(Err(_)) => done(Good::Done),
        Ok(Ok(p)) => match rp.next() {
            None => if is_dir {
                Step::Ask(NodeCall::Rmdir { parent: p.0, name: p.1 })
            } else {
                Step::Ask(NodeCall::Unlink { parent: p.0, name: p.1 })
            },
            Some(_) => done(Good::Done),
        },
    }
}

/// What is told of an open file, which has to be found.
pub open spec fn info_plan(ino: i64) -> WinPlan {
    Plan::Ask(
        NodeCall::Getattr { ino },
        |r: NodeReplyView|
            match nodes::stats_reply(r) {
                Ok(Some(s)) => good(Good::Info(info::info_of(s.stats))),
                Ok(None) => refuse(info::STATUS_OBJECT_NAME_NOT_FOUND),
                Err(e) => refuse(info::status_of(e)),
            },
    )
}

/// What is told of an open file.
pub fn run_info(ino: i64, replies: &Vec<NodeResponse>) -> (r: WinStep)
    ensures
        step_view(r) == plan::next(info_plan(ino), plan::views(replies@)),
{
    let mut rp = Replay::new(replies);
    match rp.next() {
        None => Step::Ask(NodeCall::Getattr { ino }),
        Some(x) => match x.stats() {
            Ok(Some(s)) => done(Good::Info(info::fill_file_info(&s.stats))),
            Ok(None) => refused(info::STATUS_OBJECT_NAME_NOT_FOUND),
            Err(e) => refused(info::error_to_ntstatus(e)),
        },
    }
}

/// What is told of a file, if it can be found.
pub open spec fn info_reply(r: NodeReplyView) -> Option<FileInfo> {
    match nodes::stats_reply(r) {
        Ok(Some(s)) => Some(info::info_of(s.stats)),
        _ => None,
    }
}

fn info_if_found(reply: &NodeResponse) -> (r: Option<FileInfo>)
    ensures
        r == info_reply(reply@),
{
    match reply.stats() {
        Ok(Some(s)) => Some(info::fill_file_info(&s.stats)),
        _ => None,
    }
}

/// The end of a change: what is told of the file, if it can be found.
pub open spec fn changed_plan(ino: i64) -> WinPlan {
    Plan::Ask(
        NodeCall::Getattr { ino },
        |r: NodeReplyView| good(Good::Changed(info_reply(r))),
    )
}

fn changed_steps<'a>(ino: i64, rp: &mut Replay<'a, NodeResponse>) -> (r: WinStep)
    requires
        old(rp).ok(),
    ensures
        step_view(r) == plan::next(changed_plan(ino), old(rp).rest()),
{
    match rp.next() {
        None => Step::Ask(NodeCall::Getattr { ino }),
        Some(x) => done(Good::Changed(info_if_found(x))),
    }
}

/// Goes on where a call has succeeded.
pub open spec fn or_fail(q: NodeCallView, then: WinPlan) -> WinPlan {
    Plan::Ask(
        q,
        |r: NodeReplyView|
            match nodes::unit_reply(r) {
                Ok(_) => then,
                Err(e) => refuse(info::status_of(e)),
            },
    )
}

/// Changes the times of a file.
pub open spec fn basic_plan(ino: i64, atime: TimeChange, mtime: TimeChange) -> WinPlan {
    or_fail(NodeCall::Utimens { ino, atime, mtime }, changed_plan(ino))
}

/// Changes the times of a file.
pub fn run_basic(
    ino: i64,
    atime: TimeChange,
    mtime: TimeChange,
    replies: &Vec<NodeResponse>,
) -> (r: WinStep)
    ensures
        step_view(r) == plan::next(basic_plan(ino, atime, mtime), plan::views(replies@)),
{
    let mut rp = Replay::new(replies);
    match rp.next() {
        None => Step::Ask(NodeCall::Utimens { ino, atime, mtime }),
        Some(x) => match x.unit() {
            Err(e) => refused(info::error_to_ntstatus(e)),
            Ok(_) => changed_steps(ino, &mut rp),
        },
    }
}

/// Moves an entry.
pub open spec fn rename_plan(old_path: Seq<char>, new_path: Seq<char>) -> WinPlan {
    parse_plan(
        old_path,
        |a: ParsedView|
            match a {
                Err(f) => refuse(info::path_status(f)),
                Ok(a) => parse_plan(
                    new_path,
                    |b: ParsedView|
                        match b {
                            Err(f) => refuse(info::path_status(f)),
                            Ok(b) => or_fail(
                                NodeCall::Rename {
                                    parent: a.0,
                                    name: a.1,
                                    newparent: b.0,
                                    newname: b.1,
                                },
                                good(Good::Done),
                            ),
                        },
                ),
            },
    )
}

/// Moves an entry.
pub fn run_rename(old_path: &str, new_path: &str, replies: &Vec<NodeResponse>) -> (r: WinStep)
    ensures
        step_view(r) == plan::next(rename_plan(old_path@, new_path@), plan::views(replies@)),
{
    let mut rp = Replay::new(replies);
    let a = match parse_steps(old_path, &mut rp) {
        Err(q) => {
            return Step::Ask(q);
        },
        Ok(Err(f)) => {
            return refused(info::anyhow_to_ntstatus(f));
        },
        Ok(Ok(p)) => p,
    };
    let b = match parse_steps(new_path, &mut rp) {
        Err(q) => {
            return Step::Ask(q);
        },
        Ok(Err(f)) => {
            return refused(info::anyhow_to_ntstatus(f));
        },
        Ok(Ok(p)) => p,
    };
    match rp.next() {
        None => Step::Ask(
            NodeCall::Rename { parent: a.0, name: a.1, newparent: b.0, newname: b.1 },
        ),
        Some(x) => match x.unit() {
            Ok(_) => done(Good::Done),
            Err(e) => refused(info::error_to_ntstatus(e)),
        },
    }
}

/// Where a listing starts: behind the entry with the name of the marker, or at
/// the start if there is none.
pub open spec fn start_of(entries: Seq<NodeEntryView>, marker: Option<Seq<char>>, n: int) -> int
    decreases n,
{
    if n <= 0 || marker is None {
        0
    } else if start_of(entries, marker, n - 1) > 0 {
        start_of(entries, marker, n - 1)
    } else if entries[n - 1].name == marker->0 {
        n
    } else {
        0
    }
}

/// The lines of a listing.
pub open spec fn lines_from(entries: Seq<NodeEntryView>, start: int) -> Seq<DirLineView> {
    Seq::new(
        (entries.len() - start) as nat,
        |i: int|
            DirLine {
                name: entries[start + i].name,
                info: info::info_of(entries[start + i].node.stats),
            },
    )
}

/// Lists a directory.
pub open spec fn list_plan(ino: i64, marker: Option<Seq<char>>) -> WinPlan {
    Plan::Ask(
        NodeCall::ReaddirPlus { ino },
        |r: NodeReplyView|
            match r {
                NodeReply::Failed(e) => refuse(info::status_of(e)),
                NodeReply::Entries(Some(entries)) => good(
                    Good::Listing(
                        lines_from(entries, start_of(entries, marker, entries.len() as int)),
                    ),
                ),
                NodeReply::Entries(None) => refuse(info::STATUS_OBJECT_NAME_NOT_FOUND),
                _ => refuse(info::STATUS_INVALID_PARAMETER),
            },
    )
}

fn find_start(entries: &Vec<NodeEntry<String>>, marker: &Option<String>) -> (r: usize)
    ensures
        r <= entries@.len(),
        r == start_of(plan::views(entries@), text::opt(*marker), entries@.len() as int),
{
    let ghost seen = plan::views(entries@);
    let ghost wanted = text::opt(*marker);
    let name = match marker {
        None => {
            return 0;
        },
        Some(name) => name,
    };
    let mut i: usize = 0;
    while i < entries.len()
        invariant
            i <= entries@.len(),
            seen == plan::views(entries@),
            wanted == text::opt(*marker),
            wanted == Some(name@),
            start_of(seen, wanted, i as int) == 0,
        decreases entries@.len() - i,
    {
        assert(seen[i as int] == entries@[i as int]@);
        if text::same(entries[i].name.as_str(), name.as_str()) {
            proof {
                lemma_start_stays(seen, wanted, i + 1, entries@.len() as int);
            }
            return i + 1;
        }
        i = i + 1;
    }
    0
}

proof fn lemma_start_stays(
    entries: Seq<NodeEntryView>,
    marker: Option<Seq<char>>,
    i: int,
    n: int,
)
    requires
        0 <= i <= n,
        start_of(entries, marker, i) > 0,
    ensures
        start_of(entries, marker, n) == start_of(entries, marker, i),
    decreases n - i,
{
    if i < n {
        lemma_start_stays(entries, marker, i, n - 1);
    }
}

/// Lists a directory.
pub fn run_list(ino: i64, marker: &Option<String>, replies: &Vec<NodeResponse>) -> (r: WinStep)
    ensures
        step_view(r) == plan::next(list_plan(ino, text::opt(*marker)), plan::views(replies@)),
{
    let mut rp = Replay::new(replies);
    let reply = match rp.next() {
        None => {
            return Step::Ask(NodeCall::ReaddirPlus { ino });
        },
        Some(x) => x,
    };
    let entries = match reply {
        NodeReply::Failed(e) => {
            return refused(info::error_to_ntstatus(*e));
        },
        NodeReply::Entries(Some(entries)) => entries,
        NodeReply::Entries(None) => {
            return refused(info::STATUS_OBJECT_NAME_NOT_FOUND);
        },
        _ => {
            return refused(info::STATUS_INVALID_PARAMETER);
        },
    };
    let start = find_start(entries, marker);
    let ghost seen = plan::views(entries@);
    let ghost all = lines_from(seen, start as int);
    let mut out: Vec<DirLine<String>> = Vec::new();
    let mut i: usize = start;
    assert(plan::views(out@) =~= all.take(0));
    while i < entries.len()
        invariant
            start <= i <= entries@.len(),
            seen == plan::views(entries@),
            all == lines_from(seen, start as int),
            plan::views(out@) == all.take(i - start),
        decreases entries@.len() - i,
    {
        let e = &entries[i];
        assert(seen[i as int] == e@);
        let ghost before = plan::views(out@);
        out.push(DirLine { name: e.name.clone(), info: info::fill_file_info(&e.node.stats) });
        assert(plan::views(out@) =~= before.push(all[i - start]));
        i = i + 1;
        assert(plan::views(out@) =~= all.take(i - start));
    }
    assert(all.take(i - start) =~= all);
    done(Good::Listing(out))
}

/// The first bytes of `data`, as many as there is room for.
pub open spec fn fitting(data: Seq<u8>, room: usize) -> Seq<u8> {
    if data.len() <= room {
        data
    } else {
        data.take(room as int)
    }
}

/// Reads from an open file into a buffer.
pub open spec fn read_plan(fh: u64, offset: u64, room: usize) -> WinPlan {
    Plan::Ask(
        NodeCall::Pread { file: FileRef::Handle(fh), offset, size: room as u64 },
        |r: NodeReplyView|
            match r {
                NodeReply::Failed(e) => refuse(info::status_of(e)),
                NodeReply::Bytes(b) => good(Good::Data(fitting(b, room))),
                _ => refuse(info::STATUS_INVALID_PARAMETER),
            },
    )
}

/// Reads from an open file into a buffer.
pub fn run_read(fh: u64, offset: u64, room: usize, replies: &Vec<NodeResponse>) -> (r: WinStep)
    ensures
        step_view(r) == plan::next(read_plan(fh, offset, room), plan::views(replies@)),
{
    let mut rp = Replay::new(replies);
    match rp.next() {
        None => Step::Ask(
            NodeCall::Pread { file: FileRef::Handle(fh), offset, size: room as u64 },
        ),
        Some(x) => match x {
            NodeReply::Failed(e) => refused(info::error_to_ntstatus(*e)),
            NodeReply::Bytes(b) => {
                let mut data = copy_bytes(b.as_slice());
                if data.len() > room {
                    data.truncate(room);
                    assert(data@ =~= b@.take(room as int));
                }
                done(Good::Data(data))
            },
            _ => refused(info::STATUS_INVALID_PARAMETER),
        },
    }
}

/// Writes to an open file.
pub open spec fn write_plan(fh: u64, ino: i64, offset: u64, data: Seq<u8>) -> WinPlan {
    or_fail(
        NodeCall::Pwrite { file: FileRef::Handle(fh), offset, data },
        Plan::Ask(
            NodeCall::Getattr { ino },
            |r: NodeReplyView|
                good(Good::Written { len: data.len() as u32, info: info_reply(r) }),
        ),
    )
}

/// Writes to an open file.
pub fn run_write(
    fh: u64,
    ino: i64,
    offset: u64,
    data: &Vec<u8>,
    replies: &Vec<NodeResponse>,
) -> (r: WinStep)
    ensures
        step_view(r) == plan::next(write_plan(fh, ino, offset, data@), plan::views(replies@)),
{
    let mut rp = Replay::new(replies);
    match rp.next() {
        None => {
            return Step::Ask(
                NodeCall::Pwrite {
                    file: FileRef::Handle(fh),
                    offset,
                    data: copy_bytes(data.as_slice()),
                },
            );
        },
        Some(x) => {
            if let Err(e) = x.unit() {
                return refused(info::error_to_ntstatus(e));
            }
        },
    }
    match rp.next() {
        None => Step::Ask(NodeCall::Getattr { ino }),
        Some(x) => done(Good::Written { len: data.len() as u32, info: info_if_found(x) }),
    }
}

/// Sets the size of an open file.
pub open spec fn truncate_plan(fh: u64, ino: i64, size: u64) -> WinPlan {
    or_fail(NodeCall::Truncate { file: FileRef::Handle(fh), size }, changed_plan(ino))
}

/// Sets the size of an open file.
pub fn run_truncate(fh: u64, ino: i64, size: u64, replies: &Vec<NodeResponse>) -> (r: WinStep)
    ensures
        step_view(r) == plan::next(truncate_plan(fh, ino, size), plan::views(replies@)),
{
    let mut rp = Replay::new(replies);
    match rp.next() {
        None => Step::Ask(NodeCall::Truncate { file: FileRef::Handle(fh), size }),
        Some(x) => match x.unit() {
            Err(e) => refused(info::error_to_ntstatus(e)),
            Ok(_) => changed_steps(ino, &mut rp),
        },
    }
}

/// Only tells of the file: room is made as it is needed.
pub fn run_changed(ino: i64, replies: &Vec<NodeResponse>) -> (r: WinStep)
    ensures
        step_view(r) == plan::next(changed_plan(ino), plan::views(replies@)),
{
    let mut rp = Replay::new(replies);
    changed_steps(ino, &mut rp)
}

/// Brings an open file to storage.
pub open spec fn flush_plan(fh: u64, ino: i64) -> WinPlan {
    or_fail(NodeCall::Fsync { file: FileRef::Handle(fh) }, changed_plan(ino))
}

/// Brings an open file to storage.
pub fn run_flush(fh: u64, ino: i64, replies: &Vec<NodeResponse>) -> (r: WinStep)
    ensures
        step_view(r) == plan::next(flush_plan(fh, ino), plan::views(replies@)),
{
    let mut rp = Replay::new(replies);
    match rp.next() {
        None => Step::Ask(NodeCall::Fsync { file: FileRef::Handle(fh) }),
        Some(x) => match x.unit() {
            Err(e) => refused(info::error_to_ntstatus(e)),
            Ok(_) => changed_steps(ino, &mut rp),
        },
    }
}

/// The room on the volume, in the arithmetic of 64 bits.
pub open spec fn volume_plan() -> WinPlan {
    Plan::Ask(
        NodeCall::Statfs,
        |r: NodeReplyView|
            match r {
                NodeReply::Failed(e) => refuse(info::status_of(e)),
                NodeReply::Usage { bytes_used, .. } => good(
                    Good::Volume {
                        total_size: info::VOLUME_SIZE,
                        free_size: info::VOLUME_SIZE.wrapping_sub(bytes_used),
                    },
                ),
                _ => refuse(info::STATUS_INVALID_PARAMETER),
            },
    )
}

/// The room on the volume.
pub fn run_volume(replies: &Vec<NodeResponse>) -> (r: WinStep)
    ensures
        step_view(r) == plan::next(volume_plan(), plan::views(replies@)),
{
    let mut rp = Replay::new(replies);
    match rp.next() {
        None => Step::Ask(NodeCall::Statfs),
        Some(x) => match x {
            NodeReply::Failed(e) => refused(info::error_to_ntstatus(*e)),
            NodeReply::Usage { bytes_used, .. } => done(
                Good::Volume {
                    total_size: info::VOLUME_SIZE,
                    free_size: info::VOLUME_SIZE.wrapping_sub(*bytes_used),
                },
            ),
            _ => refused(info::STATUS_INVALID_PARAMETER),
        },
    }
}

} // verus!
