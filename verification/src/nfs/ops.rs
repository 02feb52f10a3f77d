//! The operations of the server. An operation starts against the table of
//! identifiers, makes its calls on the file system, and ends with an answer and
//! a change of the table.

use crate::fs::types;
use crate::nfs::attr;
use crate::nfs::attr::{Fattr, NfsStat};
use crate::nfs::ids;
use crate::nodes;
use crate::nodes::{
    FileRef, NodeCall, NodeCallView, NodeEntry, NodeEntryView, NodeReply, NodeReplyView,
    NodeRequest, NodeResponse, NodeStats,
};
use crate::overlay::calls::copy_bytes;
use crate::paths;
use crate::plan;
use crate::plan::{Head, Plan, Replay, Step};
use crate::text;
use vstd::prelude::*;
use vstd::string::*;

verus! {

broadcast use crate::plan::group_after;

/// Who asks.
#[derive(Debug, Clone, Copy, PartialEq, Eq, Structural)]
pub struct Auth {
    pub uid: u32,
    pub gid: u32,
}

/// The attributes that are to change.
#[derive(Debug, Clone, Copy, PartialEq, Eq, Structural)]
pub struct SetAttr {
    pub mode: Option<u32>,
    pub uid: Option<u32>,
    pub gid: Option<u32>,
    pub size: Option<u64>,
}

/// An entry of a directory: the inode of the directory, the name, and the path
/// of the entry.
#[derive(Debug)]
pub struct Place<S> {
    pub dir: i64,
    pub name: S,
    pub path: S,
}

pub type PlaceView = Place<Seq<char>>;

impl View for Place<String> {
    type V = PlaceView;

    open spec fn view(&self) -> PlaceView {
        Place { dir: self.dir, name: self.name@, path: self.path@ }
    }
}

/// An operation under way, with all it needs from the table.
#[derive(Debug)]
pub enum Job<S, B, P> {
    /// Finds the inode of a path.
    Resolve { path: S },
    Lookup { at: P },
    GetAttr { id: u64, ino: i64 },
    SetAttr { id: u64, ino: i64, change: SetAttr },
    Read { ino: i64, offset: u64, count: u32 },
    Write { id: u64, ino: i64, offset: u64, data: B },
    Create { at: P, mode: u32, auth: Auth },
    CreateExclusive { at: P, auth: Auth },
    MkDir { at: P, mode: u32, auth: Auth },
    MkNod { at: P, mode: u32, rdev: u64, auth: Auth },
    SymLink { at: P, target: S, auth: Auth },
    Remove { at: P },
    Rename { from: P, to: P },
    ReadDir { dir: i64, path: S, start_after: u64, max_entries: usize },
    ReadLink { ino: i64 },
}

pub type JobView = Job<Seq<char>, Seq<u8>, PlaceView>;

pub type NfsJob = Job<String, Vec<u8>, Place<String>>;

impl View for Job<String, Vec<u8>, Place<String>> {
    type V = JobView;

    open spec fn view(&self) -> JobView {
        match self {
            Job::Resolve { path } => Job::Resolve { path: path@ },
            Job::Lookup { at } => Job::Lookup { at: at@ },
            Job::GetAttr { id, ino } => Job::GetAttr { id: *id, ino: *ino },
            Job::SetAttr { id, ino, change } => Job::SetAttr {
                id: *id,
                ino: *ino,
                change: *change,
            },
            Job::Read { ino, offset, count } => Job::Read {
                ino: *ino,
                offset: *offset,
                count: *count,
            },
            Job::Write { id, ino, offset, data } => Job::Write {
                id: *id,
                ino: *ino,
                offset: *offset,
                data: data@,
            },
            Job::Create { at, mode, auth } => Job::Create { at: at@, mode: *mode, auth: *auth },
            Job::CreateExclusive { at, auth } => Job::CreateExclusive { at: at@, auth: *auth },
            Job::MkDir { at, mode, auth } => Job::MkDir { at: at@, mode: *mode, auth: *auth },
            Job::MkNod { at, mode, rdev, auth } => Job::MkNod {
                at: at@,
                mode: *mode,
                rdev: *rdev,
                auth: *auth,
            },
            Job::SymLink { at, target, auth } => Job::SymLink {
                at: at@,
                target: target@,
                auth: *auth,
            },
            Job::Remove { at } => Job::Remove { at: at@ },
            Job::Rename { from, to } => Job::Rename { from: from@, to: to@ },
            Job::ReadDir { dir, path, start_after, max_entries } => Job::ReadDir {
                dir: *dir,
                path: path@,
                start_after: *start_after,
                max_entries: *max_entries,
            },
            Job::ReadLink { ino } => Job::ReadLink { ino: *ino },
        }
    }
}

/// How an operation ends, before the table has changed.
#[derive(Debug)]
pub enum End<S, B, E> {
    Attr(Fattr),
    /// The attributes of the file with this identifier are to be got.
    AttrOf { id: u64 },
    /// A path is to be entered; where `attr`, its attributes are to be got.
    Enter { path: S, ino: i64, attr: bool },
    Forget { path: S },
    Move { from: S, to: S },
    Data { data: B, eof: bool },
    Target { target: S },
    List { path: S, entries: E, start_after: u64, max_entries: usize },
}

pub type EndView = End<Seq<char>, Seq<u8>, Seq<NodeEntryView>>;

pub type NfsEnd<'a> = End<String, Vec<u8>, &'a Vec<NodeEntry<String>>>;

impl<'a> View for End<String, Vec<u8>, &'a Vec<NodeEntry<String>>> {
    type V = EndView;

    open spec fn view(&self) -> EndView {
        match self {
            End::Attr(a) => End::Attr(*a),
            End::AttrOf { id } => End::AttrOf { id: *id },
            End::Enter { path, ino, attr } => End::Enter { path: path@, ino: *ino, attr: *attr },
            End::Forget { path } => End::Forget { path: path@ },
            End::Move { from, to } => End::Move { from: from@, to: to@ },
            End::Data { data, eof } => End::Data { data: data@, eof: *eof },
            End::Target { target } => End::Target { target: target@ },
            End::List { path, entries, start_after, max_entries } => End::List {
                path: path@,
                entries: plan::views(entries@),
                start_after: *start_after,
                max_entries: *max_entries,
            },
        }
    }
}

pub type NfsPlan = Plan<NodeCallView, NodeReplyView, Result<EndView, NfsStat>>;

pub type NfsHead = Head<NodeCallView, Result<EndView, NfsStat>>;

pub type NfsStep<'a> = Step<NodeRequest, Result<NfsEnd<'a>, NfsStat>>;

pub open spec fn step_view(s: NfsStep) -> NfsHead {
    match s {
        Step::Done(Ok(e)) => Head::Done(Ok(e@)),
        Step::Done(Err(e)) => Head::Done(Err(e)),
        Step::Ask(q) => Head::Ask(q@),
    }
}

pub open spec fn refuse(e: NfsStat) -> NfsPlan {
    Plan::Done(Err(e))
}

pub open spec fn end(e: EndView) -> NfsPlan {
    Plan::Done(Ok(e))
}

/// Goes on with what a call has found, which has to be there.
pub open spec fn on_found(q: NodeCallView, then: spec_fn(NodeStats) -> NfsPlan) -> NfsPlan {
    Plan::Ask(
        q,
        |r: NodeReplyView|
            match nodes::stats_reply(r) {
                Ok(Some(s)) => then(s),
                Ok(None) => refuse(NfsStat::NoEntry),
                Err(e) => refuse(attr::status_of(e)),
            },
    )
}

/// Goes on with what a call has made.
pub open spec fn on_made(q: NodeCallView, then: spec_fn(NodeStats) -> NfsPlan) -> NfsPlan {
    Plan::Ask(
        q,
        |r: NodeReplyView|
            match nodes::made_reply(r) {
                Ok(s) => then(s),
                Err(e) => refuse(attr::status_of(e)),
            },
    )
}

/// Goes on where a call has succeeded.
pub open spec fn on_done(q: NodeCallView, then: NfsPlan) -> NfsPlan {
    Plan::Ask(
        q,
        |r: NodeReplyView|
            match nodes::unit_reply(r) {
                Ok(_) => then,
                Err(e) => refuse(attr::status_of(e)),
            },
    )
}

fn found(reply: &NodeResponse) -> (r: Result<NodeStats, NfsStat>)
    ensures
        r == match nodes::stats_reply(reply@) {
            Ok(Some(s)) => Ok::<NodeStats, NfsStat>(s),
            Ok(None) => Err(NfsStat::NoEntry),
            Err(e) => Err(attr::status_of(e)),
        },
{
    match reply.stats() {
        Ok(Some(s)) => Ok(s),
        Ok(None) => Err(NfsStat::NoEntry),
        Err(e) => Err(attr::error_to_nfsstat(e)),
    }
}

fn made(reply: &NodeResponse) -> (r: Result<NodeStats, NfsStat>)
    ensures
        r == match nodes::made_reply(reply@) {
            Ok(s) => Ok::<NodeStats, NfsStat>(s),
            Err(e) => Err(attr::status_of(e)),
        },
{
    match reply.made() {
        Ok(s) => Ok(s),
        Err(e) => Err(attr::error_to_nfsstat(e)),
    }
}

fn failure(reply: &NodeResponse) -> (r: Option<NfsStat>)
    ensures
        r == match nodes::unit_reply(reply@) {
            Ok(_) => None::<NfsStat>,
            Err(e) => Some(attr::status_of(e)),
        },
{
    match reply.unit() {
        Ok(_) => None,
        Err(e) => Some(attr::error_to_nfsstat(e)),
    }
}

/// Walks down from an inode, component by component.
pub open spec fn walk_plan(ino: i64, components: Seq<Seq<char>>, path: Seq<char>) -> NfsPlan
    decreases components.len(),
{
    if components.len() == 0 {
        end(End::Enter { path, ino, attr: false })
    } else {
        on_found(
            NodeCall::Lookup { parent: ino, name: components[0] },
            |s: NodeStats| walk_plan(s.stats.ino, components.drop_first(), path),
        )
    }
}

/// Finds the inode of a path, from the root down.
pub open spec fn resolve_plan(path: Seq<char>) -> NfsPlan {
    if path == "/"@ {
        end(End::Enter { path, ino: ids::FS_ROOT_INO, attr: false })
    } else {
        walk_plan(ids::FS_ROOT_INO, paths::parts(path), path)
    }
}

/// Finds the inode of a path.
pub fn run_resolve<'a>(path: &str, replies: &'a Vec<NodeResponse>) -> (r: NfsStep<'a>)
    ensures
        step_view(r) == plan::next(resolve_plan(path@), plan::views(replies@)),
{
    if text::same(path, "/") {
        return Step::Done(
            Ok(End::Enter { path: path.to_owned(), ino: ids::FS_ROOT_INO, attr: false }),
        );
    }
    let mut rp = Replay::new(replies);
    let components = paths::split_parts(path);
    let ghost all = text::views(components@);
    let ghost start = resolve_plan(path@);
    let ghost first = rp.rest();
    let mut ino: i64 = ids::FS_ROOT_INO;
    let mut i: usize = 0;
    assert(all.skip(0) =~= all);
    while i < components.len()
        invariant
            i <= components@.len(),
            rp.ok(),
            all == text::views(components@),
            plan::after(start, first) == plan::after(
                walk_plan(ino, all.skip(i as int), path@),
                rp.rest(),
            ),
            start == resolve_plan(path@),
            first == plan::views(replies@),
        decreases components@.len() - i,
    {
        assert(all.skip(i as int).drop_first() =~= all.skip(i + 1));
        assert(all.skip(i as int)[0] == components@[i as int]@);
        let reply = match rp.next() {
            None => {
                return Step::Ask(NodeCall::Lookup { parent: ino, name: components[i].clone() });
            },
            Some(x) => x,
        };
        match found(reply) {
            Ok(s) => {
                ino = s.stats.ino;
            },
            Err(e) => {
                return Step::Done(Err(e));
            },
        }
        i = i + 1;
    }
    Step::Done(Ok(End::Enter { path: path.to_owned(), ino, attr: false }))
}

/// Looks an entry up in a directory, which has to be one.
pub open spec fn lookup_plan(at: PlaceView) -> NfsPlan {
    on_found(
        NodeCall::Getattr { ino: at.dir },
        |d: NodeStats|
            if !types::dir_mode(d.stats.mode) {
                refuse(NfsStat::NotDirectory)
            } else {
                on_found(
                    NodeCall::Lookup { parent: at.dir, name: at.name },
                    |s: NodeStats| end(End::Enter { path: at.path, ino: s.stats.ino, attr: false }),
                )
            },
    )
}

/// Looks an entry up.
pub fn run_lookup<'a>(at: &Place<String>, replies: &'a Vec<NodeResponse>) -> (r: NfsStep<'a>)
    ensures
        step_view(r) == plan::next(lookup_plan(at@), plan::views(replies@)),
{
    let mut rp = Replay::new(replies);
    let d = match rp.next() {
        None => {
            return Step::Ask(NodeCall::Getattr { ino: at.dir });
        },
        Some(x) => match found(x) {
            Ok(s) => s,
            Err(e) => {
                return Step::Done(Err(e));
            },
        },
    };
    if !d.stats.is_directory() {
        return Step::Done(Err(NfsStat::NotDirectory));
    }
    match rp.next() {
        None => Step::Ask(NodeCall::Lookup { parent: at.dir, name: at.name.clone() }),
        Some(x) => match found(x) {
            Ok(s) => Step::Done(
                Ok(End::Enter { path: at.path.clone(), ino: s.stats.ino, attr: false }),
            ),
            Err(e) => Step::Done(Err(e)),
        },
    }
}

/// Gets the attributes of a file.
pub open spec fn getattr_plan(id: u64, ino: i64) -> NfsPlan {
    on_found(NodeCall::Getattr { ino }, |s: NodeStats| end(End::Attr(attr::attr_of(s, id))))
}

fn end_with_attr<'a>(id: u64, ino: i64, rp: &mut Replay<'a, NodeResponse>) -> (r: NfsStep<'a>)
    requires
        old(rp).ok(),
    ensures
        step_view(r) == plan::next(getattr_plan(id, ino), old(rp).rest()),
{
    match rp.next() {
        None => Step::Ask(NodeCall::Getattr { ino }),
        Some(x) => match found(x) {
            Ok(s) => Step::Done(Ok(End::Attr(attr::stats_to_fattr(&s, id)))),
            Err(e) => Step::Done(Err(e)),
        },
    }
}

/// Gets the attributes of a file.
pub fn run_getattr<'a>(id: u64, ino: i64, replies: &'a Vec<NodeResponse>) -> (r: NfsStep<'a>)
    ensures
        step_view(r) == plan::next(getattr_plan(id, ino), plan::views(replies@)),
{
    let mut rp = Replay::new(replies);
    end_with_attr(id, ino, &mut rp)
}

/// The last part of a change of attributes: the size.
pub open spec fn size_plan(id: u64, ino: i64, size: Option<u64>) -> NfsPlan {
    match size {
        Some(size) => on_done(
            NodeCall::Open { ino },
            on_done(
                NodeCall::Truncate { file: FileRef::Opened, size },
                getattr_plan(id, ino),
            ),
        ),
        None => getattr_plan(id, ino),
    }
}

/// The second part of a change of attributes: owner and group.
pub open spec fn owner_plan(id: u64, ino: i64, change: SetAttr) -> NfsPlan {
    if change.uid is Some || change.gid is Some {
        on_done(
            NodeCall::Chown { ino, uid: change.uid, gid: change.gid },
            size_plan(id, ino, change.size),
        )
    } else {
        size_plan(id, ino, change.size)
    }
}

/// Changes attributes: mode, then owner and group, then size.
pub open spec fn setattr_plan(id: u64, ino: i64, change: SetAttr) -> NfsPlan {
    match change.mode {
        Some(mode) => on_done(NodeCall::Chmod { ino, mode }, owner_plan(id, ino, change)),
        None => owner_plan(id, ino, change),
    }
}

/// Changes attributes.
pub fn run_setattr<'a>(
    id: u64,
    ino: i64,
    change: SetAttr,
    replies: &'a Vec<NodeResponse>,
) -> (r: NfsStep<'a>)
    ensures
        step_view(r) == plan::next(setattr_plan(id, ino, change), plan::views(replies@)),
{
    let mut rp = Replay::new(replies);
    if let Some(mode) = change.mode {
        match rp.next() {
            None => {
                return Step::Ask(NodeCall::Chmod { ino, mode });
            },
            Some(x) => {
                if let Some(e) = failure(x) {
                    return Step::Done(Err(e));
                }
            },
        }
    }
    if change.uid.is_some() || change.gid.is_some() {
        match rp.next() {
            None => {
                return Step::Ask(NodeCall::Chown { ino, uid: change.uid, gid: change.gid });
            },
            Some(x) => {
                if let Some(e) = failure(x) {
                    return Step::Done(Err(e));
                }
            },
        }
    }
    if let Some(size) = change.size {
        match rp.next() {
            None => {
                return Step::Ask(NodeCall::Open { ino });
            },
            Some(x) => {
                if let Some(e) = failure(x) {
                    return Step::Done(Err(e));
                }
            },
        }
        match rp.next() {
            None => {
                return Step::Ask(NodeCall::Truncate { file: FileRef::Opened, size });
            },
            Some(x) => {
                if let Some(e) = failure(x) {
                    return Step::Done(Err(e));
                }
            },
        }
    }
    end_with_attr(id, ino, &mut rp)
}

/// Whether a read has come to the end of the file.
pub open spec fn at_end(offset: u64, len: int, size: i64) -> bool {
    offset.wrapping_add(len as u64) >= size as u64
}

/// Reads from a file, and says whether that is all of it. A file that cannot be
/// opened is not there.
pub open spec fn read_plan(ino: i64, offset: u64, count: u32) -> NfsPlan {
    Plan::Ask(
        NodeCall::Open { ino },
        |r: NodeReplyView|
            match nodes::unit_reply(r) {
                Err(_) => refuse(NfsStat::NoEntry),
                Ok(_) => Plan::Ask(
                    NodeCall::Pread { file: FileRef::Opened, offset, size: count as u64 },
                    |r: NodeReplyView|
                        match r {
                            NodeReply::Failed(e) => refuse(attr::status_of(e)),
                            NodeReply::Bytes(data) => on_made(
                                NodeCall::Fstat { file: FileRef::Opened },
                                |s: NodeStats|
                                    end(
                                        End::Data {
                                            data,
                                            eof: at_end(offset, data.len() as int, s.stats.size),
                                        },
                                    ),
                            ),
                            _ => refuse(NfsStat::Io),
                        },
                ),
            },
    )
}

/// Reads from a file.
pub fn run_read<'a>(ino: i64, offset: u64, count: u32, replies: &'a Vec<NodeResponse>) -> (r:
    NfsStep<'a>)
    ensures
        step_view(r) == plan::next(read_plan(ino, offset, count), plan::views(replies@)),
{
    let mut rp = Replay::new(replies);
    match rp.next() {
        None => {
            return Step::Ask(NodeCall::Open { ino });
        },
        Some(x) => {
            if x.unit().is_err() {
                return Step::Done(Err(NfsStat::NoEntry));
            }
        },
    }
    let data = match rp.next() {
        None => {
            return Step::Ask(
                NodeCall::Pread { file: FileRef::Opened, offset, size: count as u64 },
            );
        },
        Some(x) => match x {
            NodeReply::Failed(e) => {
                return Step::Done(Err(attr::error_to_nfsstat(*e)));
            },
            NodeReply::Bytes(b) => b,
            _ => {
                return Step::Done(Err(NfsStat::Io));
            },
        },
    };
    match rp.next() {
        None => Step::Ask(NodeCall::Fstat { file: FileRef::Opened }),
        Some(x) => match made(x) {
            Ok(s) => {
                let eof = offset.wrapping_add(data.len() as u64) >= s.stats.size as u64;
                Step::Done(Ok(End::Data { data: copy_bytes(data.as_slice()), eof }))
            },
            Err(e) => Step::Done(Err(e)),
        },
    }
}

/// Writes to a file.
pub open spec fn write_plan(id: u64, ino: i64, offset: u64, data: Seq<u8>) -> NfsPlan {
    on_done(
        NodeCall::Open { ino },
        on_done(
            NodeCall::Pwrite { file: FileRef::Opened, offset, data },
            end(End::AttrOf { id }),
        ),
    )
}

/// Writes to a file.
pub fn run_write<'a>(
    id: u64,
    ino: i64,
    offset: u64,
    data: &Vec<u8>,
    replies: &'a Vec<NodeResponse>,
) -> (r: NfsStep<'a>)
    ensures
        step_view(r) == plan::next(write_plan(id, ino, offset, data@), plan::views(replies@)),
{
    let mut rp = Replay::new(replies);
    match rp.next() {
        None => {
            return Step::Ask(NodeCall::Open { ino });
        },
        Some(x) => {
            if let Some(e) = failure(x) {
                return Step::Done(Err(e));
            }
        },
    }
    match rp.next() {
        None => Step::Ask(
            NodeCall::Pwrite {
                file: FileRef::Opened,
                offset,
                data: copy_bytes(data.as_slice()),
            },
        ),
        Some(x) => match failure(x) {
            Some(e) => Step::Done(Err(e)),
            None => Step::Done(Ok(End::AttrOf { id })),
        },
    }
}

/// Creates a file.
pub open spec fn create_plan(at: PlaceView, mode: u32, auth: Auth, attr: bool) -> NfsPlan {
    on_made(
        NodeCall::CreateFile {
            parent: at.dir,
            name: at.name,
            mode: types::S_IFREG | mode,
            uid: auth.uid,
            gid: auth.gid,
        },
        |s: NodeStats| end(End::Enter { path: at.path, ino: s.stats.ino, attr }),
    )
}

fn end_with_file<'a>(
    at: &Place<String>,
    mode: u32,
    auth: Auth,
    attr: bool,
    rp: &mut Replay<'a, NodeResponse>,
) -> (r: NfsStep<'a>)
    requires
        old(rp).ok(),
    ensures
        step_view(r) == plan::next(create_plan(at@, mode, auth, attr), old(rp).rest()),
{
    match rp.next() {
        None => Step::Ask(
            NodeCall::CreateFile {
                parent: at.dir,
                name: at.name.clone(),
                mode: types::S_IFREG | mode,
                uid: auth.uid,
                gid: auth.gid,
            },
        ),
        Some(x) => match made(x) {
            Ok(s) => Step::Done(Ok(End::Enter { path: at.path.clone(), ino: s.stats.ino, attr })),
            Err(e) => Step::Done(Err(e)),
        },
    }
}

/// Creates a file.
pub fn run_create<'a>(
    at: &Place<String>,
    mode: u32,
    auth: Auth,
    replies: &'a Vec<NodeResponse>,
) -> (r: NfsStep<'a>)
    ensures
        step_view(r) == plan::next(create_plan(at@, mode, auth, true), plan::views(replies@)),
{
    let mut rp = Replay::new(replies);
    end_with_file(at, mode, auth, true, &mut rp)
}

/// Creates a file that must not be there yet.
pub open spec fn exclusive_plan(at: PlaceView, auth: Auth) -> NfsPlan {
    Plan::Ask(
        NodeCall::Lookup { parent: at.dir, name: at.name },
        |r: NodeReplyView|
            match nodes::stats_reply(r) {
                Ok(Some(_)) => refuse(NfsStat::Exists),
                Ok(None) => create_plan(at, 0o644, auth, false),
                Err(e) => refuse(attr::status_of(e)),
            },
    )
}

/// Creates a file that must not be there yet.
pub fn run_create_exclusive<'a>(
    at: &Place<String>,
    auth: Auth,
    replies: &'a Vec<NodeResponse>,
) -> (r: NfsStep<'a>)
    ensures
        step_view(r) == plan::next(exclusive_plan(at@, auth), plan::views(replies@)),
{
    let mut rp = Replay::new(replies);
    match rp.next() {
        None => Step::Ask(NodeCall::Lookup { parent: at.dir, name: at.name.clone() }),
        Some(x) => match x.stats() {
            Ok(Some(_)) => Step::Done(Err(NfsStat::Exists)),
            Ok(None) => end_with_file(at, 0o644, auth, false, &mut rp),
            Err(e) => Step::Done(Err(attr::error_to_nfsstat(e))),
        },
    }
}

/// Makes a directory, and then gives it its mode.
pub open spec fn mkdir_plan(at: PlaceView, mode: u32, auth: Auth) -> NfsPlan {
    on_made(
        NodeCall::Mkdir {
            parent: at.dir,
            name: at.name,
            mode: None,
            uid: auth.uid,
            gid: auth.gid,
        },
        |s: NodeStats|
            on_done(
                NodeCall::Chmod { ino: s.stats.ino, mode: types::S_IFDIR | mode },
                end(End::Enter { path: at.path, ino: s.stats.ino, attr: true }),
            ),
    )
}

/// Makes a directory.
pub fn run_mkdir<'a>(
    at: &Place<String>,
    mode: u32,
    auth: Auth,
    replies: &'a Vec<NodeResponse>,
) -> (r: NfsStep<'a>)
    ensures
        step_view(r) == plan::next(mkdir_plan(at@, mode, auth), plan::views(replies@)),
{
    let mut rp = Replay::new(replies);
    let s = match rp.next() {
        None => {
            return Step::Ask(
                NodeCall::Mkdir {
                    parent: at.dir,
                    name: at.name.clone(),
                    mode: None,
                    uid: auth.uid,
                    gid: auth.gid,
                },
            );
        },
        Some(x) => match made(x) {
            Ok(s) => s,
            Err(e) => {
                return Step::Done(Err(e));
            },
        },
    };
    match rp.next() {
        None => Step::Ask(NodeCall::Chmod { ino: s.stats.ino, mode: types::S_IFDIR | mode }),
        Some(x) => match failure(x) {
            Some(e) => Step::Done(Err(e)),
            None => Step::Done(
                Ok(End::Enter { path: at.path.clone(), ino: s.stats.ino, attr: true }),
            ),
        },
    }
}

/// Makes a device, a socket or a pipe.
pub open spec fn mknod_plan(at: PlaceView, mode: u32, rdev: u64, auth: Auth) -> NfsPlan {
    on_made(
        NodeCall::Mknod {
            parent: at.dir,
            name: at.name,
            mode,
            rdev,
            uid: auth.uid,
            gid: auth.gid,
        },
        |s: NodeStats| end(End::Enter { path: at.path, ino: s.stats.ino, attr: true }),
    )
}

/// Makes a device, a socket or a pipe.
pub fn run_mknod<'a>(
    at: &Place<String>,
    mode: u32,
    rdev: u64,
    auth: Auth,
    replies: &'a Vec<NodeResponse>,
) -> (r: NfsStep<'a>)
    ensures
        step_view(r) == plan::next(mknod_plan(at@, mode, rdev, auth), plan::views(replies@)),
{
    let mut rp = Replay::new(replies);
    match rp.next() {
        None => Step::Ask(
            NodeCall::Mknod {
                parent: at.dir,
                name: at.name.clone(),
                mode,
                rdev,
                uid: auth.uid,
                gid: auth.gid,
            },
        ),
        Some(x) => match made(x) {
            Ok(s) => Step::Done(
                Ok(End::Enter { path: at.path.clone(), ino: s.stats.ino, attr: true }),
            ),
            Err(e) => Step::Done(Err(e)),
        },
    }
}

/// Makes a symbolic link.
pub open spec fn symlink_plan(at: PlaceView, target: Seq<char>, auth: Auth) -> NfsPlan {
    on_made(
        NodeCall::Symlink {
            parent: at.dir,
            name: at.name,
            target,
            uid: auth.uid,
            gid: auth.gid,
        },
        |s: NodeStats| end(End::Enter { path: at.path, ino: s.stats.ino, attr: true }),
    )
}

/// Makes a symbolic link.
pub fn run_symlink<'a>(
    at: &Place<String>,
    target: &str,
    auth: Auth,
    replies: &'a Vec<NodeResponse>,
) -> (r: NfsStep<'a>)
    ensures
        step_view(r) == plan::next(symlink_plan(at@, target@, auth), plan::views(replies@)),
{
    let mut rp = Replay::new(replies);
    match rp.next() {
        None => Step::Ask(
            NodeCall::Symlink {
                parent: at.dir,
                name: at.name.clone(),
                target: target.to_owned(),
                uid: auth.uid,
                gid: auth.gid,
            },
        ),
        Some(x) => match made(x) {
            Ok(s) => Step::Done(
                Ok(End::Enter { path: at.path.clone(), ino: s.stats.ino, attr: true }),
            ),
            Err(e) => Step::Done(Err(e)),
        },
    }
}

/// Removes an entry, as a directory or as a file.
pub open spec fn remove_plan(at: PlaceView) -> NfsPlan {
    on_found(
        NodeCall::Lookup { parent: at.dir, name: at.name },
        |s: NodeStats|
            on_done(
                if types::dir_mode(s.stats.mode) {
                    NodeCall::Rmdir { parent: at.dir, name: at.name }
                } else {
                    NodeCall::Unlink { parent: at.dir, name: at.name }
                },
                end(End::Forget { path: at.path }),
            ),
    )
}

/// Removes an entry.
pub fn run_remove<'a>(at: &Place<String>, replies: &'a Vec<NodeResponse>) -> (r: NfsStep<'a>)
    ensures
        step_view(r) == plan::next(remove_plan(at@), plan::views(replies@)),
{
    let mut rp = Replay::new(replies);
    let s = match rp.next() {
        None => {
            return Step::Ask(NodeCall::Lookup { parent: at.dir, name: at.name.clone() });
        },
        Some(x) => match found(x) {
            Ok(s) => s,
            Err(e) => {
                return Step::Done(Err(e));
            },
        },
    };
    match rp.next() {
        None => if s.stats.is_directory() {
            Step::Ask(NodeCall::Rmdir { parent: at.dir, name: at.name.clone() })
        } else {
            Step::Ask(NodeCall::Unlink { parent: at.dir, name: at.name.clone() })
        },
        Some(x) => match failure(x) {
            Some(e) => Step::Done(Err(e)),
            None => Step::Done(Ok(End::Forget { path: at.path.clone() })),
        },
    }
}

/// Moves an entry.
pub open spec fn rename_plan(from: PlaceView, to: PlaceView) -> NfsPlan {
    on_done(
        NodeCall::Rename {
            parent: from.dir,
            name: from.name,
            newparent: to.dir,
            newname: to.name,
        },
        end(End::Move { from: from.path, to: to.path }),
    )
}

/// Moves an entry.
pub fn run_rename<'a>(
    from: &Place<String>,
    to: &Place<String>,
    replies: &'a Vec<NodeResponse>,
) -> (r: NfsStep<'a>)
    ensures
        step_view(r) == plan::next(rename_plan(from@, to@), plan::views(replies@)),
{
    let mut rp = Replay::new(replies);
    match rp.next() {
        None => Step::Ask(
            NodeCall::Rename {
                parent: from.dir,
                name: from.name.clone(),
                newparent: to.dir,
                newname: to.name.clone(),
            },
        ),
        Some(x) => match failure(x) {
            Some(e) => Step::Done(Err(e)),
            None => Step::Done(Ok(End::Move { from: from.path.clone(), to: to.path.clone() })),
        },
    }
}

/// Lists a directory.
pub open spec fn readdir_plan(
    dir: i64,
    path: Seq<char>,
    start_after: u64,
    max_entries: usize,
) -> NfsPlan {
    Plan::Ask(
        NodeCall::ReaddirPlus { ino: dir },
        |r: NodeReplyView|
            match r {
                NodeReply::Failed(e) => refuse(attr::status_of(e)),
                NodeReply::Entries(Some(entries)) => end(
                    End::List { path, entries, start_after, max_entries },
                ),
                NodeReply::Entries(None) => refuse(NfsStat::NoEntry),
                _ => refuse(NfsStat::Io),
            },
    )
}

/// Lists a directory.
pub fn run_readdir<'a>(
    dir: i64,
    path: &str,
    start_after: u64,
    max_entries: usize,
    replies: &'a Vec<NodeResponse>,
) -> (r: NfsStep<'a>)
    ensures
        step_view(r) == plan::next(
            readdir_plan(dir, path@, start_after, max_entries),
            plan::views(replies@),
        ),
{
    let mut rp = Replay::new(replies);
    match rp.next() {
        None => Step::Ask(NodeCall::ReaddirPlus { ino: dir }),
        Some(x) => match x {
            NodeReply::Failed(e) => Step::Done(Err(attr::error_to_nfsstat(*e))),
            NodeReply::Entries(Some(entries)) => Step::Done(
                Ok(End::List { path: path.to_owned(), entries, start_after, max_entries }),
            ),
            NodeReply::Entries(None) => Step::Done(Err(NfsStat::NoEntry)),
            _ => Step::Done(Err(NfsStat::Io)),
        },
    }
}

/// Reads a symbolic link.
pub open spec fn readlink_plan(ino: i64) -> NfsPlan {
    Plan::Ask(
        NodeCall::Readlink { ino },
        |r: NodeReplyView|
            match r {
                NodeReply::Failed(e) => refuse(attr::status_of(e)),
                NodeReply::Target(Some(target)) => end(End::Target { target }),
                NodeReply::Target(None) => refuse(NfsStat::NoEntry),
                _ => refuse(NfsStat::Io),
            },
    )
}

/// Reads a symbolic link.
pub fn run_readlink<'a>(ino: i64, replies: &'a Vec<NodeResponse>) -> (r: NfsStep<'a>)
    ensures
        step_view(r) == plan::next(readlink_plan(ino), plan::views(replies@)),
{
    let mut rp = Replay::new(replies);
    match rp.next() {
        None => Step::Ask(NodeCall::Readlink { ino }),
        Some(x) => match x {
            NodeReply::Failed(e) => Step::Done(Err(attr::error_to_nfsstat(*e))),
            NodeReply::Target(Some(t)) => Step::Done(Ok(End::Target { target: t.clone() })),
            NodeReply::Target(None) => Step::Done(Err(NfsStat::NoEntry)),
            _ => Step::Done(Err(NfsStat::Io)),
        },
    }
}

/// The course of an operation.
pub open spec fn job_plan(job: JobView) -> NfsPlan {
    match job {
        Job::Resolve { path } => resolve_plan(path),
        Job::Lookup { at } => lookup_plan(at),
        Job::GetAttr { id, ino } => getattr_plan(id, ino),
        Job::SetAttr { id, ino, change } => setattr_plan(id, ino, change),
        Job::Read { ino, offset, count } => read_plan(ino, offset, count),
        Job::Write { id, ino, offset, data } => write_plan(id, ino, offset, data),
        Job::Create { at, mode, auth } => create_plan(at, mode, auth, true),
        Job::CreateExclusive { at, auth } => exclusive_plan(at, auth),
        Job::MkDir { at, mode, auth } => mkdir_plan(at, mode, auth),
        Job::MkNod { at, mode, rdev, auth } => mknod_plan(at, mode, rdev, auth),
        Job::SymLink { at, target, auth } => symlink_plan(at, target, auth),
        Job::Remove { at } => remove_plan(at),
        Job::Rename { from, to } => rename_plan(from, to),
        Job::ReadDir { dir, path, start_after, max_entries } => readdir_plan(
            dir,
            path,
            start_after,
            max_entries,
        ),
        Job::ReadLink { ino } => readlink_plan(ino),
    }
}

impl Job<String, Vec<u8>, Place<String>> {
    /// What this operation does next, after the replies so far.
    pub fn run<'a>(&self, replies: &'a Vec<NodeResponse>) -> (r: NfsStep<'a>)
        ensures
            step_view(r) == plan::next(job_plan(self@), plan::views(replies@)),
    {
        match self {
            Job::Resolve { path } => run_resolve(path.as_str(), replies),
            Job::Lookup { at } => run_lookup(at, replies),
            Job::GetAttr { id, ino } => run_getattr(*id, *ino, replies),
            Job::SetAttr { id, ino, change } => run_setattr(*id, *ino, *change, replies),
            Job::Read { ino, offset, count } => run_read(*ino, *offset, *count, replies),
            Job::Write { id, ino, offset, data } => run_write(*id, *ino, *offset, data, replies),
            Job::Create { at, mode, auth } => run_create(at, *mode, *auth, replies),
            Job::CreateExclusive { at, auth } => run_create_exclusive(at, *auth, replies),
            Job::MkDir { at, mode, auth } => run_mkdir(at, *mode, *auth, replies),
            Job::MkNod { at, mode, rdev, auth } => run_mknod(at, *mode, *rdev, *auth, replies),
            Job::SymLink { at, target, auth } => run_symlink(at, target.as_str(), *auth, replies),
            Job::Remove { at } => run_remove(at, replies),
            Job::Rename { from, to } => run_rename(from, to, replies),
            Job::ReadDir { dir, path, start_after, max_entries } => run_readdir(
                *dir,
                path.as_str(),
                *start_after,
                *max_entries,
                replies,
            ),
            Job::ReadLink { ino } => run_readlink(*ino, replies),
        }
    }
}

} // verus!
