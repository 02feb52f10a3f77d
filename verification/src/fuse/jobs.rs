//! The course of each request: the calls that it makes on the file system, and
//! how it ends.

use crate::errno::Errno;
use crate::fs::types;
use crate::fs::types::{FsError, Stats};
use crate::fuse::adapter;
use crate::fuse::adapter::FusePlan;
use crate::fuse::calls;
use crate::fuse::calls::{
    Answer, Edit, FsCall, FsCallView, FsReply, FsReplyView, FsRequest, FsResponse, Outcome,
    OutcomeView, RequestOutcome, Space,
};
use crate::overlay::calls::copy_bytes;
use crate::plan;
use crate::plan::{Head, Plan, Replay, Step};
use vstd::prelude::*;
use vstd::string::*;

verus! {

broadcast use crate::plan::group_after;

pub type FuseStep = Step<FsRequest, RequestOutcome>;

pub type FuseHead = Head<FsCallView, OutcomeView>;

pub open spec fn step_view(s: FuseStep) -> FuseHead {
    match s {
        Step::Done(o) => Head::Done(o@),
        Step::Ask(q) => Head::Ask(q@),
    }
}

pub open spec fn refuse(e: Errno) -> FusePlan {
    Plan::Done(calls::plain_outcome(Answer::Error(e)))
}

/// Ends a request with an error.
pub fn refused(e: Errno) -> (r: FuseStep)
    ensures
        step_view(r) == plan::head(refuse(e)),
{
    Step::Done(calls::simply(Answer::Error(e)))
}

/// The end of a request for the entry at `path`: its attributes, and its path
/// is remembered.
pub open spec fn entry_outcome(path: Seq<char>, stats: Stats, uid: u32, gid: u32) -> OutcomeView {
    calls::edited_outcome(
        Answer::Entry(calls::attr_of(stats, uid, gid)),
        Edit::Insert { ino: stats.ino as u64, path },
    )
}

fn entry_found(path: &str, stats: &Stats, uid: u32, gid: u32) -> (r: FuseStep)
    ensures
        step_view(r) == FuseHead::Done(entry_outcome(path@, *stats, uid, gid)),
{
    let attr = calls::fillattr(stats, uid, gid);
    Step::Done(
        calls::with_edit(
            Answer::Entry(attr),
            Edit::Insert { ino: stats.ino as u64, path: path.to_owned() },
        ),
    )
}

/// Looks an entry up.
pub open spec fn lookup_plan(path: Seq<char>, uid: u32, gid: u32) -> FusePlan {
    Plan::Ask(
        FsCall::Lstat { path },
        |r: FsReplyView|
            match calls::stats_reply(r) {
                Ok(Some(s)) => Plan::Done(entry_outcome(path, s, uid, gid)),
                Ok(None) => refuse(Errno::NoEntry),
                Err(_) => refuse(Errno::Io),
            },
    )
}

/// Looks an entry up.
pub fn run_lookup(path: &str, uid: u32, gid: u32, replies: &Vec<FsResponse>) -> (r: FuseStep)
    ensures
        step_view(r) == plan::next(lookup_plan(path@, uid, gid), plan::views(replies@)),
{
    let mut rp = Replay::new(replies);
    let reply = match rp.next() {
        None => {
            return Step::Ask(FsCall::Lstat { path: path.to_owned() });
        },
        Some(x) => x,
    };
    match reply.stats() {
        Ok(Some(s)) => entry_found(path, &s, uid, gid),
        Ok(None) => refused(Errno::NoEntry),
        Err(_) => refused(Errno::Io),
    }
}

/// The end of a request for the attributes of a file.
pub open spec fn attr_end(r: FsReplyView, uid: u32, gid: u32) -> FusePlan {
    match calls::stats_reply(r) {
        Ok(Some(s)) => Plan::Done(
            calls::plain_outcome(Answer::Attr(calls::attr_of(s, uid, gid))),
        ),
        Ok(None) => refuse(Errno::NoEntry),
        Err(_) => refuse(Errno::Io),
    }
}

fn end_with_attr(reply: &FsResponse, uid: u32, gid: u32) -> (r: FuseStep)
    ensures
        step_view(r) == plan::head(attr_end(reply@, uid, gid)),
        attr_end(reply@, uid, gid) is Done,
{
    match reply.stats() {
        Ok(Some(s)) => Step::Done(calls::simply(Answer::Attr(calls::fillattr(&s, uid, gid)))),
        Ok(None) => refused(Errno::NoEntry),
        Err(_) => refused(Errno::Io),
    }
}

/// Gets the attributes of a file.
pub open spec fn getattr_plan(path: Seq<char>, uid: u32, gid: u32) -> FusePlan {
    Plan::Ask(FsCall::Lstat { path }, |r: FsReplyView| attr_end(r, uid, gid))
}

/// Gets the attributes of a file.
pub fn run_getattr(path: &str, uid: u32, gid: u32, replies: &Vec<FsResponse>) -> (r: FuseStep)
    ensures
        step_view(r) == plan::next(getattr_plan(path@, uid, gid), plan::views(replies@)),
{
    let mut rp = Replay::new(replies);
    match rp.next() {
        None => Step::Ask(FsCall::Lstat { path: path.to_owned() }),
        Some(reply) => end_with_attr(reply, uid, gid),
    }
}

/// Reads a symbolic link.
pub open spec fn readlink_plan(path: Seq<char>) -> FusePlan {
    Plan::Ask(
        FsCall::Readlink { path },
        |r: FsReplyView|
            match r {
                FsReply::Target(Some(t)) => Plan::Done(calls::plain_outcome(Answer::Target(t))),
                FsReply::Target(None) => refuse(Errno::NoEntry),
                _ => refuse(Errno::Io),
            },
    )
}

/// Reads a symbolic link.
pub fn run_readlink(path: &str, replies: &Vec<FsResponse>) -> (r: FuseStep)
    ensures
        step_view(r) == plan::next(readlink_plan(path@), plan::views(replies@)),
{
    let mut rp = Replay::new(replies);
    match rp.next() {
        None => Step::Ask(FsCall::Readlink { path: path.to_owned() }),
        Some(reply) => match reply {
            FsReply::Target(Some(t)) => Step::Done(calls::simply(Answer::Target(t.clone()))),
            FsReply::Target(None) => refused(Errno::NoEntry),
            _ => refused(Errno::Io),
        },
    }
}

/// The attributes after a change.
pub open spec fn changed_plan(path: Seq<char>, uid: u32, gid: u32) -> FusePlan {
    Plan::Ask(FsCall::Stat { path }, |r: FsReplyView| attr_end(r, uid, gid))
}

/// Goes on where a call has succeeded, and ends with an error where not.
pub open spec fn or_fail(q: FsCallView, then: FusePlan) -> FusePlan {
    Plan::Ask(
        q,
        |r: FsReplyView|
            match calls::unit_reply(r) {
                Ok(_) => then,
                Err(_) => refuse(Errno::Io),
            },
    )
}

/// Changes attributes: the size, through the handle of an open file or by
/// opening the file.
pub open spec fn setattr_plan(
    path: Seq<char>,
    size: Option<u64>,
    fh: Option<u64>,
    uid: u32,
    gid: u32,
) -> FusePlan {
    match size {
        None => changed_plan(path, uid, gid),
        Some(size) => match fh {
            Some(fh) => or_fail(FsCall::Truncate { fh, size }, changed_plan(path, uid, gid)),
            None => or_fail(
                FsCall::Open { path },
                or_fail(FsCall::TruncateOpened { size }, changed_plan(path, uid, gid)),
            ),
        },
    }
}

/// Changes attributes.
pub fn run_setattr(
    path: &str,
    size: Option<u64>,
    fh: Option<u64>,
    uid: u32,
    gid: u32,
    replies: &Vec<FsResponse>,
) -> (r: FuseStep)
    ensures
        step_view(r) == plan::next(
            setattr_plan(path@, size, fh, uid, gid),
            plan::views(replies@),
        ),
{
    let mut rp = Replay::new(replies);
    if let Some(new_size) = size {
        if let Some(h) = fh {
            match rp.next() {
                None => {
                    return Step::Ask(FsCall::Truncate { fh: h, size: new_size });
                },
                Some(reply) => {
                    if reply.unit().is_err() {
                        return refused(Errno::Io);
                    }
                },
            }
        } else {
            match rp.next() {
                None => {
                    return Step::Ask(FsCall::Open { path: path.to_owned() });
                },
                Some(reply) => {
                    if reply.unit().is_err() {
                        return refused(Errno::Io);
                    }
                },
            }
            match rp.next() {
                None => {
                    return Step::Ask(FsCall::TruncateOpened { size: new_size });
                },
                Some(reply) => {
                    if reply.unit().is_err() {
                        return refused(Errno::Io);
                    }
                },
            }
        }
    }
    match rp.next() {
        None => Step::Ask(FsCall::Stat { path: path.to_owned() }),
        Some(reply) => end_with_attr(reply, uid, gid),
    }
}

/// The end of a request that has made the entry at `path`.
pub open spec fn made_end(path: Seq<char>, r: FsReplyView, uid: u32, gid: u32) -> FusePlan {
    match calls::stats_reply(r) {
        Ok(Some(s)) => Plan::Done(entry_outcome(path, s, uid, gid)),
        _ => refuse(Errno::Io),
    }
}

fn end_with_made(path: &str, reply: &FsResponse, uid: u32, gid: u32) -> (r: FuseStep)
    ensures
        step_view(r) == plan::head(made_end(path@, reply@, uid, gid)),
        made_end(path@, reply@, uid, gid) is Done,
{
    match reply.stats() {
        Ok(Some(s)) => entry_found(path, &s, uid, gid),
        _ => refused(Errno::Io),
    }
}

/// Makes a directory.
pub open spec fn mkdir_plan(path: Seq<char>, uid: u32, gid: u32) -> FusePlan {
    or_fail(
        FsCall::Mkdir { path },
        Plan::Ask(FsCall::Stat { path }, |r: FsReplyView| made_end(path, r, uid, gid)),
    )
}

/// Makes a directory.
pub fn run_mkdir(path: &str, uid: u32, gid: u32, replies: &Vec<FsResponse>) -> (r: FuseStep)
    ensures
        step_view(r) == plan::next(mkdir_plan(path@, uid, gid), plan::views(replies@)),
{
    let mut rp = Replay::new(replies);
    match rp.next() {
        None => {
            return Step::Ask(FsCall::Mkdir { path: path.to_owned() });
        },
        Some(reply) => {
            if reply.unit().is_err() {
                return refused(Errno::Io);
            }
        },
    }
    match rp.next() {
        None => Step::Ask(FsCall::Stat { path: path.to_owned() }),
        Some(reply) => end_with_made(path, reply, uid, gid),
    }
}

/// Makes a symbolic link.
pub open spec fn symlink_plan(
    path: Seq<char>,
    target: Seq<char>,
    uid: u32,
    gid: u32,
) -> FusePlan {
    or_fail(
        FsCall::Symlink { target, path },
        Plan::Ask(FsCall::Lstat { path }, |r: FsReplyView| made_end(path, r, uid, gid)),
    )
}

/// Makes a symbolic link.
pub fn run_symlink(path: &str, target: &str, uid: u32, gid: u32, replies: &Vec<FsResponse>) -> (r:
    FuseStep)
    ensures
        step_view(r) == plan::next(symlink_plan(path@, target@, uid, gid), plan::views(replies@)),
{
    let mut rp = Replay::new(replies);
    match rp.next() {
        None => {
            return Step::Ask(
                FsCall::Symlink { target: target.to_owned(), path: path.to_owned() },
            );
        },
        Some(reply) => {
            if reply.unit().is_err() {
                return refused(Errno::Io);
            }
        },
    }
    match rp.next() {
        None => Step::Ask(FsCall::Lstat { path: path.to_owned() }),
        Some(reply) => end_with_made(path, reply, uid, gid),
    }
}

/// Removes the entry at `path`, the inode of which is then forgotten.
pub open spec fn remove_plan(path: Seq<char>, ino: u64) -> FusePlan {
    or_fail(
        FsCall::Remove { path },
        Plan::Done(calls::edited_outcome(Answer::Done, Edit::Remove { ino })),
    )
}

/// What a directory has to be to be removed: listed, and empty.
pub open spec fn emptiness(r: FsReplyView) -> Result<(), Errno> {
    match r {
        FsReply::Names(Some(names)) => if names.len() > 0 {
            Err(Errno::NotEmpty)
        } else {
            Ok(())
        },
        FsReply::Names(None) => Err(Errno::NoEntry),
        _ => Err(Errno::Io),
    }
}

/// Removes a directory, which has to be one and to be empty.
pub open spec fn rmdir_plan(path: Seq<char>) -> FusePlan {
    Plan::Ask(
        FsCall::Lstat { path },
        |r: FsReplyView|
            match calls::stats_reply(r) {
                Ok(Some(s)) => if !types::dir_mode(s.mode) {
                    refuse(Errno::NotDirectory)
                } else {
                    Plan::Ask(
                        FsCall::Readdir { path },
                        |r: FsReplyView|
                            match emptiness(r) {
                                Ok(_) => remove_plan(path, s.ino as u64),
                                Err(e) => refuse(e),
                            },
                    )
                },
                Ok(None) => refuse(Errno::NoEntry),
                Err(_) => refuse(Errno::Io),
            },
    )
}

/// Removes a file, which must not be a directory.
pub open spec fn unlink_plan(path: Seq<char>) -> FusePlan {
    Plan::Ask(
        FsCall::Lstat { path },
        |r: FsReplyView|
            match calls::stats_reply(r) {
                Ok(Some(s)) => if types::dir_mode(s.mode) {
                    refuse(Errno::IsDirectory)
                } else {
                    remove_plan(path, s.ino as u64)
                },
                Ok(None) => refuse(Errno::NoEntry),
                Err(_) => refuse(Errno::Io),
            },
    )
}

fn end_with_removal<'a>(path: &str, ino: u64, rp: &mut Replay<'a, FsResponse>) -> (r: FuseStep)
    requires
        old(rp).ok(),
    ensures
        step_view(r) == plan::next(remove_plan(path@, ino), old(rp).rest()),
{
    match rp.next() {
        None => Step::Ask(FsCall::Remove { path: path.to_owned() }),
        Some(reply) => if reply.unit().is_err() {
            refused(Errno::Io)
        } else {
            Step::Done(calls::with_edit(Answer::Done, Edit::Remove { ino }))
        },
    }
}

fn check_empty(reply: &FsResponse) -> (r: Result<(), Errno>)
    ensures
        r == emptiness(reply@),
{
    match reply {
        FsReply::Names(Some(names)) => if names.len() > 0 {
            Err(Errno::NotEmpty)
        } else {
            Ok(())
        },
        FsReply::Names(None) => Err(Errno::NoEntry),
        _ => Err(Errno::Io),
    }
}

/// Removes a directory.
pub fn run_rmdir(path: &str, replies: &Vec<FsResponse>) -> (r: FuseStep)
    ensures
        step_view(r) == plan::next(rmdir_plan(path@), plan::views(replies@)),
{
    let mut rp = Replay::new(replies);
    let reply = match rp.next() {
        None => {
            return Step::Ask(FsCall::Lstat { path: path.to_owned() });
        },
        Some(x) => x,
    };
    let s = match reply.stats() {
        Ok(Some(s)) => s,
        Ok(None) => {
            return refused(Errno::NoEntry);
        },
        Err(_) => {
            return refused(Errno::Io);
        },
    };
    if !s.is_directory() {
        return refused(Errno::NotDirectory);
    }
    let reply = match rp.next() {
        None => {
            return Step::Ask(FsCall::Readdir { path: path.to_owned() });
        },
        Some(x) => x,
    };
    match check_empty(reply) {
        Err(e) => refused(e),
        Ok(_) => end_with_removal(path, s.ino as u64, &mut rp),
    }
}

/// Removes a file.
pub fn run_unlink(path: &str, replies: &Vec<FsResponse>) -> (r: FuseStep)
    ensures
        step_view(r) == plan::next(unlink_plan(path@), plan::views(replies@)),
{
    let mut rp = Replay::new(replies);
    let reply = match rp.next() {
        None => {
            return Step::Ask(FsCall::Lstat { path: path.to_owned() });
        },
        Some(x) => x,
    };
    match reply.stats() {
        Ok(Some(s)) => if s.is_directory() {
            refused(Errno::IsDirectory)
        } else {
            end_with_removal(path, s.ino as u64, &mut rp)
        },
        Ok(None) => refused(Errno::NoEntry),
        Err(_) => refused(Errno::Io),
    }
}

/// Creates an empty file and opens it. Once the file has been found, its path is
/// remembered, even if it cannot be opened.
pub open spec fn create_plan(path: Seq<char>, uid: u32, gid: u32) -> FusePlan {
    or_fail(
        FsCall::WriteFile { path, data: Seq::<u8>::empty() },
        Plan::Ask(
            FsCall::Stat { path },
            |r: FsReplyView|
                match calls::stats_reply(r) {
                    Ok(Some(s)) => Plan::Ask(
                        FsCall::Open { path },
                        |r: FsReplyView|
                            Plan::Done(
                                calls::edited_outcome(
                                    match calls::unit_reply(r) {
                                        Ok(_) => Answer::Create(calls::attr_of(s, uid, gid)),
                                        Err(_) => Answer::Error(Errno::Io),
                                    },
                                    Edit::Insert { ino: s.ino as u64, path },
                                ),
                            ),
                    ),
                    _ => refuse(Errno::Io),
                },
        ),
    )
}

/// Creates an empty file and opens it.
pub fn run_create(path: &str, uid: u32, gid: u32, replies: &Vec<FsResponse>) -> (r: FuseStep)
    ensures
        step_view(r) == plan::next(create_plan(path@, uid, gid), plan::views(replies@)),
{
    let mut rp = Replay::new(replies);
    match rp.next() {
        None => {
            let data: Vec<u8> = Vec::new();
            return Step::Ask(FsCall::WriteFile { path: path.to_owned(), data });
        },
        Some(reply) => {
            if reply.unit().is_err() {
                return refused(Errno::Io);
            }
        },
    }
    let reply = match rp.next() {
        None => {
            return Step::Ask(FsCall::Stat { path: path.to_owned() });
        },
        Some(x) => x,
    };
    let s = match reply.stats() {
        Ok(Some(s)) => s,
        _ => {
            return refused(Errno::Io);
        },
    };
    let reply = match rp.next() {
        None => {
            return Step::Ask(FsCall::Open { path: path.to_owned() });
        },
        Some(x) => x,
    };
    let answer = if reply.unit().is_err() {
        Answer::Error(Errno::Io)
    } else {
        Answer::Create(calls::fillattr(&s, uid, gid))
    };
    Step::Done(
        calls::with_edit(answer, Edit::Insert { ino: s.ino as u64, path: path.to_owned() }),
    )
}

/// The inode in a reply, if there is one.
pub open spec fn found_ino(r: FsReplyView) -> Option<u64> {
    match calls::stats_reply(r) {
        Ok(Some(s)) => Some(s.ino as u64),
        _ => None,
    }
}

/// The inode in a reply, if there is one.
pub fn ino_of(reply: &FsResponse) -> (r: Option<u64>)
    ensures
        r == found_ino(reply@),
{
    match reply.stats() {
        Ok(Some(s)) => Some(s.ino as u64),
        _ => None,
    }
}

/// What a move changes in the table of paths: the entry lies elsewhere, and the
/// one that it replaced is forgotten.
pub open spec fn move_edits(src: Option<u64>, dst: Option<u64>, to: Seq<char>) -> Seq<
    Edit<Seq<char>>,
> {
    (match src {
        Some(ino) => seq![Edit::<Seq<char>>::Remove { ino }, Edit::Insert { ino, path: to }],
        None => Seq::empty(),
    }) + (match dst {
        Some(ino) => seq![Edit::<Seq<char>>::Remove { ino }],
        None => Seq::empty(),
    })
}

/// The error that the kernel is told where a move has failed.
pub open spec fn move_error(e: Option<FsError>) -> Errno {
    match e {
        Some(e) => types::errno_of(e),
        None => Errno::Io,
    }
}

/// Moves an entry.
pub open spec fn rename_plan(from: Seq<char>, to: Seq<char>) -> FusePlan {
    Plan::Ask(
        FsCall::Stat { path: from },
        |src: FsReplyView|
            Plan::Ask(
                FsCall::Stat { path: to },
                |dst: FsReplyView|
                    Plan::Ask(
                        FsCall::Rename { from, to },
                        |r: FsReplyView|
                            match calls::unit_reply(r) {
                                Ok(_) => Plan::Done(
                                    Outcome {
                                        answer: Answer::Done,
                                        edits: move_edits(found_ino(src), found_ino(dst), to),
                                    },
                                ),
                                Err(e) => refuse(move_error(e)),
                            },
                    ),
            ),
    )
}

/// Moves an entry.
pub fn run_rename(from: &str, to: &str, replies: &Vec<FsResponse>) -> (r: FuseStep)
    ensures
        step_view(r) == plan::next(rename_plan(from@, to@), plan::views(replies@)),
{
    let mut rp = Replay::new(replies);
    let src = match rp.next() {
        None => {
            return Step::Ask(FsCall::Stat { path: from.to_owned() });
        },
        Some(x) => ino_of(x),
    };
    let dst = match rp.next() {
        None => {
            return Step::Ask(FsCall::Stat { path: to.to_owned() });
        },
        Some(x) => ino_of(x),
    };
    let reply = match rp.next() {
        None => {
            return Step::Ask(FsCall::Rename { from: from.to_owned(), to: to.to_owned() });
        },
        Some(x) => x,
    };
    match reply.unit() {
        Ok(_) => {
            let mut edits: Vec<Edit<String>> = Vec::new();
            if let Some(ino) = src {
                edits.push(Edit::Remove { ino });
                edits.push(Edit::Insert { ino, path: to.to_owned() });
            }
            if let Some(ino) = dst {
                edits.push(Edit::Remove { ino });
            }
            assert(plan::views(edits@) =~= move_edits(src, dst, to@));
            Step::Done(Outcome { answer: Answer::Done, edits })
        },
        Err(Some(e)) => refused(e.errno()),
        Err(None) => refused(Errno::Io),
    }
}

/// Opens a file.
pub open spec fn open_plan(path: Seq<char>) -> FusePlan {
    or_fail(FsCall::Open { path }, Plan::Done(calls::plain_outcome(Answer::Open)))
}

/// Opens a file.
pub fn run_open(path: &str, replies: &Vec<FsResponse>) -> (r: FuseStep)
    ensures
        step_view(r) == plan::next(open_plan(path@), plan::views(replies@)),
{
    let mut rp = Replay::new(replies);
    match rp.next() {
        None => Step::Ask(FsCall::Open { path: path.to_owned() }),
        Some(reply) => if reply.unit().is_err() {
            refused(Errno::Io)
        } else {
            Step::Done(calls::simply(Answer::Open))
        },
    }
}

/// Reads from an open file.
pub open spec fn read_plan(fh: u64, offset: i64, size: u32) -> FusePlan {
    Plan::Ask(
        FsCall::Pread { fh, offset: offset as u64, size: size as u64 },
        |r: FsReplyView|
            match r {
                FsReply::Bytes(b) => Plan::Done(calls::plain_outcome(Answer::Data(b))),
                _ => refuse(Errno::Io),
            },
    )
}

/// Reads from an open file.
pub fn run_read(fh: u64, offset: i64, size: u32, replies: &Vec<FsResponse>) -> (r: FuseStep)
    ensures
        step_view(r) == plan::next(read_plan(fh, offset, size), plan::views(replies@)),
{
    let mut rp = Replay::new(replies);
    match rp.next() {
        None => Step::Ask(FsCall::Pread { fh, offset: offset as u64, size: size as u64 }),
        Some(reply) => match reply {
            FsReply::Bytes(b) => Step::Done(calls::simply(Answer::Data(copy_bytes(b.as_slice())))),
            _ => refused(Errno::Io),
        },
    }
}

/// Writes to an open file.
pub open spec fn write_plan(fh: u64, offset: i64, data: Seq<u8>) -> FusePlan {
    or_fail(
        FsCall::Pwrite { fh, offset: offset as u64, data },
        Plan::Done(calls::plain_outcome(Answer::Written(data.len() as u32))),
    )
}

/// Writes to an open file.
pub fn run_write(fh: u64, offset: i64, data: &Vec<u8>, replies: &Vec<FsResponse>) -> (r: FuseStep)
    ensures
        step_view(r) == plan::next(write_plan(fh, offset, data@), plan::views(replies@)),
{
    let mut rp = Replay::new(replies);
    match rp.next() {
        None => Step::Ask(
            FsCall::Pwrite { fh, offset: offset as u64, data: copy_bytes(data.as_slice()) },
        ),
        Some(reply) => if reply.unit().is_err() {
            refused(Errno::Io)
        } else {
            Step::Done(calls::simply(Answer::Written(data.len() as u32)))
        },
    }
}

/// Brings an open file to storage.
pub open spec fn fsync_plan(fh: u64) -> FusePlan {
    or_fail(FsCall::Fsync { fh }, Plan::Done(calls::plain_outcome(Answer::Done)))
}

/// Brings an open file to storage.
pub fn run_fsync(fh: u64, replies: &Vec<FsResponse>) -> (r: FuseStep)
    ensures
        step_view(r) == plan::next(fsync_plan(fh), plan::views(replies@)),
{
    let mut rp = Replay::new(replies);
    match rp.next() {
        None => Step::Ask(FsCall::Fsync { fh }),
        Some(reply) => if reply.unit().is_err() {
            refused(Errno::Io)
        } else {
            Step::Done(calls::simply(Answer::Done))
        },
    }
}

/// The blocks that hold `bytes` bytes.
pub open spec fn blocks_used(bytes: u64) -> int {
    (bytes + adapter::BLOCK_SIZE - 1) / (adapter::BLOCK_SIZE as int)
}

/// The room there is: what is not used of a large fixed capacity.
pub open spec fn space(used_blocks: int, used_inodes: int) -> Space {
    let free_blocks = if used_blocks >= adapter::TOTAL_BLOCKS {
        0
    } else {
        adapter::TOTAL_BLOCKS - used_blocks
    };
    let free_files = if used_inodes >= adapter::TOTAL_INODES {
        0
    } else {
        adapter::TOTAL_INODES - used_inodes
    };
    Space {
        blocks: adapter::TOTAL_BLOCKS,
        free_blocks: free_blocks as u64,
        available_blocks: free_blocks as u64,
        files: adapter::TOTAL_INODES,
        free_files: free_files as u64,
        block_size: 4096,
        name_length: adapter::MAX_NAMELEN,
        fragment_size: 4096,
    }
}

/// Counts the room there is. Where that fails, only the root seems to be there.
pub open spec fn statfs_plan() -> FusePlan {
    Plan::Ask(
        FsCall::Statfs,
        |r: FsReplyView|
            Plan::Done(
                calls::plain_outcome(
                    Answer::Space(
                        match r {
                            FsReply::Usage { inodes, bytes_used } => space(
                                blocks_used(bytes_used),
                                inodes as int,
                            ),
                            _ => space(0, 1),
                        },
                    ),
                ),
            ),
    )
}

/// Counts the room there is.
pub fn run_statfs(replies: &Vec<FsResponse>) -> (r: FuseStep)
    ensures
        step_view(r) == plan::next(statfs_plan(), plan::views(replies@)),
{
    let mut rp = Replay::new(replies);
    let reply = match rp.next() {
        None => {
            return Step::Ask(FsCall::Statfs);
        },
        Some(x) => x,
    };
    let (used_blocks, used_inodes): (u64, u64) = match reply {
        FsReply::Usage { inodes, bytes_used } => {
            let whole: u64 = *bytes_used / adapter::BLOCK_SIZE;
            let used: u64 = if *bytes_used % adapter::BLOCK_SIZE == 0 {
                whole
            } else {
                whole + 1
            };
            assert(used == blocks_used(*bytes_used));
            (used, *inodes)
        },
        _ => (0, 1),
    };
    let free_blocks: u64 = if used_blocks >= adapter::TOTAL_BLOCKS {
        0
    } else {
        adapter::TOTAL_BLOCKS - used_blocks
    };
    let free_files: u64 = if used_inodes >= adapter::TOTAL_INODES {
        0
    } else {
        adapter::TOTAL_INODES - used_inodes
    };
    Step::Done(
        calls::simply(
            Answer::Space(
                Space {
                    blocks: adapter::TOTAL_BLOCKS,
                    free_blocks,
                    available_blocks: free_blocks,
                    files: adapter::TOTAL_INODES,
                    free_files,
                    block_size: 4096,
                    name_length: adapter::MAX_NAMELEN,
                    fragment_size: 4096,
                },
            ),
        ),
    )
}

} // verus!
