//! Directory listings.

use crate::errno::Errno;
use crate::fs::types::Stats;
use crate::fuse::adapter;
use crate::fuse::adapter::{AgentFSFuse, FusePlan, FuseView, Job, JobView};
use crate::fuse::calls;
use crate::fuse::calls::{
    Answer, Dirent, DirentPlus, Edit, FileType, FsCall, FsReply, FsReplyView, FsResponse,
    ListedEntry, Outcome, OutcomeView,
};
use crate::fuse::jobs;
use crate::fuse::jobs::FuseStep;
use crate::paths;
use crate::plan;
use crate::plan::{Plan, Replay, Step};
use crate::text;
use vstd::prelude::*;
use vstd::string::*;

verus! {

broadcast use crate::plan::group_after;

pub type EntryView = ListedEntry<Seq<char>>;

/// A line of the listing of the directory `ino`: first itself, then the
/// directory above, then the entries.
pub open spec fn line(ino: u64, parent: u64, entries: Seq<EntryView>, i: int) -> Dirent<Seq<char>> {
    let offset = (i + 1) as i64;
    if i == 0 {
        Dirent { ino, offset, kind: FileType::Directory, name: "."@ }
    } else if i == 1 {
        Dirent { ino: parent, offset, kind: FileType::Directory, name: ".."@ }
    } else {
        Dirent {
            ino: entries[i - 2].stats.ino as u64,
            offset,
            kind: calls::kind_of(entries[i - 2].stats),
            name: entries[i - 2].name,
        }
    }
}

/// All lines of the listing of a directory.
pub open spec fn lines(ino: u64, parent: u64, entries: Seq<EntryView>) -> Seq<Dirent<Seq<char>>> {
    Seq::new(entries.len() + 2, |i: int| line(ino, parent, entries, i))
}

/// The lines that a reader that has got as far as `offset` has not seen.
pub open spec fn from_offset(all: Seq<Dirent<Seq<char>>>, offset: i64) -> Seq<Dirent<Seq<char>>> {
    if offset < 0 || offset >= all.len() {
        Seq::empty()
    } else {
        all.skip(offset as int)
    }
}

/// The paths of the entries are remembered.
pub open spec fn entry_edits(path: Seq<char>, entries: Seq<EntryView>) -> Seq<Edit<Seq<char>>> {
    Seq::new(
        entries.len(),
        |i: int|
            Edit::Insert {
                ino: entries[i].stats.ino as u64,
                path: paths::child(path, entries[i].name),
            },
    )
}

/// The end of a listing.
pub open spec fn listing_outcome(
    ino: u64,
    parent: u64,
    path: Seq<char>,
    offset: i64,
    entries: Seq<EntryView>,
) -> OutcomeView {
    Outcome {
        answer: Answer::Directory(from_offset(lines(ino, parent, entries), offset)),
        edits: entry_edits(path, entries),
    }
}

/// Lists a directory. The directory above the root is the root, and where the
/// one above is not found it is taken to be the root.
pub open spec fn readdir_plan(ino: u64, path: Seq<char>, offset: i64) -> FusePlan {
    Plan::Ask(
        FsCall::ReaddirPlus { path },
        |r: FsReplyView|
            match r {
                FsReply::Entries(Some(entries)) => if ino == 1 || paths::directory(path) == "/"@ {
                    Plan::Done(listing_outcome(ino, 1, path, offset, entries))
                } else {
                    Plan::Ask(
                        FsCall::Stat { path: paths::directory(path) },
                        |r: FsReplyView|
                            Plan::Done(
                                listing_outcome(
                                    ino,
                                    match jobs::found_ino(r) {
                                        Some(parent) => parent,
                                        None => 1,
                                    },
                                    path,
                                    offset,
                                    entries,
                                ),
                            ),
                    )
                },
                FsReply::Entries(None) => jobs::refuse(Errno::NoEntry),
                _ => jobs::refuse(Errno::Io),
            },
    )
}

fn build_listing(
    ino: u64,
    parent: u64,
    path: &str,
    offset: i64,
    entries: &Vec<ListedEntry<String>>,
) -> (r: FuseStep)
    ensures
        jobs::step_view(r) == jobs::FuseHead::Done(
            listing_outcome(ino, parent, path@, offset, plan::views(entries@)),
        ),
{
    let ghost seen = plan::views(entries@);
    let ghost all = lines(ino, parent, seen);
    let mut kinds: Vec<(u64, FileType)> = Vec::new();
    kinds.push((ino, FileType::Directory));
    kinds.push((parent, FileType::Directory));
    let mut edits: Vec<Edit<String>> = Vec::new();
    let mut i: usize = 0;
    while i < entries.len()
        invariant
            i <= entries@.len(),
            seen == plan::views(entries@),
            all == lines(ino, parent, seen),
            kinds@.len() == i + 2,
            kinds@[0] == (ino, FileType::Directory),
            kinds@[1] == (parent, FileType::Directory),
            forall|j: int|
                0 <= j < i ==> #[trigger] kinds@[j + 2] == (
                    seen[j].stats.ino as u64,
                    calls::kind_of(seen[j].stats),
                ),
            plan::views(edits@) == entry_edits(path@, seen).take(i as int),
        decreases entries@.len() - i,
    {
        let e = &entries[i];
        assert(seen[i as int] == e@);
        let ghost before = plan::views(edits@);
        edits.push(
            Edit::Insert {
                ino: e.stats.ino as u64,
                path: paths::join_path(path, e.name.as_str()),
            },
        );
        kinds.push((e.stats.ino as u64, calls::file_type(&e.stats)));
        assert(plan::views(edits@) =~= before.push(entry_edits(path@, seen)[i as int]));
        i = i + 1;
        assert(plan::views(edits@) =~= entry_edits(path@, seen).take(i as int));
    }
    assert(entry_edits(path@, seen).take(i as int) =~= entry_edits(path@, seen));
    let n: usize = kinds.len();
    let mut out: Vec<Dirent<String>> = Vec::new();
    if offset < 0 || offset as u64 >= n as u64 {
        assert(plan::views(out@) =~= from_offset(all, offset));
        return Step::Done(Outcome { answer: Answer::Directory(out), edits });
    }
    let start: usize = offset as usize;
    let mut k: usize = start;
    assert(plan::views(out@) =~= all.subrange(start as int, k as int));
    while k < n
        invariant
            start <= k <= n,
            n == kinds@.len(),
            n == entries@.len() + 2,
            seen == plan::views(entries@),
            all == lines(ino, parent, seen),
            kinds@[0] == (ino, FileType::Directory),
            kinds@[1] == (parent, FileType::Directory),
            forall|j: int|
                0 <= j < entries@.len() ==> #[trigger] kinds@[j + 2] == (
                    seen[j].stats.ino as u64,
                    calls::kind_of(seen[j].stats),
                ),
            plan::views(out@) == all.subrange(start as int, k as int),
        decreases n - k,
    {
        let name = if k == 0 {
            ".".to_owned()
        } else if k == 1 {
            "..".to_owned()
        } else {
            let j: usize = k - 2;
            assert(seen[j as int] == entries@[j as int]@);
            assert(kinds@[j + 2] == (seen[j as int].stats.ino as u64, calls::kind_of(
                seen[j as int].stats,
            )));
            entries[j].name.clone()
        };
        let ghost before = plan::views(out@);
        out.push(Dirent { ino: kinds[k].0, offset: (k + 1) as i64, kind: kinds[k].1, name });
        assert(out@.last()@ == all[k as int]);
        assert(plan::views(out@) =~= before.push(all[k as int]));
        k = k + 1;
        assert(plan::views(out@) =~= all.subrange(start as int, k as int));
    }
    assert(all.subrange(start as int, n as int) =~= all.skip(start as int));
    Step::Done(Outcome { answer: Answer::Directory(out), edits })
}

/// Lists a directory.
pub fn run_readdir(ino: u64, path: &str, offset: i64, replies: &Vec<FsResponse>) -> (r: FuseStep)
    ensures
        jobs::step_view(r) == plan::next(readdir_plan(ino, path@, offset), plan::views(replies@)),
{
    let mut rp = Replay::new(replies);
    let reply = match rp.next() {
        None => {
            return Step::Ask(FsCall::ReaddirPlus { path: path.to_owned() });
        },
        Some(x) => x,
    };
    let entries = match reply {
        FsReply::Entries(Some(entries)) => entries,
        FsReply::Entries(None) => {
            return jobs::refused(Errno::NoEntry);
        },
        _ => {
            return jobs::refused(Errno::Io);
        },
    };
    if ino == 1 {
        return build_listing(ino, 1, path, offset, entries);
    }
    let above = paths::parent_path(path);
    if text::same(above.as_str(), "/") {
        return build_listing(ino, 1, path, offset, entries);
    }
    let parent: u64 = match rp.next() {
        None => {
            return Step::Ask(FsCall::Stat { path: above });
        },
        Some(x) => match jobs::ino_of(x) {
            Some(p) => p,
            None => 1,
        },
    };
    build_listing(ino, parent, path, offset, entries)
}

/// A line for the directory itself or the one above, if its statistics are known
/// and the reader has not seen it.
pub open spec fn dot_line(
    ino: u64,
    at: i64,
    name: Seq<char>,
    stats: Option<Stats>,
    offset: i64,
    uid: u32,
    gid: u32,
) -> Seq<DirentPlus<Seq<char>>> {
    if offset <= at && stats is Some {
        seq![
            DirentPlus {
                ino,
                offset: at.wrapping_add(1),
                name,
                attr: calls::attr_of(stats->0, uid, gid),
                path: None,
            },
        ]
    } else {
        Seq::empty()
    }
}

/// The line of the entry number `i`, which stands behind two others.
pub open spec fn entry_line(path: Seq<char>, e: EntryView, i: int, uid: u32, gid: u32) -> DirentPlus<
    Seq<char>,
> {
    DirentPlus {
        ino: e.stats.ino as u64,
        offset: (i as i64).wrapping_add(2).wrapping_add(1),
        name: e.name,
        attr: calls::attr_of(e.stats, uid, gid),
        path: Some(paths::child(path, e.name)),
    }
}

/// The lines of the first `n` entries that the reader has not seen.
pub open spec fn entry_lines(
    path: Seq<char>,
    entries: Seq<EntryView>,
    n: int,
    offset: i64,
    uid: u32,
    gid: u32,
) -> Seq<DirentPlus<Seq<char>>>
    decreases n,
{
    if n <= 0 {
        Seq::empty()
    } else {
        let before = entry_lines(path, entries, n - 1, offset, uid, gid);
        if offset <= ((n - 1) as i64).wrapping_add(2) {
            before.push(entry_line(path, entries[n - 1], n - 1, uid, gid))
        } else {
            before
        }
    }
}

/// The end of a listing with attributes.
pub open spec fn plus_outcome(
    ino: u64,
    here: Option<Stats>,
    parent: u64,
    above: Option<Stats>,
    path: Seq<char>,
    offset: i64,
    entries: Seq<EntryView>,
    uid: u32,
    gid: u32,
) -> OutcomeView {
    calls::plain_outcome(
        Answer::DirectoryPlus(
            dot_line(ino, 0, "."@, here, offset, uid, gid) + dot_line(
                parent,
                1,
                ".."@,
                above,
                offset,
                uid,
                gid,
            ) + entry_lines(path, entries, entries.len() as int, offset, uid, gid),
        ),
    )
}

/// The statistics in a reply, if there are any.
pub open spec fn found_stats(r: FsReplyView) -> Option<Stats> {
    match calls::stats_reply(r) {
        Ok(s) => s,
        Err(_) => None,
    }
}

/// Which inode is above: the root above the root, and where the one above is not
/// found.
pub open spec fn above_ino(path: Seq<char>, above: Option<Stats>) -> u64 {
    if paths::directory(path) == "/"@ {
        1
    } else {
        match above {
            Some(s) => s.ino as u64,
            None => 1,
        }
    }
}

/// Lists a directory with attributes.
pub open spec fn readdirplus_plan(
    ino: u64,
    path: Seq<char>,
    offset: i64,
    uid: u32,
    gid: u32,
) -> FusePlan {
    Plan::Ask(
        FsCall::ReaddirPlus { path },
        |r: FsReplyView|
            match r {
                FsReply::Entries(Some(entries)) => Plan::Ask(
                    FsCall::Stat { path },
                    |r: FsReplyView|
                        {
                            let here = found_stats(r);
                            if ino == 1 {
                                Plan::Done(
                                    plus_outcome(ino, here, 1, here, path, offset, entries, uid, gid),
                                )
                            } else {
                                Plan::Ask(
                                    FsCall::Stat { path: paths::directory(path) },
                                    |r: FsReplyView|
                                        Plan::Done(
                                            plus_outcome(
                                                ino,
                                                here,
                                                above_ino(path, found_stats(r)),
                                                found_stats(r),
                                                path,
                                                offset,
                                                entries,
                                                uid,
                                                gid,
                                            ),
                                        ),
                                )
                            }
                        },
                ),
                FsReply::Entries(None) => jobs::refuse(Errno::NoEntry),
                _ => jobs::refuse(Errno::Io),
            },
    )
}

fn push_dot(
    out: &mut Vec<DirentPlus<String>>,
    ino: u64,
    at: i64,
    name: &str,
    stats: &Option<Stats>,
    offset: i64,
    uid: u32,
    gid: u32,
)
    ensures
        plan::views(final(out)@) == plan::views(old(out)@) + dot_line(
            ino,
            at,
            name@,
            *stats,
            offset,
            uid,
            gid,
        ),
{
    let ghost before = plan::views(out@);
    let ghost more = dot_line(ino, at, name@, *stats, offset, uid, gid);
    if offset <= at {
        if let Some(s) = stats {
            out.push(
                DirentPlus {
                    ino,
                    offset: at.wrapping_add(1),
                    name: name.to_owned(),
                    attr: calls::fillattr(s, uid, gid),
                    path: None,
                },
            );
        }
    }
    assert(plan::views(out@) =~= before + more);
}

fn build_plus(
    ino: u64,
    here: Option<Stats>,
    parent: u64,
    above: Option<Stats>,
    path: &str,
    offset: i64,
    entries: &Vec<ListedEntry<String>>,
    uid: u32,
    gid: u32,
) -> (r: FuseStep)
    ensures
        jobs::step_view(r) == jobs::FuseHead::Done(
            plus_outcome(
                ino,
                here,
                parent,
                above,
                path@,
                offset,
                plan::views(entries@),
                uid,
                gid,
            ),
        ),
{
    let ghost seen = plan::views(entries@);
    let ghost first = dot_line(ino, 0, "."@, here, offset, uid, gid) + dot_line(
        parent,
        1,
        ".."@,
        above,
        offset,
        uid,
        gid,
    );
    let mut out: Vec<DirentPlus<String>> = Vec::new();
    assert(plan::views(out@) =~= Seq::<DirentPlus<Seq<char>>>::empty());
    push_dot(&mut out, ino, 0, ".", &here, offset, uid, gid);
    push_dot(&mut out, parent, 1, "..", &above, offset, uid, gid);
    let mut i: usize = 0;
    assert(plan::views(out@) =~= first + entry_lines(path@, seen, 0, offset, uid, gid));
    while i < entries.len()
        invariant
            i <= entries@.len(),
            seen == plan::views(entries@),
            plan::views(out@) == first + entry_lines(path@, seen, i as int, offset, uid, gid),
        decreases entries@.len() - i,
    {
        let e = &entries[i];
        assert(seen[i as int] == e@);
        let at: i64 = (i as i64).wrapping_add(2);
        let ghost before = plan::views(out@);
        let ghost done = entry_lines(path@, seen, i as int, offset, uid, gid);
        if offset <= at {
            out.push(
                DirentPlus {
                    ino: e.stats.ino as u64,
                    offset: at.wrapping_add(1),
                    name: e.name.clone(),
                    attr: calls::fillattr(&e.stats, uid, gid),
                    path: Some(paths::join_path(path, e.name.as_str())),
                },
            );
            assert(plan::views(out@) =~= before.push(
                entry_line(path@, seen[i as int], i as int, uid, gid),
            ));
            assert(plan::views(out@) =~= first + done.push(
                entry_line(path@, seen[i as int], i as int, uid, gid),
            ));
        }
        i = i + 1;
        assert(plan::views(out@) =~= first + entry_lines(path@, seen, i as int, offset, uid, gid));
    }
    Step::Done(calls::simply(Answer::DirectoryPlus(out)))
}

fn stats_of(reply: &FsResponse) -> (r: Option<Stats>)
    ensures
        r == found_stats(reply@),
{
    match reply.stats() {
        Ok(s) => s,
        Err(_) => None,
    }
}

/// Lists a directory with attributes.
pub fn run_readdirplus(
    ino: u64,
    path: &str,
    offset: i64,
    uid: u32,
    gid: u32,
    replies: &Vec<FsResponse>,
) -> (r: FuseStep)
    ensures
        jobs::step_view(r) == plan::next(
            readdirplus_plan(ino, path@, offset, uid, gid),
            plan::views(replies@),
        ),
{
    let mut rp = Replay::new(replies);
    let reply = match rp.next() {
        None => {
            return Step::Ask(FsCall::ReaddirPlus { path: path.to_owned() });
        },
        Some(x) => x,
    };
    let entries = match reply {
        FsReply::Entries(Some(entries)) => entries,
        FsReply::Entries(None) => {
            return jobs::refused(Errno::NoEntry);
        },
        _ => {
            return jobs::refused(Errno::Io);
        },
    };
    let here = match rp.next() {
        None => {
            return Step::Ask(FsCall::Stat { path: path.to_owned() });
        },
        Some(x) => stats_of(x),
    };
    if ino == 1 {
        return build_plus(ino, here, 1, here, path, offset, entries, uid, gid);
    }
    let up = paths::parent_path(path);
    let is_root = text::same(up.as_str(), "/");
    let above = match rp.next() {
        None => {
            return Step::Ask(FsCall::Stat { path: up });
        },
        Some(x) => stats_of(x),
    };
    let parent: u64 = if is_root {
        1
    } else {
        match &above {
            Some(s) => s.ino as u64,
            None => 1,
        }
    };
    build_plus(ino, here, parent, above, path, offset, entries, uid, gid)
}

/// What is remembered once lines have been handed out.
pub open spec fn plus_edits(given: Seq<DirentPlus<Seq<char>>>) -> Seq<Edit<Seq<char>>>
    decreases given.len(),
{
    if given.len() == 0 {
        Seq::empty()
    } else {
        let before = plus_edits(given.drop_last());
        match given.last().path {
            Some(path) => before.push(Edit::Insert { ino: given.last().ino, path }),
            None => before,
        }
    }
}

impl<F> AgentFSFuse<F> {
    /// Remembers the paths of the first `tried` lines of a listing with
    /// attributes: those that the kernel has taken, and the one that did not fit.
    pub fn hand_out(&mut self, given: &Vec<DirentPlus<String>>, tried: usize)
        requires
            tried <= given@.len(),
        ensures
            final(self)@ == (FuseView {
                paths: adapter::edited_all(
                    old(self)@.paths,
                    plus_edits(plan::views(given@).take(tried as int)),
                ),
                ..old(self)@
            }),
    {
        let ghost all = plan::views(given@);
        let ghost before = self@;
        let mut i: usize = 0;
        while i < tried
            invariant
                i <= tried <= given@.len(),
                all == plan::views(given@),
                self@ == (FuseView {
                    paths: adapter::edited_all(before.paths, plus_edits(all.take(i as int))),
                    ..before
                }),
            decreases tried - i,
        {
            let e = &given[i];
            let ghost now = all.take(i + 1);
            assert(now.drop_last() =~= all.take(i as int));
            assert(now.last() == e@);
            if let Some(path) = &e.path {
                let ghost es = plus_edits(now);
                assert(es.drop_last() =~= plus_edits(all.take(i as int)));
                self.add_path(e.ino, path.clone());
            }
            i = i + 1;
        }
    }
}

/// The course of a request.
pub open spec fn job_plan(job: JobView, uid: u32, gid: u32) -> FusePlan {
    match job {
        Job::Lookup { path } => jobs::lookup_plan(path, uid, gid),
        Job::GetAttr { path } => jobs::getattr_plan(path, uid, gid),
        Job::ReadLink { path } => jobs::readlink_plan(path),
        Job::SetAttr { path, size, fh } => jobs::setattr_plan(path, size, fh, uid, gid),
        Job::ReadDir { ino, path, offset } => readdir_plan(ino, path, offset),
        Job::ReadDirPlus { ino, path, offset } => readdirplus_plan(ino, path, offset, uid, gid),
        Job::MkDir { path } => jobs::mkdir_plan(path, uid, gid),
        Job::RmDir { path } => jobs::rmdir_plan(path),
        Job::Create { path } => jobs::create_plan(path, uid, gid),
        Job::SymLink { path, target } => jobs::symlink_plan(path, target, uid, gid),
        Job::Unlink { path } => jobs::unlink_plan(path),
        Job::Rename { from, to } => jobs::rename_plan(from, to),
        Job::Open { path } => jobs::open_plan(path),
        Job::Read { fh, offset, size } => jobs::read_plan(fh, offset, size),
        Job::Write { fh, offset, data } => jobs::write_plan(fh, offset, data),
        Job::FSync { fh } => jobs::fsync_plan(fh),
        Job::StatFs => jobs::statfs_plan(),
    }
}

impl Job<String, Vec<u8>> {
    /// What this request does next, after the replies so far.
    pub fn run(&self, uid: u32, gid: u32, replies: &Vec<FsResponse>) -> (r: FuseStep)
        ensures
            jobs::step_view(r) == plan::next(job_plan(self@, uid, gid), plan::views(replies@)),
    {
        match self {
            Job::Lookup { path } => jobs::run_lookup(path.as_str(), uid, gid, replies),
            Job::GetAttr { path } => jobs::run_getattr(path.as_str(), uid, gid, replies),
            Job::ReadLink { path } => jobs::run_readlink(path.as_str(), replies),
            Job::SetAttr { path, size, fh } => jobs::run_setattr(
                path.as_str(),
                *size,
                *fh,
                uid,
                gid,
                replies,
            ),
            Job::ReadDir { ino, path, offset } => run_readdir(
                *ino,
                path.as_str(),
                *offset,
                replies,
            ),
            Job::ReadDirPlus { ino, path, offset } => run_readdirplus(
                *ino,
                path.as_str(),
                *offset,
                uid,
                gid,
                replies,
            ),
            Job::MkDir { path } => jobs::run_mkdir(path.as_str(), uid, gid, replies),
            Job::RmDir { path } => jobs::run_rmdir(path.as_str(), replies),
            Job::Create { path } => jobs::run_create(path.as_str(), uid, gid, replies),
            Job::SymLink { path, target } => jobs::run_symlink(
                path.as_str(),
                target.as_str(),
                uid,
                gid,
                replies,
            ),
            Job::Unlink { path } => jobs::run_unlink(path.as_str(), replies),
            Job::Rename { from, to } => jobs::run_rename(from.as_str(), to.as_str(), replies),
            Job::Open { path } => jobs::run_open(path.as_str(), replies),
            Job::Read { fh, offset, size } => jobs::run_read(*fh, *offset, *size, replies),
            Job::Write { fh, offset, data } => jobs::run_write(*fh, *offset, data, replies),
            Job::FSync { fh } => jobs::run_fsync(*fh, replies),
            Job::StatFs => jobs::run_statfs(replies),
        }
    }
}

} // verus!
