//! What the kernel gets for its requests, over a model of the file system: the bytes
//! that are read are those of the file, what is written is there afterwards, and every
//! answer tells of what the file system holds.

use crate::errno::Errno;
use crate::fs::types;
use crate::fs::types::Stats;
use crate::fuse::adapter;
use crate::fuse::adapter::{Job, JobView};
use crate::fuse::calls;
use crate::fuse::calls::{Answer, AnswerView, DirentPlus, Edit, FileType, OutcomeView};
use crate::fuse::listing;
use crate::fuse::model;
use crate::fuse::model::Files;
use crate::paths;
use crate::volume;
use vstd::prelude::*;

verus! {

/// What a request comes to on the file system `f`.
pub open spec fn served(f: Files, job: JobView, uid: u32, gid: u32) -> (OutcomeView, Files) {
    model::run(listing::job_plan(job, uid, gid), f)
}

pub open spec fn answered(f: Files, job: JobView, uid: u32, gid: u32) -> AnswerView {
    served(f, job, uid, gid).0.answer
}

/// A read of `size` bytes at `offset` through the handle of an open file answers with
/// the bytes of that file from the offset on, as far as there are so many, and changes
/// nothing.
pub proof fn law_read_gives_the_bytes(
    f: Files,
    fh: u64,
    offset: i64,
    size: u32,
    uid: u32,
    gid: u32,
)
    requires
        f.open.contains_key(fh),
        offset >= 0,
    ensures
        ({
            let data = f.nodes[f.open[fh]].data;
            let end = if offset + size <= data.len() {
                offset + size
            } else {
                data.len() as int
            };
            let (o, after) = served(f, Job::Read { fh, offset, size }, uid, gid);
            &&& after == f
            &&& offset <= data.len() ==> o.answer == AnswerView::Data(
                data.subrange(offset as int, end),
            )
            &&& offset > data.len() ==> o.answer == AnswerView::Data(Seq::empty())
            &&& o.edits.len() == 0
        }),
{
    broadcast use crate::fuse::model::group_run;

    let data = f.nodes[f.open[fh]].data;
    if offset > data.len() {
        assert(data.subrange(data.len() as int, data.len() as int) =~= Seq::<u8>::empty());
    }
}

/// A write through the handle of an open file answers with the number of bytes, and
/// puts them where it says: the file has them there, what it had elsewhere is as it
/// was, and what lies between its old end and the write is zero. No other file
/// changes, nor any entry.
pub proof fn law_write_puts_the_bytes(
    f: Files,
    fh: u64,
    offset: i64,
    data: Seq<u8>,
    uid: u32,
    gid: u32,
    i: int,
    other: i64,
)
    requires
        f.open.contains_key(fh),
        offset >= 0,
        0 < data.len() <= u32::MAX,
    ensures
        ({
            let (o, after) = served(f, Job::Write { fh, offset, data }, uid, gid);
            let old_data = f.nodes[f.open[fh]].data;
            let new_data = after.nodes[f.open[fh]].data;
            let end = offset + data.len();
            &&& o.answer == AnswerView::Written(data.len() as u32)
            &&& o.edits.len() == 0
            &&& new_data.len() == if end <= old_data.len() {
                old_data.len() as int
            } else {
                end
            }
            &&& offset <= i < end ==> new_data[i] == data[i - offset]
            &&& 0 <= i < old_data.len() && !(offset <= i < end) ==> new_data[i] == old_data[i]
            &&& old_data.len() <= i < offset ==> new_data[i] == 0
            &&& after.nodes[f.open[fh]].stats == f.nodes[f.open[fh]].stats
            &&& other != f.open[fh] ==> after.nodes[other] == f.nodes[other]
            &&& after.entries == f.entries
            &&& after.open == f.open
        }),
{
    broadcast use crate::fuse::model::group_run;

}

/// What was written through one handle is what is read through any handle of the same
/// file.
pub proof fn law_written_is_read(
    f: Files,
    fh: u64,
    gh: u64,
    offset: i64,
    data: Seq<u8>,
    uid: u32,
    gid: u32,
)
    requires
        f.open.contains_key(fh),
        f.open.contains_key(gh),
        f.open[fh] == f.open[gh],
        offset >= 0,
        offset + data.len() <= i64::MAX,
        data.len() <= u32::MAX,
        data.len() > 0,
    ensures
        ({
            let after = served(f, Job::Write { fh, offset, data }, uid, gid).1;
            answered(after, Job::Read { fh: gh, offset, size: data.len() as u32 }, uid, gid)
                == AnswerView::Data(data)
        }),
{
    broadcast use crate::fuse::model::group_run;

    let after = served(f, Job::Write { fh, offset, data }, uid, gid).1;
    law_read_gives_the_bytes(after, gh, offset, data.len() as u32, uid, gid);
    assert(after.nodes[f.open[gh]].data.subrange(offset as int, offset + data.len()) =~= data);
}

/// An open file that is to be brought to storage is.
pub proof fn law_synced_is_stored(f: Files, fh: u64, uid: u32, gid: u32)
    requires
        f.open.contains_key(fh),
    ensures
        ({
            let (o, after) = served(f, Job::FSync { fh }, uid, gid);
            &&& o.answer == AnswerView::Done
            &&& after.stored.contains(f.open[fh])
            &&& after.nodes == f.nodes
            &&& after.entries == f.entries
        }),
{
    broadcast use crate::fuse::model::group_run;

}

/// The kernel is told the attributes of what a file system reports: the inode, the
/// size, the times, the links, the type and the permissions that it has, for the owner
/// that the file system was mounted for.
pub open spec fn tells(a: calls::FileAttr, s: Stats, uid: u32, gid: u32) -> bool {
    &&& a.ino == s.ino as u64
    &&& a.size == s.size as u64
    &&& a.atime == s.atime as u64
    &&& a.mtime == s.mtime as u64
    &&& a.ctime == s.ctime as u64
    &&& a.nlink == s.nlink
    &&& a.uid == uid
    &&& a.gid == gid
    &&& a.perm == s.mode & 0o777
    &&& a.kind == FileType::Directory <==> types::dir_mode(s.mode)
    &&& a.kind == FileType::Symlink <==> types::link_mode(s.mode)
    &&& 0 <= s.size <= i64::MAX - 511 ==> (a.blocks - 1) * 512 < s.size <= a.blocks * 512
}

proof fn lemma_tells(s: Stats, uid: u32, gid: u32)
    ensures
        tells(calls::attr_of(s, uid, gid), s, uid, gid),
{
    let m = s.mode;
    assert(m & 0o777 <= 0o777) by (bit_vector);
}

/// Looking an entry up, or asking for its attributes, tells of the entry itself and
/// changes nothing; where there is no entry, that is the answer. An entry that was
/// looked up is known by its inode from then on.
pub proof fn law_lookup_tells_of_the_entry(
    f: Files,
    path: Seq<char>,
    uid: u32,
    gid: u32,
    known: Map<u64, Seq<char>>,
)
    ensures
        ({
            let (o, after) = served(f, Job::Lookup { path }, uid, gid);
            let (p, still) = served(f, Job::GetAttr { path }, uid, gid);
            let s = model::stats_of(f, f.entries[path]);
            let after_table = adapter::edited_all(known, o.edits);
            &&& after == f
            &&& still == f
            &&& p.edits.len() == 0
            &&& f.entries.contains_key(path) ==> {
                &&& o.answer matches Answer::Entry(a) && tells(a, s, uid, gid)
                &&& p.answer matches Answer::Attr(a) && tells(a, s, uid, gid)
                &&& after_table == known.insert(s.ino as u64, path)
            }
            &&& !f.entries.contains_key(path) ==> {
                &&& o.answer == AnswerView::Error(Errno::NoEntry)
                &&& p.answer == AnswerView::Error(Errno::NoEntry)
                &&& after_table == known
            }
        }),
{
    broadcast use crate::fuse::model::group_run;

    let s = model::stats_of(f, f.entries[path]);
    lemma_tells(s, uid, gid);
    lemma_one_edit(known, Edit::Insert { ino: s.ino as u64, path });
}

proof fn lemma_one_edit(table: Map<u64, Seq<char>>, edit: Edit<Seq<char>>)
    ensures
        adapter::edited_all(table, seq![edit]) == adapter::edited(table, edit),
        adapter::edited_all(table, Seq::<Edit<Seq<char>>>::empty()) == table,
{
    let es = seq![edit];
    assert(es.drop_last() =~= Seq::<Edit<Seq<char>>>::empty());
    assert(adapter::edited_all(table, es.drop_last()) == table);
}

/// Reading a link gives its target, where it is one; where nothing stands, that is the
/// answer, and what is no link is an error.
pub proof fn law_link_gives_its_target(f: Files, path: Seq<char>, uid: u32, gid: u32)
    ensures
        ({
            let (o, after) = served(f, Job::ReadLink { path }, uid, gid);
            let n = f.nodes[f.entries[path]];
            &&& after == f
            &&& o.edits.len() == 0
            &&& !f.entries.contains_key(path) ==> o.answer == AnswerView::Error(Errno::NoEntry)
            &&& f.entries.contains_key(path) && types::link_mode(n.stats.mode) ==> o.answer
                == AnswerView::Target(n.target)
            &&& f.entries.contains_key(path) && !types::link_mode(n.stats.mode) ==> o.answer
                == AnswerView::Error(Errno::Io)
        }),
{
    broadcast use crate::fuse::model::group_run;

}

/// The size of `file` was set: it is cut off there, or filled up with zeros, and nothing
/// else has changed.
pub open spec fn set_to(f: Files, after: Files, file: i64, size: u64) -> bool {
    let was = f.nodes[file].data;
    let is = after.nodes[file].data;
    &&& is.len() == size
    &&& forall|i: int|
        0 <= i < size ==> #[trigger] is[i] == if i < was.len() {
            was[i]
        } else {
            0u8
        }
    &&& after.nodes.contains_key(file)
    &&& after.nodes[file].stats == f.nodes[file].stats
    &&& after.nodes.remove(file) =~= f.nodes.remove(file)
    &&& after.entries == f.entries
    &&& after.open == f.open
}

/// Setting the size of a file, through the handle of an open file or by its path, cuts
/// it off or fills it up with zeros, and leaves all else alone; the answer tells of the
/// file at the path as it is then. A change that is of no size changes nothing.
#[verifier::rlimit(60)]
#[verifier::spinoff_prover]
pub proof fn law_size_is_set(
    f: Files,
    path: Seq<char>,
    size: u64,
    fh: Option<u64>,
    uid: u32,
    gid: u32,
)
    requires
        f.entries.contains_key(model::followed(f, path)),
        fh matches Some(h) ==> f.open.contains_key(h),
    ensures
        ({
            let there = model::followed(f, path);
            let (o, after) = served(f, Job::SetAttr { path, size: Some(size), fh }, uid, gid);
            let (p, still) = served(f, Job::SetAttr { path, size: None, fh }, uid, gid);
            let file = match fh {
                Some(h) => f.open[h],
                None => f.entries[there],
            };
            &&& set_to(f, after, file, size)
            &&& o.answer matches Answer::Attr(a) && tells(
                a,
                model::stats_of(after, f.entries[there]),
                uid,
                gid,
            )
            &&& still == f
            &&& p.answer matches Answer::Attr(a) && tells(
                a,
                model::stats_of(f, f.entries[there]),
                uid,
                gid,
            )
        }),
{
    broadcast use crate::fuse::model::group_run;

    let there = model::followed(f, path);
    let after = served(f, Job::SetAttr { path, size: Some(size), fh }, uid, gid).1;
    lemma_tells(model::stats_of(after, f.entries[there]), uid, gid);
    lemma_tells(model::stats_of(f, f.entries[there]), uid, gid);
    assert(model::followed(after, path) == there);
}

/// Where a file cannot be opened or its handle cannot be used, its size is not set, and
/// the answer is an error.
pub proof fn law_size_is_not_set(
    f: Files,
    path: Seq<char>,
    size: u64,
    fh: Option<u64>,
    uid: u32,
    gid: u32,
)
    requires
        match fh {
            Some(h) => !f.open.contains_key(h),
            None => !f.entries.contains_key(model::followed(f, path)),
        },
    ensures
        served(f, Job::SetAttr { path, size: Some(size), fh }, uid, gid).1 == f,
        answered(f, Job::SetAttr { path, size: Some(size), fh }, uid, gid) == AnswerView::Error(
            Errno::Io,
        ),
{
    broadcast use crate::fuse::model::group_run;

}

/// The entry at `path` is new: it has an inode that nothing had, it is empty, with this
/// mode and this target, and nothing else has changed.
pub open spec fn made(
    f: Files,
    after: Files,
    path: Seq<char>,
    mode: u32,
    target: Seq<char>,
) -> bool {
    &&& after.entries == f.entries.insert(path, f.next)
    &&& after.nodes.contains_key(f.next)
    &&& after.nodes[f.next].stats.mode == mode
    &&& after.nodes[f.next].data.len() == 0
    &&& after.nodes[f.next].target == target
    &&& after.nodes.remove(f.next) =~= f.nodes.remove(f.next)
    &&& after.open == f.open
}

/// A directory, a link or a file that is made where there is room for it is there, and
/// the answer tells of it; it is known by its inode from then on. A file is opened
/// besides. A path that is taken, or whose directory is missing, gets no directory and
/// no link.
#[verifier::rlimit(60)]
#[verifier::spinoff_prover]
pub proof fn law_new_entry_is_made(
    f: Files,
    path: Seq<char>,
    target: Seq<char>,
    uid: u32,
    gid: u32,
    known: Map<u64, Seq<char>>,
)
    ensures
        ({
            let (d, with_dir) = served(f, Job::MkDir { path }, uid, gid);
            let (l, with_link) = served(f, Job::SymLink { path, target }, uid, gid);
            let (c, with_file) = served(f, Job::Create { path }, uid, gid);
            let free = !f.entries.contains_key(path) && f.entries.contains_key(
                paths::directory(path),
            );
            &&& free ==> {
                &&& made(f, with_dir, path, types::DEFAULT_DIR_MODE, Seq::empty())
                &&& d.answer matches Answer::Entry(a) && tells(
                    a,
                    model::stats_of(with_dir, f.next),
                    uid,
                    gid,
                )
                &&& adapter::edited_all(known, d.edits) == known.insert(f.next as u64, path)
                &&& made(f, with_link, path, types::SYMLINK_MODE, target)
                &&& l.answer matches Answer::Entry(a) && tells(
                    a,
                    model::stats_of(with_link, f.next),
                    uid,
                    gid,
                )
                &&& adapter::edited_all(known, l.edits) == known.insert(f.next as u64, path)
                &&& made(f, with_file, path, types::DEFAULT_FILE_MODE, Seq::empty())
                &&& with_file.last == Some(f.next)
                &&& c.answer matches Answer::Create(a) && tells(
                    a,
                    model::stats_of(with_file, f.next),
                    uid,
                    gid,
                )
                &&& adapter::edited_all(known, c.edits) == known.insert(f.next as u64, path)
            }
            &&& !free ==> {
                &&& with_dir == f && d.answer == AnswerView::Error(Errno::Io)
                &&& with_link == f && l.answer == AnswerView::Error(Errno::Io)
                &&& d.edits.len() == 0 && l.edits.len() == 0
            }
        }),
{
    broadcast use crate::fuse::model::group_run;

    types::law_default_modes();
    types::law_file_types_exclude_each_other(types::DEFAULT_DIR_MODE);
    types::law_file_types_exclude_each_other(types::DEFAULT_FILE_MODE);
    let with_dir = served(f, Job::MkDir { path }, uid, gid).1;
    let with_link = served(f, Job::SymLink { path, target }, uid, gid).1;
    let with_file = served(f, Job::Create { path }, uid, gid).1;
    lemma_one_edit(known, Edit::Insert { ino: f.next as u64, path });
    if model::room(f, path) {
        lemma_tells(model::stats_of(with_dir, f.next), uid, gid);
        lemma_tells(model::stats_of(with_link, f.next), uid, gid);
        lemma_tells(model::stats_of(with_file, f.next), uid, gid);
    }
}

/// Creating a file where one stands empties it and opens it, and tells of it.
pub proof fn law_created_again_is_empty(f: Files, path: Seq<char>, uid: u32, gid: u32)
    requires
        f.entries.contains_key(path),
        !types::link_mode(f.nodes[f.entries[path]].stats.mode),
    ensures
        ({
            let (o, after) = served(f, Job::Create { path }, uid, gid);
            &&& after.entries == f.entries
            &&& after.nodes[f.entries[path]].data.len() == 0
            &&& after.last == Some(f.entries[path])
            &&& o.answer matches Answer::Create(a) && tells(
                a,
                model::stats_of(after, f.entries[path]),
                uid,
                gid,
            )
        }),
{
    broadcast use crate::fuse::model::group_run;

    let after = served(f, Job::Create { path }, uid, gid).1;
    lemma_tells(model::stats_of(after, f.entries[path]), uid, gid);
}

/// A directory that is empty is removed by `rmdir`, and anything that is no directory by
/// `unlink`: the entry is gone, all others are there, and its inode is forgotten.
/// Nothing else is removed, and the answer says why.
pub proof fn law_entry_is_removed(
    f: Files,
    path: Seq<char>,
    uid: u32,
    gid: u32,
    known: Map<u64, Seq<char>>,
)
    requires
        model::names_in(f, path).finite(),
        f.entries.contains_key(path) && !types::dir_mode(f.nodes[f.entries[path]].stats.mode)
            ==> model::names_in(f, path) == Set::<Seq<char>>::empty(),
    ensures
        ({
            let (d, less_dir) = served(f, Job::RmDir { path }, uid, gid);
            let (u, less_file) = served(f, Job::Unlink { path }, uid, gid);
            let there = f.entries.contains_key(path);
            let ino = f.entries[path];
            let dir = types::dir_mode(f.nodes[ino].stats.mode);
            let empty = forall|name: Seq<char>|
                paths::plain(name) ==> !f.entries.contains_key(
                    #[trigger] paths::child(path, name),
                );
            let less = Files { entries: f.entries.remove(path), ..f };
            &&& !there ==> d.answer == AnswerView::Error(Errno::NoEntry) && u.answer
                == AnswerView::Error(Errno::NoEntry)
            &&& there && !dir ==> d.answer == AnswerView::Error(Errno::NotDirectory)
            &&& there && dir ==> u.answer == AnswerView::Error(Errno::IsDirectory)
            &&& there && dir && !empty ==> d.answer == AnswerView::Error(Errno::NotEmpty)
            &&& there && dir && empty ==> d.answer == AnswerView::Done && less_dir == less
                && adapter::edited_all(known, d.edits) == known.remove(ino as u64)
            &&& there && !dir ==> u.answer == AnswerView::Done && less_file == less
                && adapter::edited_all(known, u.edits) == known.remove(ino as u64)
            &&& !(d.answer is Done) ==> less_dir == f && d.edits.len() == 0
            &&& !(u.answer is Done) ==> less_file == f && u.edits.len() == 0
        }),
{
    broadcast use crate::fuse::model::group_run;

    let ino = f.entries[path];
    lemma_one_edit(known, Edit::Remove { ino: ino as u64 });
    let names = model::names_in(f, path);
    names.lemma_to_seq_to_set_id();
    if names.to_seq().len() == 0 {
        assert(names =~= Set::<Seq<char>>::empty());
        assert forall|name: Seq<char>| paths::plain(name) implies !f.entries.contains_key(
            #[trigger] paths::child(path, name),
        ) by {
            assert(!names.contains(name));
        }
    } else {
        let first = names.to_seq()[0];
        assert(names.to_seq().to_set().contains(first));
        assert(names.contains(first));
        assert(paths::plain(first) && f.entries.contains_key(paths::child(path, first)));
    }
}

/// An entry that can be moved is moved: all that was at and below its old path is found
/// at and below the new one, with the inodes that it had, and its inode is known by the
/// new path. What keeps it from being moved is the answer, and then nothing changes.
#[verifier::rlimit(60)]
#[verifier::spinoff_prover]
pub proof fn law_entry_is_moved(
    f: Files,
    from: Seq<char>,
    to: Seq<char>,
    uid: u32,
    gid: u32,
    known: Map<u64, Seq<char>>,
)
    requires
        model::followed(f, from) == from,
        model::followed(f, to) == to,
        f.entries.contains_key(from) && f.entries.contains_key(to) && from != to ==> f.entries[from]
            as u64 != f.entries[to] as u64,
    ensures
        ({
            let (o, after) = served(f, Job::Rename { from, to }, uid, gid);
            let now = adapter::edited_all(known, o.edits);
            match model::obstacle(f, from, to) {
                Some(e) => after == f && o.answer == AnswerView::Error(types::errno_of(e))
                    && o.edits.len() == 0,
                None => {
                    let ino = f.entries[from] as u64;
                    &&& o.answer == AnswerView::Done
                    &&& after.entries == model::moved(f.entries, from, to)
                    &&& after.nodes == f.nodes
                    &&& after.open == f.open
                    &&& after.entries.contains_key(to) && after.entries[to] == f.entries[from]
                    &&& now.contains_key(ino) && now[ino] == to
                    &&& f.entries.contains_key(to) ==> !now.contains_key(f.entries[to] as u64)
                    &&& forall|other: u64|
                        other != ino && !(f.entries.contains_key(to) && other == f.entries[to] as u64)
                            ==> (#[trigger] now.contains_key(other) <==> known.contains_key(other))
                            && now[other] == known[other]
                },
            }
        }),
{
    broadcast use crate::fuse::model::group_run;

    match model::obstacle(f, from, to) {
        Some(_) => {},
        None => {
            let ino = f.entries[from] as u64;
            let gone = if f.entries.contains_key(to) {
                Some(f.entries[to] as u64)
            } else {
                None
            };
            assert(from != to);
            crate::fuse::laws::law_moved_is_known(known, ino, gone, to);
            assert(to.skip(to.len() as int) =~= Seq::<char>::empty());
            assert(from + Seq::<char>::empty() =~= from);
            assert(from + to.skip(to.len() as int) =~= from);
        },
    }
}

/// A file that is opened and entered under a handle is read through that handle: the
/// file is the one that the path leads to.
pub proof fn law_opened_is_read(
    f: Files,
    path: Seq<char>,
    fh: u64,
    offset: i64,
    size: u32,
    uid: u32,
    gid: u32,
)
    ensures
        ({
            let there = model::followed(f, path);
            let (o, after) = served(f, Job::Open { path }, uid, gid);
            let entered = Files { open: after.open.insert(fh, after.last->0), ..after };
            if f.entries.contains_key(there) {
                &&& o.answer == AnswerView::Open
                &&& after.last == Some(f.entries[there])
                &&& after.nodes == f.nodes
                &&& after.entries == f.entries
                &&& offset == 0 && f.nodes[f.entries[there]].data.len() <= size ==> answered(
                    entered,
                    Job::Read { fh, offset, size },
                    uid,
                    gid,
                ) == AnswerView::Data(f.nodes[f.entries[there]].data)
            } else {
                o.answer == AnswerView::Error(Errno::Io) && after == f
            }
        }),
{
    broadcast use crate::fuse::model::group_run;

    let there = model::followed(f, path);
    let after = served(f, Job::Open { path }, uid, gid).1;
    let entered = Files { open: after.open.insert(fh, after.last->0), ..after };
    if f.entries.contains_key(there) && offset == 0 {
        let data = f.nodes[f.entries[there]].data;
        law_read_gives_the_bytes(entered, fh, offset, size, uid, gid);
        assert(data.subrange(0, data.len() as int) =~= data);
    }
}

/// The room that there is: what is used of it, in whole blocks, and what is free come to
/// all there is, unless more is used than that. Where nobody can tell, the root alone
/// seems to be there.
pub proof fn law_room_is_counted(f: Files, uid: u32, gid: u32)
    ensures
        served(f, Job::StatFs, uid, gid).1 == f,
        answered(f, Job::StatFs, uid, gid) matches Answer::Space(s) && {
            let (inodes, bytes) = match f.used {
                Some((i, b)) => (i as int, b as int),
                None => (1, 0),
            };
            &&& s.blocks == 1073741824 && s.files == 1000000
            &&& s.block_size == 4096 && s.fragment_size == 4096 && s.name_length == 255
            &&& s.available_blocks == s.free_blocks
            &&& s.free_blocks <= s.blocks && s.free_files <= s.files
            &&& bytes <= s.blocks * 4096 ==> (s.blocks - s.free_blocks - 1) * 4096 < bytes <= (
            s.blocks - s.free_blocks) * 4096
            &&& bytes > s.blocks * 4096 ==> s.free_blocks == 0
            &&& inodes <= s.files ==> s.free_files + inodes == s.files
            &&& inodes > s.files ==> s.free_files == 0
        },
{
    broadcast use crate::fuse::model::group_run;

}

/// The number of the directory above: the root has the number 1, and so has what is
/// above the root.
pub open spec fn number_above(f: Files, ino: u64, path: Seq<char>) -> u64 {
    let above = paths::directory(path);
    if ino == 1 || above == "/"@ {
        1
    } else {
        match model::stats_at(f, model::followed(f, above)) {
            Some(s) => s.ino as u64,
            None => 1,
        }
    }
}

/// Listing a directory from its start shows the directory itself, the one above, and
/// then each entry once, by its name, with its inode and its type; the lines are
/// numbered from one. Listing it from any later place shows the lines from there on.
/// What is no entry cannot be listed.
pub proof fn law_directory_is_listed(
    f: Files,
    ino: u64,
    path: Seq<char>,
    offset: i64,
    uid: u32,
    gid: u32,
    name: Seq<char>,
)
    requires
        model::names_in(f, path).finite(),
        model::names_in(f, path).len() + 2 <= i64::MAX,
    ensures
        ({
            let names = model::names_in(f, path);
            let start: i64 = 0;
            let all = answered(f, Job::ReadDir { ino, path, offset: start }, uid, gid)->Directory_0;
            let (o, after) = served(f, Job::ReadDir { ino, path, offset }, uid, gid);
            &&& after == f
            &&& !f.entries.contains_key(path) ==> o.answer == AnswerView::Error(Errno::NoEntry)
                && o.edits.len() == 0
            &&& f.entries.contains_key(path) ==> {
                &&& all.len() == names.len() + 2
                &&& all[0].name == "."@ && all[0].ino == ino
                &&& all[1].name == ".."@ && all[1].ino == number_above(f, ino, path)
                &&& all[0].kind == FileType::Directory && all[1].kind == FileType::Directory
                &&& forall|i: int|
                    2 <= i < all.len() ==> {
                        let s = model::stats_of(
                            f,
                            f.entries[paths::child(path, (#[trigger] all[i]).name)],
                        );
                        &&& names.contains(all[i].name)
                        &&& all[i].ino == s.ino as u64
                        &&& all[i].kind == FileType::Directory <==> types::dir_mode(s.mode)
                        &&& all[i].kind == FileType::Symlink <==> types::link_mode(s.mode)
                    }
                &&& forall|i: int| 0 <= i < all.len() ==> (#[trigger] all[i]).offset == i + 1
                &&& names.contains(name) ==> exists|i: int|
                    2 <= i < all.len() && (#[trigger] all[i]).name == name
                &&& 0 <= offset <= all.len() ==> o.answer == AnswerView::Directory(
                    all.skip(offset as int),
                )
                &&& offset > all.len() ==> o.answer == AnswerView::Directory(Seq::empty())
            }
        }),
{
    broadcast use crate::fuse::model::group_run;

    let names = model::names_in(f, path);
    volume::lemma_in_a_row(names);
    if f.entries.contains_key(path) {
        let entries = model::listed(f, path);
        let all = listing::lines(ino, number_above(f, ino, path), entries);
        let start: i64 = 0;
        assert(entries.len() == names.len());
        assert(all.skip(0) =~= all);
        assert(answered(f, Job::ReadDir { ino, path, offset: start }, uid, gid)
            == AnswerView::Directory(all));
        assert forall|i: int| 2 <= i < all.len() implies names.contains(
            (#[trigger] all[i]).name,
        ) by {
            assert(names.contains(names.to_seq()[i - 2]));
        }
        if names.contains(name) {
            let i = choose|i: int| 0 <= i < names.len() && names.to_seq()[i] == name;
            assert(all[i + 2].name == name);
        }
        if offset == all.len() {
            assert(all.skip(offset as int) =~= Seq::empty());
        }
    }
}

/// Entries that are remembered are known by the paths that they were remembered with.
proof fn lemma_inserts(known: Map<u64, Seq<char>>, edits: Seq<Edit<Seq<char>>>)
    requires
        forall|i: int| 0 <= i < edits.len() ==> #[trigger] edits[i] is Insert,
        forall|i: int, j: int|
            0 <= i < j < edits.len() ==> (#[trigger] edits[i])->Insert_ino != (
            #[trigger] edits[j])->Insert_ino,
    ensures
        forall|i: int|
            0 <= i < edits.len() ==> adapter::edited_all(known, edits).contains_key(
                (#[trigger] edits[i])->Insert_ino,
            ) && adapter::edited_all(known, edits)[edits[i]->Insert_ino] == edits[i]->path,
    decreases edits.len(),
{
    if edits.len() > 0 {
        let less = edits.drop_last();
        assert forall|i: int| 0 <= i < less.len() implies #[trigger] less[i] is Insert by {
            assert(less[i] == edits[i]);
        }
        assert forall|i: int, j: int| 0 <= i < j < less.len() implies (
        #[trigger] less[i])->Insert_ino != (#[trigger] less[j])->Insert_ino by {
            assert(less[i] == edits[i] && less[j] == edits[j]);
        }
        lemma_inserts(known, less);
        let last = edits.last();
        assert forall|i: int| 0 <= i < edits.len() implies adapter::edited_all(
            known,
            edits,
        ).contains_key((#[trigger] edits[i])->Insert_ino) && adapter::edited_all(
            known,
            edits,
        )[edits[i]->Insert_ino] == edits[i]->path by {
            assert(edits[edits.len() - 1] is Insert);
            if i < less.len() {
                assert(less[i] == edits[i]);
                assert(edits[i]->Insert_ino != edits[edits.len() - 1]->Insert_ino);
            }
        }
    }
}

/// Once a directory has been listed, each entry of it is known by its inode.
pub proof fn law_listed_is_known(
    f: Files,
    ino: u64,
    path: Seq<char>,
    offset: i64,
    uid: u32,
    gid: u32,
    known: Map<u64, Seq<char>>,
    name: Seq<char>,
)
    requires
        f.entries.contains_key(path),
        model::names_in(f, path).finite(),
        model::names_in(f, path).contains(name),
        forall|a: Seq<char>, b: Seq<char>|
            model::names_in(f, path).contains(a) && model::names_in(f, path).contains(b) && a != b
                ==> #[trigger] f.entries[paths::child(path, a)] as u64
                != #[trigger] f.entries[paths::child(path, b)] as u64,
    ensures
        ({
            let o = served(f, Job::ReadDir { ino, path, offset }, uid, gid).0;
            let now = adapter::edited_all(known, o.edits);
            let there = paths::child(path, name);
            now.contains_key(f.entries[there] as u64) && now[f.entries[there] as u64] == there
        }),
{
    broadcast use crate::fuse::model::group_run;

    let names = model::names_in(f, path);
    volume::lemma_in_a_row(names);
    let entries = model::listed(f, path);
    let edits = listing::entry_edits(path, entries);
    let o = served(f, Job::ReadDir { ino, path, offset }, uid, gid).0;
    assert(o.edits == edits);
    assert forall|i: int, j: int| 0 <= i < j < edits.len() implies (
    #[trigger] edits[i])->Insert_ino != (#[trigger] edits[j])->Insert_ino by {
        let a = names.to_seq()[i];
        let b = names.to_seq()[j];
        assert(a != b);
        assert(names.contains(a) && names.contains(b));
        assert(f.entries[paths::child(path, a)] as u64 != f.entries[paths::child(path, b)] as u64);
    }
    lemma_inserts(known, edits);
    let i = choose|i: int| 0 <= i < names.len() && names.to_seq()[i] == name;
    assert(edits[i] is Insert);
}

/// Listing a directory with attributes shows the directory itself, the one above, and
/// then each entry once, by its name, with its inode, its path and all that the file
/// system says of it; the lines are numbered from one, and listing from any later place
/// shows the lines from there on.
#[verifier::rlimit(60)]
#[verifier::spinoff_prover]
pub proof fn law_directory_is_listed_with_attributes(
    f: Files,
    ino: u64,
    path: Seq<char>,
    offset: i64,
    uid: u32,
    gid: u32,
    name: Seq<char>,
)
    requires
        f.entries.contains_key(path),
        f.entries.contains_key(model::followed(f, path)),
        f.entries.contains_key(model::followed(f, paths::directory(path))),
        model::names_in(f, path).finite(),
        model::names_in(f, path).len() + 3 <= i64::MAX,
        offset >= 0,
    ensures
        ({
            let names = model::names_in(f, path);
            let start: i64 = 0;
            let here = model::stats_at(f, model::followed(f, path))->0;
            let above = if ino == 1 {
                here
            } else {
                model::stats_at(f, model::followed(f, paths::directory(path)))->0
            };
            let all = answered(
                f,
                Job::ReadDirPlus { ino, path, offset: start },
                uid,
                gid,
            )->DirectoryPlus_0;
            let (o, after) = served(f, Job::ReadDirPlus { ino, path, offset }, uid, gid);
            &&& after == f
            &&& all.len() == names.len() + 2
            &&& all[0].name == "."@ && all[0].ino == ino && tells(all[0].attr, here, uid, gid)
            &&& all[1].name == ".."@ && all[1].ino == number_above(f, ino, path) && tells(
                all[1].attr,
                above,
                uid,
                gid,
            )
            &&& forall|i: int|
                2 <= i < all.len() ==> {
                    let there = paths::child(path, (#[trigger] all[i]).name);
                    &&& names.contains(all[i].name)
                    &&& all[i].ino == f.entries[there] as u64
                    &&& tells(all[i].attr, model::stats_of(f, f.entries[there]), uid, gid)
                    &&& all[i].path == Some(there)
                }
            &&& forall|i: int| 0 <= i < all.len() ==> (#[trigger] all[i]).offset == i + 1
            &&& names.contains(name) ==> exists|i: int|
                2 <= i < all.len() && (#[trigger] all[i]).name == name
            &&& o.answer == AnswerView::DirectoryPlus(
                all.skip(
                    if offset <= all.len() {
                        offset as int
                    } else {
                        all.len() as int
                    },
                ),
            )
        }),
{
    broadcast use crate::fuse::model::group_run;

    let names = model::names_in(f, path);
    volume::lemma_in_a_row(names);
    let entries = model::listed(f, path);
    let n = entries.len() as int;
    let start: i64 = 0;
    let here = model::stats_at(f, model::followed(f, path))->0;
    let above = if ino == 1 {
        here
    } else {
        model::stats_at(f, model::followed(f, paths::directory(path)))->0
    };
    assert(n == names.len());
    let up = number_above(f, ino, path);
    let first = answered(f, Job::ReadDirPlus { ino, path, offset: start }, uid, gid);
    let later = answered(f, Job::ReadDirPlus { ino, path, offset }, uid, gid);
    let all = first->DirectoryPlus_0;
    assert(first == AnswerView::DirectoryPlus(
        listing::dot_line(ino, 0, "."@, Some(here), start, uid, gid) + listing::dot_line(
            up,
            1,
            ".."@,
            Some(above),
            start,
            uid,
            gid,
        ) + listing::entry_lines(path, entries, n, start, uid, gid),
    ));
    assert(later == AnswerView::DirectoryPlus(
        listing::dot_line(ino, 0, "."@, Some(here), offset, uid, gid) + listing::dot_line(
            up,
            1,
            ".."@,
            Some(above),
            offset,
            uid,
            gid,
        ) + listing::entry_lines(path, entries, n, offset, uid, gid),
    ));
    crate::fuse::laws::law_plus_listing_resumes(path, entries, n, start, uid, gid);
    crate::fuse::laws::law_plus_listing_resumes(path, entries, n, offset, uid, gid);
    lemma_tells(here, uid, gid);
    lemma_tells(above, uid, gid);
    assert(all.len() == n + 2);
    assert forall|i: int| 0 <= i < n implies #[trigger] all[i + 2] == listing::entry_line(
        path,
        entries[i],
        i,
        uid,
        gid,
    ) by {}
    assert forall|i: int| 2 <= i < all.len() implies {
        let there = paths::child(path, (#[trigger] all[i]).name);
        &&& names.contains(all[i].name)
        &&& all[i].ino == f.entries[there] as u64
        &&& tells(all[i].attr, model::stats_of(f, f.entries[there]), uid, gid)
        &&& all[i].path == Some(there)
        &&& all[i].offset == i + 1
    } by {
        assert(all[(i - 2) + 2] == listing::entry_line(path, entries[i - 2], i - 2, uid, gid));
        assert(names.contains(names.to_seq()[i - 2]));
        lemma_tells(entries[i - 2].stats, uid, gid);
    }
    if names.contains(name) {
        let i = choose|i: int| 0 <= i < names.len() && names.to_seq()[i] == name;
        assert(all[i + 2].name == name);
    }
    let from = if offset <= all.len() {
        offset as int
    } else {
        all.len() as int
    };
    assert(later->DirectoryPlus_0 =~= all.skip(from));
}

/// A name in a directory that the kernel knows is looked for at the path of the directory
/// with the name behind it; in a directory that is not known, or under a name that is no
/// text, there is nothing.
pub proof fn law_name_is_placed(
    known: Map<u64, Seq<char>>,
    parent: u64,
    name: Option<Seq<char>>,
)
    ensures
        match adapter::looked_up(known, parent, name) {
            Some(path) => known.contains_key(parent) && name is Some && path == if known[parent]
                == "/"@ {
                "/"@ + name->0
            } else {
                known[parent] + "/"@ + name->0
            },
            None => !known.contains_key(parent) || name is None,
        },
{
}

/// Of the lines that are handed out, each one of an entry makes the entry known by its path;
/// the directory itself and the one above are known already.
pub proof fn law_handed_out_is_known(
    known: Map<u64, Seq<char>>,
    given: Seq<DirentPlus<Seq<char>>>,
    line: DirentPlus<Seq<char>>,
)
    ensures
        ({
            let before = adapter::edited_all(known, listing::plus_edits(given));
            let after = adapter::edited_all(known, listing::plus_edits(given.push(line)));
            match line.path {
                Some(path) => after == before.insert(line.ino, path),
                None => after == before,
            }
        }),
        adapter::edited_all(
            known,
            listing::plus_edits(Seq::<DirentPlus<Seq<char>>>::empty()),
        ) == known,
{
    assert(given.push(line).drop_last() =~= given);
    match line.path {
        Some(path) => {
            let es = listing::plus_edits(given);
            let e = Edit::Insert { ino: line.ino, path };
            assert(es.push(e).drop_last() =~= es);
        },
        None => {},
    }
}

} // verus!
