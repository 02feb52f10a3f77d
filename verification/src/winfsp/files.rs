//! What Windows gets for its requests, over a model of the files: the bytes that are read
//! are those of the file, what is written is there afterwards, and what is told of a file
//! is what it is.

use crate::fs::types;
use crate::fs::types::Stats;
use crate::nodes::TimeChange;
use crate::paths;
use crate::volume;
use crate::volume::Volume;
use crate::winfsp::adapter;
use crate::winfsp::adapter::{Job, JobView, WinView};
use crate::winfsp::info;
use crate::winfsp::info::{FileInfo, PathFailure};
use crate::winfsp::jobs;
use crate::winfsp::jobs::{EndView, Good, GoodView, ParsedView, WinPlan};
use vstd::prelude::*;

verus! {

/// What a request comes to on the files `v`.
pub open spec fn served(v: Volume, job: JobView) -> (EndView, Volume) {
    volume::run(adapter::job_plan(job), v)
}

/// What is told of a file is what it is: its size, its number, its times, whether it is a
/// directory or a link, and whether it may be written.
pub open spec fn shows(i: FileInfo, s: Stats) -> bool {
    &&& i.file_size == s.size as u64
    &&& i.index_number == s.ino as u64
    &&& i.file_attributes & info::FILE_ATTRIBUTE_DIRECTORY != 0 <==> types::dir_mode(s.mode)
    &&& i.file_attributes & info::FILE_ATTRIBUTE_REPARSE_POINT != 0 <==> types::link_mode(s.mode)
    &&& i.file_attributes & info::FILE_ATTRIBUTE_READONLY != 0 <==> s.mode & 0o200 == 0
    &&& i.reparse_tag == 1 <==> types::link_mode(s.mode)
    &&& timed(i.creation_time, s.ctime)
    &&& timed(i.last_access_time, s.atime)
    &&& timed(i.last_write_time, s.mtime)
    &&& timed(i.change_time, s.mtime)
    &&& 0 <= s.size <= i64::MAX - 4095 ==> i.allocation_size % 4096 == 0 && s.size
        <= i.allocation_size < s.size + 4096
    &&& i.hard_links == 1
}

/// A time of Windows is the time of a file, counted from the start of 1601 in ticks of a
/// hundred nanoseconds, where there are not too many of them.
pub open spec fn timed(ticks: u64, seconds: i64) -> bool {
    0 <= (seconds + 11644473600) * 10000000 <= i64::MAX ==> ticks == (seconds + 11644473600)
        * 10000000
}

proof fn lemma_timed(seconds: i64)
    ensures
        timed(info::ticks_of(seconds), seconds),
{
    if 0 <= (seconds + 11644473600) * 10000000 <= i64::MAX {
        assert(seconds.wrapping_add(info::UNIX_EPOCH_DIFF) == seconds + info::UNIX_EPOCH_DIFF);
    }
}

proof fn lemma_shows(s: Stats)
    ensures
        shows(info::info_of(s), s),
{
    info::law_attributes_tell_apart(s.mode);
    lemma_timed(s.ctime);
    lemma_timed(s.atime);
    lemma_timed(s.mtime);
    if 0 <= s.size <= i64::MAX - 4095 {
        info::law_allocation_holds_the_file(s.size);
    }
}

/// A read through the handle of an open file gives its bytes from the offset on, as far
/// as there are so many and there is room for them, and changes nothing.
pub proof fn law_read_gives_the_bytes(v: Volume, fh: u64, offset: u64, room: usize)
    requires
        v.open.contains_key(fh),
        v.nodes.contains_key(v.open[fh]),
    ensures
        ({
            let (e, after) = served(v, Job::Read { fh, offset, room });
            let data = v.nodes[v.open[fh]].data;
            let end = if offset + room <= data.len() {
                offset + room
            } else {
                data.len() as int
            };
            &&& after == v
            &&& !e.handle
            &&& offset <= data.len() ==> e.result == Ok::<GoodView, i32>(
                Good::Data(data.subrange(offset as int, end)),
            )
            &&& offset > data.len() ==> e.result == Ok::<GoodView, i32>(Good::Data(Seq::empty()))
        }),
{
    broadcast use crate::volume::group_run;

    let data = v.nodes[v.open[fh]].data;
    if offset > data.len() {
        assert(data.subrange(data.len() as int, data.len() as int) =~= Seq::<u8>::empty());
    }
}

/// A write through the handle of an open file puts its bytes where it says, and nowhere
/// else. How many they are is told, and the file as it is then.
pub proof fn law_write_puts_the_bytes(v: Volume, fh: u64, ino: i64, offset: u64, data: Seq<u8>)
    requires
        v.open.contains_key(fh),
        v.open[fh] == ino,
        v.nodes.contains_key(ino),
        data.len() <= u32::MAX,
    ensures
        ({
            let (e, after) = served(v, Job::Write { fh, ino, offset, data });
            &&& volume::holds_at(v, after, ino, offset, data)
            &&& e.result matches Ok(Good::Written { len, info: Some(i) }) && len == data.len()
                && shows(i, volume::stats_of(after, ino).stats)
        }),
{
    broadcast use crate::volume::group_run;

    let after = served(v, Job::Write { fh, ino, offset, data }).1;
    lemma_shows(volume::stats_of(after, ino).stats);
}

/// What was written is what is read.
pub proof fn law_written_is_read(
    v: Volume,
    fh: u64,
    ino: i64,
    offset: u64,
    data: Seq<u8>,
    room: usize,
)
    requires
        v.open.contains_key(fh),
        v.open[fh] == ino,
        v.nodes.contains_key(ino),
        0 < data.len() <= u32::MAX,
        room == data.len(),
    ensures
        ({
            let after = served(v, Job::Write { fh, ino, offset, data }).1;
            served(after, Job::Read { fh, offset, room }).0.result == Ok::<GoodView, i32>(
                Good::Data(data),
            )
        }),
{
    broadcast use crate::volume::group_run;

    let after = served(v, Job::Write { fh, ino, offset, data }).1;
    assert(after.open == v.open);
    law_write_puts_the_bytes(v, fh, ino, offset, data);
    law_read_gives_the_bytes(after, fh, offset, room);
    assert(after.nodes[ino].data.subrange(offset as int, offset + data.len()) =~= data);
}

/// Setting the size of an open file cuts it off or fills it up with zeros, and brings
/// nothing else about; bringing it to storage stores it and changes nothing. What is told
/// is the file as it is then.
pub proof fn law_size_is_set(v: Volume, fh: u64, ino: i64, size: u64)
    requires
        v.open.contains_key(fh),
        v.open[fh] == ino,
        v.nodes.contains_key(ino),
    ensures
        ({
            let (e, after) = served(v, Job::Truncate { fh, ino, size });
            let (f, stored) = served(v, Job::Flush { fh, ino });
            &&& volume::sized(v, after, ino, size)
            &&& e.result matches Ok(Good::Changed(Some(i))) && shows(
                i,
                volume::stats_of(after, ino).stats,
            )
            &&& stored.stored.contains(ino)
            &&& stored.nodes == v.nodes && stored.entries == v.entries
            &&& f.result matches Ok(Good::Changed(Some(i))) && shows(
                i,
                volume::stats_of(v, ino).stats,
            )
        }),
{
    broadcast use crate::volume::group_run;

    let after = served(v, Job::Truncate { fh, ino, size }).1;
    lemma_shows(volume::stats_of(after, ino).stats);
    lemma_shows(volume::stats_of(v, ino).stats);
}

/// What is told of an open entry is what it is, and asking changes nothing. An entry that
/// is not there any more cannot be told of.
pub proof fn law_entry_is_told_of(v: Volume, ino: i64)
    ensures
        ({
            let (e, after) = served(v, Job::Info { ino });
            let (f, still) = served(v, Job::Changed { ino });
            &&& after == v
            &&& still == v
            &&& v.nodes.contains_key(ino) ==> {
                &&& e.result matches Ok(Good::Info(i)) && shows(i, volume::stats_of(v, ino).stats)
                &&& f.result matches Ok(Good::Changed(Some(i))) && shows(
                    i,
                    volume::stats_of(v, ino).stats,
                )
            }
            &&& !v.nodes.contains_key(ino) ==> e.result == Err::<GoodView, i32>(
                info::STATUS_OBJECT_NAME_NOT_FOUND,
            ) && f.result == Ok::<GoodView, i32>(Good::Changed(None))
        }),
{
    broadcast use crate::volume::group_run;

    lemma_shows(volume::stats_of(v, ino).stats);
}

/// The times of an entry are changed to those that are asked for, each by itself, and
/// nothing else is. What is told is the entry as it is then.
pub proof fn law_times_are_changed(v: Volume, ino: i64, atime: TimeChange, mtime: TimeChange)
    requires
        v.nodes.contains_key(ino),
    ensures
        ({
            let (e, after) = served(v, Job::Basic { ino, atime, mtime });
            let was = v.nodes[ino].meta.stats;
            let is = after.nodes[ino].meta.stats;
            &&& e.result matches Ok(Good::Changed(Some(i))) && shows(
                i,
                volume::stats_of(after, ino).stats,
            )
            &&& is.atime == match atime {
                TimeChange::At(t, _) => t,
                TimeChange::Omit => was.atime,
            }
            &&& is.mtime == match mtime {
                TimeChange::At(t, _) => t,
                TimeChange::Omit => was.mtime,
            }
            &&& is == (Stats { atime: is.atime, mtime: is.mtime, ..was })
            &&& after.nodes[ino].data == v.nodes[ino].data
            &&& after.nodes.remove(ino) =~= v.nodes.remove(ino)
            &&& after.entries == v.entries
        }),
{
    broadcast use crate::volume::group_run;

    let after = served(v, Job::Basic { ino, atime, mtime }).1;
    lemma_shows(volume::stats_of(after, ino).stats);
}

/// Where names lead from a directory, one after the other, over directories alone.
pub open spec fn walked(v: Volume, at: i64, names: Seq<Seq<char>>) -> Option<i64>
    decreases names.len(),
{
    if names.len() == 0 {
        Some(at)
    } else if v.entries.contains_key((at, names[0])) && volume::is_dir(
        v,
        v.entries[(at, names[0])],
    ) {
        walked(v, v.entries[(at, names[0])], names.drop_first())
    } else {
        None
    }
}

/// The directory that holds the entry at a path; the root is taken to be in itself.
pub open spec fn home(v: Volume, path: Seq<char>) -> Option<i64> {
    let names = paths::parts(path);
    if names.len() == 0 {
        Some(1)
    } else {
        walked(v, 1, names.drop_last())
    }
}

/// The name of the entry at a path in its directory; the root has none.
pub open spec fn name_of(path: Seq<char>) -> Seq<char> {
    let names = paths::parts(path);
    if names.len() == 0 {
        Seq::empty()
    } else {
        names.last()
    }
}

proof fn lemma_walk(
    v: Volume,
    at: i64,
    names: Seq<Seq<char>>,
    then: spec_fn(Result<i64, PathFailure>) -> WinPlan,
)
    ensures
        volume::run(jobs::walk_plan(at, names, then), v) == volume::run(
            then(
                match walked(v, at, names) {
                    Some(ino) => Ok(ino),
                    None => Err(PathFailure::Message),
                },
            ),
            v,
        ),
    decreases names.len(),
{
    broadcast use crate::volume::group_run;

    if names.len() > 0 && v.entries.contains_key((at, names[0])) {
        lemma_walk(v, v.entries[(at, names[0])], names.drop_first(), then);
    }
}

broadcast proof fn lemma_parse(v: Volume, path: Seq<char>, then: spec_fn(ParsedView) -> WinPlan)
    ensures
        #[trigger] volume::run(jobs::parse_plan(path, then), v) == volume::run(
            then(
                match home(v, path) {
                    Some(dir) => Ok((dir, name_of(path))),
                    None => Err(PathFailure::Message),
                },
            ),
            v,
        ),
{
    let names = paths::parts(path);
    if names.len() > 0 {
        let on = |r: Result<i64, PathFailure>|
            match r {
                Ok(ino) => then(Ok((ino, names.last()))),
                Err(f) => then(Err(f)),
            };
        lemma_walk(v, 1, names.drop_last(), on);
        assert(jobs::parse_plan(path, then) == jobs::walk_plan(1, names.drop_last(), on));
    }
}

/// The entry at a path, where its directory is there.
pub open spec fn entry_at(v: Volume, path: Seq<char>) -> Option<i64> {
    if paths::parts(path).len() == 0 {
        if v.nodes.contains_key(1) {
            Some(1)
        } else {
            None
        }
    } else {
        match home(v, path) {
            Some(dir) => if v.entries.contains_key((dir, name_of(path))) {
                Some(v.entries[(dir, name_of(path))])
            } else {
                None
            },
            None => None,
        }
    }
}

/// Opening an entry finds what stands at its path: a handle is taken for it, a file is
/// opened, and what is told of it is what it is; so are the rights that are asked for.
/// What is not there is not found, and a way that does not lead there is refused.
pub proof fn law_entry_is_opened(v: Volume, path: Seq<char>)
    requires
        entry_at(v, path) matches Some(ino) ==> v.nodes.contains_key(ino),
    ensures
        ({
            let (e, after) = served(v, Job::Open { path });
            let (s, still) = served(v, Job::Security { path });
            let ino = entry_at(v, path)->0;
            let stats = volume::stats_of(v, ino).stats;
            &&& after.nodes == v.nodes && after.entries == v.entries
            &&& still == v
            &&& entry_at(v, path) is Some ==> {
                &&& e.handle
                &&& e.result matches Ok(Good::Opened { info: i, ino: n, is_dir }) && n == ino
                    && shows(i, stats) && is_dir == types::dir_mode(stats.mode)
                &&& !types::dir_mode(stats.mode) ==> after.last == Some(ino)
                &&& s.result matches Ok(Good::Security { reparse, attributes }) && reparse
                    == types::link_mode(stats.mode) && attributes == info::attributes_of(
                    stats.mode,
                )
            }
            &&& entry_at(v, path) is None ==> {
                let code = if home(v, path) is Some {
                    info::STATUS_OBJECT_NAME_NOT_FOUND
                } else {
                    info::STATUS_INVALID_PARAMETER
                };
                &&& !e.handle && after == v
                &&& e.result == Err::<GoodView, i32>(code)
                &&& s.result == Err::<GoodView, i32>(code)
            }
        }),
{
    broadcast use crate::volume::group_run;
    broadcast use lemma_parse;

    lemma_shows(volume::stats_of(v, entry_at(v, path)->0).stats);
}

/// Creating an entry opens what stands at its path; where nothing stands there, a file or
/// a directory is made, as it is asked for, and opened. Where its directory is not there,
/// nothing is made.
pub proof fn law_entry_is_created(v: Volume, path: Seq<char>, is_dir: bool)
    requires
        home(v, path) is Some,
        v.nodes.contains_key(home(v, path)->0),
        v.entries.contains_key((home(v, path)->0, name_of(path))) ==> v.nodes.contains_key(
            v.entries[(home(v, path)->0, name_of(path))],
        ),
    ensures
        ({
            let (e, after) = served(v, Job::Create { path, is_dir });
            let key = (home(v, path)->0, name_of(path));
            let ino = if v.entries.contains_key(key) {
                v.entries[key]
            } else {
                v.next
            };
            &&& e.handle
            &&& e.result matches Ok(Good::Opened { info: i, ino: n, is_dir: d }) && n == ino && d
                == is_dir && shows(i, volume::stats_of(after, ino).stats)
            &&& !is_dir ==> after.last == Some(ino)
            &&& v.entries.contains_key(key) ==> after.nodes == v.nodes && after.entries == v.entries
            &&& !v.entries.contains_key(key) ==> volume::made(
                v,
                after,
                key.0,
                key.1,
                if is_dir {
                    types::DEFAULT_DIR_MODE
                } else {
                    types::DEFAULT_FILE_MODE
                },
                0,
                0,
            )
        }),
{
    broadcast use crate::volume::group_run;
    broadcast use lemma_parse;

    let key = (home(v, path)->0, name_of(path));
    let after = served(v, Job::Create { path, is_dir }).1;
    let ino = if v.entries.contains_key(key) {
        v.entries[key]
    } else {
        v.next
    };
    assert(0o040000u32 | (0o755u32 & 0o7777u32) == 0o040755u32) by (bit_vector);
    lemma_shows(volume::stats_of(after, ino).stats);
}

/// What cannot be created is refused.
pub proof fn law_nothing_is_created_nowhere(v: Volume, path: Seq<char>, is_dir: bool)
    requires
        home(v, path) is None,
    ensures
        served(v, Job::Create { path, is_dir }).1 == v,
        served(v, Job::Create { path, is_dir }).0.result == Err::<GoodView, i32>(
            info::STATUS_INVALID_PARAMETER,
        ),
{
    broadcast use crate::volume::group_run;
    broadcast use lemma_parse;

}

/// An entry that is deleted when it is closed is gone, and no other; one that cannot be
/// deleted stays, and nobody is told.
pub proof fn law_entry_is_deleted(v: Volume, path: Seq<char>, is_dir: bool)
    requires
        home(v, path) is Some,
    ensures
        ({
            let (e, after) = served(v, Job::Delete { path, is_dir });
            let key = (home(v, path)->0, name_of(path));
            let there = v.entries.contains_key(key) && volume::is_dir(v, v.entries[key]) == is_dir;
            let empty = forall|name: Seq<char>| !#[trigger]
                v.entries.contains_key((v.entries[key], name));
            &&& e.result == Ok::<GoodView, i32>(Good::Done)
            &&& there && (!is_dir || empty) ==> after == (Volume {
                entries: v.entries.remove(key),
                ..v
            })
            &&& !there || (is_dir && !empty) ==> after == v
        }),
{
    broadcast use crate::volume::group_run;
    broadcast use lemma_parse;

    let key = (home(v, path)->0, name_of(path));
    let names = volume::names_in(v, v.entries[key]);
    let none = Set::<Seq<char>>::empty();
    if names == none {
        assert forall|name: Seq<char>| !#[trigger]
            v.entries.contains_key((v.entries[key], name)) by {
            assert(!names.contains(name));
        }
    } else if forall|name: Seq<char>| !#[trigger] v.entries.contains_key((v.entries[key], name)) {
        assert(names =~= none);
    }
}

/// An entry is moved: what stood at its old path stands at the new one, in place of what
/// stood there, and all others are where they were. What cannot be moved stays, and what
/// stands in the way is the answer.
pub proof fn law_entry_is_moved(v: Volume, old_path: Seq<char>, new_path: Seq<char>)
    requires
        home(v, old_path) is Some,
        home(v, new_path) is Some,
        (home(v, old_path)->0, name_of(old_path)) != (home(v, new_path)->0, name_of(new_path)),
    ensures
        ({
            let (e, after) = served(v, Job::Rename { old_path, new_path });
            let source = (home(v, old_path)->0, name_of(old_path));
            let dest = (home(v, new_path)->0, name_of(new_path));
            match e.result {
                Ok(g) => {
                    &&& g == GoodView::Done
                    &&& v.entries.contains_key(source)
                    &&& after.entries.contains_key(dest) && after.entries[dest] == v.entries[source]
                    &&& !after.entries.contains_key(source)
                    &&& after.entries.remove(dest) =~= v.entries.remove(source).remove(dest)
                    &&& after.nodes == v.nodes
                },
                Err(_) => after == v,
            }
        }),
        ({
            let e = served(v, Job::Rename { old_path, new_path }).0;
            let source = (home(v, old_path)->0, name_of(old_path));
            let dest = (home(v, new_path)->0, name_of(new_path));
            &&& !v.entries.contains_key(source) ==> e.result == Err::<GoodView, i32>(
                info::STATUS_OBJECT_NAME_NOT_FOUND,
            )
            &&& v.entries.contains_key(source) && v.nodes.contains_key(dest.0)
                && !v.entries.contains_key(dest) ==> e.result is Ok
        }),
{
    broadcast use crate::volume::group_run;
    broadcast use lemma_parse;

}

/// A directory that is listed from its start shows each entry once, by its name and with
/// what there is to tell of it. A listing that goes on behind an entry shows exactly those
/// that stand behind it.
pub proof fn law_directory_is_listed(v: Volume, ino: i64, name: Seq<char>, k: int)
    requires
        v.nodes.contains_key(ino),
        volume::names_in(v, ino).finite(),
    ensures
        ({
            let none: Option<Seq<char>> = None;
            let (e, after) = served(v, Job::List { ino, marker: none });
            let all = e.result->Ok_0->Listing_0;
            &&& after == v
            &&& e.result is Ok && e.result->Ok_0 is Listing
            &&& all.len() == volume::names_in(v, ino).len()
            &&& forall|i: int|
                0 <= i < all.len() ==> v.entries.contains_key((ino, (#[trigger] all[i]).name))
                    && shows(
                    all[i].info,
                    volume::stats_of(v, v.entries[(ino, all[i].name)]).stats,
                )
            &&& forall|i: int, j: int|
                0 <= i < j < all.len() ==> (#[trigger] all[i]).name != (#[trigger] all[j]).name
            &&& v.entries.contains_key((ino, name)) ==> exists|i: int|
                0 <= i < all.len() && (#[trigger] all[i]).name == name
            &&& 0 <= k < all.len() ==> served(
                v,
                Job::List { ino, marker: Some(all[k].name) },
            ).0.result == Ok::<GoodView, i32>(Good::Listing(all.skip(k + 1)))
        }),
{
    broadcast use crate::volume::group_run;

    let names = volume::names_in(v, ino);
    volume::lemma_in_a_row(names);
    let entries = volume::listed(v, ino);
    let n = entries.len() as int;
    let none: Option<Seq<char>> = None;
    let all = jobs::lines_from(entries, 0);
    assert(jobs::start_of(entries, none, n) == 0);
    assert(served(v, Job::List { ino, marker: none }).0.result == Ok::<GoodView, i32>(
        Good::Listing(all),
    ));
    assert forall|i: int| 0 <= i < all.len() implies v.entries.contains_key(
        (ino, (#[trigger] all[i]).name),
    ) && shows(
        all[i].info,
        volume::stats_of(v, v.entries[(ino, all[i].name)]).stats,
    ) by {
        assert(names.contains(names.to_seq()[i]));
        lemma_shows(entries[i].node.stats);
    }
    assert forall|i: int, j: int| 0 <= i < j < all.len() implies (#[trigger] all[i]).name != (
    #[trigger] all[j]).name by {
        assert(names.to_seq()[i] != names.to_seq()[j]);
    }
    if v.entries.contains_key((ino, name)) {
        assert(names.contains(name));
        let i = choose|i: int| 0 <= i < names.len() && names.to_seq()[i] == name;
        assert(all[i].name == name);
    }
    if 0 <= k < all.len() {
        assert(entries[k].name == all[k].name);
        assert forall|i: int| 0 <= i < n && i != k implies (#[trigger] entries[i]).name
            != all[k].name by {
            assert(all[i].name == entries[i].name);
        }
        lemma_start(v, entries, all[k].name, k, n);
        assert(jobs::lines_from(entries, k + 1) =~= all.skip(k + 1));
    }
}

/// A listing goes on behind the one entry that has the name of the marker.
proof fn lemma_start(
    v: Volume,
    entries: Seq<crate::nodes::NodeEntryView>,
    marker: Seq<char>,
    k: int,
    n: int,
)
    requires
        0 <= k < entries.len(),
        0 <= n <= entries.len(),
        entries[k].name == marker,
        forall|i: int| 0 <= i < entries.len() && i != k ==> (#[trigger] entries[i]).name != marker,
    ensures
        jobs::start_of(entries, Some(marker), n) == if n > k {
            k + 1
        } else {
            0
        },
    decreases n,
{
    if n > 0 {
        lemma_start(v, entries, marker, k, n - 1);
        if n - 1 != k {
            assert(entries[n - 1].name != marker);
        }
    }
}

/// The volume has a gigabyte, and what is not in use of it is free, as long as no more is
/// in use than that.
pub proof fn law_room_is_counted(v: Volume)
    ensures
        ({
            let (e, after) = served(v, Job::Volume);
            &&& after == v
            &&& match v.used {
                Some((_, bytes)) => bytes <= 1073741824 ==> e.result == Ok::<GoodView, i32>(
                    Good::Volume {
                        total_size: 1073741824,
                        free_size: (1073741824 - bytes) as u64,
                    },
                ),
                None => e.result is Err,
            }
        }),
{
    broadcast use crate::volume::group_run;

}

/// What has been opened is kept under the next handle: the file that was opened, its number,
/// whether it is a directory, and its path. A directory has no file.
pub proof fn law_handle_leads_to_the_file<F>(
    t: WinView<F>,
    v: Volume,
    path: Seq<char>,
    file: Option<F>,
)
    requires
        entry_at(v, path) is Some,
        v.nodes.contains_key(entry_at(v, path)->0),
    ensures
        ({
            let end = served(v, Job::Open { path }).0;
            let after = adapter::settled(t, end, path, file);
            let e = after.open[t.next_fh];
            let dir = volume::is_dir(v, entry_at(v, path)->0);
            &&& after.open.contains_key(t.next_fh)
            &&& e.ino == entry_at(v, path)->0
            &&& e.is_dir == dir
            &&& e.path == path
            &&& e.file == if dir {
                None
            } else {
                file
            }
            &&& !e.delete_on_close
            &&& t.next_fh < u64::MAX ==> after.next_fh == t.next_fh + 1
        }),
{
    law_entry_is_opened(v, path);
}

} // verus!
