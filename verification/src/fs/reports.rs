//! What the operations say of the entries: the statistics that an entry is reported
//! with after it was written, created, moved or followed, and when an operation
//! succeeds.

use crate::fs::laws;
use crate::fs::ops;
use crate::fs::ops::UnitView;
use crate::fs::tables;
use crate::fs::tables::{InodeRow, Tables};
use crate::fs::types;
use crate::fs::types::{
    FsError, OpErrorView, Stats, DEFAULT_DIR_MODE, DEFAULT_FILE_MODE, MAX_SYMLINK_DEPTH, ROOT_INO,
    SYMLINK_MODE,
};
use crate::paths;
use crate::text;
use vstd::prelude::*;

verus! {

/// An entry is reported with its inode, and with all that the inode table says of
/// it: mode, owner, size and times. The link count is the number of entries that
/// point to the inode. Where there is no entry, or no inode, there is no report.
pub proof fn law_entry_is_reported(db: Tables, path: Seq<char>)
    ensures
        tables::run(ops::lstat_plan(path), db).1 == db,
        match laws::entry(db, path) {
            Some(ino) => if db.inodes.contains_key(ino) {
                tables::run(ops::lstat_plan(path), db).0 matches Ok(Some(s)) && {
                    &&& s.ino == ino
                    &&& s.mode == db.inodes[ino].mode as u32
                    &&& s.uid == db.inodes[ino].uid as u32
                    &&& s.gid == db.inodes[ino].gid as u32
                    &&& s.size == db.inodes[ino].size
                    &&& s.atime == db.inodes[ino].atime
                    &&& s.mtime == db.inodes[ino].mtime
                    &&& s.ctime == db.inodes[ino].ctime
                    &&& s.nlink == tables::links_to(db, ino).len() as i64 as u32
                }
            } else {
                tables::run(ops::lstat_plan(path), db).0 == Ok::<Option<Stats>, OpErrorView>(None)
            },
            None => tables::run(ops::lstat_plan(path), db).0 == Ok::<Option<Stats>, OpErrorView>(
                None,
            ),
        },
{
    broadcast use crate::fs::tables::group_run;

}

/// The inode of an entry that has just been added has that one link.
proof fn lemma_one_link(db: Tables, after: Tables, key: (i64, Seq<char>))
    requires
        tables::wf(db),
        after.entries == db.entries.insert(key, db.next),
    ensures
        tables::links_to(after, db.next).len() == 1,
{
    assert(tables::links_to(after, db.next) =~= set![key]);
}

/// A path that is reported as anything but a link is reported alike whether links
/// are followed or not.
pub proof fn law_only_links_are_followed(db: Tables, path: Seq<char>)
    requires
        tables::run(ops::lstat_plan(path), db).0 matches Ok(Some(s)) ==> !types::link_mode(s.mode),
    ensures
        tables::run(ops::stat_plan(path), db) == tables::run(ops::lstat_plan(path), db),
{
    broadcast use crate::fs::tables::group_run;

}

proof fn lemma_runs(db: Tables, path: Seq<char>)
    ensures
        tables::run(ops::stat_plan(path), db) == (
            tables::stats_at(db, paths::normalized(path), MAX_SYMLINK_DEPTH as nat),
            db,
        ),
        tables::run(ops::readlink_plan(path), db) == (tables::target_at(db, path), db),
        tables::run(ops::lstat_plan(path), db) == (
            match laws::entry(db, path) {
                Some(ino) => if db.inodes.contains_key(ino) {
                    Ok::<Option<Stats>, OpErrorView>(Some(tables::inode_stats(db, ino)))
                } else {
                    Ok(None)
                },
                None => Ok(None),
            },
            db,
        ),
{
    broadcast use crate::fs::tables::group_run;

}

/// A link is reported, where links are followed, as what it leads to: an absolute
/// target as what stands there, any other as what stands there from the directory
/// of the link.
pub proof fn law_link_is_reported_as_its_destination(
    db: Tables,
    path: Seq<char>,
    target: Seq<char>,
)
    requires
        laws::entry(db, path) is Some,
        db.inodes.contains_key(laws::entry(db, path)->0),
        types::link_mode(db.inodes[laws::entry(db, path)->0].mode as u32),
        tables::run(ops::readlink_plan(path), db).0 == Ok::<Option<Seq<char>>, OpErrorView>(
            Some(target),
        ),
        ({
            let there = paths::link_destination(paths::normalized(path), target);
            &&& laws::settled(there)
            &&& tables::run(ops::lstat_plan(there), db).0 matches Ok(Some(s)) ==> !types::link_mode(
                s.mode,
            )
        }),
    ensures
        tables::run(ops::stat_plan(path), db) == tables::run(
            ops::lstat_plan(paths::link_destination(paths::normalized(path), target)),
            db,
        ),
{
    let p = paths::normalized(path);
    let there = paths::link_destination(p, target);
    paths::law_second_normal_form_is_canonical(path);
    paths::law_normal_form_is_canonical(p);
    lemma_runs(db, path);
    lemma_runs(db, there);
    assert(tables::target_at(db, p) == tables::target_at(db, path));
    let once = (MAX_SYMLINK_DEPTH - 1) as nat;
    assert(tables::stats_at(db, p, MAX_SYMLINK_DEPTH as nat) == tables::stats_at(db, there, once));
    assert(tables::find(db, there) == laws::entry(db, there));
    match laws::entry(db, there) {
        Some(ino) => {
            assert(db.inodes.contains_key(ino) ==> tables::inode_stats(db, ino).mode
                == db.inodes[ino].mode as u32);
        },
        None => {},
    }
}

/// Reading a link gives the target that is kept for it. What is no link is refused, and
/// where there is no entry there is no target.
pub proof fn law_target_is_read(db: Tables, path: Seq<char>)
    ensures
        ({
            let (r, after) = tables::run(ops::readlink_plan(path), db);
            let ino = laws::entry(db, path)->0;
            let there = laws::entry(db, path) is Some && db.inodes.contains_key(ino);
            let link = types::link_mode(db.inodes[ino].mode as u32);
            &&& after == db
            &&& !there ==> r == Ok::<Option<Seq<char>>, OpErrorView>(None)
            &&& there && !link ==> r == Err::<Option<Seq<char>>, OpErrorView>(
                OpErrorView::Message("Not a symbolic link"@),
            )
            &&& there && link ==> r == Ok::<Option<Seq<char>>, OpErrorView>(
                if db.targets.contains_key(ino) {
                    Some(db.targets[ino])
                } else {
                    None
                },
            )
        }),
{
    lemma_runs(db, path);
}

/// A link whose target is not kept leads nowhere, and that is said where it is followed.
pub proof fn law_link_without_target_is_refused(db: Tables, path: Seq<char>)
    requires
        path.len() > 0,
        path[0] == '/',
        laws::entry(db, path) is Some,
        db.inodes.contains_key(laws::entry(db, path)->0),
        types::link_mode(db.inodes[laws::entry(db, path)->0].mode as u32),
        !db.targets.contains_key(laws::entry(db, path)->0),
    ensures
        tables::run(ops::stat_plan(path), db) == (
            Err::<Option<Stats>, OpErrorView>(OpErrorView::Message("Symlink has no target"@)),
            db,
        ),
{
    lemma_runs(db, path);
    lemma_absolute(path);
    let p = paths::normalized(path);
    assert(tables::find(db, p) == laws::entry(db, path));
    assert(tables::target_at(db, p) == tables::target_at(db, path));
}

/// `stops` are the paths that one link after the other leads to from the first of them:
/// all but the last are those of links, and each next one is where the link leads.
pub open spec fn links_along(db: Tables, stops: Seq<Seq<char>>) -> bool {
    &&& stops.len() > 0
    &&& forall|i: int|
        0 <= i < stops.len() - 1 ==> {
            let path = #[trigger] stops[i];
            let ino = laws::entry(db, path)->0;
            &&& laws::entry(db, path) is Some
            &&& db.inodes.contains_key(ino)
            &&& types::link_mode(db.inodes[ino].mode as u32)
            &&& db.targets.contains_key(ino)
            &&& stops[i + 1] == paths::link_destination(path, db.targets[ino])
        }
    &&& forall|i: int| 0 <= i < stops.len() ==> laws::settled(#[trigger] stops[i])
}

proof fn lemma_along(db: Tables, stops: Seq<Seq<char>>, depth: nat)
    requires
        links_along(db, stops),
    ensures
        depth >= stops.len() - 1 ==> tables::stats_at(db, stops[0], depth) == tables::stats_at(
            db,
            stops.last(),
            (depth - (stops.len() - 1)) as nat,
        ),
        depth <= stops.len() - 1 ==> tables::stats_at(db, stops[0], depth) == Err::<
            Option<Stats>,
            OpErrorView,
        >(ops::message("Too many levels of symbolic links"@)),
    decreases stops.len(),
{
    if stops.len() > 1 && depth > 0 {
        let rest = stops.drop_first();
        let path = stops[0];
        assert forall|i: int| 0 <= i < rest.len() - 1 implies {
            let path = #[trigger] rest[i];
            let ino = laws::entry(db, path)->0;
            &&& laws::entry(db, path) is Some
            &&& db.inodes.contains_key(ino)
            &&& types::link_mode(db.inodes[ino].mode as u32)
            &&& db.targets.contains_key(ino)
            &&& rest[i + 1] == paths::link_destination(path, db.targets[ino])
        } by {
            assert(rest[i] == stops[i + 1]);
            assert(rest[i + 1] == stops[i + 2]);
        }
        assert forall|i: int| 0 <= i < rest.len() implies laws::settled(#[trigger] rest[i]) by {
            assert(rest[i] == stops[i + 1]);
        }
        lemma_along(db, rest, (depth - 1) as nat);
        assert(rest[0] == stops[1]);
        assert(rest.last() == stops.last());
        assert(laws::settled(path));
        assert(tables::find(db, path) == laws::entry(db, path));
    }
}

/// Up to thirty-nine links, one leading to the next, are followed to what the last of
/// them leads to; more are given up on.
pub proof fn law_links_are_followed_in_turn(db: Tables, stops: Seq<Seq<char>>)
    requires
        links_along(db, stops),
        paths::normalized(stops[0]) == stops[0],
        tables::run(ops::lstat_plan(stops.last()), db).0 matches Ok(Some(s)) ==> !types::link_mode(
            s.mode,
        ),
    ensures
        stops.len() <= 40 ==> tables::run(ops::stat_plan(stops[0]), db) == tables::run(
            ops::lstat_plan(stops.last()),
            db,
        ),
        stops.len() > 40 ==> tables::run(ops::stat_plan(stops[0]), db) == (
            Err::<Option<Stats>, OpErrorView>(
                OpErrorView::Message("Too many levels of symbolic links"@),
            ),
            db,
        ),
{
    let end = stops.last();
    lemma_runs(db, stops[0]);
    lemma_runs(db, end);
    lemma_along(db, stops, MAX_SYMLINK_DEPTH as nat);
    assert(laws::settled(stops[stops.len() - 1]));
    assert(tables::find(db, end) == laws::entry(db, end));
    match laws::entry(db, end) {
        Some(ino) => {
            assert(db.inodes.contains_key(ino) ==> tables::inode_stats(db, ino).mode
                == db.inodes[ino].mode as u32);
        },
        None => {},
    }
}

proof fn lemma_loop(db: Tables, path: Seq<char>, depth: nat)
    requires
        tables::find(db, path) is Some,
        db.inodes.contains_key(tables::find(db, path)->0),
        types::link_mode(db.inodes[tables::find(db, path)->0].mode as u32),
        tables::target_at(db, path) matches Ok(Some(t)) && paths::link_destination(path, t) == path,
    ensures
        tables::stats_at(db, path, depth) == Err::<Option<Stats>, OpErrorView>(
            ops::message("Too many levels of symbolic links"@),
        ),
    decreases depth,
{
    if depth > 0 {
        lemma_loop(db, path, (depth - 1) as nat);
    }
}

/// A link that leads to itself is given up on.
pub proof fn law_link_to_itself_is_refused(db: Tables, path: Seq<char>, target: Seq<char>)
    requires
        laws::entry(db, path) is Some,
        db.inodes.contains_key(laws::entry(db, path)->0),
        types::link_mode(db.inodes[laws::entry(db, path)->0].mode as u32),
        tables::run(ops::readlink_plan(path), db).0 == Ok::<Option<Seq<char>>, OpErrorView>(
            Some(target),
        ),
        paths::link_destination(paths::normalized(path), target) == paths::normalized(path),
    ensures
        tables::run(ops::stat_plan(path), db) == (
            Err::<Option<Stats>, OpErrorView>(
                ops::message("Too many levels of symbolic links"@),
            ),
            db,
        ),
{
    broadcast use crate::fs::tables::group_run;

    let p = paths::normalized(path);
    paths::law_second_normal_form_is_canonical(path);
    paths::law_normal_form_is_canonical(p);
    lemma_loop(db, p, MAX_SYMLINK_DEPTH as nat);
}

/// After a file was written, whether it was there before or not, its inode has the
/// length of what was written as its size and the time of the writing as its time
/// of change, and that is what is reported of the path. A file that was there keeps
/// its inode, its mode, its owner and its other times.
pub proof fn law_written_size_and_time_are_reported(
    db: Tables,
    path: Seq<char>,
    data: Seq<u8>,
    now: i64,
)
    requires
        tables::wf(db),
        data.len() <= i64::MAX,
        tables::run(ops::write_file_plan(path, data, now), db).0 is Ok,
        laws::entry(db, path) matches Some(ino) ==> db.inodes.contains_key(ino),
    ensures
        ({
            let after = tables::run(ops::write_file_plan(path, data, now), db).1;
            let ino = laws::entry(after, path)->0;
            &&& laws::entry(after, path) is Some
            &&& after.inodes.contains_key(ino)
            &&& after.inodes[ino].size == data.len()
            &&& after.inodes[ino].mtime == now
            &&& laws::entry(db, path) is Some ==> {
                &&& laws::entry(db, path) == Some(ino)
                &&& after.inodes[ino].mode == db.inodes[ino].mode
                &&& after.inodes[ino].uid == db.inodes[ino].uid
                &&& after.inodes[ino].gid == db.inodes[ino].gid
                &&& after.inodes[ino].atime == db.inodes[ino].atime
                &&& after.inodes[ino].ctime == db.inodes[ino].ctime
            }
            &&& tables::run(ops::lstat_plan(path), after).0 matches Ok(Some(s)) && s.size
                == data.len() && s.mtime == now
            &&& !types::link_mode(after.inodes[ino].mode as u32) ==> (tables::run(
                ops::stat_plan(path),
                after,
            ).0 matches Ok(Some(s)) && s.size == data.len() && s.mtime == now)
        }),
{
    laws::law_write_outcome(db, path, data, now);
    let after = tables::run(ops::write_file_plan(path, data, now), db).1;
    match laws::entry(db, path) {
        Some(_) => {
            laws::lemma_walk_entries(db, after, laws::place(path), ROOT_INO);
        },
        None => {
            laws::lemma_created_is_found(
                db,
                after,
                path,
                laws::directory(db, path)->0,
                db.next,
            );
        },
    }
    law_entry_is_reported(after, path);
    if !types::link_mode(after.inodes[laws::entry(after, path)->0].mode as u32) {
        law_only_links_are_followed(after, path);
    }
}

/// A file, a directory or a link that is new is reported with an inode that was
/// free, the mode of its kind, one link, no owner, its length, and the time of its
/// creation as all its times. A link is as long as the bytes of its target.
pub proof fn law_new_entry_is_reported(
    db: Tables,
    path: Seq<char>,
    data: Seq<u8>,
    target: Seq<char>,
    now: i64,
)
    requires
        tables::wf(db),
        laws::entry(db, path) is None,
        data.len() <= i64::MAX,
        text::utf8_len(target) <= i64::MAX,
    ensures
        tables::run(ops::write_file_plan(path, data, now), db).0 is Ok ==> tables::run(
            ops::lstat_plan(path),
            tables::run(ops::write_file_plan(path, data, now), db).1,
        ).0 == Ok::<Option<Stats>, OpErrorView>(
            Some(
                Stats {
                    ino: db.next,
                    mode: DEFAULT_FILE_MODE,
                    nlink: 1,
                    uid: 0,
                    gid: 0,
                    size: data.len() as i64,
                    atime: now,
                    mtime: now,
                    ctime: now,
                },
            ),
        ),
        tables::run(ops::mkdir_plan(path, now), db).0 is Ok ==> tables::run(
            ops::lstat_plan(path),
            tables::run(ops::mkdir_plan(path, now), db).1,
        ).0 == Ok::<Option<Stats>, OpErrorView>(
            Some(
                Stats {
                    ino: db.next,
                    mode: DEFAULT_DIR_MODE,
                    nlink: 1,
                    uid: 0,
                    gid: 0,
                    size: 0,
                    atime: now,
                    mtime: now,
                    ctime: now,
                },
            ),
        ),
        tables::run(ops::symlink_plan(target, path, now), db).0 is Ok ==> tables::run(
            ops::lstat_plan(path),
            tables::run(ops::symlink_plan(target, path, now), db).1,
        ).0 == Ok::<Option<Stats>, OpErrorView>(
            Some(
                Stats {
                    ino: db.next,
                    mode: SYMLINK_MODE,
                    nlink: 1,
                    uid: 0,
                    gid: 0,
                    size: text::utf8_len(target) as i64,
                    atime: now,
                    mtime: now,
                    ctime: now,
                },
            ),
        ),
        !db.inodes.contains_key(db.next),
{
    laws::law_write_outcome(db, path, data, now);
    laws::law_mkdir_outcome(db, path, now);
    laws::law_symlink_outcome(db, target, path, now);
    if laws::place(path).len() > 0 && laws::directory(db, path) is Some {
        let dir = laws::directory(db, path)->0;
        let key = (dir, laws::place(path).last());
        let written = laws::write_outcome(db, path, data, now).1;
        let made = laws::mkdir_outcome(db, path, now).1;
        let linked = laws::symlink_outcome(db, target, path, now).1;
        laws::lemma_created_is_found(db, written, path, dir, db.next);
        laws::lemma_created_is_found(db, made, path, dir, db.next);
        laws::lemma_created_is_found(db, linked, path, dir, db.next);
        lemma_one_link(db, written, key);
        lemma_one_link(db, made, key);
        lemma_one_link(db, linked, key);
        law_entry_is_reported(written, path);
        law_entry_is_reported(made, path);
        law_entry_is_reported(linked, path);
    }
}

/// A file can be written where its directory is there and it is not the root. A
/// directory or a link can be created where, besides, nothing stands at its path.
/// Whatever is not the root and has nothing in it can be removed. What cannot be
/// done is refused with the reason.
pub proof fn law_when_an_operation_succeeds(
    db: Tables,
    path: Seq<char>,
    data: Seq<u8>,
    target: Seq<char>,
    now: i64,
)
    requires
        tables::wf(db),
    ensures
        ({
            let root = laws::place(path).len() == 0;
            let housed = laws::directory(db, path) is Some;
            let taken = laws::entry(db, path) is Some;
            let written = tables::run(ops::write_file_plan(path, data, now), db).0;
            let made = tables::run(ops::mkdir_plan(path, now), db).0;
            let linked = tables::run(ops::symlink_plan(target, path, now), db).0;
            let removed = tables::run(ops::remove_plan(path), db).0;
            &&& written is Ok <==> !root && housed
            &&& made is Ok <==> !root && housed && !taken
            &&& linked is Ok <==> !root && housed && !taken
            &&& removed is Ok <==> !root && taken && forall|name: Seq<char>|
                !#[trigger] db.entries.contains_key((laws::entry(db, path)->0, name))
            &&& root ==> written == refused("Cannot write to root directory"@) && made == refused(
                "Cannot create root directory"@,
            ) && linked == refused("Cannot create symlink at root"@) && removed == refused(
                "Cannot remove root directory"@,
            )
            &&& !root && !housed ==> written == refused("Parent directory does not exist"@) && made
                == refused("Parent directory does not exist"@) && linked == refused(
                "Parent directory does not exist"@,
            )
            &&& !root && housed && taken ==> made == refused("Directory already exists"@) && linked
                == refused("Path already exists"@)
            &&& !root && !taken ==> removed == refused("Path does not exist"@)
            &&& !root && taken && removed is Err ==> removed == refused("Directory not empty"@)
        }),
{
    laws::law_write_outcome(db, path, data, now);
    laws::law_mkdir_outcome(db, path, now);
    laws::law_symlink_outcome(db, target, path, now);
    laws::law_remove_outcome(db, path);
    if laws::place(path).len() > 0 {
        let cs = laws::place(path);
        laws::lemma_walk_push(db, cs, ROOT_INO);
        match laws::entry(db, path) {
            Some(ino) => {
                let dir = laws::directory(db, path)->0;
                assert(db.entries.contains_key((dir, cs.last())));
                let below = tables::children(db, ino);
                vstd::set_lib::lemma_len_subset(below, db.entries.dom());
                if below.len() == 0 {
                    assert forall|name: Seq<char>| !#[trigger]
                        db.entries.contains_key((ino, name)) by {
                        if db.entries.contains_key((ino, name)) {
                            assert(below.contains((ino, name)));
                        }
                    }
                } else {
                    let k = below.choose();
                    assert(below.contains(k));
                    assert(db.entries.contains_key((ino, k.1)));
                }
            },
            None => {},
        }
    }
}

/// What was renamed is reported at its new path as it was reported at the old one,
/// but for the time at which its inode was changed, which is that of the rename.
pub proof fn law_renamed_is_reported_alike(db: Tables, from: Seq<char>, to: Seq<char>, now: i64)
    requires
        tables::wf(db),
        tables::run(ops::rename_plan(from, to, now), db).0 is Ok,
        !laws::at_or_below(laws::place(from), laws::place(to)),
        laws::entry(db, to) is Some ==> !laws::at_or_below(laws::place(to), laws::place(from)),
        db.inodes.contains_key(laws::entry(db, from)->0),
    ensures
        ({
            let after = tables::run(ops::rename_plan(from, to, now), db).1;
            tables::run(ops::lstat_plan(from), db).0 matches Ok(Some(before)) && tables::run(
                ops::lstat_plan(to),
                after,
            ).0 == Ok::<Option<Stats>, OpErrorView>(Some(Stats { ctime: now, ..before }))
        }),
{
    let after = tables::run(ops::rename_plan(from, to, now), db).1;
    lemma_rename_rows(db, from, to, now);
    lemma_reported(db, from);
    lemma_reported(after, to);
}

/// What is reported of an entry whose inode is there.
proof fn lemma_reported(db: Tables, path: Seq<char>)
    requires
        laws::entry(db, path) is Some,
        db.inodes.contains_key(laws::entry(db, path)->0),
    ensures
        ({
            let ino = laws::entry(db, path)->0;
            let row = db.inodes[ino];
            tables::run(ops::lstat_plan(path), db).0 == Ok::<Option<Stats>, OpErrorView>(
                Some(
                    Stats {
                        ino,
                        mode: row.mode as u32,
                        nlink: tables::links_to(db, ino).len() as i64 as u32,
                        uid: row.uid as u32,
                        gid: row.gid as u32,
                        size: row.size,
                        atime: row.atime,
                        mtime: row.mtime,
                        ctime: row.ctime,
                    },
                ),
            )
        }),
{
    law_entry_is_reported(db, path);
}

#[verifier::rlimit(60)]
proof fn lemma_rename_rows(db: Tables, from: Seq<char>, to: Seq<char>, now: i64)
    requires
        tables::wf(db),
        tables::run(ops::rename_plan(from, to, now), db).0 is Ok,
        !laws::at_or_below(laws::place(from), laws::place(to)),
        laws::entry(db, to) is Some ==> !laws::at_or_below(laws::place(to), laws::place(from)),
        db.inodes.contains_key(laws::entry(db, from)->0),
    ensures
        ({
            let after = tables::run(ops::rename_plan(from, to, now), db).1;
            let ino = laws::entry(db, from)->0;
            &&& laws::entry(db, from) is Some
            &&& laws::entry(after, to) == Some(ino)
            &&& after.inodes.contains_key(ino)
            &&& after.inodes[ino] == InodeRow { ctime: now, ..db.inodes[ino] }
            &&& tables::links_to(db, ino).len() == 1
            &&& tables::links_to(after, ino).len() == 1
        }),
{
    let after = tables::run(ops::rename_plan(from, to, now), db).1;
    let ino = laws::entry(db, from)->0;
    let sk = (laws::directory(db, from)->0, laws::place(from).last());
    let dk = (laws::directory(db, to)->0, laws::place(to).last());
    laws::law_rename_outcome(db, from, to, now);
    assert(laws::entry(db, from) is Some);
    assert(laws::entry(after, to) == laws::entry(db, from) && laws::entry(db, to) != Some(ino)) by {
        laws::law_renamed_is_found(db, from, to, now);
    }
    laws::lemma_walk_push(db, laws::place(from), ROOT_INO);
    assert(db.entries.contains_key(sk) && db.entries[sk] == ino);
    assert(tables::links_to(db, ino) =~= set![sk]);
    laws::lemma_walk_push(db, laws::place(to), ROOT_INO);
    assert(sk != dk);
    let base = laws::cleared(db, to);
    assert(base.inodes.contains_key(ino) && base.inodes[ino] == db.inodes[ino]);
    assert(base.entries.contains_key(sk));
    assert(after.entries == base.entries.remove(sk).insert(dk, ino));
    assert(tables::links_to(after, ino) =~= set![dk]);
}

/// The normal form of a path that starts with a slash is made of its components, and is
/// its own normal form.
proof fn lemma_absolute(path: Seq<char>)
    requires
        path.len() > 0,
        path[0] == '/',
    ensures
        paths::normalized(path) == paths::path_string(laws::place(path)),
        paths::normalized(paths::normalized(path)) == paths::normalized(path),
        paths::all_plain(laws::place(path)),
{
    laws::law_absolute_paths_are_settled(path);
    paths::law_normal_form_is_canonical(path);
}

/// Renaming is refused where it cannot be done: the source is the root or is not
/// there, the directory of the destination is not there, the destination is the
/// root, a directory would end up at or below itself, or what stands at the
/// destination may not be replaced. Nothing else stands in the way.
#[verifier::rlimit(60)]
#[verifier::spinoff_prover]
pub proof fn law_when_a_rename_succeeds(db: Tables, from: Seq<char>, to: Seq<char>, now: i64)
    requires
        tables::wf(db),
        from.len() > 0,
        from[0] == '/',
        to.len() > 0,
        to[0] == '/',
        laws::entry(db, from) matches Some(ino) ==> db.inodes.contains_key(ino)
            && !types::link_mode(db.inodes[ino].mode as u32),
        laws::entry(db, to) matches Some(ino) ==> db.inodes.contains_key(ino) && !types::link_mode(
            db.inodes[ino].mode as u32,
        ),
    ensures
        ({
            let r = tables::run(ops::rename_plan(from, to, now), db).0;
            let f = laws::place(from);
            let t = laws::place(to);
            let src = laws::entry(db, from);
            let dst = laws::entry(db, to);
            let src_dir = types::dir_mode(db.inodes[src->0].mode as u32);
            let dst_dir = types::dir_mode(db.inodes[dst->0].mode as u32);
            let inside = laws::at_or_below(f, t);
            let full = exists|name: Seq<char>| #[trigger] db.entries.contains_key((dst->0, name));
            &&& f.len() == 0 ==> r == denied(FsError::RootOperation)
            &&& f.len() > 0 && src is None ==> r == denied(FsError::NotFound)
            &&& f.len() > 0 && src is Some && src_dir && inside ==> r == denied(
                FsError::InvalidRename,
            )
            &&& f.len() > 0 && src is Some && !(src_dir && inside) ==> {
                &&& t.len() == 0 ==> r == denied(FsError::RootOperation)
                &&& t.len() > 0 && laws::directory(db, to) is None ==> r == denied(
                    FsError::NotFound,
                )
                &&& t.len() > 0 && laws::directory(db, to) is Some && dst is None ==> r is Ok
                &&& t.len() > 0 && dst is Some && dst_dir && !src_dir ==> r == denied(
                    FsError::IsADirectory,
                )
                &&& t.len() > 0 && dst is Some && !dst_dir && src_dir ==> r == denied(
                    FsError::NotADirectory,
                )
                &&& t.len() > 0 && dst is Some && dst_dir && src_dir && full ==> r == denied(
                    FsError::NotEmpty,
                )
                &&& t.len() > 0 && dst is Some && dst_dir == src_dir && !(dst_dir && full)
                    ==> r is Ok
            }
        }),
{
    laws::law_rename_outcome(db, from, to, now);
    lemma_absolute(from);
    lemma_absolute(to);
    let f = laws::place(from);
    let t = laws::place(to);
    let fs = paths::normalized(from);
    let ts = paths::normalized(to);
    assert(f.len() == 0 <==> fs == "/"@) by {
        if f.len() > 0 {
            crate::overlay::laws::lemma_dir_of(f);
        }
    }
    if f.len() > 0 {
        laws::lemma_walk_push(db, f, ROOT_INO);
        lemma_inside(f, t);
        match laws::entry(db, from) {
            Some(ino) => {
                assert(tables::find(db, fs) == Some(ino));
                assert(tables::stats_at(db, fs, MAX_SYMLINK_DEPTH as nat) == Ok::<
                    Option<Stats>,
                    OpErrorView,
                >(Some(tables::inode_stats(db, ino))));
            },
            None => {},
        }
    }
    if t.len() > 0 {
        laws::lemma_walk_push(db, t, ROOT_INO);
        match laws::entry(db, to) {
            Some(ino) => {
                assert(tables::find(db, ts) == Some(ino));
                assert(tables::stats_at(db, ts, MAX_SYMLINK_DEPTH as nat) == Ok::<
                    Option<Stats>,
                    OpErrorView,
                >(Some(tables::inode_stats(db, ino))));
                let below = tables::children(db, ino);
                vstd::set_lib::lemma_len_subset(below, db.entries.dom());
                if below.len() == 0 {
                    assert forall|name: Seq<char>| !#[trigger]
                        db.entries.contains_key((ino, name)) by {
                        if db.entries.contains_key((ino, name)) {
                            assert(below.contains((ino, name)));
                        }
                    }
                } else {
                    let k = below.choose();
                    assert(below.contains(k));
                    assert(db.entries.contains_key((ino, k.1)));
                }
            },
            None => {},
        }
    }
}

/// A path is at or below another where its components start with those of the
/// other.
proof fn lemma_inside(f: Seq<Seq<char>>, t: Seq<Seq<char>>)
    requires
        paths::all_plain(f),
        paths::all_plain(t),
        f.len() > 0,
    ensures
        ops::into_itself(paths::path_string(f), paths::path_string(t)) <==> laws::at_or_below(f, t),
{
    reveal_strlit("/");
    let fs = paths::path_string(f);
    let ts = paths::path_string(t);
    if laws::at_or_below(f, t) {
        crate::overlay::laws::lemma_under_front(t, f.len() as int);
        assert(t.take(f.len() as int) =~= f);
    }
    if ops::into_itself(fs, ts) && !laws::at_or_below(f, t) {
        paths::lemma_parts_of_path(f);
        paths::lemma_parts_of_path(t);
        if ts == fs {
            assert(t == f);
            assert(f.take(f.len() as int) =~= f);
        } else {
            let rest = ts.skip(fs.len() as int + 1);
            assert(ts =~= fs + seq!['/'] + rest) by {
                assert(ts =~= ts.take(fs.len() as int + 1) + rest);
            }
            paths::lemma_parts_join(fs, rest);
            assert(t.take(f.len() as int) =~= f);
        }
    }
}

/// A file system that has no root directory gets one, empty and with the time at
/// which it was made; one that has a root keeps it, and nothing else is touched.
pub proof fn law_root_is_made_once(db: Tables, now: i64)
    ensures
        ({
            let (r, after) = tables::run(ops::ensure_root_plan(now), db);
            &&& r is Ok
            &&& after.inodes.contains_key(ROOT_INO)
            &&& db.inodes.contains_key(ROOT_INO) ==> after == db
            &&& !db.inodes.contains_key(ROOT_INO) ==> {
                &&& after.inodes[ROOT_INO].mode == DEFAULT_DIR_MODE
                &&& after.inodes[ROOT_INO].size == 0
                &&& after.inodes[ROOT_INO].mtime == now
                &&& after.inodes.remove(ROOT_INO) == db.inodes.remove(ROOT_INO)
                &&& after.entries == db.entries
                &&& after.data == db.data
                &&& after.targets == db.targets
            }
        }),
{
    broadcast use crate::fs::tables::group_run;

    assert(db.inodes.insert(ROOT_INO, tables::new_row(DEFAULT_DIR_MODE as i64, 0, now)).remove(
        ROOT_INO,
    ) =~= db.inodes.remove(ROOT_INO));
}

/// A failure with a number.
pub open spec fn denied(e: FsError) -> UnitView {
    Err(OpErrorView::Fs(e))
}

/// A failure with a plain message.
pub open spec fn refused(m: Seq<char>) -> UnitView {
    Err(OpErrorView::Message(m))
}

} // verus!
