//! What holds of the operations against the tables: what is written is read
//! back, what is made is found, what is removed is gone, and what is refused
//! leaves no trace.

use crate::fs::ops;
use crate::fs::ops::{FsPlan, UnitView};
use crate::fs::store;
use crate::fs::store::{Cell, Request};
use crate::fs::tables;
use crate::fs::tables::{InodeRow, Tables};
use crate::fs::types;
use crate::fs::types::{
    OpErrorView, Stats, DEFAULT_DIR_MODE, DEFAULT_FILE_MODE, MAX_SYMLINK_DEPTH, ROOT_INO,
    SYMLINK_MODE,
};
use crate::paths;
use crate::text;
use vstd::prelude::*;

verus! {

/// The components under which an operation that changes the tables knows a
/// path.
pub open spec fn place(path: Seq<char>) -> Seq<Seq<char>> {
    paths::components(paths::normalized(path))
}

/// The directory that holds the entry at a path.
pub open spec fn directory(db: Tables, path: Seq<char>) -> Option<i64> {
    tables::walk(db, place(path).drop_last(), ROOT_INO)
}

/// The inode at a path.
pub open spec fn entry(db: Tables, path: Seq<char>) -> Option<i64> {
    tables::walk(db, place(path), ROOT_INO)
}

/// The tables with a new inode, and an entry that points to it.
pub open spec fn created(
    db: Tables,
    name: Seq<char>,
    dir: i64,
    mode: u32,
    size: i64,
    now: i64,
) -> Tables {
    Tables {
        inodes: db.inodes.insert(db.next, tables::new_row(mode as i64, size, now)),
        entries: db.entries.insert((dir, name), db.next),
        next: (db.next + 1) as i64,
        last: db.next,
        ..db
    }
}

/// The tables with the contents of a file put down.
pub open spec fn filled(db: Tables, ino: i64, data: Seq<u8>, now: i64) -> Tables {
    let with_data = if data.len() > 0 {
        Tables { data: db.data.insert(ino, tables::blocks(db, ino).push(data)), ..db }
    } else {
        db
    };
    if db.inodes.contains_key(ino) {
        Tables {
            inodes: db.inodes.insert(
                ino,
                InodeRow { size: data.len() as i64, mtime: now, ..db.inodes[ino] },
            ),
            ..with_data
        }
    } else {
        with_data
    }
}

broadcast proof fn lemma_run_create<T>(
    db: Tables,
    name: Seq<char>,
    dir: i64,
    mode: u32,
    size: i64,
    now: i64,
    then: spec_fn(Result<i64, OpErrorView>) -> FsPlan<T>,
)
    ensures
        #[trigger] tables::run(ops::create_plan(name, dir, mode, size, now, then), db)
            == tables::run(then(Ok(db.next)), created(db, name, dir, mode, size, now)),
{
    broadcast use crate::fs::tables::group_run;

}

broadcast proof fn lemma_run_fill(db: Tables, ino: i64, data: Seq<u8>, now: i64)
    ensures
        #[trigger] tables::run(ops::fill_plan(ino, data, now), db) == (
            Ok::<(), OpErrorView>(()),
            filled(db, ino, data, now),
        ),
{
    broadcast use crate::fs::tables::group_run;

}

/// The parent directory of a place is found under the components in front of
/// its name.
pub proof fn lemma_place(path: Seq<char>)
    ensures
        paths::all_plain(place(path)),
        place(path).len() > 0 ==> paths::components(paths::parent_string(place(path))) == place(
            path,
        ).drop_last(),
{
    paths::law_second_normal_form_is_canonical(path);
    let cs = place(path);
    if cs.len() > 0 {
        let parent = cs.drop_last();
        assert forall|i: int| 0 <= i < parent.len() implies paths::plain(#[trigger] parent[i]) by {
            assert(parent[i] == cs[i]);
        }
        paths::lemma_components_of_path(parent);
        if cs.len() == 1 {
            assert(paths::parent_string(cs) == paths::path_string(parent));
        }
    }
}

/// Walking on by one name is one more lookup.
pub proof fn lemma_walk_push(db: Tables, cs: Seq<Seq<char>>, at: i64)
    requires
        cs.len() > 0,
    ensures
        tables::walk(db, cs, at) == match tables::walk(db, cs.drop_last(), at) {
            Some(dir) => if db.entries.contains_key((dir, cs.last())) {
                Some(db.entries[(dir, cs.last())])
            } else {
                None
            },
            None => None,
        },
    decreases cs.len(),
{
    if cs.len() == 1 {
        assert(cs.drop_first() =~= Seq::<Seq<char>>::empty());
        assert(cs.drop_last() =~= Seq::<Seq<char>>::empty());
        if db.entries.contains_key((at, cs[0])) {
            assert(tables::walk(db, cs.drop_first(), db.entries[(at, cs[0])]) == Some(
                db.entries[(at, cs[0])],
            ));
        }
    } else {
        assert(cs.drop_last()[0] == cs[0]);
        assert(cs.drop_last().drop_first() =~= cs.drop_first().drop_last());
        if db.entries.contains_key((at, cs[0])) {
            lemma_walk_push(db, cs.drop_first(), db.entries[(at, cs[0])]);
        }
    }
}

/// A walk that gets through gets through the same way when entries are added.
proof fn lemma_walk_extend(db: Tables, more: Tables, cs: Seq<Seq<char>>, at: i64)
    requires
        forall|k: (i64, Seq<char>)| #[trigger]
            db.entries.contains_key(k) ==> more.entries.contains_key(k) && more.entries[k]
                == db.entries[k],
        tables::walk(db, cs, at) is Some,
    ensures
        tables::walk(more, cs, at) == tables::walk(db, cs, at),
    decreases cs.len(),
{
    if cs.len() > 0 {
        lemma_walk_extend(db, more, cs.drop_first(), db.entries[(at, cs[0])]);
    }
}

/// Walks depend on the entries alone.
pub proof fn lemma_walk_entries(db: Tables, other: Tables, cs: Seq<Seq<char>>, at: i64)
    requires
        db.entries == other.entries,
    ensures
        tables::walk(db, cs, at) == tables::walk(other, cs, at),
    decreases cs.len(),
{
    if cs.len() > 0 && db.entries.contains_key((at, cs[0])) {
        lemma_walk_entries(db, other, cs.drop_first(), db.entries[(at, cs[0])]);
    }
}

/// An entry that was added is found.
pub proof fn lemma_created_is_found(db: Tables, more: Tables, path: Seq<char>, dir: i64, ino: i64)
    requires
        place(path).len() > 0,
        directory(db, path) == Some(dir),
        entry(db, path) is None,
        more.entries == db.entries.insert((dir, place(path).last()), ino),
    ensures
        entry(more, path) == Some(ino),
        directory(more, path) == Some(dir),
{
    let cs = place(path);
    lemma_walk_push(db, cs, ROOT_INO);
    assert(!db.entries.contains_key((dir, cs.last())));
    lemma_walk_extend(db, more, cs.drop_last(), ROOT_INO);
    lemma_walk_push(more, cs, ROOT_INO);
}

/// What writing a file comes to.
pub open spec fn write_outcome(db: Tables, path: Seq<char>, data: Seq<u8>, now: i64) -> (
    UnitView,
    Tables,
) {
    let cs = place(path);
    if cs.len() == 0 {
        (Err(ops::message("Cannot write to root directory"@)), db)
    } else {
        match directory(db, path) {
            None => (Err(ops::message("Parent directory does not exist"@)), db),
            Some(dir) => match entry(db, path) {
                Some(ino) => (
                    Ok(()),
                    filled(Tables { data: db.data.remove(ino), ..db }, ino, data, now),
                ),
                None => (
                    Ok(()),
                    filled(
                        created(db, cs.last(), dir, DEFAULT_FILE_MODE, data.len() as i64, now),
                        db.next,
                        data,
                        now,
                    ),
                ),
            },
        }
    }
}

/// Writing a file succeeds where its directory is there, and comes to what
/// `write_outcome` says.
pub proof fn law_write_outcome(db: Tables, path: Seq<char>, data: Seq<u8>, now: i64)
    ensures
        tables::run(ops::write_file_plan(path, data, now), db) == write_outcome(
            db,
            path,
            data,
            now,
        ),
{
    broadcast use crate::fs::tables::group_run;

    broadcast use lemma_run_create, lemma_run_fill;

    lemma_place(path);
}

/// What creating a directory comes to.
pub open spec fn mkdir_outcome(db: Tables, path: Seq<char>, now: i64) -> (UnitView, Tables) {
    let cs = place(path);
    if cs.len() == 0 {
        (Err(ops::message("Cannot create root directory"@)), db)
    } else {
        match directory(db, path) {
            None => (Err(ops::message("Parent directory does not exist"@)), db),
            Some(dir) => match entry(db, path) {
                Some(_) => (Err(ops::message("Directory already exists"@)), db),
                None => (Ok(()), created(db, cs.last(), dir, DEFAULT_DIR_MODE, 0, now)),
            },
        }
    }
}

/// Creating a directory succeeds where its parent is there and itself is not,
/// and comes to what `mkdir_outcome` says.
pub proof fn law_mkdir_outcome(db: Tables, path: Seq<char>, now: i64)
    ensures
        tables::run(ops::mkdir_plan(path, now), db) == mkdir_outcome(db, path, now),
{
    broadcast use crate::fs::tables::group_run;

    broadcast use lemma_run_create;

    lemma_place(path);
}

/// What creating a link comes to.
pub open spec fn symlink_outcome(db: Tables, target: Seq<char>, path: Seq<char>, now: i64) -> (
    UnitView,
    Tables,
) {
    let cs = place(path);
    if cs.len() == 0 {
        (Err(ops::message("Cannot create symlink at root"@)), db)
    } else {
        match directory(db, path) {
            None => (Err(ops::message("Parent directory does not exist"@)), db),
            Some(dir) => match entry(db, path) {
                Some(_) => (Err(ops::message("Path already exists"@)), db),
                None => {
                    let size = text::utf8_len(target) as i64;
                    let made = created(db, cs.last(), dir, SYMLINK_MODE, size, now);
                    (Ok(()), Tables { targets: db.targets.insert(db.next, target), ..made })
                },
            },
        }
    }
}

/// Creating a link succeeds where its parent is there and itself is not, and
/// comes to what `symlink_outcome` says.
pub proof fn law_symlink_outcome(db: Tables, target: Seq<char>, path: Seq<char>, now: i64)
    ensures
        tables::run(ops::symlink_plan(target, path, now), db) == symlink_outcome(
            db,
            target,
            path,
            now,
        ),
{
    broadcast use crate::fs::tables::group_run;

    lemma_place(path);
}

/// What removing an entry comes to.
pub open spec fn remove_outcome(db: Tables, path: Seq<char>) -> (UnitView, Tables) {
    let cs = place(path);
    if cs.len() == 0 {
        (Err(ops::message("Cannot remove root directory"@)), db)
    } else {
        match entry(db, path) {
            None => (Err(ops::message("Path does not exist"@)), db),
            Some(ino) => if ino == ROOT_INO {
                (Err(ops::message("Cannot remove root directory"@)), db)
            } else if tables::children(db, ino).len() as i64 > 0 {
                (Err(ops::message("Directory not empty"@)), db)
            } else {
                match directory(db, path) {
                    None => (Err(ops::message("Parent directory does not exist"@)), db),
                    Some(dir) => (
                        Ok(()),
                        tables::reaped(
                            Tables { entries: db.entries.remove((dir, cs.last())), ..db },
                            ino,
                        ),
                    ),
                }
            },
        }
    }
}

/// Removing an entry succeeds where it is there, is not the root and has no
/// entries of its own, and comes to what `remove_outcome` says.
pub proof fn law_remove_outcome(db: Tables, path: Seq<char>)
    ensures
        tables::run(ops::remove_plan(path), db) == remove_outcome(db, path),
{
    broadcast use crate::fs::tables::group_run;

    lemma_place(path);
}

/// The paths that reading and writing understand alike: all but those that do
/// not start with a slash and hold `.` or `..`.
pub open spec fn settled(path: Seq<char>) -> bool {
    paths::components(path) == place(path)
}

/// A path that starts with a slash is settled.
pub proof fn law_absolute_paths_are_settled(path: Seq<char>)
    requires
        path.len() > 0,
        path[0] == '/',
    ensures
        settled(path),
{
    paths::law_normal_form_is_canonical(path);
}

proof fn lemma_blobs_of_one(data: Seq<u8>)
    ensures
        store::blobs(tables::block_rows(seq![data])) == data,
        store::blobs(tables::block_rows(Seq::<Seq<u8>>::empty())) == Seq::<u8>::empty(),
{
    let rows = tables::block_rows(seq![data]);
    assert(rows.drop_last() =~= tables::block_rows(Seq::<Seq<u8>>::empty()));
    assert(store::blobs(rows.drop_last()) =~= Seq::<u8>::empty());
    assert(rows.last() =~= seq![Cell::Blob(data)]);
    assert(store::blobs(rows) =~= data);
}

/// What reading a file comes to.
pub open spec fn read_outcome(db: Tables, path: Seq<char>) -> Option<Seq<u8>> {
    match tables::find(db, path) {
        None => None,
        Some(ino) => Some(store::blobs(tables::block_rows(tables::blocks(db, ino)))),
    }
}

/// Reading a file comes to what `read_outcome` says.
pub proof fn law_read_outcome(db: Tables, path: Seq<char>)
    ensures
        tables::run(ops::read_file_plan(path), db) == (
            Ok::<Option<Seq<u8>>, OpErrorView>(read_outcome(db, path)),
            db,
        ),
{
    broadcast use crate::fs::tables::group_run;

}

/// What is written to a file is what is read from it.
pub proof fn law_read_after_write(db: Tables, path: Seq<char>, data: Seq<u8>, now: i64)
    requires
        tables::wf(db),
        settled(path),
        tables::run(ops::write_file_plan(path, data, now), db).0 is Ok,
    ensures
        ({
            let after = tables::run(ops::write_file_plan(path, data, now), db).1;
            tables::run(ops::read_file_plan(path), after) == (
                Ok::<Option<Seq<u8>>, OpErrorView>(Some(data)),
                after,
            )
        }),
{
    law_write_outcome(db, path, data, now);
    lemma_place(path);
    let after = write_outcome(db, path, data, now).1;
    let cs = place(path);
    let dir = directory(db, path)->0;
    let ino = match entry(db, path) {
        Some(ino) => ino,
        None => db.next,
    };
    match entry(db, path) {
        Some(_) => {
            lemma_walk_entries(db, after, cs, ROOT_INO);
        },
        None => {
            lemma_created_is_found(db, after, path, dir, db.next);
            assert(!db.data.contains_key(db.next));
        },
    }
    assert(tables::find(after, path) == Some(ino));
    lemma_blobs_of_one(data);
    if data.len() > 0 {
        assert(tables::blocks(after, ino) =~= seq![data]);
    } else {
        assert(tables::blocks(after, ino) =~= Seq::<Seq<u8>>::empty());
        assert(data =~= Seq::<u8>::empty());
    }
    law_read_outcome(after, path);
}

/// Writing one file leaves the contents of every other inode alone.
pub proof fn law_write_changes_one_file(
    db: Tables,
    path: Seq<char>,
    data: Seq<u8>,
    now: i64,
    other: i64,
)
    requires
        entry(db, path) != Some(other),
        other != db.next,
    ensures
        ({
            let after = tables::run(ops::write_file_plan(path, data, now), db).1;
            &&& tables::blocks(after, other) == tables::blocks(db, other)
            &&& after.inodes.contains_key(other) == db.inodes.contains_key(other)
            &&& db.inodes.contains_key(other) ==> after.inodes[other] == db.inodes[other]
        }),
{
    law_write_outcome(db, path, data, now);
}

/// A file that was written is a regular file of the size of what was written,
/// where it was not there before.
pub proof fn law_new_file_is_regular(db: Tables, path: Seq<char>, data: Seq<u8>, now: i64)
    requires
        tables::wf(db),
        entry(db, path) is None,
        tables::run(ops::write_file_plan(path, data, now), db).0 is Ok,
    ensures
        ({
            let after = tables::run(ops::write_file_plan(path, data, now), db).1;
            &&& entry(after, path) is Some
            &&& after.inodes.contains_key(entry(after, path)->0)
            &&& types::file_mode(after.inodes[entry(after, path)->0].mode as u32)
            &&& after.inodes[entry(after, path)->0].size == data.len() as i64
        }),
{
    law_write_outcome(db, path, data, now);
    let after = write_outcome(db, path, data, now).1;
    lemma_created_is_found(db, after, path, directory(db, path)->0, db.next);
    types::law_default_modes();
}

/// A directory that was created is found, and is a directory without entries.
pub proof fn law_new_directory_is_found(db: Tables, path: Seq<char>, now: i64)
    requires
        tables::wf(db),
        tables::run(ops::mkdir_plan(path, now), db).0 is Ok,
    ensures
        ({
            let after = tables::run(ops::mkdir_plan(path, now), db).1;
            &&& entry(after, path) is Some
            &&& after.inodes.contains_key(entry(after, path)->0)
            &&& types::dir_mode(after.inodes[entry(after, path)->0].mode as u32)
            &&& tables::children(after, entry(after, path)->0) == Set::<(i64, Seq<char>)>::empty()
        }),
{
    law_mkdir_outcome(db, path, now);
    let after = mkdir_outcome(db, path, now).1;
    let dir = directory(db, path)->0;
    lemma_created_is_found(db, after, path, dir, db.next);
    types::law_default_modes();
    lemma_walk_bound(db, place(path).drop_last(), ROOT_INO);
    assert(tables::children(after, db.next) =~= Set::<(i64, Seq<char>)>::empty());
}

/// A walk ends at a number that has been given out.
pub proof fn lemma_walk_bound(db: Tables, cs: Seq<Seq<char>>, at: i64)
    requires
        tables::wf(db),
        at < db.next,
        tables::walk(db, cs, at) is Some,
    ensures
        tables::walk(db, cs, at)->0 < db.next,
    decreases cs.len(),
{
    if cs.len() > 0 {
        lemma_walk_bound(db, cs.drop_first(), db.entries[(at, cs[0])]);
    }
}

/// A directory cannot be created twice.
pub proof fn law_directory_is_created_once(db: Tables, path: Seq<char>, now: i64, later: i64)
    requires
        tables::wf(db),
        tables::run(ops::mkdir_plan(path, now), db).0 is Ok,
    ensures
        ({
            let after = tables::run(ops::mkdir_plan(path, now), db).1;
            tables::run(ops::mkdir_plan(path, later), after) == (
                Err::<(), OpErrorView>(ops::message("Directory already exists"@)),
                after,
            )
        }),
{
    law_mkdir_outcome(db, path, now);
    let after = mkdir_outcome(db, path, now).1;
    lemma_created_is_found(db, after, path, directory(db, path)->0, db.next);
    law_mkdir_outcome(after, path, later);
}

/// The target that a link was created with is the target that is read.
pub proof fn law_link_reads_back(db: Tables, target: Seq<char>, path: Seq<char>, now: i64)
    requires
        tables::wf(db),
        tables::run(ops::symlink_plan(target, path, now), db).0 is Ok,
    ensures
        ({
            let after = tables::run(ops::symlink_plan(target, path, now), db).1;
            tables::run(ops::readlink_plan(path), after) == (
                Ok::<Option<Seq<char>>, OpErrorView>(Some(target)),
                after,
            )
        }),
{
    broadcast use crate::fs::tables::group_run;

    law_symlink_outcome(db, target, path, now);
    let after = symlink_outcome(db, target, path, now).1;
    lemma_created_is_found(db, after, path, directory(db, path)->0, db.next);
    types::law_default_modes();
    assert(tables::target_at(after, path) == Ok::<Option<Seq<char>>, OpErrorView>(Some(target)));
}

/// A walk that never meets an entry does not miss it.
proof fn lemma_walk_without(db: Tables, less: Tables, cs: Seq<Seq<char>>, at: i64, k: (i64, Seq<char>))
    requires
        less.entries == db.entries.remove(k),
    ensures
        tables::walk(less, cs, at) is Some ==> tables::walk(less, cs, at) == tables::walk(
            db,
            cs,
            at,
        ),
    decreases cs.len(),
{
    if cs.len() > 0 && less.entries.contains_key((at, cs[0])) {
        lemma_walk_without(db, less, cs.drop_first(), db.entries[(at, cs[0])], k);
    }
}

/// An entry that was removed is not found any more.
pub proof fn law_removed_is_gone(db: Tables, path: Seq<char>)
    requires
        tables::run(ops::remove_plan(path), db).0 is Ok,
    ensures
        ({
            let after = tables::run(ops::remove_plan(path), db).1;
            &&& entry(after, path) is None
            &&& tables::run(ops::remove_plan(path), after).0 == Err::<(), OpErrorView>(
                ops::message("Path does not exist"@),
            )
        }),
{
    law_remove_outcome(db, path);
    let after = remove_outcome(db, path).1;
    let cs = place(path);
    let dir = directory(db, path)->0;
    let less = Tables { entries: db.entries.remove((dir, cs.last())), ..db };
    lemma_walk_push(less, cs, ROOT_INO);
    lemma_walk_without(db, less, cs.drop_last(), ROOT_INO, (dir, cs.last()));
    lemma_walk_entries(less, after, cs, ROOT_INO);
    law_remove_outcome(after, path);
}

/// A removal is undone by nothing that was there: the contents of an inode
/// that nothing else points to go with it.
pub proof fn law_last_link_takes_the_contents(db: Tables, path: Seq<char>)
    requires
        tables::run(ops::remove_plan(path), db).0 is Ok,
        tables::links_to(db, entry(db, path)->0) == set![(
            directory(db, path)->0,
            place(path).last(),
        )],
    ensures
        ({
            let after = tables::run(ops::remove_plan(path), db).1;
            let ino = entry(db, path)->0;
            &&& !after.inodes.contains_key(ino)
            &&& !after.data.contains_key(ino)
            &&& !after.targets.contains_key(ino)
        }),
{
    law_remove_outcome(db, path);
    let ino = entry(db, path)->0;
    let key = (directory(db, path)->0, place(path).last());
    let less = Tables { entries: db.entries.remove(key), ..db };
    assert(tables::links_to(less, ino) =~= Set::<(i64, Seq<char>)>::empty()) by {
        assert forall|k: (i64, Seq<char>)| !tables::links_to(less, ino).contains(k) by {
            if tables::links_to(less, ino).contains(k) {
                assert(tables::links_to(db, ino).contains(k));
            }
        }
    }
}

/// The tables once the destination of a rename is cleared.
pub open spec fn cleared(db: Tables, to: Seq<char>) -> Tables {
    match entry(db, to) {
        None => db,
        Some(dst) => tables::reaped(
            Tables {
                entries: db.entries.remove((directory(db, to)->0, place(to).last())),
                ..db
            },
            dst,
        ),
    }
}

/// The tables once the entry at `from` is moved to `to`.
pub open spec fn moved(
    db: Tables,
    src: i64,
    src_dir: i64,
    src_name: Seq<char>,
    dst_dir: i64,
    dst_name: Seq<char>,
    now: i64,
) -> Tables {
    let there = tables::effect(
        db,
        Request::MoveEntry {
            new_parent: dst_dir,
            new_name: dst_name,
            parent: src_dir,
            name: src_name,
        },
    );
    tables::effect(there, Request::UpdateCtime { ctime: now, ino: src })
}

/// Why what stands at the destination keeps a rename from happening.
pub open spec fn obstacle(db: Tables, to: Seq<char>, src: Stats) -> Option<OpErrorView> {
    match entry(db, to) {
        None => None,
        Some(dst_ino) => match tables::stats_at(
            db,
            paths::normalized(paths::normalized(to)),
            MAX_SYMLINK_DEPTH as nat,
        ) {
            Err(e) => Some(e),
            Ok(None) => Some(OpErrorView::Fs(types::FsError::NotFound)),
            Ok(Some(dst)) => if types::dir_mode(dst.mode) && !types::dir_mode(src.mode) {
                Some(OpErrorView::Fs(types::FsError::IsADirectory))
            } else if !types::dir_mode(dst.mode) && types::dir_mode(src.mode) {
                Some(OpErrorView::Fs(types::FsError::NotADirectory))
            } else if types::dir_mode(dst.mode) && tables::children(db, dst_ino).len() as i64 > 0 {
                Some(OpErrorView::Fs(types::FsError::NotEmpty))
            } else {
                None
            },
        },
    }
}

/// What a rename comes to.
pub open spec fn rename_outcome(db: Tables, from: Seq<char>, to: Seq<char>, now: i64) -> (
    UnitView,
    Tables,
) {
    let f = paths::normalized(from);
    let t = paths::normalized(to);
    if f == "/"@ {
        (Err(OpErrorView::Fs(types::FsError::RootOperation)), db)
    } else {
        match entry(db, from) {
            None => (Err(OpErrorView::Fs(types::FsError::NotFound)), db),
            Some(src_ino) => match tables::stats_at(
                db,
                paths::normalized(f),
                MAX_SYMLINK_DEPTH as nat,
            ) {
                Err(e) => (Err(e), db),
                Ok(None) => (Err(OpErrorView::Fs(types::FsError::NotFound)), db),
                Ok(Some(src)) => if types::dir_mode(src.mode) && ops::into_itself(f, t) {
                    (Err(OpErrorView::Fs(types::FsError::InvalidRename)), db)
                } else if place(from).len() == 0 {
                    (Err(OpErrorView::Fs(types::FsError::InvalidPath)), db)
                } else if directory(db, from) is None {
                    (Err(OpErrorView::Fs(types::FsError::NotFound)), db)
                } else if place(to).len() == 0 {
                    (Err(OpErrorView::Fs(types::FsError::RootOperation)), db)
                } else if directory(db, to) is None {
                    (Err(OpErrorView::Fs(types::FsError::NotFound)), db)
                } else {
                    match obstacle(db, to, src) {
                        Some(e) => (Err(e), db),
                        None => (
                            Ok(()),
                            moved(
                                cleared(db, to),
                                src_ino,
                                directory(db, from)->0,
                                place(from).last(),
                                directory(db, to)->0,
                                place(to).last(),
                                now,
                            ),
                        ),
                    }
                },
            },
        }
    }
}

broadcast proof fn lemma_run_move(
    db: Tables,
    src: i64,
    src_dir: i64,
    src_name: Seq<char>,
    dst_dir: i64,
    dst_name: Seq<char>,
    now: i64,
)
    ensures
        #[trigger] tables::run(
            ops::move_plan(src, src_dir, src_name, dst_dir, dst_name, now),
            db,
        ) == (
            Ok::<(), OpErrorView>(()),
            moved(db, src, src_dir, src_name, dst_dir, dst_name, now),
        ),
{
    broadcast use crate::fs::tables::group_run;

}

broadcast proof fn lemma_run_replace(
    db: Tables,
    to: Seq<char>,
    dst_ino: i64,
    dst_dir: i64,
    dst_name: Seq<char>,
    src: Stats,
    then: spec_fn(()) -> FsPlan<UnitView>,
)
    requires
        entry(db, to) == Some(dst_ino),
        directory(db, to) == Some(dst_dir),
        dst_name == place(to).last(),
    ensures
        #[trigger] tables::run(
            ops::replace_plan(paths::normalized(to), dst_ino, dst_dir, dst_name, src, then),
            db,
        ) == match obstacle(db, to, src) {
            Some(e) => (Err::<(), OpErrorView>(e), db),
            None => tables::run(then(()), cleared(db, to)),
        },
{
    broadcast use crate::fs::tables::group_run;

}

/// A rename comes to what `rename_outcome` says.
#[verifier::rlimit(60)]
pub proof fn law_rename_outcome(db: Tables, from: Seq<char>, to: Seq<char>, now: i64)
    ensures
        tables::run(ops::rename_plan(from, to, now), db) == rename_outcome(db, from, to, now),
{
    broadcast use crate::fs::tables::group_run;

    broadcast use lemma_run_move, lemma_run_replace;

    lemma_place(from);
    lemma_place(to);
}

/// The walk along the components never takes the entry `k`.
spec fn avoids(db: Tables, cs: Seq<Seq<char>>, at: i64, k: (i64, Seq<char>)) -> bool
    decreases cs.len(),
{
    cs.len() == 0 || ((at, cs[0]) != k && (db.entries.contains_key((at, cs[0])) ==> avoids(
        db,
        cs.drop_first(),
        db.entries[(at, cs[0])],
        k,
    )))
}

/// Taking an entry away does not change a walk that avoids it.
proof fn lemma_avoid_remove(
    db: Tables,
    less: Tables,
    cs: Seq<Seq<char>>,
    at: i64,
    k: (i64, Seq<char>),
)
    requires
        less.entries == db.entries.remove(k),
        avoids(db, cs, at, k),
    ensures
        tables::walk(less, cs, at) == tables::walk(db, cs, at),
    decreases cs.len(),
{
    if cs.len() > 0 && db.entries.contains_key((at, cs[0])) {
        lemma_avoid_remove(db, less, cs.drop_first(), db.entries[(at, cs[0])], k);
    }
}

/// Adding an entry does not change a walk that avoids it.
proof fn lemma_avoid_insert(
    db: Tables,
    more: Tables,
    cs: Seq<Seq<char>>,
    at: i64,
    k: (i64, Seq<char>),
    ino: i64,
)
    requires
        more.entries == db.entries.insert(k, ino),
        avoids(db, cs, at, k),
    ensures
        tables::walk(more, cs, at) == tables::walk(db, cs, at),
    decreases cs.len(),
{
    if cs.len() > 0 && db.entries.contains_key((at, cs[0])) {
        lemma_avoid_insert(db, more, cs.drop_first(), db.entries[(at, cs[0])], k, ino);
    }
}

/// A walk that takes an entry reaches its directory on the way.
proof fn lemma_taken(db: Tables, cs: Seq<Seq<char>>, at: i64, k: (i64, Seq<char>)) -> (j: int)
    requires
        !avoids(db, cs, at, k),
    ensures
        0 <= j < cs.len(),
        tables::walk(db, cs.take(j), at) == Some(k.0),
        cs[j] == k.1,
    decreases cs.len(),
{
    if (at, cs[0]) == k {
        assert(cs.take(0) =~= Seq::<Seq<char>>::empty());
        0
    } else {
        let rest = cs.drop_first();
        let i = lemma_taken(db, rest, db.entries[(at, cs[0])], k);
        assert(cs.take(i + 1).drop_first() =~= rest.take(i));
        assert(cs.take(i + 1)[0] == cs[0]);
        i + 1
    }
}

/// Only one list of components leads to an inode.
proof fn lemma_walk_injective(db: Tables, a: Seq<Seq<char>>, b: Seq<Seq<char>>)
    requires
        tables::single_links(db),
        tables::walk(db, a, ROOT_INO) is Some,
        tables::walk(db, a, ROOT_INO) == tables::walk(db, b, ROOT_INO),
    ensures
        a == b,
    decreases a.len(),
{
    if a.len() > 0 {
        lemma_walk_push(db, a, ROOT_INO);
        let da = tables::walk(db, a.drop_last(), ROOT_INO)->0;
        assert(db.entries[(da, a.last())] != ROOT_INO);
    }
    if b.len() > 0 {
        lemma_walk_push(db, b, ROOT_INO);
        let db_ = tables::walk(db, b.drop_last(), ROOT_INO)->0;
        assert(db.entries[(db_, b.last())] != ROOT_INO);
    }
    if a.len() > 0 && b.len() > 0 {
        let da = tables::walk(db, a.drop_last(), ROOT_INO)->0;
        let db_ = tables::walk(db, b.drop_last(), ROOT_INO)->0;
        assert((da, a.last()) == (db_, b.last()));
        lemma_walk_injective(db, a.drop_last(), b.drop_last());
        assert(a =~= a.drop_last().push(a.last()));
        assert(b =~= b.drop_last().push(b.last()));
    } else {
        assert(a =~= b);
    }
}

/// `below` lies at `top` or under it.
pub open spec fn at_or_below(top: Seq<Seq<char>>, below: Seq<Seq<char>>) -> bool {
    top.len() <= below.len() && below.take(top.len() as int) == top
}

/// A walk to a place that is not at or below another avoids the entry of the
/// other.
proof fn lemma_apart(db: Tables, top: Seq<Seq<char>>, cs: Seq<Seq<char>>, dir: i64)
    requires
        tables::single_links(db),
        top.len() > 0,
        tables::walk(db, top.drop_last(), ROOT_INO) == Some(dir),
        !at_or_below(top, cs),
    ensures
        avoids(db, cs, ROOT_INO, (dir, top.last())),
{
    if !avoids(db, cs, ROOT_INO, (dir, top.last())) {
        let j = lemma_taken(db, cs, ROOT_INO, (dir, top.last()));
        lemma_walk_injective(db, cs.take(j), top.drop_last());
        assert(cs.take(j + 1) =~= cs.take(j).push(cs[j]));
        assert(top =~= top.drop_last().push(top.last()));
        assert(cs.take(top.len() as int) =~= top);
    }
}

/// An entry that was renamed is found at the new place, with the inode that it had,
/// and all that was below it is found below the new place. At and below the old
/// place nothing is found, and every place at or below neither has the inode that it
/// had. What stood at the new place is gone, contents and all; the contents and
/// targets of all other inodes are as they were.
pub proof fn law_renamed_is_found(db: Tables, from: Seq<char>, to: Seq<char>, now: i64)
    requires
        tables::wf(db),
        tables::run(ops::rename_plan(from, to, now), db).0 is Ok,
        !at_or_below(place(from), place(to)),
        entry(db, to) is Some ==> !at_or_below(place(to), place(from)),
    ensures
        ({
            let after = tables::run(ops::rename_plan(from, to, now), db).1;
            &&& entry(after, to) == entry(db, from)
            &&& entry(after, from) is None
            &&& forall|rest: Seq<Seq<char>>| #[trigger]
                tables::walk(after, place(to) + rest, ROOT_INO) == tables::walk(
                    db,
                    place(from) + rest,
                    ROOT_INO,
                )
            &&& forall|cs: Seq<Seq<char>>|
                at_or_below(place(from), cs) ==> #[trigger] tables::walk(after, cs, ROOT_INO) is None
            &&& forall|cs: Seq<Seq<char>>|
                !at_or_below(place(from), cs) && !at_or_below(place(to), cs)
                    ==> #[trigger] tables::walk(after, cs, ROOT_INO) == tables::walk(
                    db,
                    cs,
                    ROOT_INO,
                )
            &&& entry(db, to) is None ==> after.data == db.data && after.targets == db.targets
            &&& entry(db, to) matches Some(replaced) ==> {
                &&& Some(replaced) != entry(db, from)
                &&& after.data == db.data.remove(replaced)
                &&& after.targets == db.targets.remove(replaced)
                &&& !after.inodes.contains_key(replaced)
            }
        }),
{
    law_rename_outcome(db, from, to, now);
    let after = rename_outcome(db, from, to, now).1;
    let f = place(from);
    let t = place(to);
    let src = entry(db, from)->0;
    let sd = directory(db, from)->0;
    let dd = directory(db, to)->0;
    let sk = (sd, f.last());
    let dk = (dd, t.last());
    lemma_walk_push(db, f, ROOT_INO);
    lemma_walk_push(db, t, ROOT_INO);
    let less = Tables { entries: db.entries.remove(sk), ..db };
    assert(sk != dk) by {
        if sk == dk {
            lemma_walk_injective(db, f.drop_last(), t.drop_last());
            assert(f =~= f.drop_last().push(f.last()));
            assert(t =~= t.drop_last().push(t.last()));
            assert(t.take(f.len() as int) =~= f);
        }
    }
    lemma_cleared(db, to);
    assert(after.entries =~= less.entries.insert(dk, src));
    // The directory of the new place is still where it was.
    assert(!at_or_below(f, t.drop_last())) by {
        if at_or_below(f, t.drop_last()) {
            assert(t.take(f.len() as int) =~= t.drop_last().take(f.len() as int));
        }
    }
    lemma_apart(db, f, t.drop_last(), sd);
    lemma_avoid_remove(db, less, t.drop_last(), ROOT_INO, sk);
    assert(tables::single_links(less));
    assert(!at_or_below(t, t.drop_last()));
    lemma_apart(less, t, t.drop_last(), dd);
    lemma_avoid_insert(less, after, t.drop_last(), ROOT_INO, dk, src);
    lemma_walk_push(after, t, ROOT_INO);
    // The old place is empty, since the new one does not lie on the way to it.
    if entry(db, to) is None {
        lemma_free_is_not_above(db, from, to);
    }
    lemma_apart(less, t, f, dd);
    lemma_avoid_insert(less, after, f, ROOT_INO, dk, src);
    lemma_walk_push(less, f, ROOT_INO);
    assert(!at_or_below(f, f.drop_last()));
    lemma_apart(db, f, f.drop_last(), sd);
    lemma_avoid_remove(db, less, f.drop_last(), ROOT_INO, sk);
    assert forall|rest: Seq<Seq<char>>| #[trigger]
        tables::walk(after, t + rest, ROOT_INO) == tables::walk(db, f + rest, ROOT_INO) by {
        lemma_walk_join(after, t, rest, ROOT_INO);
        lemma_walk_join(db, f, rest, ROOT_INO);
        lemma_never_back(db, db, f, f, rest);
        lemma_avoid_remove(db, less, rest, src, sk);
        lemma_never_back(db, less, f, t, rest);
        lemma_avoid_insert(less, after, rest, src, dk, src);
    }
    assert forall|cs: Seq<Seq<char>>| at_or_below(f, cs) implies #[trigger] tables::walk(
        after,
        cs,
        ROOT_INO,
    ) is None by {
        if tables::walk(after, cs, ROOT_INO) is Some {
            lemma_prefix_found(after, cs, f.len() as int);
        }
    }
    assert forall|cs: Seq<Seq<char>>|
        !at_or_below(f, cs) && !at_or_below(t, cs) implies #[trigger] tables::walk(
        after,
        cs,
        ROOT_INO,
    ) == tables::walk(db, cs, ROOT_INO) by {
        lemma_apart(db, f, cs, sd);
        lemma_avoid_remove(db, less, cs, ROOT_INO, sk);
        lemma_apart(less, t, cs, dd);
        lemma_avoid_insert(less, after, cs, ROOT_INO, dk, src);
    }
}

/// A walk along two lists is one along the first, and then along the second.
proof fn lemma_walk_join(db: Tables, a: Seq<Seq<char>>, b: Seq<Seq<char>>, at: i64)
    ensures
        tables::walk(db, a + b, at) == match tables::walk(db, a, at) {
            Some(dir) => tables::walk(db, b, dir),
            None => None,
        },
    decreases a.len(),
{
    if a.len() == 0 {
        assert(a + b =~= b);
    } else {
        assert((a + b)[0] == a[0]);
        assert((a + b).drop_first() =~= a.drop_first() + b);
        if db.entries.contains_key((at, a[0])) {
            lemma_walk_join(db, a.drop_first(), b, db.entries[(at, a[0])]);
        }
    }
}

/// A walk on from a place never takes the entry of a place that does not lie below
/// it, nor its own, even where entries are missing.
proof fn lemma_never_back(
    db: Tables,
    less: Tables,
    f: Seq<Seq<char>>,
    other: Seq<Seq<char>>,
    rest: Seq<Seq<char>>,
)
    requires
        tables::single_links(db),
        tables::walk(db, f, ROOT_INO) is Some,
        other.len() > 0,
        tables::walk(db, other.drop_last(), ROOT_INO) is Some,
        !at_or_below(f, other.drop_last()),
        forall|k: (i64, Seq<char>)| #[trigger]
            less.entries.contains_key(k) ==> db.entries.contains_key(k) && db.entries[k]
                == less.entries[k],
    ensures
        avoids(
            less,
            rest,
            tables::walk(db, f, ROOT_INO)->0,
            (tables::walk(db, other.drop_last(), ROOT_INO)->0, other.last()),
        ),
{
    let src = tables::walk(db, f, ROOT_INO)->0;
    let dir = tables::walk(db, other.drop_last(), ROOT_INO)->0;
    if !avoids(less, rest, src, (dir, other.last())) {
        let j = lemma_taken(less, rest, src, (dir, other.last()));
        lemma_walk_extend(less, db, rest.take(j), src);
        lemma_walk_join(db, f, rest.take(j), ROOT_INO);
        lemma_walk_injective(db, f + rest.take(j), other.drop_last());
        assert(other.drop_last().take(f.len() as int) =~= f);
    }
}

/// Clearing the destination of a rename takes its entry away, and its inode with
/// it, since nothing else points there.
proof fn lemma_cleared(db: Tables, to: Seq<char>)
    requires
        tables::wf(db),
        place(to).len() > 0,
        directory(db, to) is Some,
    ensures
        cleared(db, to).entries == db.entries.remove((directory(db, to)->0, place(to).last())),
        entry(db, to) is None ==> cleared(db, to) == db,
        entry(db, to) matches Some(ino) ==> {
            &&& cleared(db, to).data == db.data.remove(ino)
            &&& cleared(db, to).targets == db.targets.remove(ino)
            &&& cleared(db, to).inodes == db.inodes.remove(ino)
        },
{
    let key = (directory(db, to)->0, place(to).last());
    lemma_walk_push(db, place(to), ROOT_INO);
    match entry(db, to) {
        None => {
            assert(db.entries.remove(key) =~= db.entries);
        },
        Some(ino) => {
            let less = Tables { entries: db.entries.remove(key), ..db };
            assert(tables::links_to(less, ino) =~= Set::<(i64, Seq<char>)>::empty()) by {
                assert forall|k: (i64, Seq<char>)| !tables::links_to(less, ino).contains(k) by {
                    if tables::links_to(less, ino).contains(k) {
                        assert(db.entries[k] == db.entries[key]);
                    }
                }
            }
        },
    }
}

/// What leads to an entry does not pass a free place.
proof fn lemma_free_is_not_above(db: Tables, from: Seq<char>, to: Seq<char>)
    requires
        entry(db, from) is Some,
        entry(db, to) is None,
    ensures
        !at_or_below(place(to), place(from)),
{
    if at_or_below(place(to), place(from)) {
        lemma_prefix_found(db, place(from), place(to).len() as int);
    }
}

/// What leads somewhere leads somewhere all the way.
proof fn lemma_prefix_found(db: Tables, cs: Seq<Seq<char>>, n: int)
    requires
        0 <= n <= cs.len(),
        tables::walk(db, cs, ROOT_INO) is Some,
    ensures
        tables::walk(db, cs.take(n), ROOT_INO) is Some,
    decreases cs.len(),
{
    if n == cs.len() {
        assert(cs.take(n) =~= cs);
    } else {
        lemma_walk_push(db, cs, ROOT_INO);
        lemma_prefix_found(db, cs.drop_last(), n);
        assert(cs.drop_last().take(n) =~= cs.take(n));
    }
}

/// A file that was renamed reads at the new place as it read at the old one,
/// whatever stood there.
pub proof fn law_renamed_reads_the_same(db: Tables, from: Seq<char>, to: Seq<char>, now: i64)
    requires
        tables::wf(db),
        tables::run(ops::rename_plan(from, to, now), db).0 is Ok,
        !at_or_below(place(from), place(to)),
        entry(db, to) is Some ==> !at_or_below(place(to), place(from)),
        settled(from),
        settled(to),
    ensures
        tables::run(
            ops::read_file_plan(to),
            tables::run(ops::rename_plan(from, to, now), db).1,
        ).0 == tables::run(ops::read_file_plan(from), db).0,
{
    law_renamed_is_found(db, from, to, now);
    let after = tables::run(ops::rename_plan(from, to, now), db).1;
    assert(tables::find(after, to) == entry(after, to));
    assert(tables::find(db, from) == entry(db, from));
    law_rename_outcome(db, from, to, now);
    assert(entry(db, from) is Some);
    let ino = entry(db, from)->0;
    assert(tables::blocks(after, ino) == tables::blocks(db, ino));
    law_read_outcome(after, to);
    law_read_outcome(db, from);
}

/// Below a place that has no entries nothing is found.
proof fn lemma_nothing_below(db: Tables, top: Seq<Seq<char>>, cs: Seq<Seq<char>>)
    requires
        at_or_below(top, cs),
        top != cs,
        tables::walk(db, top, ROOT_INO) matches Some(ino) ==> forall|name: Seq<char>|
            !db.entries.contains_key((ino, name)),
    ensures
        tables::walk(db, cs, ROOT_INO) is None,
{
    let rest = cs.skip(top.len() as int);
    assert(cs =~= top + rest);
    lemma_walk_join(db, top, rest, ROOT_INO);
    if rest.len() == 0 {
        assert(cs =~= top);
    }
}

/// Adding the entry of a path that was free changes what is found at that path, and
/// nowhere else.
proof fn lemma_created_alone(db: Tables, after: Tables, path: Seq<char>, cs: Seq<Seq<char>>)
    requires
        tables::wf(db),
        place(path).len() > 0,
        directory(db, path) is Some,
        entry(db, path) is None,
        after.entries == db.entries.insert((directory(db, path)->0, place(path).last()), db.next),
        cs != place(path),
    ensures
        tables::walk(after, cs, ROOT_INO) == tables::walk(db, cs, ROOT_INO),
{
    let top = place(path);
    let dir = directory(db, path)->0;
    if at_or_below(top, cs) {
        lemma_walk_bound(db, top.drop_last(), ROOT_INO);
        lemma_created_is_found(db, after, path, dir, db.next);
        assert forall|name: Seq<char>| !after.entries.contains_key((db.next, name)) by {
            assert(!db.entries.contains_key((db.next, name)));
        }
        lemma_nothing_below(after, top, cs);
        lemma_nothing_below(db, top, cs);
    } else {
        lemma_apart(db, top, cs, dir);
        lemma_avoid_insert(db, after, cs, ROOT_INO, (dir, top.last()), db.next);
    }
}

/// Writing a file, creating a directory or creating a link changes what is found at
/// its path, and nowhere else.
pub proof fn law_creation_touches_one_place(
    db: Tables,
    path: Seq<char>,
    data: Seq<u8>,
    target: Seq<char>,
    now: i64,
    cs: Seq<Seq<char>>,
)
    requires
        tables::wf(db),
        cs != place(path),
    ensures
        tables::walk(
            tables::run(ops::write_file_plan(path, data, now), db).1,
            cs,
            ROOT_INO,
        ) == tables::walk(db, cs, ROOT_INO),
        tables::walk(tables::run(ops::mkdir_plan(path, now), db).1, cs, ROOT_INO) == tables::walk(
            db,
            cs,
            ROOT_INO,
        ),
        tables::walk(
            tables::run(ops::symlink_plan(target, path, now), db).1,
            cs,
            ROOT_INO,
        ) == tables::walk(db, cs, ROOT_INO),
{
    law_write_outcome(db, path, data, now);
    law_mkdir_outcome(db, path, now);
    law_symlink_outcome(db, target, path, now);
    let written = write_outcome(db, path, data, now).1;
    if place(path).len() > 0 && directory(db, path) is Some {
        if entry(db, path) is None {
            lemma_created_alone(db, written, path, cs);
            lemma_created_alone(db, mkdir_outcome(db, path, now).1, path, cs);
            lemma_created_alone(db, symlink_outcome(db, target, path, now).1, path, cs);
        } else {
            lemma_walk_entries(db, written, cs, ROOT_INO);
        }
    }
}

/// Removing an entry changes what is found at its path, and nowhere else.
pub proof fn law_removal_touches_one_place(db: Tables, path: Seq<char>, cs: Seq<Seq<char>>)
    requires
        tables::wf(db),
        cs != place(path),
    ensures
        tables::walk(tables::run(ops::remove_plan(path), db).1, cs, ROOT_INO) == tables::walk(
            db,
            cs,
            ROOT_INO,
        ),
{
    law_remove_outcome(db, path);
    let (r, after) = remove_outcome(db, path);
    if r is Ok {
        let top = place(path);
        let dir = directory(db, path)->0;
        let ino = entry(db, path)->0;
        let key = (dir, top.last());
        let less = Tables { entries: db.entries.remove(key), ..db };
        lemma_walk_entries(less, after, cs, ROOT_INO);
        if at_or_below(top, cs) {
            let below = tables::children(db, ino);
            vstd::set_lib::lemma_len_subset(below, db.entries.dom());
            assert forall|name: Seq<char>| !db.entries.contains_key((ino, name)) by {
                if db.entries.contains_key((ino, name)) {
                    assert(below.contains((ino, name)));
                }
            }
            lemma_nothing_below(db, top, cs);
            lemma_walk_without(db, less, cs, ROOT_INO, key);
        } else {
            lemma_apart(db, top, cs, dir);
            lemma_avoid_remove(db, less, cs, ROOT_INO, key);
        }
    }
}

/// An operation that is refused leaves the tables as they are.
pub proof fn law_refusal_changes_nothing(
    db: Tables,
    path: Seq<char>,
    other: Seq<char>,
    data: Seq<u8>,
    now: i64,
)
    ensures
        tables::run(ops::write_file_plan(path, data, now), db).0 is Err ==> tables::run(
            ops::write_file_plan(path, data, now),
            db,
        ).1 == db,
        tables::run(ops::mkdir_plan(path, now), db).0 is Err ==> tables::run(
            ops::mkdir_plan(path, now),
            db,
        ).1 == db,
        tables::run(ops::symlink_plan(other, path, now), db).0 is Err ==> tables::run(
            ops::symlink_plan(other, path, now),
            db,
        ).1 == db,
        tables::run(ops::remove_plan(path), db).0 is Err ==> tables::run(
            ops::remove_plan(path),
            db,
        ).1 == db,
        tables::run(ops::rename_plan(path, other, now), db).0 is Err ==> tables::run(
            ops::rename_plan(path, other, now),
            db,
        ).1 == db,
{
    law_write_outcome(db, path, data, now);
    law_mkdir_outcome(db, path, now);
    law_symlink_outcome(db, other, path, now);
    law_remove_outcome(db, path);
    law_rename_outcome(db, path, other, now);
}

/// Reading never changes the tables.
pub proof fn law_reading_changes_nothing(db: Tables, path: Seq<char>)
    ensures
        tables::run(ops::read_file_plan(path), db).1 == db,
        tables::run(ops::readdir_plan(path), db).1 == db,
        tables::run(ops::lstat_plan(path), db).1 == db,
        tables::run(ops::stat_plan(path), db).1 == db,
        tables::run(ops::readlink_plan(path), db).1 == db,
{
    broadcast use crate::fs::tables::group_run;

}

/// Writing keeps the tables in order.
pub proof fn law_write_keeps_order(db: Tables, path: Seq<char>, data: Seq<u8>, now: i64)
    requires
        tables::wf(db),
        db.next < i64::MAX - 1,
        db.entries.dom().len() < i64::MAX - 1,
    ensures
        tables::wf(tables::run(ops::write_file_plan(path, data, now), db).1),
{
    law_write_outcome(db, path, data, now);
    if directory(db, path) is Some {
        lemma_walk_bound(db, place(path).drop_last(), ROOT_INO);
    }
    if entry(db, path) is Some {
        lemma_walk_bound(db, place(path), ROOT_INO);
    }
}

/// Creating a directory or a link keeps the tables in order.
pub proof fn law_creation_keeps_order(
    db: Tables,
    target: Seq<char>,
    path: Seq<char>,
    now: i64,
)
    requires
        tables::wf(db),
        db.next < i64::MAX - 1,
        db.entries.dom().len() < i64::MAX - 1,
    ensures
        tables::wf(tables::run(ops::mkdir_plan(path, now), db).1),
        tables::wf(tables::run(ops::symlink_plan(target, path, now), db).1),
{
    law_mkdir_outcome(db, path, now);
    law_symlink_outcome(db, target, path, now);
    if directory(db, path) is Some {
        lemma_walk_bound(db, place(path).drop_last(), ROOT_INO);
    }
}

/// Removing keeps the tables in order.
pub proof fn law_remove_keeps_order(db: Tables, path: Seq<char>)
    requires
        tables::wf(db),
    ensures
        tables::wf(tables::run(ops::remove_plan(path), db).1),
{
    law_remove_outcome(db, path);
}

/// Renaming keeps the tables in order.
pub proof fn law_rename_keeps_order(db: Tables, from: Seq<char>, to: Seq<char>, now: i64)
    requires
        tables::wf(db),
        db.entries.dom().len() < i64::MAX - 1,
    ensures
        tables::wf(tables::run(ops::rename_plan(from, to, now), db).1),
{
    law_rename_outcome(db, from, to, now);
    if directory(db, to) is Some {
        lemma_walk_bound(db, place(to).drop_last(), ROOT_INO);
    }
    if entry(db, from) is Some {
        lemma_walk_bound(db, place(from), ROOT_INO);
        if place(from).len() > 0 {
            lemma_walk_push(db, place(from), ROOT_INO);
        }
    }
}

/// The names in the rows of a listing are those of the list that are not empty.
proof fn lemma_listed_names(list: Seq<Seq<char>>)
    ensures
        forall|name: Seq<char>| #[trigger]
            store::names(tables::name_rows(list)).contains(name) <==> (name.len() > 0
                && list.contains(name)),
        text::increasing(list) ==> text::increasing(store::names(tables::name_rows(list))),
    decreases list.len(),
{
    broadcast use vstd::seq_lib::group_seq_properties;

    if list.len() > 0 {
        let before = list.drop_last();
        let rows = tables::name_rows(list);
        lemma_listed_names(before);
        assert(rows.drop_last() =~= tables::name_rows(before));
        assert(rows.last() =~= seq![Cell::<Seq<char>, Seq<u8>>::Text(list.last())]);
        assert(list =~= before.push(list.last()));
        let kept = store::names(tables::name_rows(before));
        let out = store::names(rows);
        if text::increasing(list) {
            assert(text::increasing(before)) by {
                assert forall|i: int, j: int| 0 <= i < j < before.len() implies #[trigger] text::less(
                    before[i],
                    before[j],
                ) by {
                    assert(text::less(list[i], list[j]));
                }
            }
            assert forall|i: int, j: int| 0 <= i < j < out.len() implies #[trigger] text::less(
                out[i],
                out[j],
            ) by {
                if j < kept.len() {
                    assert(text::less(kept[i], kept[j]));
                } else {
                    assert(kept.contains(kept[i]));
                    let k = choose|k: int| 0 <= k < before.len() && before[k] == kept[i];
                    assert(text::less(list[k], list[list.len() - 1]));
                }
            }
        }
    }
}

/// A directory can be listed.
proof fn lemma_listing(db: Tables, ino: i64)
    requires
        db.entries.dom().finite(),
    ensures
        tables::is_listing(db, ino, tables::listing(db, ino)),
{
    let all = tables::children(db, ino);
    let second = |k: (i64, Seq<char>)| k.1;
    vstd::set_lib::lemma_set_subset_finite(db.entries.dom(), all);
    all.lemma_map_finite(second);
    let names = all.map(second);
    names.lemma_to_seq_to_set_id();
    let list = text::sorted_set(names.to_seq());
    text::law_sorting_keeps_the_texts(names.to_seq());
    assert forall|name: Seq<char>| #[trigger]
        list.contains(name) <==> db.entries.contains_key((ino, name)) by {
        assert(names.to_seq().contains(name) <==> names.to_seq().to_set().contains(name));
        if db.entries.contains_key((ino, name)) {
            assert(all.contains((ino, name)));
            assert(second((ino, name)) == name);
        }
    }
    assert(tables::is_listing(db, ino, list));
}

/// Listing a directory shows each entry that is there, once and in order.
pub proof fn law_listing_outcome(db: Tables, path: Seq<char>)
    requires
        db.entries.dom().finite(),
    ensures
        tables::run(ops::readdir_plan(path), db).1 == db,
        match tables::find(db, path) {
            None => tables::run(ops::readdir_plan(path), db).0 == Ok::<
                Option<Seq<Seq<char>>>,
                OpErrorView,
            >(None),
            Some(ino) => tables::run(ops::readdir_plan(path), db).0 matches Ok(Some(list))
                && text::increasing(list) && forall|name: Seq<char>| #[trigger]
                list.contains(name) <==> (name.len() > 0 && db.entries.contains_key((ino, name))),
        },
{
    broadcast use crate::fs::tables::group_run;

    match tables::find(db, path) {
        None => {},
        Some(ino) => {
            lemma_listing(db, ino);
            lemma_listed_names(tables::listing(db, ino));
        },
    }
}

/// A file that was written is listed in its directory.
pub proof fn law_written_is_listed(db: Tables, path: Seq<char>, data: Seq<u8>, now: i64)
    requires
        tables::wf(db),
        tables::run(ops::write_file_plan(path, data, now), db).0 is Ok,
    ensures
        ({
            let after = tables::run(ops::write_file_plan(path, data, now), db).1;
            let dir = paths::parent_string(place(path));
            tables::run(ops::readdir_plan(dir), after).0 matches Ok(Some(list)) && list.contains(
                place(path).last(),
            )
        }),
{
    law_write_outcome(db, path, data, now);
    let after = write_outcome(db, path, data, now).1;
    let cs = place(path);
    lemma_place(path);
    assert(paths::plain(cs[cs.len() - 1]));
    let dir = directory(db, path)->0;
    if entry(db, path) is None {
        lemma_created_is_found(db, after, path, dir, db.next);
    } else {
        lemma_walk_entries(db, after, cs, ROOT_INO);
        lemma_walk_entries(db, after, cs.drop_last(), ROOT_INO);
    }
    lemma_walk_push(after, cs, ROOT_INO);
    law_listing_outcome(after, paths::parent_string(cs));
}

/// An entry that was removed is not listed in its directory.
pub proof fn law_removed_is_not_listed(db: Tables, path: Seq<char>)
    requires
        db.entries.dom().finite(),
        tables::run(ops::remove_plan(path), db).0 is Ok,
    ensures
        ({
            let after = tables::run(ops::remove_plan(path), db).1;
            let dir = paths::parent_string(place(path));
            tables::run(ops::readdir_plan(dir), after).0 matches Ok(Some(list))
                ==> !list.contains(place(path).last())
        }),
{
    law_remove_outcome(db, path);
    law_removed_is_gone(db, path);
    let after = remove_outcome(db, path).1;
    let cs = place(path);
    lemma_place(path);
    lemma_walk_push(after, cs, ROOT_INO);
    law_listing_outcome(after, paths::parent_string(cs));
}

} // verus!
