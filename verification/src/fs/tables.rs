//! What the statements do to the tables, and what a plan comes to when it is
//! run against them.

use crate::fs::ops;
use crate::fs::ops::{FsPlan, RowsView, StatsView, TargetView};
use crate::fs::store;
use crate::fs::store::{Cell, CellView, Request, RequestView};
use crate::fs::types;
use crate::fs::types::{Stats, ROOT_INO};
use crate::paths;
use crate::plan::Plan;
use crate::text;
use vstd::prelude::*;

verus! {

/// A row of the inode table, its number aside.
pub struct InodeRow {
    pub mode: i64,
    pub uid: i64,
    pub gid: i64,
    pub size: i64,
    pub atime: i64,
    pub mtime: i64,
    pub ctime: i64,
}

/// The tables of a file system: inodes, directory entries, the blocks of each
/// file, the target of each link, the next free inode number and the one that
/// was given out last.
#[verifier::ext_equal]
pub struct Tables {
    pub inodes: Map<i64, InodeRow>,
    pub entries: Map<(i64, Seq<char>), i64>,
    pub data: Map<i64, Seq<Seq<u8>>>,
    pub targets: Map<i64, Seq<char>>,
    pub next: i64,
    pub last: i64,
}

pub open spec fn no_rows() -> RowsView {
    Seq::<Seq<CellView>>::empty()
}

pub open spec fn int_row(n: i64) -> RowsView {
    seq![seq![Cell::Integer(n)]]
}

pub open spec fn inode_row(ino: i64, row: InodeRow) -> RowsView {
    seq![
        seq![
            Cell::Integer(ino),
            Cell::Integer(row.mode),
            Cell::Integer(row.uid),
            Cell::Integer(row.gid),
            Cell::Integer(row.size),
            Cell::Integer(row.atime),
            Cell::Integer(row.mtime),
            Cell::Integer(row.ctime),
        ],
    ]
}

pub open spec fn blocks(db: Tables, ino: i64) -> Seq<Seq<u8>> {
    if db.data.contains_key(ino) {
        db.data[ino]
    } else {
        Seq::<Seq<u8>>::empty()
    }
}

pub open spec fn block_rows(list: Seq<Seq<u8>>) -> RowsView {
    Seq::new(list.len(), |i: int| seq![Cell::Blob(list[i])])
}

pub open spec fn name_rows(list: Seq<Seq<char>>) -> RowsView {
    Seq::new(list.len(), |i: int| seq![Cell::Text(list[i])])
}

/// The entries that point to an inode.
pub open spec fn links_to(db: Tables, ino: i64) -> Set<(i64, Seq<char>)> {
    db.entries.dom().filter(|k: (i64, Seq<char>)| db.entries[k] == ino)
}

/// The entries of a directory.
pub open spec fn children(db: Tables, ino: i64) -> Set<(i64, Seq<char>)> {
    db.entries.dom().filter(|k: (i64, Seq<char>)| k.0 == ino)
}

/// `list` holds the name of each entry of a directory once, in order.
pub open spec fn is_listing(db: Tables, ino: i64, list: Seq<Seq<char>>) -> bool {
    &&& text::increasing(list)
    &&& forall|name: Seq<char>| #[trigger]
        list.contains(name) <==> db.entries.contains_key((ino, name))
}

pub open spec fn listing(db: Tables, ino: i64) -> Seq<Seq<char>> {
    choose|list: Seq<Seq<char>>| is_listing(db, ino, list)
}

/// The rows with which the tables answer a statement.
pub open spec fn answer(db: Tables, q: RequestView) -> RowsView {
    match q {
        Request::Lookup { parent, name } => if db.entries.contains_key((parent, name)) {
            int_row(db.entries[(parent, name)])
        } else {
            no_rows()
        },
        Request::Inode { ino } => if db.inodes.contains_key(ino) {
            inode_row(ino, db.inodes[ino])
        } else {
            no_rows()
        },
        Request::Mode { ino } => if db.inodes.contains_key(ino) {
            int_row(db.inodes[ino].mode)
        } else {
            no_rows()
        },
        Request::InodeExists { ino } => if db.inodes.contains_key(ino) {
            int_row(ino)
        } else {
            no_rows()
        },
        Request::LinkCount { ino } => int_row(links_to(db, ino).len() as i64),
        Request::ChildCount { ino } => int_row(children(db, ino).len() as i64),
        Request::LastRowid => int_row(db.last),
        Request::SelectData { ino } => block_rows(blocks(db, ino)),
        Request::SelectNames { parent } => name_rows(listing(db, parent)),
        Request::SelectTarget { ino } => if db.targets.contains_key(ino) {
            seq![seq![Cell::Text(db.targets[ino])]]
        } else {
            no_rows()
        },
        _ => no_rows(),
    }
}

pub open spec fn new_row(mode: i64, size: i64, now: i64) -> InodeRow {
    InodeRow { mode, uid: 0, gid: 0, size, atime: now, mtime: now, ctime: now }
}

/// The tables once a statement has run.
pub open spec fn effect(db: Tables, q: RequestView) -> Tables {
    match q {
        Request::InsertInode { mode, size, now } => Tables {
            inodes: db.inodes.insert(db.next, new_row(mode, size, now)),
            next: (db.next + 1) as i64,
            last: db.next,
            ..db
        },
        Request::InsertRoot { mode, now } => Tables {
            inodes: db.inodes.insert(ROOT_INO, new_row(mode, 0, now)),
            next: if db.next <= ROOT_INO {
                (ROOT_INO + 1) as i64
            } else {
                db.next
            },
            last: ROOT_INO,
            ..db
        },
        Request::InsertEntry { name, parent, ino } => Tables {
            entries: db.entries.insert((parent, name), ino),
            ..db
        },
        Request::DeleteEntry { parent, name } => Tables {
            entries: db.entries.remove((parent, name)),
            ..db
        },
        Request::MoveEntry { new_parent, new_name, parent, name } => if db.entries.contains_key(
            (parent, name),
        ) {
            Tables {
                entries: db.entries.remove((parent, name)).insert(
                    (new_parent, new_name),
                    db.entries[(parent, name)],
                ),
                ..db
            }
        } else {
            db
        },
        Request::DeleteData { ino } => Tables { data: db.data.remove(ino), ..db },
        Request::DeleteTarget { ino } => Tables { targets: db.targets.remove(ino), ..db },
        Request::DeleteInode { ino } => Tables { inodes: db.inodes.remove(ino), ..db },
        Request::InsertData { ino, data, .. } => Tables {
            data: db.data.insert(ino, blocks(db, ino).push(data)),
            ..db
        },
        Request::InsertTarget { ino, target } => Tables {
            targets: db.targets.insert(ino, target),
            ..db
        },
        Request::UpdateSize { size, mtime, ino } => if db.inodes.contains_key(ino) {
            Tables {
                inodes: db.inodes.insert(ino, InodeRow { size, mtime, ..db.inodes[ino] }),
                ..db
            }
        } else {
            db
        },
        Request::UpdateCtime { ctime, ino } => if db.inodes.contains_key(ino) {
            Tables {
                inodes: db.inodes.insert(ino, InodeRow { ctime, ..db.inodes[ino] }),
                ..db
            }
        } else {
            db
        },
        _ => db,
    }
}

/// What a plan comes to: its result, and the tables as it leaves them.
pub open spec fn run<T>(p: FsPlan<T>, db: Tables) -> (T, Tables)
    decreases p,
{
    match p {
        Plan::Done(t) => (t, db),
        Plan::Ask(q, next) => run(next(answer(db, q)), effect(db, q)),
    }
}

/// The tables are in order: no number is in use that has not been given out,
/// no two entries point to the same inode and none to the root, and there are
/// finitely many entries.
pub open spec fn wf(db: Tables) -> bool {
    &&& single_links(db)
    &&& ROOT_INO < db.next < i64::MAX
    &&& forall|ino: i64| db.inodes.contains_key(ino) ==> ino < db.next
    &&& forall|ino: i64| db.data.contains_key(ino) ==> ino < db.next
    &&& forall|ino: i64| db.targets.contains_key(ino) ==> ino < db.next
    &&& forall|k: (i64, Seq<char>)| #[trigger]
        db.entries.contains_key(k) ==> k.0 < db.next && db.entries[k] < db.next
    &&& db.entries.dom().finite()
    &&& db.entries.dom().len() < i64::MAX
}

/// Every inode has one entry at most, and the root has none.
pub open spec fn single_links(db: Tables) -> bool {
    &&& forall|a: (i64, Seq<char>), b: (i64, Seq<char>)|
        #![trigger db.entries[a], db.entries[b]]
        db.entries.contains_key(a) && db.entries.contains_key(b) && db.entries[a] == db.entries[b]
            ==> a == b
    &&& forall|a: (i64, Seq<char>)| #[trigger]
        db.entries.contains_key(a) ==> db.entries[a] != ROOT_INO
}

/// Where a list of components leads from the directory `at`.
pub open spec fn walk(db: Tables, cs: Seq<Seq<char>>, at: i64) -> Option<i64>
    decreases cs.len(),
{
    if cs.len() == 0 {
        Some(at)
    } else if db.entries.contains_key((at, cs[0])) {
        walk(db, cs.drop_first(), db.entries[(at, cs[0])])
    } else {
        None
    }
}

/// The inode at a path.
pub open spec fn find(db: Tables, path: Seq<char>) -> Option<i64> {
    walk(db, paths::components(path), ROOT_INO)
}

/// The statistics of an inode.
pub open spec fn inode_stats(db: Tables, ino: i64) -> Stats {
    ops::stats_of(inode_row(ino, db.inodes[ino])[0], links_to(db, ino).len() as i64 as u32)
}

/// The target of the link at a path.
pub open spec fn target_at(db: Tables, path: Seq<char>) -> TargetView {
    match find(db, paths::normalized(path)) {
        None => Ok(None),
        Some(ino) => if !db.inodes.contains_key(ino) {
            Ok(None)
        } else if !types::link_mode(db.inodes[ino].mode as u32) {
            Err(ops::message("Not a symbolic link"@))
        } else if db.targets.contains_key(ino) {
            Ok(Some(db.targets[ino]))
        } else {
            Ok(None)
        },
    }
}

/// The statistics of what a path leads to, over `depth` links at most.
pub open spec fn stats_at(db: Tables, path: Seq<char>, depth: nat) -> StatsView
    decreases depth,
{
    if depth == 0 {
        Err(ops::message("Too many levels of symbolic links"@))
    } else {
        match find(db, path) {
            None => Ok(None),
            Some(ino) => if !db.inodes.contains_key(ino) {
                Ok(None)
            } else if types::link_mode(db.inodes[ino].mode as u32) {
                match target_at(db, path) {
                    Err(e) => Err(e),
                    Ok(None) => Err(ops::message("Symlink has no target"@)),
                    Ok(Some(t)) => stats_at(
                        db,
                        paths::link_destination(path, t),
                        (depth - 1) as nat,
                    ),
                }
            } else {
                Ok(Some(inode_stats(db, ino)))
            },
        }
    }
}

/// The tables without an inode and all it holds, where no entry points to it.
pub open spec fn reaped(db: Tables, ino: i64) -> Tables {
    if links_to(db, ino).len() as i64 as u32 == 0 {
        Tables {
            data: db.data.remove(ino),
            targets: db.targets.remove(ino),
            inodes: db.inodes.remove(ino),
            ..db
        }
    } else {
        db
    }
}

pub broadcast proof fn lemma_run_done<T>(t: T, db: Tables)
    ensures
        #[trigger] run(Plan::<RequestView, RowsView, T>::Done(t), db) == (t, db),
{
}

pub broadcast proof fn lemma_run_ask<T>(
    q: RequestView,
    next: spec_fn(RowsView) -> FsPlan<T>,
    db: Tables,
)
    ensures
        #[trigger] run(Plan::Ask(q, next), db) == run(next(answer(db, q)), effect(db, q)),
{
}

/// Looking components up is walking them.
pub broadcast proof fn lemma_run_resolve<T>(
    db: Tables,
    cs: Seq<Seq<char>>,
    at: i64,
    then: spec_fn(Option<i64>) -> FsPlan<T>,
)
    ensures
        #[trigger] run(ops::resolve_plan(cs, at, then), db) == run(then(walk(db, cs, at)), db),
    decreases cs.len(),
{
    broadcast use lemma_run_done, lemma_run_ask;

    if cs.len() > 0 {
        if db.entries.contains_key((at, cs[0])) {
            lemma_run_resolve(db, cs.drop_first(), db.entries[(at, cs[0])], then);
        }
    }
}

pub broadcast proof fn lemma_run_find<T>(
    db: Tables,
    path: Seq<char>,
    then: spec_fn(Option<i64>) -> FsPlan<T>,
)
    ensures
        #[trigger] run(ops::find_plan(path, then), db) == run(then(find(db, path)), db),
{
    broadcast use lemma_run_resolve;

}

pub broadcast proof fn lemma_run_readlink<T>(
    db: Tables,
    path: Seq<char>,
    then: spec_fn(TargetView) -> FsPlan<T>,
)
    ensures
        #[trigger] run(ops::readlink_then(path, then), db) == run(then(target_at(db, path)), db),
{
    broadcast use lemma_run_done, lemma_run_ask, lemma_run_find;

}

pub broadcast proof fn lemma_run_row_stats<T>(
    db: Tables,
    row: Seq<CellView>,
    then: spec_fn(Stats) -> FsPlan<T>,
)
    ensures
        #[trigger] run(ops::row_stats_plan(row, then), db) == run(
            then(
                ops::stats_of(row, links_to(db, store::int_cell(row, 0)).len() as i64 as u32),
            ),
            db,
        ),
{
    broadcast use lemma_run_ask;

}

#[verifier::rlimit(60)]
pub broadcast proof fn lemma_run_stat<T>(
    db: Tables,
    path: Seq<char>,
    depth: nat,
    then: spec_fn(StatsView) -> FsPlan<T>,
)
    ensures
        #[trigger] run(ops::stat_then(path, depth, then), db) == run(
            then(stats_at(db, path, depth)),
            db,
        ),
    decreases depth,
{
    broadcast use lemma_run_find, lemma_run_readlink, lemma_run_row_stats, lemma_run_ask;

    if depth > 0 {
        match find(db, path) {
            None => {},
            Some(ino) => {
                if db.inodes.contains_key(ino) {
                    let row = inode_row(ino, db.inodes[ino])[0];
                    assert(store::int_cell(row, 0) == ino);
                    assert(store::int_cell(row, 1) == db.inodes[ino].mode);
                    assert(answer(db, Request::Inode { ino })[0] == row);
                    assert(effect(db, Request::Inode { ino }) == db);
                    match target_at(db, path) {
                        Ok(Some(t)) => {
                            lemma_run_stat(
                                db,
                                paths::link_destination(path, t),
                                (depth - 1) as nat,
                                then,
                            );
                        },
                        _ => {},
                    }
                }
            },
        }
    }
}

pub broadcast proof fn lemma_run_reap<T>(
    db: Tables,
    ino: i64,
    then: spec_fn(()) -> FsPlan<T>,
)
    ensures
        #[trigger] run(ops::reap_plan(ino, then), db) == run(then(()), reaped(db, ino)),
{
    broadcast use lemma_run_done, lemma_run_ask;

}

pub broadcast group group_run {
    lemma_run_done,
    lemma_run_ask,
    lemma_run_find,
    lemma_run_readlink,
    lemma_run_stat,
    lemma_run_reap,
}

} // verus!
