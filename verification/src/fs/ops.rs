//! The operations of the file system, each as a plan of statements and as the
//! step function that carries it out.

use crate::fs::store;
use crate::fs::store::{CellView, DbRequest, Request, RequestView, Rows};
use crate::fs::types;
use crate::fs::types::{
    FsError, OpError, OpErrorView, Stats, DEFAULT_DIR_MODE, DEFAULT_FILE_MODE, MAX_SYMLINK_DEPTH,
    ROOT_INO, SYMLINK_MODE, S_IFLNK, S_IFMT,
};
use crate::paths;
use crate::plan;
use crate::plan::{Head, Plan, Replay, Step};
use crate::text;
use vstd::prelude::*;

verus! {

broadcast use crate::plan::group_after;

pub type RowsView = Seq<Seq<CellView>>;

pub type FsPlan<T> = Plan<RequestView, RowsView, T>;

pub type UnitView = Result<(), OpErrorView>;

pub type StatsView = Result<Option<Stats>, OpErrorView>;

pub type BytesView = Result<Option<Seq<u8>>, OpErrorView>;

pub type NamesView = Result<Option<Seq<Seq<char>>>, OpErrorView>;

pub type TargetView = Result<Option<Seq<char>>, OpErrorView>;

pub open spec fn message(m: Seq<char>) -> OpErrorView {
    OpErrorView::Message(m)
}

/// Looks the components up one after the other, from the directory `at` on.
pub open spec fn resolve_plan<T>(
    components: Seq<Seq<char>>,
    at: i64,
    then: spec_fn(Option<i64>) -> FsPlan<T>,
) -> FsPlan<T>
    decreases components.len(),
{
    if components.len() == 0 {
        then(Some(at))
    } else {
        Plan::Ask(
            Request::Lookup { parent: at, name: components[0] },
            |rows: RowsView|
                match store::first_int(rows) {
                    Some(ino) => resolve_plan(components.drop_first(), ino, then),
                    None => then(None),
                },
        )
    }
}

/// Looks a path up from the root.
pub open spec fn find_plan<T>(
    path: Seq<char>,
    then: spec_fn(Option<i64>) -> FsPlan<T>,
) -> FsPlan<T> {
    resolve_plan(paths::components(path), ROOT_INO, then)
}

/// The statistics in a row of the inode table, with a link count.
pub open spec fn stats_of(row: Seq<CellView>, nlink: u32) -> Stats {
    Stats {
        ino: store::int_cell(row, 0),
        mode: store::int_cell(row, 1) as u32,
        nlink,
        uid: store::int_cell(row, 2) as u32,
        gid: store::int_cell(row, 3) as u32,
        size: store::int_cell(row, 4),
        atime: store::int_cell(row, 5),
        mtime: store::int_cell(row, 6),
        ctime: store::int_cell(row, 7),
    }
}

/// Counts the links to the inode of a row, and goes on with its statistics.
pub open spec fn row_stats_plan<T>(
    row: Seq<CellView>,
    then: spec_fn(Stats) -> FsPlan<T>,
) -> FsPlan<T> {
    Plan::Ask(
        Request::LinkCount { ino: store::int_cell(row, 0) },
        |rows: RowsView| then(stats_of(row, store::count(rows) as u32)),
    )
}

/// Statistics of the entry itself, whatever it is.
pub open spec fn lstat_plan(path: Seq<char>) -> FsPlan<StatsView> {
    find_plan(
        paths::normalized(path),
        |found: Option<i64>|
            match found {
                None => Plan::Done(Ok(None)),
                Some(ino) => Plan::Ask(
                    Request::Inode { ino },
                    |rows: RowsView|
                        if rows.len() == 0 {
                            Plan::Done(Ok(None))
                        } else {
                            row_stats_plan(rows[0], |s: Stats| Plan::Done(Ok(Some(s))))
                        },
                ),
            },
    )
}

/// The target of a link.
pub open spec fn readlink_then<T>(
    path: Seq<char>,
    then: spec_fn(TargetView) -> FsPlan<T>,
) -> FsPlan<T> {
    find_plan(
        paths::normalized(path),
        |found: Option<i64>|
            match found {
                None => then(Ok(None)),
                Some(ino) => Plan::Ask(
                    Request::Mode { ino },
                    |rows: RowsView|
                        if rows.len() == 0 {
                            then(Ok(None))
                        } else if !types::link_mode(store::int_cell(rows[0], 0) as u32) {
                            then(Err(message("Not a symbolic link"@)))
                        } else {
                            Plan::Ask(
                                Request::SelectTarget { ino },
                                |rows: RowsView|
                                    if rows.len() == 0 {
                                        then(Ok(None))
                                    } else {
                                        match store::first_text(rows) {
                                            Some(target) => then(Ok(Some(target))),
                                            None => then(
                                                Err(message("Invalid symlink target"@)),
                                            ),
                                        }
                                    },
                            )
                        },
                ),
            },
    )
}

pub open spec fn readlink_plan(path: Seq<char>) -> FsPlan<TargetView> {
    readlink_then(path, |r: TargetView| Plan::Done(r))
}

/// Statistics of what an entry leads to: links are followed, `depth` of them at
/// most.
pub open spec fn stat_then<T>(
    path: Seq<char>,
    depth: nat,
    then: spec_fn(StatsView) -> FsPlan<T>,
) -> FsPlan<T>
    decreases depth,
{
    if depth == 0 {
        then(Err(message("Too many levels of symbolic links"@)))
    } else {
        find_plan(
            path,
            |found: Option<i64>|
                match found {
                    None => then(Ok(None)),
                    Some(ino) => Plan::Ask(
                        Request::Inode { ino },
                        |rows: RowsView|
                            if rows.len() == 0 {
                                then(Ok(None))
                            } else if types::link_mode(store::int_cell(rows[0], 1) as u32) {
                                readlink_then(
                                    path,
                                    |target: TargetView|
                                        match target {
                                            Err(e) => then(Err(e)),
                                            Ok(None) => then(
                                                Err(message("Symlink has no target"@)),
                                            ),
                                            Ok(Some(t)) => stat_then(
                                                paths::link_destination(path, t),
                                                (depth - 1) as nat,
                                                then,
                                            ),
                                        },
                                )
                            } else {
                                row_stats_plan(rows[0], |s: Stats| then(Ok(Some(s))))
                            },
                    ),
                },
        )
    }
}

pub open spec fn stat_plan(path: Seq<char>) -> FsPlan<StatsView> {
    stat_then(
        paths::normalized(path),
        MAX_SYMLINK_DEPTH as nat,
        |r: StatsView| Plan::Done(r),
    )
}

/// Adds an inode and the entry that points to it.
pub open spec fn create_plan<T>(
    name: Seq<char>,
    parent: i64,
    mode: u32,
    size: i64,
    now: i64,
    then: spec_fn(Result<i64, OpErrorView>) -> FsPlan<T>,
) -> FsPlan<T> {
    Plan::Ask(
        Request::InsertInode { mode: mode as i64, size, now },
        |_inserted: RowsView|
            Plan::Ask(
                Request::LastRowid,
                |rows: RowsView|
                    match store::strict_int(rows) {
                        None => then(Err(message("Failed to get inode"@))),
                        Some(ino) => Plan::Ask(
                            Request::InsertEntry { name, parent, ino },
                            |_done: RowsView| then(Ok(ino)),
                        ),
                    },
            ),
    )
}

/// Creates a directory: its parent has to be there, and itself not.
pub open spec fn mkdir_plan(path: Seq<char>, now: i64) -> FsPlan<UnitView> {
    let p = paths::normalized(path);
    let cs = paths::components(p);
    if cs.len() == 0 {
        Plan::Done(Err(message("Cannot create root directory"@)))
    } else {
        find_plan(
            paths::parent_string(cs),
            |parent: Option<i64>|
                match parent {
                    None => Plan::Done(Err(message("Parent directory does not exist"@))),
                    Some(dir) => find_plan(
                        p,
                        |found: Option<i64>|
                            match found {
                                Some(_) => Plan::Done(Err(message("Directory already exists"@))),
                                None => create_plan(
                                    cs.last(),
                                    dir,
                                    DEFAULT_DIR_MODE,
                                    0,
                                    now,
                                    |created: Result<i64, OpErrorView>|
                                        match created {
                                            Ok(_) => Plan::Done(Ok(())),
                                            Err(e) => Plan::Done(Err(e)),
                                        },
                                ),
                            },
                    ),
                },
        )
    }
}

/// Puts the contents of a file down, once its inode is there.
pub open spec fn fill_plan(ino: i64, data: Seq<u8>, now: i64) -> FsPlan<UnitView> {
    let update = Plan::Ask(
        Request::UpdateSize { size: data.len() as i64, mtime: now, ino },
        |_updated: RowsView| Plan::Done(Ok(())),
    );
    if data.len() > 0 {
        Plan::Ask(
            Request::InsertData { ino, size: data.len() as i64, data },
            |_inserted: RowsView| update,
        )
    } else {
        update
    }
}

/// Writes a file: an existing one gets new contents, any other is created.
pub open spec fn write_file_plan(path: Seq<char>, data: Seq<u8>, now: i64) -> FsPlan<UnitView> {
    let p = paths::normalized(path);
    let cs = paths::components(p);
    if cs.len() == 0 {
        Plan::Done(Err(message("Cannot write to root directory"@)))
    } else {
        find_plan(
            paths::parent_string(cs),
            |parent: Option<i64>|
                match parent {
                    None => Plan::Done(Err(message("Parent directory does not exist"@))),
                    Some(dir) => find_plan(
                        p,
                        |found: Option<i64>|
                            match found {
                                Some(ino) => Plan::Ask(
                                    Request::DeleteData { ino },
                                    |_deleted: RowsView| fill_plan(ino, data, now),
                                ),
                                None => create_plan(
                                    cs.last(),
                                    dir,
                                    DEFAULT_FILE_MODE,
                                    data.len() as i64,
                                    now,
                                    |created: Result<i64, OpErrorView>|
                                        match created {
                                            Ok(ino) => fill_plan(ino, data, now),
                                            Err(e) => Plan::Done(Err(e)),
                                        },
                                ),
                            },
                    ),
                },
        )
    }
}

/// Reads a file.
pub open spec fn read_file_plan(path: Seq<char>) -> FsPlan<BytesView> {
    find_plan(
        path,
        |found: Option<i64>|
            match found {
                None => Plan::Done(Ok(None)),
                Some(ino) => Plan::Ask(
                    Request::SelectData { ino },
                    |rows: RowsView| Plan::Done(Ok(Some(store::blobs(rows)))),
                ),
            },
    )
}

/// Lists a directory.
pub open spec fn readdir_plan(path: Seq<char>) -> FsPlan<NamesView> {
    find_plan(
        path,
        |found: Option<i64>|
            match found {
                None => Plan::Done(Ok(None)),
                Some(ino) => Plan::Ask(
                    Request::SelectNames { parent: ino },
                    |rows: RowsView| Plan::Done(Ok(Some(store::names(rows)))),
                ),
            },
    )
}

/// Creates a symbolic link: its parent has to be there, and itself not.
pub open spec fn symlink_plan(target: Seq<char>, path: Seq<char>, now: i64) -> FsPlan<UnitView> {
    let p = paths::normalized(path);
    let cs = paths::components(p);
    if cs.len() == 0 {
        Plan::Done(Err(message("Cannot create symlink at root"@)))
    } else {
        find_plan(
            paths::parent_string(cs),
            |parent: Option<i64>|
                match parent {
                    None => Plan::Done(Err(message("Parent directory does not exist"@))),
                    Some(dir) => find_plan(
                        p,
                        |found: Option<i64>|
                            match found {
                                Some(_) => Plan::Done(Err(message("Path already exists"@))),
                                None => Plan::Ask(
                                    Request::InsertInode {
                                        mode: SYMLINK_MODE as i64,
                                        size: text::utf8_len(target) as i64,
                                        now,
                                    },
                                    |_inserted: RowsView|
                                        Plan::Ask(
                                            Request::LastRowid,
                                            |rows: RowsView|
                                                match store::first_int(rows) {
                                                    None => Plan::Done(
                                                        Err(message("Failed to get new inode"@)),
                                                    ),
                                                    Some(ino) => Plan::Ask(
                                                        Request::InsertTarget { ino, target },
                                                        |_stored: RowsView|
                                                            Plan::Ask(
                                                                Request::InsertEntry {
                                                                    name: cs.last(),
                                                                    parent: dir,
                                                                    ino,
                                                                },
                                                                |_done: RowsView|
                                                                    Plan::Done(Ok(())),
                                                            ),
                                                    ),
                                                },
                                        ),
                                ),
                            },
                    ),
                },
        )
    }
}

/// Removes an inode that no entry points to any more, with all it holds.
pub open spec fn reap_plan<T>(ino: i64, then: spec_fn(()) -> FsPlan<T>) -> FsPlan<T> {
    Plan::Ask(
        Request::LinkCount { ino },
        |rows: RowsView|
            if store::count(rows) as u32 == 0 {
                Plan::Ask(
                    Request::DeleteData { ino },
                    |_data: RowsView|
                        Plan::Ask(
                            Request::DeleteTarget { ino },
                            |_target: RowsView|
                                Plan::Ask(
                                    Request::DeleteInode { ino },
                                    |_inode: RowsView| then(()),
                                ),
                        ),
                )
            } else {
                then(())
            },
    )
}

/// Removes a file, a link or an empty directory.
pub open spec fn remove_plan(path: Seq<char>) -> FsPlan<UnitView> {
    let p = paths::normalized(path);
    let cs = paths::components(p);
    if cs.len() == 0 {
        Plan::Done(Err(message("Cannot remove root directory"@)))
    } else {
        find_plan(
            p,
            |found: Option<i64>|
                match found {
                    None => Plan::Done(Err(message("Path does not exist"@))),
                    Some(ino) => if ino == ROOT_INO {
                        Plan::Done(Err(message("Cannot remove root directory"@)))
                    } else {
                        Plan::Ask(
                            Request::ChildCount { ino },
                            |rows: RowsView|
                                if store::count(rows) > 0 {
                                    Plan::Done(Err(message("Directory not empty"@)))
                                } else {
                                    find_plan(
                                        paths::parent_string(cs),
                                        |parent: Option<i64>|
                                            match parent {
                                                None => Plan::Done(
                                                    Err(
                                                        message(
                                                            "Parent directory does not exist"@,
                                                        ),
                                                    ),
                                                ),
                                                Some(dir) => Plan::Ask(
                                                    Request::DeleteEntry {
                                                        parent: dir,
                                                        name: cs.last(),
                                                    },
                                                    |_deleted: RowsView|
                                                        reap_plan(ino, |_u: ()| Plan::Done(Ok(()))),
                                                ),
                                            },
                                    )
                                },
                        )
                    },
                },
        )
    }
}

/// Whether a rename would put a directory at itself or below itself.
pub open spec fn into_itself(from: Seq<char>, to: Seq<char>) -> bool {
    text::begins(to, from + "/"@) || to == from
}

/// Points the entry of the source at its new place.
pub open spec fn move_plan(
    src_ino: i64,
    src_dir: i64,
    src_name: Seq<char>,
    dst_dir: i64,
    dst_name: Seq<char>,
    now: i64,
) -> FsPlan<UnitView> {
    Plan::Ask(
        Request::MoveEntry {
            new_parent: dst_dir,
            new_name: dst_name,
            parent: src_dir,
            name: src_name,
        },
        |_moved: RowsView|
            Plan::Ask(
                Request::UpdateCtime { ctime: now, ino: src_ino },
                |_updated: RowsView| Plan::Done(Ok(())),
            ),
    )
}

/// Takes what stands at the destination away, where the source may replace it:
/// a directory only an empty directory, anything else only something else than
/// a directory.
pub open spec fn replace_plan(
    to: Seq<char>,
    dst_ino: i64,
    dst_dir: i64,
    dst_name: Seq<char>,
    src: Stats,
    then: spec_fn(()) -> FsPlan<UnitView>,
) -> FsPlan<UnitView> {
    let clear = Plan::Ask(
        Request::DeleteEntry { parent: dst_dir, name: dst_name },
        |_deleted: RowsView| reap_plan(dst_ino, then),
    );
    stat_then(
        paths::normalized(to),
        MAX_SYMLINK_DEPTH as nat,
        |stats: StatsView|
            match stats {
                Err(e) => Plan::Done(Err(e)),
                Ok(None) => Plan::Done(Err(OpErrorView::Fs(FsError::NotFound))),
                Ok(Some(dst)) => if types::dir_mode(dst.mode) && !types::dir_mode(src.mode) {
                    Plan::Done(Err(OpErrorView::Fs(FsError::IsADirectory)))
                } else if !types::dir_mode(dst.mode) && types::dir_mode(src.mode) {
                    Plan::Done(Err(OpErrorView::Fs(FsError::NotADirectory)))
                } else if types::dir_mode(dst.mode) {
                    Plan::Ask(
                        Request::ChildCount { ino: dst_ino },
                        |rows: RowsView|
                            if store::count(rows) > 0 {
                                Plan::Done(Err(OpErrorView::Fs(FsError::NotEmpty)))
                            } else {
                                clear
                            },
                    )
                } else {
                    clear
                },
            },
    )
}

/// The second half of a rename, once the source is known.
pub open spec fn rename_to_plan(
    from: Seq<char>,
    to: Seq<char>,
    src_ino: i64,
    src: Stats,
    now: i64,
) -> FsPlan<UnitView> {
    let from_cs = paths::components(from);
    let to_cs = paths::components(to);
    if types::dir_mode(src.mode) && into_itself(from, to) {
        Plan::Done(Err(OpErrorView::Fs(FsError::InvalidRename)))
    } else if from_cs.len() == 0 {
        Plan::Done(Err(OpErrorView::Fs(FsError::InvalidPath)))
    } else {
        find_plan(
            paths::parent_string(from_cs),
            |src_parent: Option<i64>|
                match src_parent {
                    None => Plan::Done(Err(OpErrorView::Fs(FsError::NotFound))),
                    Some(src_dir) => if to_cs.len() == 0 {
                        Plan::Done(Err(OpErrorView::Fs(FsError::RootOperation)))
                    } else {
                        find_plan(
                            paths::parent_string(to_cs),
                            |dst_parent: Option<i64>|
                                match dst_parent {
                                    None => Plan::Done(Err(OpErrorView::Fs(FsError::NotFound))),
                                    Some(dst_dir) => find_plan(
                                        to,
                                        |found: Option<i64>|
                                            match found {
                                                None => move_plan(
                                                    src_ino,
                                                    src_dir,
                                                    from_cs.last(),
                                                    dst_dir,
                                                    to_cs.last(),
                                                    now,
                                                ),
                                                Some(dst_ino) => replace_plan(
                                                    to,
                                                    dst_ino,
                                                    dst_dir,
                                                    to_cs.last(),
                                                    src,
                                                    |_u: ()|
                                                        move_plan(
                                                            src_ino,
                                                            src_dir,
                                                            from_cs.last(),
                                                            dst_dir,
                                                            to_cs.last(),
                                                            now,
                                                        ),
                                                ),
                                            },
                                    ),
                                },
                        )
                    },
                },
        )
    }
}

/// Renames or moves an entry.
pub open spec fn rename_plan(from: Seq<char>, to: Seq<char>, now: i64) -> FsPlan<UnitView> {
    let f = paths::normalized(from);
    let t = paths::normalized(to);
    if f == "/"@ {
        Plan::Done(Err(OpErrorView::Fs(FsError::RootOperation)))
    } else {
        find_plan(
            f,
            |found: Option<i64>|
                match found {
                    None => Plan::Done(Err(OpErrorView::Fs(FsError::NotFound))),
                    Some(src_ino) => stat_then(
                        paths::normalized(f),
                        MAX_SYMLINK_DEPTH as nat,
                        |stats: StatsView|
                            match stats {
                                Err(e) => Plan::Done(Err(e)),
                                Ok(None) => Plan::Done(Err(OpErrorView::Fs(FsError::NotFound))),
                                Ok(Some(src)) => rename_to_plan(f, t, src_ino, src, now),
                            },
                    ),
                },
        )
    }
}

/// Makes sure that the root directory is there.
pub open spec fn ensure_root_plan(now: i64) -> FsPlan<UnitView> {
    Plan::Ask(
        Request::InodeExists { ino: ROOT_INO },
        |rows: RowsView|
            if rows.len() == 0 {
                Plan::Ask(
                    Request::InsertRoot { mode: DEFAULT_DIR_MODE as i64, now },
                    |_inserted: RowsView| Plan::Done(Ok(())),
                )
            } else {
                Plan::Done(Ok(()))
            },
    )
}

pub open spec fn unit_result(r: Result<(), OpError>) -> UnitView {
    match r {
        Ok(()) => Ok(()),
        Err(e) => Err(e@),
    }
}

pub open spec fn stats_result(r: Result<Option<Stats>, OpError>) -> StatsView {
    match r {
        Ok(s) => Ok(s),
        Err(e) => Err(e@),
    }
}

pub open spec fn bytes_result(r: Result<Option<Vec<u8>>, OpError>) -> BytesView {
    match r {
        Ok(Some(b)) => Ok(Some(b@)),
        Ok(None) => Ok(None),
        Err(e) => Err(e@),
    }
}

pub open spec fn names_result(r: Result<Option<Vec<String>>, OpError>) -> NamesView {
    match r {
        Ok(Some(n)) => Ok(Some(text::views(n@))),
        Ok(None) => Ok(None),
        Err(e) => Err(e@),
    }
}

pub open spec fn target_result(r: Result<Option<String>, OpError>) -> TargetView {
    match r {
        Ok(t) => Ok(text::opt(t)),
        Err(e) => Err(e@),
    }
}

pub open spec fn unit_step(s: Step<DbRequest, Result<(), OpError>>) -> Head<RequestView, UnitView> {
    match s {
        Step::Ask(q) => Head::Ask(q@),
        Step::Done(r) => Head::Done(unit_result(r)),
    }
}

pub open spec fn stats_step(s: Step<DbRequest, Result<Option<Stats>, OpError>>) -> Head<
    RequestView,
    StatsView,
> {
    match s {
        Step::Ask(q) => Head::Ask(q@),
        Step::Done(r) => Head::Done(stats_result(r)),
    }
}

pub open spec fn bytes_step(s: Step<DbRequest, Result<Option<Vec<u8>>, OpError>>) -> Head<
    RequestView,
    BytesView,
> {
    match s {
        Step::Ask(q) => Head::Ask(q@),
        Step::Done(r) => Head::Done(bytes_result(r)),
    }
}

pub open spec fn names_step(s: Step<DbRequest, Result<Option<Vec<String>>, OpError>>) -> Head<
    RequestView,
    NamesView,
> {
    match s {
        Step::Ask(q) => Head::Ask(q@),
        Step::Done(r) => Head::Done(names_result(r)),
    }
}

pub open spec fn target_step(s: Step<DbRequest, Result<Option<String>, OpError>>) -> Head<
    RequestView,
    TargetView,
> {
    match s {
        Step::Ask(q) => Head::Ask(q@),
        Step::Done(r) => Head::Done(target_result(r)),
    }
}

fn resolve_steps<T>(rp: &mut Replay<Rows>, path: &str) -> (r: Result<Option<i64>, DbRequest>)
    requires
        old(rp).ok(),
    ensures
        final(rp).ok(),
        forall|then: spec_fn(Option<i64>) -> FsPlan<T>|
            match r {
                Ok(found) => plan::after(
                    #[trigger] find_plan::<T>(path@, then),
                    old(rp).rest(),
                ) == plan::after(then(found), final(rp).rest()),
                Err(q) => plan::next(find_plan::<T>(path@, then), old(rp).rest()) == Head::<
                    RequestView,
                    T,
                >::Ask(q@),
            },
{
    let cs = paths::split_path(path);
    let ghost all = text::views(cs@);
    let mut at: i64 = ROOT_INO;
    let mut i: usize = 0;
    assert(all.skip(0) =~= all);
    while i < cs.len()
        invariant
            i <= cs@.len(),
            rp.ok(),
            all == text::views(cs@),
            all == paths::components(path@),
            forall|then: spec_fn(Option<i64>) -> FsPlan<T>|
                plan::after(#[trigger] find_plan::<T>(path@, then), old(rp).rest())
                    == plan::after(resolve_plan::<T>(all.skip(i as int), at, then), rp.rest()),
        decreases cs@.len() - i,
    {
        let ghost left = all.skip(i as int);
        assert(left[0] == cs@[i as int]@);
        assert(left.drop_first() =~= all.skip(i + 1));
        let ghost before = rp.rest();
        let ghost was = at;
        match rp.next() {
            None => {
                return Err(Request::Lookup { parent: at, name: cs[i].clone() });
            },
            Some(rows) => {
                match rows.first_int() {
                    Some(ino) => {
                        at = ino;
                    },
                    None => {
                        return Ok(None);
                    },
                }
            },
        }
        i = i + 1;
    }
    Ok(Some(at))
}

fn row_stats_steps<T>(rp: &mut Replay<Rows>, rows: &Rows) -> (r: Result<Stats, DbRequest>)
    requires
        old(rp).ok(),
        rows@.len() > 0,
    ensures
        final(rp).ok(),
        forall|then: spec_fn(Stats) -> FsPlan<T>|
            match r {
                Ok(stats) => plan::after(
                    #[trigger] row_stats_plan::<T>(rows@[0], then),
                    old(rp).rest(),
                ) == plan::after(then(stats), final(rp).rest()),
                Err(q) => plan::next(row_stats_plan::<T>(rows@[0], then), old(rp).rest())
                    == Head::<RequestView, T>::Ask(q@),
            },
{
    let ino: i64 = rows.int_at(0);
    match rp.next() {
        None => Err(Request::LinkCount { ino }),
        Some(counted) => Ok(
            Stats {
                ino,
                mode: rows.int_at(1) as u32,
                nlink: counted.count() as u32,
                uid: rows.int_at(2) as u32,
                gid: rows.int_at(3) as u32,
                size: rows.int_at(4),
                atime: rows.int_at(5),
                mtime: rows.int_at(6),
                ctime: rows.int_at(7),
            },
        ),
    }
}

fn readlink_steps<T>(rp: &mut Replay<Rows>, path: &str) -> (r: Result<
    Result<Option<String>, OpError>,
    DbRequest,
>)
    requires
        old(rp).ok(),
    ensures
        final(rp).ok(),
        forall|then: spec_fn(TargetView) -> FsPlan<T>|
            match r {
                Ok(target) => plan::after(
                    #[trigger] readlink_then::<T>(path@, then),
                    old(rp).rest(),
                ) == plan::after(then(target_result(target)), final(rp).rest()),
                Err(q) => plan::next(readlink_then::<T>(path@, then), old(rp).rest()) == Head::<
                    RequestView,
                    T,
                >::Ask(q@),
            },
{
    let p = paths::normalize_path(path);
    let ino = match resolve_steps::<T>(rp, p.as_str()) {
        Err(q) => {
            return Err(q);
        },
        Ok(None) => {
            return Ok(Ok(None));
        },
        Ok(Some(ino)) => ino,
    };
    let modes = match rp.next() {
        None => {
            return Err(Request::Mode { ino });
        },
        Some(rows) => rows,
    };
    if modes.is_empty() {
        return Ok(Ok(None));
    }
    let mode: u32 = modes.int_at(0) as u32;
    if (mode & S_IFMT) != S_IFLNK {
        return Ok(Err(OpError::Message("Not a symbolic link")));
    }
    let targets = match rp.next() {
        None => {
            return Err(Request::SelectTarget { ino });
        },
        Some(rows) => rows,
    };
    if targets.is_empty() {
        return Ok(Ok(None));
    }
    match targets.first_text() {
        Some(t) => Ok(Ok(Some(t))),
        None => Ok(Err(OpError::Message("Invalid symlink target"))),
    }
}

fn stat_steps<T>(rp: &mut Replay<Rows>, path: &str) -> (r: Result<
    Result<Option<Stats>, OpError>,
    DbRequest,
>)
    requires
        old(rp).ok(),
    ensures
        final(rp).ok(),
        forall|then: spec_fn(StatsView) -> FsPlan<T>|
            match r {
                Ok(stats) => plan::after(
                    #[trigger] stat_then::<T>(
                        paths::normalized(path@),
                        MAX_SYMLINK_DEPTH as nat,
                        then,
                    ),
                    old(rp).rest(),
                ) == plan::after(then(stats_result(stats)), final(rp).rest()),
                Err(q) => plan::next(
                    stat_then::<T>(paths::normalized(path@), MAX_SYMLINK_DEPTH as nat, then),
                    old(rp).rest(),
                ) == Head::<RequestView, T>::Ask(q@),
            },
{
    let mut current = paths::normalize_path(path);
    let mut depth: usize = MAX_SYMLINK_DEPTH;
    while depth > 0
        invariant
            rp.ok(),
            forall|then: spec_fn(StatsView) -> FsPlan<T>|
                plan::after(
                    #[trigger] stat_then::<T>(
                        paths::normalized(path@),
                        MAX_SYMLINK_DEPTH as nat,
                        then,
                    ),
                    old(rp).rest(),
                ) == plan::after(stat_then::<T>(current@, depth as nat, then), rp.rest()),
        decreases depth,
    {
        let ino = match resolve_steps::<T>(rp, current.as_str()) {
            Err(q) => {
                return Err(q);
            },
            Ok(None) => {
                return Ok(Ok(None));
            },
            Ok(Some(ino)) => ino,
        };
        let rows = match rp.next() {
            None => {
                return Err(Request::Inode { ino });
            },
            Some(rows) => rows,
        };
        if rows.is_empty() {
            return Ok(Ok(None));
        }
        let mode: u32 = rows.int_at(1) as u32;
        if (mode & S_IFMT) == S_IFLNK {
            let target = match readlink_steps::<T>(rp, current.as_str()) {
                Err(q) => {
                    return Err(q);
                },
                Ok(Err(e)) => {
                    return Ok(Err(e));
                },
                Ok(Ok(None)) => {
                    return Ok(Err(OpError::Message("Symlink has no target")));
                },
                Ok(Ok(Some(t))) => t,
            };
            current = paths::follow_link(current.as_str(), target.as_str());
            depth = depth - 1;
        } else {
            return match row_stats_steps::<T>(rp, rows) {
                Err(q) => Err(q),
                Ok(stats) => Ok(Ok(Some(stats))),
            };
        }
    }
    Ok(Err(OpError::Message("Too many levels of symbolic links")))
}

fn create_steps<T>(
    rp: &mut Replay<Rows>,
    name: &str,
    parent: i64,
    mode: u32,
    size: i64,
    now: i64,
) -> (r: Result<Result<i64, OpError>, DbRequest>)
    requires
        old(rp).ok(),
    ensures
        final(rp).ok(),
        forall|then: spec_fn(Result<i64, OpErrorView>) -> FsPlan<T>|
            match r {
                Ok(created) => plan::after(
                    #[trigger] create_plan::<T>(name@, parent, mode, size, now, then),
                    old(rp).rest(),
                ) == plan::after(
                    then(
                        match created {
                            Ok(ino) => Ok(ino),
                            Err(e) => Err(e@),
                        },
                    ),
                    final(rp).rest(),
                ),
                Err(q) => plan::next(
                    create_plan::<T>(name@, parent, mode, size, now, then),
                    old(rp).rest(),
                ) == Head::<RequestView, T>::Ask(q@),
            },
{
    if rp.next().is_none() {
        return Err(Request::InsertInode { mode: mode as i64, size, now });
    }
    let rows = match rp.next() {
        None => {
            return Err(Request::LastRowid);
        },
        Some(rows) => rows,
    };
    let ino = match rows.strict_int() {
        None => {
            return Ok(Err(OpError::Message("Failed to get inode")));
        },
        Some(ino) => ino,
    };
    if rp.next().is_none() {
        return Err(Request::InsertEntry { name: name.to_owned(), parent, ino });
    }
    Ok(Ok(ino))
}

fn copy_bytes(data: &[u8]) -> (r: Vec<u8>)
    ensures
        r@ == data@,
{
    let mut out: Vec<u8> = Vec::new();
    out.extend_from_slice(data);
    assert(out@ =~= data@);
    out
}

fn fill_steps(rp: &mut Replay<Rows>, ino: i64, data: &[u8], now: i64) -> (r: Step<
    DbRequest,
    Result<(), OpError>,
>)
    requires
        old(rp).ok(),
    ensures
        unit_step(r) == plan::next(fill_plan(ino, data@, now), old(rp).rest()),
{
    let size: i64 = data.len() as i64;
    if data.len() > 0 {
        if rp.next().is_none() {
            return Step::Ask(Request::InsertData { ino, size, data: copy_bytes(data) });
        }
    }
    if rp.next().is_none() {
        return Step::Ask(Request::UpdateSize { size, mtime: now, ino });
    }
    Step::Done(Ok(()))
}

fn reap_steps<T>(rp: &mut Replay<Rows>, ino: i64) -> (r: Result<(), DbRequest>)
    requires
        old(rp).ok(),
    ensures
        final(rp).ok(),
        forall|then: spec_fn(()) -> FsPlan<T>|
            match r {
                Ok(()) => plan::after(#[trigger] reap_plan::<T>(ino, then), old(rp).rest())
                    == plan::after(then(()), final(rp).rest()),
                Err(q) => plan::next(reap_plan::<T>(ino, then), old(rp).rest()) == Head::<
                    RequestView,
                    T,
                >::Ask(q@),
            },
{
    let rows = match rp.next() {
        None => {
            return Err(Request::LinkCount { ino });
        },
        Some(rows) => rows,
    };
    let links: u32 = rows.count() as u32;
    if links == 0 {
        if rp.next().is_none() {
            return Err(Request::DeleteData { ino });
        }
        if rp.next().is_none() {
            return Err(Request::DeleteTarget { ino });
        }
        if rp.next().is_none() {
            return Err(Request::DeleteInode { ino });
        }
    }
    Ok(())
}

fn move_steps(
    rp: &mut Replay<Rows>,
    src_ino: i64,
    src_dir: i64,
    src_name: &str,
    dst_dir: i64,
    dst_name: &str,
    now: i64,
) -> (r: Step<DbRequest, Result<(), OpError>>)
    requires
        old(rp).ok(),
    ensures
        unit_step(r) == plan::next(
            move_plan(src_ino, src_dir, src_name@, dst_dir, dst_name@, now),
            old(rp).rest(),
        ),
{
    if rp.next().is_none() {
        return Step::Ask(
            Request::MoveEntry {
                new_parent: dst_dir,
                new_name: dst_name.to_owned(),
                parent: src_dir,
                name: src_name.to_owned(),
            },
        );
    }
    if rp.next().is_none() {
        return Step::Ask(Request::UpdateCtime { ctime: now, ino: src_ino });
    }
    Step::Done(Ok(()))
}

fn replace_steps(
    rp: &mut Replay<Rows>,
    to: &str,
    dst_ino: i64,
    dst_dir: i64,
    dst_name: &str,
    src: &Stats,
) -> (r: Result<(), Step<DbRequest, Result<(), OpError>>>)
    requires
        old(rp).ok(),
    ensures
        final(rp).ok(),
        forall|then: spec_fn(()) -> FsPlan<UnitView>|
            match r {
                Ok(()) => plan::after(
                    #[trigger] replace_plan(to@, dst_ino, dst_dir, dst_name@, *src, then),
                    old(rp).rest(),
                ) == plan::after(then(()), final(rp).rest()),
                Err(step) => plan::next(
                    replace_plan(to@, dst_ino, dst_dir, dst_name@, *src, then),
                    old(rp).rest(),
                ) == unit_step(step),
            },
{
    let dst = match stat_steps::<UnitView>(rp, to) {
        Err(q) => {
            return Err(Step::Ask(q));
        },
        Ok(Err(e)) => {
            return Err(Step::Done(Err(e)));
        },
        Ok(Ok(None)) => {
            return Err(Step::Done(Err(OpError::Fs(FsError::NotFound))));
        },
        Ok(Ok(Some(dst))) => dst,
    };
    if dst.is_directory() && !src.is_directory() {
        return Err(Step::Done(Err(OpError::Fs(FsError::IsADirectory))));
    }
    if !dst.is_directory() && src.is_directory() {
        return Err(Step::Done(Err(OpError::Fs(FsError::NotADirectory))));
    }
    if dst.is_directory() {
        let children = match rp.next() {
            None => {
                return Err(Step::Ask(Request::ChildCount { ino: dst_ino }));
            },
            Some(rows) => rows,
        };
        if children.count() > 0 {
            return Err(Step::Done(Err(OpError::Fs(FsError::NotEmpty))));
        }
    }
    if rp.next().is_none() {
        return Err(
            Step::Ask(Request::DeleteEntry { parent: dst_dir, name: dst_name.to_owned() }),
        );
    }
    match reap_steps::<UnitView>(rp, dst_ino) {
        Err(q) => Err(Step::Ask(q)),
        Ok(()) => Ok(()),
    }
}

fn rename_to_steps(
    rp: &mut Replay<Rows>,
    from: &str,
    to: &str,
    src_ino: i64,
    src: &Stats,
    now: i64,
) -> (r: Step<DbRequest, Result<(), OpError>>)
    requires
        old(rp).ok(),
    ensures
        unit_step(r) == plan::next(
            rename_to_plan(from@, to@, src_ino, *src, now),
            old(rp).rest(),
        ),
{
    if src.is_directory() {
        let prefix = text::concat(from, "/");
        if text::starts_with(to, prefix.as_str()) || text::same(to, from) {
            return Step::Done(Err(OpError::Fs(FsError::InvalidRename)));
        }
    }
    let from_cs = paths::split_path(from);
    if from_cs.len() == 0 {
        return Step::Done(Err(OpError::Fs(FsError::InvalidPath)));
    }
    let src_name = from_cs[from_cs.len() - 1].as_str();
    assert(text::views(from_cs@).last() == src_name@);
    let src_dir = match resolve_steps::<UnitView>(rp, paths::parent_of(&from_cs).as_str()) {
        Err(q) => {
            return Step::Ask(q);
        },
        Ok(None) => {
            return Step::Done(Err(OpError::Fs(FsError::NotFound)));
        },
        Ok(Some(dir)) => dir,
    };
    let to_cs = paths::split_path(to);
    if to_cs.len() == 0 {
        return Step::Done(Err(OpError::Fs(FsError::RootOperation)));
    }
    let dst_name = to_cs[to_cs.len() - 1].as_str();
    assert(text::views(to_cs@).last() == dst_name@);
    let dst_dir = match resolve_steps::<UnitView>(rp, paths::parent_of(&to_cs).as_str()) {
        Err(q) => {
            return Step::Ask(q);
        },
        Ok(None) => {
            return Step::Done(Err(OpError::Fs(FsError::NotFound)));
        },
        Ok(Some(dir)) => dir,
    };
    match resolve_steps::<UnitView>(rp, to) {
        Err(q) => {
            return Step::Ask(q);
        },
        Ok(None) => {},
        Ok(Some(dst_ino)) => {
            match replace_steps(rp, to, dst_ino, dst_dir, dst_name, src) {
                Err(step) => {
                    return step;
                },
                Ok(()) => {},
            }
        },
    }
    move_steps(rp, src_ino, src_dir, src_name, dst_dir, dst_name, now)
}

/// The file system over its tables. It holds nothing itself: each operation is
/// handed the replies of the database so far.
pub struct Filesystem;

impl Filesystem {
    /// Makes sure that the root directory is there.
    pub fn ensure_root(now: i64, replies: &Vec<Rows>) -> (r: Step<DbRequest, Result<(), OpError>>)
        ensures
            unit_step(r) == plan::next(ensure_root_plan(now), plan::views(replies@)),
    {
        let mut rp = Replay::new(replies);
        let rows = match rp.next() {
            None => {
                return Step::Ask(Request::InodeExists { ino: ROOT_INO });
            },
            Some(rows) => rows,
        };
        if rows.is_empty() {
            if rp.next().is_none() {
                return Step::Ask(Request::InsertRoot { mode: DEFAULT_DIR_MODE as i64, now });
            }
        }
        Step::Done(Ok(()))
    }

    /// Statistics of the entry at `path` itself.
    pub fn lstat(path: &str, replies: &Vec<Rows>) -> (r: Step<DbRequest, Result<Option<Stats>, OpError>>)
        ensures
            stats_step(r) == plan::next(lstat_plan(path@), plan::views(replies@)),
    {
        let mut rp = Replay::new(replies);
        let p = paths::normalize_path(path);
        let ino = match resolve_steps::<StatsView>(&mut rp, p.as_str()) {
            Err(q) => {
                return Step::Ask(q);
            },
            Ok(None) => {
                return Step::Done(Ok(None));
            },
            Ok(Some(ino)) => ino,
        };
        let rows = match rp.next() {
            None => {
                return Step::Ask(Request::Inode { ino });
            },
            Some(rows) => rows,
        };
        if rows.is_empty() {
            return Step::Done(Ok(None));
        }
        match row_stats_steps::<StatsView>(&mut rp, rows) {
            Err(q) => Step::Ask(q),
            Ok(stats) => Step::Done(Ok(Some(stats))),
        }
    }

    /// Statistics of what the entry at `path` leads to.
    pub fn stat(path: &str, replies: &Vec<Rows>) -> (r: Step<DbRequest, Result<Option<Stats>, OpError>>)
        ensures
            stats_step(r) == plan::next(stat_plan(path@), plan::views(replies@)),
    {
        let mut rp = Replay::new(replies);
        match stat_steps::<StatsView>(&mut rp, path) {
            Err(q) => Step::Ask(q),
            Ok(r) => Step::Done(r),
        }
    }

    /// Creates a directory at `path`.
    pub fn mkdir(path: &str, now: i64, replies: &Vec<Rows>) -> (r: Step<DbRequest, Result<(), OpError>>)
        ensures
            unit_step(r) == plan::next(mkdir_plan(path@, now), plan::views(replies@)),
    {
        let mut rp = Replay::new(replies);
        let p = paths::normalize_path(path);
        let cs = paths::split_path(p.as_str());
        if cs.len() == 0 {
            return Step::Done(Err(OpError::Message("Cannot create root directory")));
        }
        let dir = match resolve_steps::<UnitView>(&mut rp, paths::parent_of(&cs).as_str()) {
            Err(q) => {
                return Step::Ask(q);
            },
            Ok(None) => {
                return Step::Done(Err(OpError::Message("Parent directory does not exist")));
            },
            Ok(Some(dir)) => dir,
        };
        let name = cs[cs.len() - 1].as_str();
        assert(text::views(cs@).last() == name@);
        match resolve_steps::<UnitView>(&mut rp, p.as_str()) {
            Err(q) => {
                return Step::Ask(q);
            },
            Ok(Some(_)) => {
                return Step::Done(Err(OpError::Message("Directory already exists")));
            },
            Ok(None) => {},
        }
        match create_steps::<UnitView>(&mut rp, name, dir, DEFAULT_DIR_MODE, 0, now) {
            Err(q) => Step::Ask(q),
            Ok(Err(e)) => Step::Done(Err(e)),
            Ok(Ok(_)) => Step::Done(Ok(())),
        }
    }

    /// Writes `data` to the file at `path`.
    pub fn write_file(path: &str, data: &[u8], now: i64, replies: &Vec<Rows>) -> (r: Step<
        DbRequest,
        Result<(), OpError>,
    >)
        ensures
            unit_step(r) == plan::next(write_file_plan(path@, data@, now), plan::views(replies@)),
    {
        let mut rp = Replay::new(replies);
        let p = paths::normalize_path(path);
        let cs = paths::split_path(p.as_str());
        if cs.len() == 0 {
            return Step::Done(Err(OpError::Message("Cannot write to root directory")));
        }
        let dir = match resolve_steps::<UnitView>(&mut rp, paths::parent_of(&cs).as_str()) {
            Err(q) => {
                return Step::Ask(q);
            },
            Ok(None) => {
                return Step::Done(Err(OpError::Message("Parent directory does not exist")));
            },
            Ok(Some(dir)) => dir,
        };
        let name = cs[cs.len() - 1].as_str();
        assert(text::views(cs@).last() == name@);
        match resolve_steps::<UnitView>(&mut rp, p.as_str()) {
            Err(q) => Step::Ask(q),
            Ok(Some(ino)) => {
                if rp.next().is_none() {
                    return Step::Ask(Request::DeleteData { ino });
                }
                fill_steps(&mut rp, ino, data, now)
            },
            Ok(None) => {
                let size: i64 = data.len() as i64;
                match create_steps::<UnitView>(&mut rp, name, dir, DEFAULT_FILE_MODE, size, now) {
                    Err(q) => Step::Ask(q),
                    Ok(Err(e)) => Step::Done(Err(e)),
                    Ok(Ok(ino)) => fill_steps(&mut rp, ino, data, now),
                }
            },
        }
    }

    /// Reads the file at `path`.
    pub fn read_file(path: &str, replies: &Vec<Rows>) -> (r: Step<
        DbRequest,
        Result<Option<Vec<u8>>, OpError>,
    >)
        ensures
            bytes_step(r) == plan::next(read_file_plan(path@), plan::views(replies@)),
    {
        let mut rp = Replay::new(replies);
        match resolve_steps::<BytesView>(&mut rp, path) {
            Err(q) => Step::Ask(q),
            Ok(None) => Step::Done(Ok(None)),
            Ok(Some(ino)) => match rp.next() {
                None => Step::Ask(Request::SelectData { ino }),
                Some(rows) => Step::Done(Ok(Some(rows.blobs()))),
            },
        }
    }

    /// Lists the directory at `path`.
    pub fn readdir(path: &str, replies: &Vec<Rows>) -> (r: Step<
        DbRequest,
        Result<Option<Vec<String>>, OpError>,
    >)
        ensures
            names_step(r) == plan::next(readdir_plan(path@), plan::views(replies@)),
    {
        let mut rp = Replay::new(replies);
        match resolve_steps::<NamesView>(&mut rp, path) {
            Err(q) => Step::Ask(q),
            Ok(None) => Step::Done(Ok(None)),
            Ok(Some(ino)) => match rp.next() {
                None => Step::Ask(Request::SelectNames { parent: ino }),
                Some(rows) => Step::Done(Ok(Some(rows.names()))),
            },
        }
    }

    /// Creates a symbolic link to `target` at `linkpath`.
    pub fn symlink(target: &str, linkpath: &str, now: i64, replies: &Vec<Rows>) -> (r: Step<
        DbRequest,
        Result<(), OpError>,
    >)
        ensures
            unit_step(r) == plan::next(symlink_plan(target@, linkpath@, now), plan::views(replies@)),
    {
        let mut rp = Replay::new(replies);
        let p = paths::normalize_path(linkpath);
        let cs = paths::split_path(p.as_str());
        if cs.len() == 0 {
            return Step::Done(Err(OpError::Message("Cannot create symlink at root")));
        }
        let dir = match resolve_steps::<UnitView>(&mut rp, paths::parent_of(&cs).as_str()) {
            Err(q) => {
                return Step::Ask(q);
            },
            Ok(None) => {
                return Step::Done(Err(OpError::Message("Parent directory does not exist")));
            },
            Ok(Some(dir)) => dir,
        };
        let name = cs[cs.len() - 1].as_str();
        assert(text::views(cs@).last() == name@);
        match resolve_steps::<UnitView>(&mut rp, p.as_str()) {
            Err(q) => {
                return Step::Ask(q);
            },
            Ok(Some(_)) => {
                return Step::Done(Err(OpError::Message("Path already exists")));
            },
            Ok(None) => {},
        }
        if rp.next().is_none() {
            let size: i64 = text::byte_len(target) as i64;
            return Step::Ask(Request::InsertInode { mode: SYMLINK_MODE as i64, size, now });
        }
        let rows = match rp.next() {
            None => {
                return Step::Ask(Request::LastRowid);
            },
            Some(rows) => rows,
        };
        let ino = match rows.first_int() {
            None => {
                return Step::Done(Err(OpError::Message("Failed to get new inode")));
            },
            Some(ino) => ino,
        };
        if rp.next().is_none() {
            return Step::Ask(Request::InsertTarget { ino, target: target.to_owned() });
        }
        if rp.next().is_none() {
            return Step::Ask(Request::InsertEntry { name: name.to_owned(), parent: dir, ino });
        }
        Step::Done(Ok(()))
    }

    /// The target of the link at `path`.
    pub fn readlink(path: &str, replies: &Vec<Rows>) -> (r: Step<
        DbRequest,
        Result<Option<String>, OpError>,
    >)
        ensures
            target_step(r) == plan::next(readlink_plan(path@), plan::views(replies@)),
    {
        let mut rp = Replay::new(replies);
        match readlink_steps::<TargetView>(&mut rp, path) {
            Err(q) => Step::Ask(q),
            Ok(r) => Step::Done(r),
        }
    }

    /// Removes the file, the link or the empty directory at `path`.
    pub fn remove(path: &str, replies: &Vec<Rows>) -> (r: Step<DbRequest, Result<(), OpError>>)
        ensures
            unit_step(r) == plan::next(remove_plan(path@), plan::views(replies@)),
    {
        let mut rp = Replay::new(replies);
        let p = paths::normalize_path(path);
        let cs = paths::split_path(p.as_str());
        if cs.len() == 0 {
            return Step::Done(Err(OpError::Message("Cannot remove root directory")));
        }
        let ino = match resolve_steps::<UnitView>(&mut rp, p.as_str()) {
            Err(q) => {
                return Step::Ask(q);
            },
            Ok(None) => {
                return Step::Done(Err(OpError::Message("Path does not exist")));
            },
            Ok(Some(ino)) => ino,
        };
        if ino == ROOT_INO {
            return Step::Done(Err(OpError::Message("Cannot remove root directory")));
        }
        let children = match rp.next() {
            None => {
                return Step::Ask(Request::ChildCount { ino });
            },
            Some(rows) => rows,
        };
        if children.count() > 0 {
            return Step::Done(Err(OpError::Message("Directory not empty")));
        }
        let dir = match resolve_steps::<UnitView>(&mut rp, paths::parent_of(&cs).as_str()) {
            Err(q) => {
                return Step::Ask(q);
            },
            Ok(None) => {
                return Step::Done(Err(OpError::Message("Parent directory does not exist")));
            },
            Ok(Some(dir)) => dir,
        };
        let name = cs[cs.len() - 1].as_str();
        assert(text::views(cs@).last() == name@);
        if rp.next().is_none() {
            return Step::Ask(Request::DeleteEntry { parent: dir, name: name.to_owned() });
        }
        match reap_steps::<UnitView>(&mut rp, ino) {
            Err(q) => Step::Ask(q),
            Ok(()) => Step::Done(Ok(())),
        }
    }

    /// Renames or moves the entry at `from` to `to`.
    pub fn rename(from: &str, to: &str, now: i64, replies: &Vec<Rows>) -> (r: Step<
        DbRequest,
        Result<(), OpError>,
    >)
        ensures
            unit_step(r) == plan::next(rename_plan(from@, to@, now), plan::views(replies@)),
    {
        let mut rp = Replay::new(replies);
        let f = paths::normalize_path(from);
        let t = paths::normalize_path(to);
        if text::same(f.as_str(), "/") {
            return Step::Done(Err(OpError::Fs(FsError::RootOperation)));
        }
        let src_ino = match resolve_steps::<UnitView>(&mut rp, f.as_str()) {
            Err(q) => {
                return Step::Ask(q);
            },
            Ok(None) => {
                return Step::Done(Err(OpError::Fs(FsError::NotFound)));
            },
            Ok(Some(ino)) => ino,
        };
        let src = match stat_steps::<UnitView>(&mut rp, f.as_str()) {
            Err(q) => {
                return Step::Ask(q);
            },
            Ok(Err(e)) => {
                return Step::Done(Err(e));
            },
            Ok(Ok(None)) => {
                return Step::Done(Err(OpError::Fs(FsError::NotFound)));
            },
            Ok(Ok(Some(src))) => src,
        };
        rename_to_steps(&mut rp, f.as_str(), t.as_str(), src_ino, &src, now)
    }
}

} // verus!
