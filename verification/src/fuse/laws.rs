//! What holds of the handlers as a whole.

use crate::fs::types;
use crate::fs::types::Stats;
use crate::fuse::adapter;
use crate::fuse::adapter::FuseView;
use crate::fuse::calls;
use crate::fuse::calls::{Answer, Edit, FsCall, FsCallView, FsReply, FsReplyView, OutcomeView};
use crate::fuse::jobs;
use crate::fuse::listing;
use crate::fuse::listing::EntryView;
use crate::plan;
use crate::plan::Head;
use vstd::prelude::*;

verus! {

broadcast use crate::plan::group_after;

/// A reader that goes on from the offset of any line gets exactly the lines
/// behind it.
pub proof fn law_listing_resumes(ino: u64, parent: u64, entries: Seq<EntryView>, k: int)
    requires
        0 <= k < entries.len() + 2,
        entries.len() + 2 <= i64::MAX,
    ensures
        listing::from_offset(
            listing::lines(ino, parent, entries),
            listing::lines(ino, parent, entries)[k].offset,
        ) == listing::lines(ino, parent, entries).skip(k + 1),
{
    let all = listing::lines(ino, parent, entries);
    assert(all[k].offset == k + 1);
    if k + 1 == all.len() {
        assert(all.skip(k + 1) =~= Seq::empty());
    }
}

/// Where the first entry stands that a reader at `offset` has not seen.
pub open spec fn first_unseen(offset: i64, n: int) -> int {
    if offset <= 2 {
        0
    } else if offset - 2 >= n {
        n
    } else {
        offset - 2
    }
}

/// A listing with attributes holds exactly the entries from the offset on, each
/// with the offset from which a reader goes on behind it.
pub proof fn law_plus_listing_resumes(
    path: Seq<char>,
    entries: Seq<EntryView>,
    n: int,
    offset: i64,
    uid: u32,
    gid: u32,
)
    requires
        0 <= n <= entries.len(),
        entries.len() + 3 <= i64::MAX,
    ensures
        listing::entry_lines(path, entries, n, offset, uid, gid) == Seq::new(
            (n - first_unseen(offset, n)) as nat,
            |j: int|
                listing::entry_line(
                    path,
                    entries[first_unseen(offset, n) + j],
                    first_unseen(offset, n) + j,
                    uid,
                    gid,
                ),
        ),
        forall|i: int|
            0 <= i < entries.len() ==> (#[trigger] listing::entry_line(
                path,
                entries[i],
                i,
                uid,
                gid,
            )).offset == i + 3,
    decreases n,
{
    if n > 0 {
        law_plus_listing_resumes(path, entries, n - 1, offset, uid, gid);
        let before = listing::entry_lines(path, entries, n - 1, offset, uid, gid);
        let now = listing::entry_lines(path, entries, n, offset, uid, gid);
        let s = first_unseen(offset, n);
        let want = Seq::new(
            (n - s) as nat,
            |j: int| listing::entry_line(path, entries[s + j], s + j, uid, gid),
        );
        if offset <= n - 1 + 2 {
            assert(first_unseen(offset, n - 1) == s);
            assert(now =~= want);
        } else {
            assert(s == n);
            assert(now =~= want);
        }
    } else {
        assert(listing::entry_lines(path, entries, n, offset, uid, gid) =~= Seq::new(
            (n - first_unseen(offset, n)) as nat,
            |j: int|
                listing::entry_line(
                    path,
                    entries[first_unseen(offset, n) + j],
                    first_unseen(offset, n) + j,
                    uid,
                    gid,
                ),
        ));
    }
}

/// An entry that the kernel has been told of is known by its inode from then on.
pub proof fn law_told_entry_is_known(
    table: Map<u64, Seq<char>>,
    path: Seq<char>,
    stats: Stats,
    uid: u32,
    gid: u32,
)
    ensures
        ({
            let o = jobs::entry_outcome(path, stats, uid, gid);
            let after = adapter::edited_all(table, o.edits);
            &&& o.answer matches Answer::Entry(attr) && after.dom().contains(attr.ino)
                && after[attr.ino] == path
            &&& forall|ino: u64|
                ino != stats.ino as u64 ==> (after.dom().contains(ino) == #[trigger] table.dom().contains(
                    ino,
                )) && after[ino] == table[ino]
        }),
{
    let edit = Edit::Insert { ino: stats.ino as u64, path };
    lemma_one_edit(table, edit);
}

proof fn lemma_one_edit(table: Map<u64, Seq<char>>, edit: Edit<Seq<char>>)
    ensures
        adapter::edited_all(table, seq![edit]) == adapter::edited(table, edit),
{
    let es = seq![edit];
    assert(es.drop_last() =~= Seq::<Edit<Seq<char>>>::empty());
    assert(adapter::edited_all(table, es.drop_last()) == table);
}

proof fn lemma_more_edits(
    table: Map<u64, Seq<char>>,
    edits: Seq<Edit<Seq<char>>>,
    edit: Edit<Seq<char>>,
)
    ensures
        adapter::edited_all(table, edits.push(edit)) == adapter::edited(
            adapter::edited_all(table, edits),
            edit,
        ),
{
    assert(edits.push(edit).drop_last() =~= edits);
}

/// A removed entry is not known by its inode any more.
pub proof fn law_removed_is_forgotten(table: Map<u64, Seq<char>>, ino: u64)
    ensures
        !adapter::edited_all(table, seq![Edit::<Seq<char>>::Remove { ino }]).dom().contains(ino),
{
    lemma_one_edit(table, Edit::<Seq<char>>::Remove { ino });
}

/// After a move the inode is known by its new path, the one that was replaced is
/// forgotten, and all others are known as before.
pub proof fn law_moved_is_known(
    table: Map<u64, Seq<char>>,
    src: u64,
    dst: Option<u64>,
    to: Seq<char>,
)
    requires
        dst != Some(src),
    ensures
        ({
            let after = adapter::edited_all(table, jobs::move_edits(Some(src), dst, to));
            &&& after.dom().contains(src) && after[src] == to
            &&& dst is Some ==> !after.dom().contains(dst->0)
            &&& forall|ino: u64|
                ino != src && dst != Some(ino) ==> (after.dom().contains(ino)
                    == #[trigger] table.dom().contains(ino)) && after[ino] == table[ino]
        }),
{
    let none = Seq::<Edit<Seq<char>>>::empty();
    let remove = Edit::<Seq<char>>::Remove { ino: src };
    let insert = Edit::Insert { ino: src, path: to };
    assert(adapter::edited_all(table, none) == table);
    lemma_more_edits(table, none, remove);
    lemma_more_edits(table, none.push(remove), insert);
    match dst {
        Some(d) => {
            let gone = Edit::<Seq<char>>::Remove { ino: d };
            lemma_more_edits(table, none.push(remove).push(insert), gone);
            assert(jobs::move_edits(Some(src), dst, to) =~= none.push(remove).push(insert).push(
                gone,
            ));
        },
        None => {
            assert(jobs::move_edits(Some(src), dst, to) =~= none.push(remove).push(insert));
        },
    }
}

/// Every handle in use was handed out earlier.
pub open spec fn handles_in_order<F>(v: FuseView<F>) -> bool {
    forall|fh: u64| #[trigger] v.open.dom().contains(fh) ==> fh < v.next_fh
}

/// As long as handles have not run out, an opened file gets a handle that no
/// other open file has.
pub proof fn law_handles_are_fresh<F>(v: FuseView<F>, file: F)
    requires
        handles_in_order(v),
        v.next_fh < u64::MAX,
    ensures
        !v.open.dom().contains(v.next_fh),
        handles_in_order(
            FuseView {
                open: v.open.insert(v.next_fh, file),
                next_fh: v.next_fh.wrapping_add(1),
                ..v
            },
        ),
        forall|fh: u64|
            handles_in_order(FuseView { open: #[trigger] v.open.remove(fh), ..v }),
{
}

/// A directory is only ever removed where it was found to be one, and empty.
pub proof fn law_only_empty_directories_are_removed(path: Seq<char>, replies: Seq<FsReplyView>)
    requires
        plan::next(jobs::rmdir_plan(path), replies) == Head::<FsCallView, OutcomeView>::Ask(
            FsCall::Remove { path },
        ),
    ensures
        replies.len() == 2,
        replies[0] matches FsReply::Stats(Some(s)) && types::dir_mode(s.mode),
        replies[1] matches FsReply::Names(Some(names)) && names.len() == 0,
{
    if replies.len() >= 1 {
        if replies.len() >= 2 {
            assert(replies.drop_first()[0] == replies[1]);
            if replies.len() >= 3 {
                assert(replies.drop_first().drop_first().len() > 0);
            }
        }
    }
}

/// A directory is never removed as a file.
pub proof fn law_directories_are_not_unlinked(path: Seq<char>, replies: Seq<FsReplyView>)
    requires
        plan::next(jobs::unlink_plan(path), replies) == Head::<FsCallView, OutcomeView>::Ask(
            FsCall::Remove { path },
        ),
    ensures
        replies.len() == 1,
        replies[0] matches FsReply::Stats(Some(s)) && !types::dir_mode(s.mode),
{
    if replies.len() >= 2 {
        assert(replies.drop_first().len() > 0);
    }
}

/// All files belong to whom the file system was mounted for, and the kernel is
/// told the inode and the size that the file system has for them.
pub proof fn law_attributes(stats: Stats, uid: u32, gid: u32)
    requires
        0 <= stats.ino,
        0 <= stats.size <= i64::MAX - 511,
    ensures
        ({
            let a = calls::attr_of(stats, uid, gid);
            &&& a.uid == uid && a.gid == gid
            &&& a.ino == stats.ino
            &&& a.size == stats.size
            &&& (a.blocks - 1) * 512 < a.size <= a.blocks * 512
        }),
{
}

} // verus!
