//! What holds of the server as a whole.

use crate::fs::types;
use crate::nfs::attr;
use crate::nfs::attr::FileKind;
use crate::nfs::ids;
use crate::nfs::ids::MapView;
use crate::nfs::server;
use crate::nodes::NodeEntryView;
use crate::paths;
use vstd::prelude::*;

verus! {

/// How many lines fit.
pub open spec fn at_most(n: int, max: usize) -> int {
    if n <= max {
        n
    } else {
        max as int
    }
}

/// A listing after its first `n` entries holds the entries behind those that
/// were passed over, in order and as many as fit; it is full only where one more
/// did not fit.
pub proof fn law_listing_is_in_order(
    m: MapView,
    dir: Seq<char>,
    entries: Seq<NodeEntryView>,
    n: int,
    start_after: u64,
    max_entries: usize,
)
    requires
        0 <= n <= entries.len(),
    ensures
        ({
            let p = server::progress(m, dir, entries, n, start_after, max_entries);
            &&& p.skipped <= n
            &&& p.skip ==> p.skipped == n && p.out.len() == 0 && !p.full
            &&& p.out.len() == at_most(n - p.skipped, max_entries)
            &&& p.full == (n - p.skipped > max_entries)
            &&& forall|i: int|
                0 <= i < p.out.len() ==> (#[trigger] p.out[i]).name == entries[p.skipped + i].name
        }),
    decreases n,
{
    if n > 0 {
        law_listing_is_in_order(m, dir, entries, n - 1, start_after, max_entries);
    }
}

/// A listing from the start holds the first entries of the directory, and says
/// that nothing is left exactly where all of them fit.
pub proof fn law_listing_from_the_start(
    m: MapView,
    dir: Seq<char>,
    entries: Seq<NodeEntryView>,
    max_entries: usize,
)
    ensures
        ({
            let n = entries.len() as int;
            let p = server::progress(m, dir, entries, n, 0, max_entries);
            &&& p.skipped == 0
            &&& p.out.len() == at_most(n, max_entries)
            &&& (p.out.len() + p.skipped >= n) == (n <= max_entries)
        }),
{
    lemma_nothing_skipped(m, dir, entries, entries.len() as int, max_entries);
    law_listing_is_in_order(m, dir, entries, entries.len() as int, 0, max_entries);
}

proof fn lemma_nothing_skipped(
    m: MapView,
    dir: Seq<char>,
    entries: Seq<NodeEntryView>,
    n: int,
    max_entries: usize,
)
    ensures
        !server::progress(m, dir, entries, n, 0, max_entries).skip,
        server::progress(m, dir, entries, n, 0, max_entries).skipped == 0,
    decreases n,
{
    if n > 0 {
        lemma_nothing_skipped(m, dir, entries, n - 1, max_entries);
    }
}

/// Two names in one directory have two paths.
pub proof fn lemma_child_is_injective(dir: Seq<char>, a: Seq<char>, b: Seq<char>)
    requires
        paths::child(dir, a) == paths::child(dir, b),
    ensures
        a == b,
{
    let base = if dir == "/"@ {
        "/"@
    } else {
        dir + "/"@
    };
    assert(paths::child(dir, a) =~= base + a);
    assert(paths::child(dir, b) =~= base + b);
    assert((base + a).skip(base.len() as int) =~= a);
    assert((base + b).skip(base.len() as int) =~= b);
}

/// All entries of a directory have identifiers already, and no name is there
/// twice.
pub open spec fn all_known(m: MapView, dir: Seq<char>, entries: Seq<NodeEntryView>) -> bool {
    &&& forall|i: int|
        0 <= i < entries.len() ==> m.ids.dom().contains(
            paths::child(dir, (#[trigger] entries[i]).name),
        )
    &&& forall|i: int, j: int|
        0 <= i < j < entries.len() ==> (#[trigger] entries[i]).name != (#[trigger] entries[j]).name
}

/// A client that goes on after the entry number `k`, by its identifier, gets the
/// entries behind it: no other is passed over, none comes twice.
pub proof fn law_listing_goes_on(
    m: MapView,
    dir: Seq<char>,
    entries: Seq<NodeEntryView>,
    k: int,
    max_entries: usize,
)
    requires
        ids::agree(m),
        all_known(m, dir, entries),
        0 <= k < entries.len(),
        m.ids[paths::child(dir, entries[k].name)] > 0,
    ensures
        ({
            let n = entries.len() as int;
            let start_after = m.ids[paths::child(dir, entries[k].name)];
            let p = server::progress(m, dir, entries, n, start_after, max_entries);
            &&& p.skipped == k + 1
            &&& p.out.len() == at_most(n - k - 1, max_entries)
            &&& forall|i: int|
                0 <= i < p.out.len() ==> (#[trigger] p.out[i]).name == entries[k + 1 + i].name
            &&& (p.out.len() + p.skipped >= n) == (n - k - 1 <= max_entries)
        }),
{
    let n = entries.len() as int;
    let start_after = m.ids[paths::child(dir, entries[k].name)];
    lemma_skips_to(m, dir, entries, k, n, max_entries);
    law_listing_is_in_order(m, dir, entries, n, start_after, max_entries);
}

proof fn lemma_skips_to(
    m: MapView,
    dir: Seq<char>,
    entries: Seq<NodeEntryView>,
    k: int,
    n: int,
    max_entries: usize,
)
    requires
        ids::agree(m),
        all_known(m, dir, entries),
        0 <= k < entries.len(),
        0 <= n <= entries.len(),
        m.ids[paths::child(dir, entries[k].name)] > 0,
    ensures
        ({
            let start_after = m.ids[paths::child(dir, entries[k].name)];
            let p = server::progress(m, dir, entries, n, start_after, max_entries);
            &&& p.map.ids == m.ids
            &&& p.skip == (n <= k)
            &&& p.skipped == if n <= k {
                n
            } else {
                k + 1
            }
        }),
    decreases n,
{
    if n > 0 {
        lemma_skips_to(m, dir, entries, k, n - 1, max_entries);
        let start_after = m.ids[paths::child(dir, entries[k].name)];
        law_listing_is_in_order(m, dir, entries, n - 1, start_after, max_entries);
        let e = entries[n - 1];
        let path = paths::child(dir, e.name);
        assert(m.ids.dom().contains(path));
        assert(m.ids.dom().contains(paths::child(dir, entries[k].name)));
        if n - 1 < k {
            if m.ids[path] == m.ids[paths::child(dir, entries[k].name)] {
                ids::law_ids_tell_paths_apart(m, path, paths::child(dir, entries[k].name));
                lemma_child_is_injective(dir, e.name, entries[k].name);
            }
        }
    }
}

/// The client is told that a file is a directory, a link or a regular file where
/// the file system says so.
pub proof fn law_kinds_agree(mode: u32)
    ensures
        attr::kind_of(mode) == FileKind::Directory <==> types::dir_mode(mode),
        attr::kind_of(mode) == FileKind::Link <==> types::link_mode(mode),
        types::file_mode(mode) ==> attr::kind_of(mode) == FileKind::Regular,
{
}

} // verus!
