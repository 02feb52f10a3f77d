//! What a client gets for its operations, over a model of the files: the bytes that it
//! reads are those of the file, what it writes is there afterwards, and what it is told
//! is what the files are.

use crate::fs::types;
use crate::nfs::attr;
use crate::nfs::attr::{Fattr, NfsStat};
use crate::nfs::ids;
use crate::nfs::ids::MapView;
use crate::nfs::ops;
use crate::nfs::ops::{Auth, End, EndView, Job, JobView, Place, PlaceView, SetAttr};
use crate::nfs::server;
use crate::nfs::server::Start;
use crate::nodes::{NodeEntryView, NodeStats};
use crate::paths;
use crate::text;
use crate::volume;
use crate::volume::Volume;
use vstd::prelude::*;

verus! {

/// What an operation comes to on the files `v`.
pub open spec fn served(v: Volume, job: JobView) -> (Result<EndView, NfsStat>, Volume) {
    volume::run(ops::job_plan(job), v)
}

/// The files are as they were, but for which one was opened last.
pub open spec fn unchanged(v: Volume, after: Volume) -> bool {
    after.nodes == v.nodes && after.entries == v.entries && after.open == v.open && after.next
        == v.next
}

/// Attributes tell of a file: its type, its permissions, its links, its owner, its size,
/// its device and its times, under the identifier `id`.
pub open spec fn tells(a: Fattr, s: NodeStats, id: u64) -> bool {
    &&& a.kind == attr::kind_of(s.stats.mode)
    &&& a.mode == s.stats.mode & 0o7777
    &&& a.nlink == s.stats.nlink
    &&& a.uid == s.stats.uid
    &&& a.gid == s.stats.gid
    &&& a.size == s.stats.size as u64
    &&& a.used == s.stats.size as u64
    &&& a.fileid == id
    &&& a.rdev.major == attr::device_major(s.rdev)
    &&& a.rdev.minor == attr::device_minor(s.rdev)
    &&& a.atime.seconds == s.stats.atime as u32 && a.atime.nseconds == 0
    &&& a.mtime.seconds == s.stats.mtime as u32 && a.mtime.nseconds == 0
    &&& a.ctime.seconds == s.stats.ctime as u32 && a.ctime.nseconds == 0
}

/// A read of `count` bytes at `offset` gives the bytes of the file from there on, as far
/// as there are so many, and says that the end has been reached exactly where it has. It
/// changes nothing. What is not there cannot be read.
pub proof fn law_read_gives_the_bytes(v: Volume, ino: i64, offset: u64, count: u32)
    requires
        v.nodes[ino].data.len() <= i64::MAX,
        offset + count <= u64::MAX,
    ensures
        ({
            let (r, after) = served(v, Job::Read { ino, offset, count });
            let data = v.nodes[ino].data;
            let end = if offset + count <= data.len() {
                offset + count
            } else {
                data.len() as int
            };
            &&& unchanged(v, after)
            &&& v.nodes.contains_key(ino) ==> {
                &&& offset <= data.len() ==> r == Ok::<EndView, NfsStat>(
                    End::Data {
                        data: data.subrange(offset as int, end),
                        eof: offset + count >= data.len(),
                    },
                )
                &&& offset > data.len() ==> r == Ok::<EndView, NfsStat>(
                    End::Data { data: Seq::empty(), eof: true },
                )
            }
            &&& !v.nodes.contains_key(ino) ==> r == Err::<EndView, NfsStat>(NfsStat::NoEntry)
        }),
{
    broadcast use crate::volume::group_run;

    let data = v.nodes[ino].data;
    if offset > data.len() {
        assert(data.subrange(data.len() as int, data.len() as int) =~= Seq::<u8>::empty());
    }
}

/// A write puts its bytes where it says, and nowhere else; the attributes of the file are
/// to be told afterwards. What is not there cannot be written to.
pub proof fn law_write_puts_the_bytes(
    v: Volume,
    id: u64,
    ino: i64,
    offset: u64,
    data: Seq<u8>,
)
    ensures
        ({
            let (r, after) = served(v, Job::Write { id, ino, offset, data });
            &&& v.nodes.contains_key(ino) ==> r == Ok::<EndView, NfsStat>(End::AttrOf { id })
                && volume::holds_at(v, after, ino, offset, data)
            &&& !v.nodes.contains_key(ino) ==> r == Err::<EndView, NfsStat>(NfsStat::NoEntry)
                && after == v
        }),
{
    broadcast use crate::volume::group_run;

}

/// What was written is what is read.
pub proof fn law_written_is_read(v: Volume, id: u64, ino: i64, offset: u64, data: Seq<u8>)
    requires
        v.nodes.contains_key(ino),
        v.nodes[ino].data.len() <= i64::MAX,
        0 < data.len() <= u32::MAX,
        offset + data.len() <= i64::MAX,
    ensures
        ({
            let after = served(v, Job::Write { id, ino, offset, data }).1;
            served(after, Job::Read { ino, offset, count: data.len() as u32 }).0 matches Ok(
                End::Data { data: got, .. },
            ) && got == data
        }),
{
    law_write_puts_the_bytes(v, id, ino, offset, data);
    let after = served(v, Job::Write { id, ino, offset, data }).1;
    law_read_gives_the_bytes(after, ino, offset, data.len() as u32);
    assert(after.nodes[ino].data.subrange(offset as int, offset + data.len()) =~= data);
}

/// The attributes of a file are told under its identifier, and asking for them changes
/// nothing.
pub proof fn law_attributes_are_told(v: Volume, id: u64, ino: i64)
    ensures
        ({
            let (r, after) = served(v, Job::GetAttr { id, ino });
            &&& after == v
            &&& v.nodes.contains_key(ino) ==> (r matches Ok(End::Attr(a)) && tells(
                a,
                volume::stats_of(v, ino),
                id,
            ))
            &&& !v.nodes.contains_key(ino) ==> r == Err::<EndView, NfsStat>(NfsStat::NoEntry)
        }),
{
    broadcast use crate::volume::group_run;

}

/// A change of attributes gives the file the permissions, the owner, the group and the
/// size that are asked for, and keeps of them what is not asked for, and all else. The
/// attributes that are told are those after the change.
pub proof fn law_attributes_are_changed(v: Volume, id: u64, ino: i64, change: SetAttr)
    requires
        v.nodes.contains_key(ino),
    ensures
        ({
            let (r, after) = served(v, Job::SetAttr { id, ino, change });
            let was = v.nodes[ino].meta.stats;
            let is = after.nodes[ino].meta.stats;
            &&& r matches Ok(End::Attr(a)) && tells(a, volume::stats_of(after, ino), id)
            &&& is.mode == match change.mode {
                Some(m) => volume::with_permissions(was.mode, m),
                None => was.mode,
            }
            &&& is.uid == match change.uid {
                Some(u) => u,
                None => was.uid,
            }
            &&& is.gid == match change.gid {
                Some(g) => g,
                None => was.gid,
            }
            &&& after.nodes.contains_key(ino)
            &&& is.nlink == was.nlink && is.atime == was.atime && is.mtime == was.mtime
            &&& after.nodes[ino].target == v.nodes[ino].target
            &&& match change.size {
                Some(size) => after.nodes[ino].data.len() == size && forall|i: int|
                    0 <= i < size ==> #[trigger] after.nodes[ino].data[i] == if i
                        < v.nodes[ino].data.len() {
                        v.nodes[ino].data[i]
                    } else {
                        0u8
                    },
                None => after.nodes[ino].data == v.nodes[ino].data,
            }
            &&& after.nodes.remove(ino) =~= v.nodes.remove(ino)
            &&& after.entries == v.entries
        }),
{
    broadcast use crate::volume::group_run;

}

/// Where names lead from a directory, one after the other.
pub open spec fn walked(v: Volume, at: i64, names: Seq<Seq<char>>) -> Option<i64>
    decreases names.len(),
{
    if names.len() == 0 {
        Some(at)
    } else if v.entries.contains_key((at, names[0])) {
        walked(v, v.entries[(at, names[0])], names.drop_first())
    } else {
        None
    }
}

proof fn lemma_walk(v: Volume, at: i64, names: Seq<Seq<char>>, path: Seq<char>)
    ensures
        volume::run(ops::walk_plan(at, names, path), v) == (
            match walked(v, at, names) {
                Some(ino) => Ok::<EndView, NfsStat>(End::Enter { path, ino, attr: false }),
                None => Err(NfsStat::NoEntry),
            },
            v,
        ),
    decreases names.len(),
{
    broadcast use crate::volume::group_run;

    if names.len() > 0 && v.entries.contains_key((at, names[0])) {
        lemma_walk(v, v.entries[(at, names[0])], names.drop_first(), path);
    }
}

/// A path is resolved to what its names lead to from the root, and the root to itself.
pub proof fn law_path_is_resolved(v: Volume, path: Seq<char>)
    ensures
        served(v, Job::Resolve { path }) == (
            match walked(v, 1, if path == "/"@ {
                Seq::empty()
            } else {
                paths::parts(path)
            }) {
                Some(ino) => Ok::<EndView, NfsStat>(End::Enter { path, ino, attr: false }),
                None => Err(NfsStat::NoEntry),
            },
            v,
        ),
{
    broadcast use crate::volume::group_run;

    lemma_walk(v, 1, paths::parts(path), path);
}

/// Looking an entry up in a directory finds its number, and changes nothing; what is no
/// directory has no entries.
pub proof fn law_entry_is_looked_up(v: Volume, at: PlaceView)
    ensures
        ({
            let (r, after) = served(v, Job::Lookup { at });
            let there = v.entries.contains_key((at.dir, at.name));
            &&& after == v
            &&& !v.nodes.contains_key(at.dir) ==> r == Err::<EndView, NfsStat>(NfsStat::NoEntry)
            &&& v.nodes.contains_key(at.dir) && !volume::is_dir(v, at.dir) ==> r == Err::<
                EndView,
                NfsStat,
            >(NfsStat::NotDirectory)
            &&& v.nodes.contains_key(at.dir) && volume::is_dir(v, at.dir) && there ==> r == Ok::<
                EndView,
                NfsStat,
            >(End::Enter { path: at.path, ino: v.entries[(at.dir, at.name)], attr: false })
            &&& v.nodes.contains_key(at.dir) && volume::is_dir(v, at.dir) && !there ==> r == Err::<
                EndView,
                NfsStat,
            >(NfsStat::NoEntry)
        }),
{
    broadcast use crate::volume::group_run;

}

/// A file, a directory, a device or a link that is made where nothing stands is there,
/// with the mode and for the owner that are asked for, and is entered under its path.
/// Where something stands, or the directory is not there, nothing is made. An exclusive
/// creation makes a file that only its owner may write.
pub proof fn law_new_entry_is_made(
    v: Volume,
    at: PlaceView,
    mode: u32,
    rdev: u64,
    target: Seq<char>,
    auth: Auth,
)
    requires
        mode <= 0o7777,
    ensures
        ({
            let (f, with_file) = served(v, Job::Create { at, mode, auth });
            let (x, with_own) = served(v, Job::CreateExclusive { at, auth });
            let (d, with_dir) = served(v, Job::MkDir { at, mode, auth });
            let (n, with_node) = served(v, Job::MkNod { at, mode, rdev, auth });
            let (l, with_link) = served(v, Job::SymLink { at, target, auth });
            let told = Ok::<EndView, NfsStat>(
                End::Enter { path: at.path, ino: v.next, attr: true },
            );
            let entered = Ok::<EndView, NfsStat>(
                End::Enter { path: at.path, ino: v.next, attr: false },
            );
            let free = v.nodes.contains_key(at.dir) && !v.entries.contains_key((at.dir, at.name));
            &&& free ==> {
                &&& f == told
                &&& volume::made(
                    v,
                    with_file,
                    at.dir,
                    at.name,
                    types::S_IFREG | mode,
                    auth.uid,
                    auth.gid,
                )
                &&& x == entered
                &&& volume::made(
                    v,
                    with_own,
                    at.dir,
                    at.name,
                    types::DEFAULT_FILE_MODE,
                    auth.uid,
                    auth.gid,
                )
                &&& d == told
                &&& volume::made(
                    v,
                    with_dir,
                    at.dir,
                    at.name,
                    types::S_IFDIR | mode,
                    auth.uid,
                    auth.gid,
                )
                &&& n == told
                &&& volume::made(v, with_node, at.dir, at.name, mode, auth.uid, auth.gid)
                &&& with_node.nodes[v.next].meta.rdev == rdev
                &&& l == told
                &&& volume::made(
                    v,
                    with_link,
                    at.dir,
                    at.name,
                    types::SYMLINK_MODE,
                    auth.uid,
                    auth.gid,
                )
                &&& with_link.nodes[v.next].target == target
            }
            &&& v.entries.contains_key((at.dir, at.name)) ==> x == Err::<EndView, NfsStat>(
                NfsStat::Exists,
            ) && with_own == v
            &&& v.nodes.contains_key(at.dir) && v.entries.contains_key((at.dir, at.name)) ==> {
                let exists = Err::<EndView, NfsStat>(NfsStat::Exists);
                f == exists && d == exists && n == exists && l == exists
            }
            &&& !v.nodes.contains_key(at.dir) ==> {
                let gone = Err::<EndView, NfsStat>(NfsStat::NoEntry);
                f == gone && d == gone && n == gone && l == gone
            }
            &&& !free ==> with_file == v && with_dir == v && with_node == v && with_link == v
        }),
{
    broadcast use crate::volume::group_run;

    assert(0o100000u32 | 0o644 == 0o100644) by (bit_vector);
    assert(mode <= 0o7777 ==> ((0o040000u32 | 0o755) & 0o170000) | ((0o040000u32 | mode) & 0o7777)
        == 0o040000 | mode) by (bit_vector);
}

/// An entry is removed, as what it is: a directory where it is empty, anything else as it
/// stands. It is forgotten then, all other entries are there, and what cannot be removed
/// stays.
pub proof fn law_entry_is_removed(v: Volume, at: PlaceView)
    ensures
        ({
            let (r, after) = served(v, Job::Remove { at });
            let key = (at.dir, at.name);
            let there = v.entries.contains_key(key);
            let dir = volume::is_dir(v, v.entries[key]);
            let empty = forall|name: Seq<char>| !#[trigger]
                v.entries.contains_key((v.entries[key], name));
            &&& !there ==> r == Err::<EndView, NfsStat>(NfsStat::NoEntry) && after == v
            &&& there && dir && !empty ==> r == Err::<EndView, NfsStat>(NfsStat::NotEmpty) && after
                == v
            &&& there && (!dir || empty) ==> {
                &&& r == Ok::<EndView, NfsStat>(End::Forget { path: at.path })
                &&& after == (Volume { entries: v.entries.remove(key), ..v })
            }
        }),
{
    broadcast use crate::volume::group_run;

    let key = (at.dir, at.name);
    let names = volume::names_in(v, v.entries[key]);
    let none = Set::<Seq<char>>::empty();
    if names == none {
        assert forall|name: Seq<char>| !#[trigger]
            v.entries.contains_key((v.entries[key], name)) by {
            assert(!names.contains(name));
        }
    } else if forall|name: Seq<char>| !#[trigger] v.entries.contains_key((v.entries[key], name)) {
        assert(names =~= none);
    }
}

/// An entry is moved: what stood at its old place stands at the new one, in place of what
/// stood there, and all others are where they were. What cannot be moved stays.
pub proof fn law_entry_is_moved(v: Volume, from: PlaceView, to: PlaceView)
    requires
        (from.dir, from.name) != (to.dir, to.name),
    ensures
        ({
            let (r, after) = served(v, Job::Rename { from, to });
            let source = (from.dir, from.name);
            let dest = (to.dir, to.name);
            match r {
                Ok(e) => {
                    &&& e == EndView::Move { from: from.path, to: to.path }
                    &&& v.entries.contains_key(source)
                    &&& after.entries.contains_key(dest) && after.entries[dest] == v.entries[source]
                    &&& !after.entries.contains_key(source)
                    &&& after.entries.remove(dest) =~= v.entries.remove(source).remove(dest)
                    &&& after.nodes == v.nodes
                },
                Err(_) => after == v,
            }
        }),
        ({
            let source = (from.dir, from.name);
            let dest = (to.dir, to.name);
            let r = served(v, Job::Rename { from, to }).0;
            &&& !v.entries.contains_key(source) ==> r == Err::<EndView, NfsStat>(NfsStat::NoEntry)
            &&& v.entries.contains_key(source) && v.nodes.contains_key(to.dir)
                && !v.entries.contains_key(dest) ==> r is Ok
        }),
{
    broadcast use crate::volume::group_run;

}

/// Reading a link gives its target; what is no link has none.
pub proof fn law_link_gives_its_target(v: Volume, ino: i64)
    ensures
        ({
            let (r, after) = served(v, Job::ReadLink { ino });
            &&& after == v
            &&& !v.nodes.contains_key(ino) ==> r == Err::<EndView, NfsStat>(NfsStat::NoEntry)
            &&& v.nodes.contains_key(ino) && types::link_mode(v.nodes[ino].meta.stats.mode) ==> r
                == Ok::<EndView, NfsStat>(End::Target { target: v.nodes[ino].target })
            &&& v.nodes.contains_key(ino) && !types::link_mode(v.nodes[ino].meta.stats.mode)
                ==> r is Err
        }),
{
    broadcast use crate::volume::group_run;

}

/// Listing a directory comes with each entry of it once, by its name and with its
/// statistics, to be listed from where the client asks and as many as it asks for.
pub proof fn law_directory_is_listed(
    v: Volume,
    dir: i64,
    path: Seq<char>,
    start_after: u64,
    max_entries: usize,
    name: Seq<char>,
)
    requires
        volume::names_in(v, dir).finite(),
    ensures
        ({
            let (r, after) = served(v, Job::ReadDir { dir, path, start_after, max_entries });
            &&& after == v
            &&& !v.nodes.contains_key(dir) ==> r == Err::<EndView, NfsStat>(NfsStat::NoEntry)
            &&& v.nodes.contains_key(dir) ==> (r matches Ok(
                End::List { path: p, entries, start_after: s, max_entries: m },
            ) && {
                &&& p == path && s == start_after && m == max_entries
                &&& entries.len() == volume::names_in(v, dir).len()
                &&& forall|i: int|
                    0 <= i < entries.len() ==> v.entries.contains_key(
                        (dir, (#[trigger] entries[i]).name),
                    ) && entries[i].node == volume::stats_of(
                        v,
                        v.entries[(dir, entries[i].name)],
                    )
                &&& forall|i: int, j: int|
                    0 <= i < j < entries.len() ==> (#[trigger] entries[i]).name != (
                    #[trigger] entries[j]).name
                &&& v.entries.contains_key((dir, name)) ==> exists|i: int|
                    0 <= i < entries.len() && (#[trigger] entries[i]).name == name
            })
        }),
{
    broadcast use crate::volume::group_run;

    let names = volume::names_in(v, dir);
    volume::lemma_in_a_row(names);
    if v.nodes.contains_key(dir) {
        let entries = volume::listed(v, dir);
        assert forall|i: int| 0 <= i < entries.len() implies v.entries.contains_key(
            (dir, (#[trigger] entries[i]).name),
        ) by {
            assert(names.contains(names.to_seq()[i]));
        }
        assert forall|i: int, j: int| 0 <= i < j < entries.len() implies (
        #[trigger] entries[i]).name != (#[trigger] entries[j]).name by {
            assert(names.to_seq()[i] != names.to_seq()[j]);
        }
        if v.entries.contains_key((dir, name)) {
            assert(names.contains(name));
            let i = choose|i: int| 0 <= i < names.len() && names.to_seq()[i] == name;
            assert(entries[i].name == name);
        }
    }
}

/// Each line of a listing tells of its entry: under the identifier by which its path is
/// known from then on, with the attributes that the entry has.
pub proof fn law_line_tells_of_its_entry(
    m: MapView,
    dir: Seq<char>,
    entries: Seq<NodeEntryView>,
    n: int,
    start_after: u64,
    max_entries: usize,
)
    requires
        0 <= n <= entries.len(),
        server::ids_suffice(m, dir, entries, start_after, max_entries),
    ensures
        ({
            let p = server::progress(m, dir, entries, n, start_after, max_entries);
            forall|i: int|
                0 <= i < p.out.len() ==> {
                    let line = #[trigger] p.out[i];
                    let e = entries[p.skipped + i];
                    let path = paths::child(dir, e.name);
                    &&& line.name == e.name
                    &&& tells(line.attr, e.node, line.fileid)
                    &&& p.map.ids.contains_key(path)
                    &&& p.map.ids[path] == line.fileid
                }
        }),
    decreases n,
{
    if n > 0 {
        law_line_tells_of_its_entry(m, dir, entries, n - 1, start_after, max_entries);
        crate::nfs::laws::law_listing_is_in_order(
            m,
            dir,
            entries,
            n - 1,
            start_after,
            max_entries,
        );
        let p = server::progress(m, dir, entries, n - 1, start_after, max_entries);
        let q = server::progress(m, dir, entries, n, start_after, max_entries);
        let e = entries[n - 1];
        let path = paths::child(dir, e.name);
        assert(forall|x: Seq<char>| #[trigger]
            p.map.ids.contains_key(x) ==> q.map.ids.contains_key(x) && q.map.ids[x]
                == p.map.ids[x]);
        if !p.full && !p.skip && p.out.len() < max_entries {
            assert(q.out == p.out.push(server::line_of(p.map, dir, e)));
            assert forall|i: int| 0 <= i < q.out.len() implies {
                let line = #[trigger] q.out[i];
                let e = entries[q.skipped + i];
                let path = paths::child(dir, e.name);
                &&& line.name == e.name
                &&& tells(line.attr, e.node, line.fileid)
                &&& q.map.ids.contains_key(path)
                &&& q.map.ids[path] == line.fileid
            } by {
                if i < p.out.len() {
                    assert(q.out[i] == p.out[i]);
                } else {
                    assert(q.skipped + i == n - 1);
                }
            }
        } else {
            assert(q.out == p.out);
            if p.skip {
                assert(p.out.len() == 0);
            }
        }
    }
}

/// A name in a directory is taken to the inode of the directory, and to its path with the
/// name behind it: `.` is the directory itself, `..` what its path is in, and any other
/// name is looked up. An identifier that nobody has been told is not there, and a name that
/// is no text cannot be one.
pub proof fn law_name_is_placed(m: MapView, id: u64, name: Seq<u8>)
    requires
        ids::agree(m),
    ensures
        ({
            let r = server::place(m, id, name);
            let start = server::lookup_start(m, id, name);
            let known = m.paths.contains_key(id);
            let n = text::utf8(name);
            &&& !known ==> r == Err::<PlaceView, NfsStat>(NfsStat::NoEntry) && start is Err
            &&& known && n is None ==> r == Err::<PlaceView, NfsStat>(NfsStat::Invalid) && start
                is Err
            &&& known && n is Some ==> {
                let at = Place {
                    dir: m.inodes[id],
                    name: n->0,
                    path: paths::child(m.paths[id], n->0),
                };
                &&& r == Ok::<PlaceView, NfsStat>(at)
                &&& n->0 == "."@ ==> start == Ok::<Start<JobView>, NfsStat>(Start::Known(id))
                &&& n->0 == ".."@ ==> start == Ok::<Start<JobView>, NfsStat>(
                    Start::Job(Job::Resolve { path: paths::directory(m.paths[id]) }),
                )
                &&& n->0 != "."@ && n->0 != ".."@ ==> start == Ok::<Start<JobView>, NfsStat>(
                    Start::Job(Job::Lookup { at }),
                )
            }
            &&& server::known(m, id) == if known {
                Ok::<i64, NfsStat>(m.inodes[id])
            } else {
                Err(NfsStat::NoEntry)
            }
        }),
{
    reveal_strlit(".");
    reveal_strlit("..");
    assert("."@.len() != ".."@.len());
}

} // verus!
