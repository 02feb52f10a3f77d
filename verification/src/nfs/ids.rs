//! The identifiers that clients know files by.

use crate::strmap::StrMap;
use crate::text;
use std::collections::HashMap;
use vstd::prelude::*;
use vstd::string::*;

verus! {

broadcast use vstd::std_specs::hash::group_hash_axioms;

/// The identifier of the root.
pub const ROOT_ID: u64 = 1;

/// The inode of the root in the file system.
pub const FS_ROOT_INO: i64 = 1;

/// Which identifier stands for which path, and for which inode.
pub struct InodeMap {
    pub path_to_ino: StrMap<u64>,
    pub ino_to_path: HashMap<u64, String>,
    pub ino_to_fs_ino: HashMap<u64, i64>,
    pub next_ino: u64,
}

/// What the tables hold.
pub struct MapView {
    pub ids: Map<Seq<char>, u64>,
    pub paths: Map<u64, Seq<char>>,
    pub inodes: Map<u64, i64>,
    pub next: u64,
}

impl View for InodeMap {
    type V = MapView;

    open spec fn view(&self) -> MapView {
        MapView {
            ids: self.path_to_ino@,
            paths: self.ino_to_path@.map_values(|s: String| s@),
            inodes: self.ino_to_fs_ino@,
            next: self.next_ino,
        }
    }
}

/// The tables of a new server: they know the root.
pub open spec fn fresh() -> MapView {
    MapView {
        ids: Map::empty().insert("/"@, ROOT_ID),
        paths: Map::empty().insert(ROOT_ID, "/"@),
        inodes: Map::empty().insert(ROOT_ID, FS_ROOT_INO),
        next: 2,
    }
}

/// The identifier of a path: the one it has, or the next one.
pub open spec fn id_for(m: MapView, path: Seq<char>) -> u64 {
    if m.ids.dom().contains(path) {
        m.ids[path]
    } else {
        m.next
    }
}

/// A path can be entered: it has an identifier, or there is one left for it.
pub open spec fn has_id_left(m: MapView, path: Seq<char>) -> bool {
    m.ids.dom().contains(path) || m.next < u64::MAX
}

/// The tables after a path has been entered.
pub open spec fn entered(m: MapView, path: Seq<char>, fs_ino: i64) -> MapView {
    if m.ids.dom().contains(path) {
        MapView { inodes: m.inodes.insert(m.ids[path], fs_ino), ..m }
    } else {
        MapView {
            ids: m.ids.insert(path, m.next),
            paths: m.paths.insert(m.next, path),
            inodes: m.inodes.insert(m.next, fs_ino),
            next: (m.next + 1) as u64,
        }
    }
}

/// The tables after a path has been struck out.
pub open spec fn forgotten(m: MapView, path: Seq<char>) -> MapView {
    if m.ids.dom().contains(path) {
        MapView {
            ids: m.ids.remove(path),
            paths: m.paths.remove(m.ids[path]),
            inodes: m.inodes.remove(m.ids[path]),
            ..m
        }
    } else {
        m
    }
}

/// The tables after a path has become another: the identifier stays. What the other
/// path stood for before is struck out.
pub open spec fn moved(m: MapView, from: Seq<char>, to: Seq<char>) -> MapView {
    if m.ids.dom().contains(from) {
        let kept = if from == to {
            m
        } else {
            forgotten(m, to)
        };
        MapView {
            ids: kept.ids.remove(from).insert(to, m.ids[from]),
            paths: kept.paths.insert(m.ids[from], to),
            ..kept
        }
    } else {
        m
    }
}

/// The tables agree: paths and identifiers stand for each other, one to one; every
/// identifier has an inode, and was handed out earlier.
pub open spec fn agree(m: MapView) -> bool {
    &&& forall|p: Seq<char>| #[trigger]
        m.ids.dom().contains(p) ==> m.paths.dom().contains(m.ids[p]) && m.paths[m.ids[p]] == p
    &&& forall|id: u64| #[trigger]
        m.paths.dom().contains(id) ==> m.ids.dom().contains(m.paths[id]) && m.ids[m.paths[id]]
            == id
    &&& forall|id: u64| #[trigger]
        m.paths.dom().contains(id) ==> m.inodes.dom().contains(id) && id < m.next
    &&& forall|id: u64| #[trigger] m.inodes.dom().contains(id) ==> m.paths.dom().contains(id)
}

pub open spec fn path_of(m: MapView, id: u64) -> Option<Seq<char>> {
    if m.paths.dom().contains(id) {
        Some(m.paths[id])
    } else {
        None
    }
}

pub open spec fn inode_of(m: MapView, id: u64) -> Option<i64> {
    if m.inodes.dom().contains(id) {
        Some(m.inodes[id])
    } else {
        None
    }
}

impl InodeMap {
    /// The tables of a new server.
    pub fn new() -> (r: Self)
        ensures
            r@ == fresh(),
            agree(r@),
    {
        let mut path_to_ino: StrMap<u64> = StrMap::new();
        path_to_ino.insert("/".to_owned(), ROOT_ID);
        let mut ino_to_path: HashMap<u64, String> = HashMap::new();
        let _ = ino_to_path.insert(ROOT_ID, "/".to_owned());
        let mut ino_to_fs_ino: HashMap<u64, i64> = HashMap::new();
        let _ = ino_to_fs_ino.insert(ROOT_ID, FS_ROOT_INO);
        let r = InodeMap { path_to_ino, ino_to_path, ino_to_fs_ino, next_ino: 2 };
        assert(r@.paths =~= fresh().paths);
        assert(r@.ids =~= fresh().ids);
        assert(r@.inodes =~= fresh().inodes);
        r
    }

    /// The identifier of a path, which is entered if it is not known; its inode
    /// is noted.
    pub fn get_or_create_ino(&mut self, path: &str, fs_ino: i64) -> (r: u64)
        requires
            has_id_left(old(self)@, path@),
        ensures
            r == id_for(old(self)@, path@),
            final(self)@ == entered(old(self)@, path@, fs_ino),
    {
        let ghost before = self@;
        let known: Option<u64> = match self.path_to_ino.get(path) {
            Some(ino) => Some(*ino),
            None => None,
        };
        if let Some(ino) = known {
            let _ = self.ino_to_fs_ino.insert(ino, fs_ino);
            assert(self@ == entered(before, path@, fs_ino));
            return ino;
        }
        let ino: u64 = self.next_ino;
        self.next_ino = ino + 1;
        self.path_to_ino.insert(path.to_owned(), ino);
        let _ = self.ino_to_path.insert(ino, path.to_owned());
        let _ = self.ino_to_fs_ino.insert(ino, fs_ino);
        assert(self@.paths =~= before.paths.insert(ino, path@));
        ino
    }

    /// The path that an identifier stands for.
    pub fn get_path(&self, ino: u64) -> (r: Option<String>)
        ensures
            text::opt(r) == path_of(self@, ino),
    {
        match self.ino_to_path.get(&ino) {
            Some(p) => Some(p.clone()),
            None => None,
        }
    }

    /// The inode that an identifier stands for.
    pub fn get_fs_ino(&self, ino: u64) -> (r: Option<i64>)
        ensures
            r == inode_of(self@, ino),
    {
        match self.ino_to_fs_ino.get(&ino) {
            Some(i) => Some(*i),
            None => None,
        }
    }

    /// Strikes a path out.
    pub fn remove_path(&mut self, path: &str)
        ensures
            final(self)@ == forgotten(old(self)@, path@),
    {
        let ghost before = self@;
        if let Some(ino) = self.path_to_ino.take(path) {
            let _ = self.ino_to_path.remove(&ino);
            let _ = self.ino_to_fs_ino.remove(&ino);
            assert(self@.paths =~= before.paths.remove(ino));
            assert(self@.ids =~= before.ids.remove(path@));
        } else {
            assert(self@.ids =~= before.ids);
        }
    }

    /// Lets a path become another, whose own identifier is struck out.
    pub fn rename_path(&mut self, from: &str, to: &str)
        ensures
            final(self)@ == moved(old(self)@, from@, to@),
            agree(old(self)@) ==> agree(final(self)@),
    {
        let ghost before = self@;
        if let Some(ino) = self.path_to_ino.take(from) {
            self.remove_path(to);
            let _ = self.ino_to_path.insert(ino, to.to_owned());
            self.path_to_ino.insert(to.to_owned(), ino);
            let ghost after = moved(before, from@, to@);
            assert(self@.ids =~= after.ids);
            assert(self@.paths =~= after.paths);
            assert(self@.inodes =~= after.inodes);
        } else {
            assert(self@.ids =~= before.ids);
        }
    }
}

/// Whatever is done to tables that agree, they agree afterwards.
pub proof fn law_tables_agree(m: MapView, path: Seq<char>, to: Seq<char>, fs_ino: i64)
    requires
        agree(m),
    ensures
        has_id_left(m, path) ==> agree(entered(m, path, fs_ino)),
        agree(forgotten(m, path)),
        agree(moved(m, path, to)),
{
}

/// A path that has been entered has an identifier, which stands for it and its
/// inode; entering it again gives the same one and hands no other out.
pub proof fn law_entered_path_keeps_its_id(m: MapView, path: Seq<char>, fs_ino: i64, again: i64)
    requires
        agree(m),
        has_id_left(m, path),
    ensures
        path_of(entered(m, path, fs_ino), id_for(m, path)) == Some(path),
        inode_of(entered(m, path, fs_ino), id_for(m, path)) == Some(fs_ino),
        id_for(entered(m, path, fs_ino), path) == id_for(m, path),
        entered(entered(m, path, fs_ino), path, again).next == entered(m, path, fs_ino).next,
{
}

/// Two paths never share an identifier.
pub proof fn law_ids_tell_paths_apart(m: MapView, a: Seq<char>, b: Seq<char>)
    requires
        agree(m),
        m.ids.dom().contains(a),
        m.ids.dom().contains(b),
        m.ids[a] == m.ids[b],
    ensures
        a == b,
{
}

/// A new identifier was never handed out before: it stands for nothing yet.
pub proof fn law_new_ids_are_fresh(m: MapView, path: Seq<char>)
    requires
        agree(m),
        !m.ids.dom().contains(path),
    ensures
        path_of(m, id_for(m, path)) is None,
        inode_of(m, id_for(m, path)) is None,
{
}

/// Paths and identifiers stand for each other: the path of an identifier has that
/// identifier, and the identifier of a path has that path.
pub proof fn law_paths_and_ids_match(m: MapView, path: Seq<char>, id: u64)
    requires
        agree(m),
    ensures
        path_of(m, id) == Some(path) <==> (m.ids.dom().contains(path) && m.ids[path] == id),
        path_of(m, id) is Some <==> inode_of(m, id) is Some,
{
}

/// What has been moved keeps its identifier and its inode under the new path, and
/// what the new path stood for before is not known any more.
pub proof fn law_moved_path_keeps_its_id(m: MapView, from: Seq<char>, to: Seq<char>)
    requires
        agree(m),
        m.ids.dom().contains(from),
    ensures
        moved(m, from, to).ids.dom().contains(to),
        moved(m, from, to).ids[to] == m.ids[from],
        path_of(moved(m, from, to), m.ids[from]) == Some(to),
        inode_of(moved(m, from, to), m.ids[from]) == inode_of(m, m.ids[from]),
        from != to ==> !moved(m, from, to).ids.dom().contains(from),
        from != to && m.ids.dom().contains(to) ==> path_of(moved(m, from, to), m.ids[to]) is None
            && inode_of(moved(m, from, to), m.ids[to]) is None,
{
}

/// What has been removed is not known any more, neither by its path nor by its
/// identifier, and all other paths keep theirs.
pub proof fn law_forgotten_path_is_unknown(m: MapView, path: Seq<char>, other: Seq<char>)
    requires
        agree(m),
        m.ids.dom().contains(path),
        m.ids.dom().contains(other),
        path != other,
    ensures
        !forgotten(m, path).ids.dom().contains(path),
        path_of(forgotten(m, path), m.ids[path]) is None,
        inode_of(forgotten(m, path), m.ids[path]) is None,
        forgotten(m, path).ids[other] == m.ids[other],
        path_of(forgotten(m, path), m.ids[other]) == Some(other),
        inode_of(forgotten(m, path), m.ids[other]) == inode_of(m, m.ids[other]),
{
}

} // verus!
