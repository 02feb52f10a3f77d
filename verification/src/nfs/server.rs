//! The adapter: starts of operations, directory listings, and what operations
//! leave in the table of identifiers.

use crate::nfs::attr;
use crate::nfs::attr::{Device, Fattr, FileKind, NfsStat};
use crate::nfs::ids;
use crate::nfs::ids::{InodeMap, MapView};
use crate::nfs::ops;
use crate::nfs::ops::{Auth, End, Job, JobView, NfsEnd, NfsJob, Place, PlaceView, SetAttr};
use crate::nodes::{NodeEntry, NodeEntryView};
use crate::paths;
use crate::plan;
use crate::text;
use vstd::prelude::*;
use vstd::string::*;

verus! {

/// A line of a directory listing.
#[derive(Debug)]
pub struct DirLine<S> {
    pub fileid: u64,
    pub name: S,
    pub attr: Fattr,
}

pub type DirLineView = DirLine<Seq<char>>;

impl View for DirLine<String> {
    type V = DirLineView;

    open spec fn view(&self) -> DirLineView {
        DirLine { fileid: self.fileid, name: self.name@, attr: self.attr }
    }
}

/// A part of a directory listing. `end` says that nothing is left.
#[derive(Debug)]
pub struct ReadDirResult {
    pub entries: Vec<DirLine<String>>,
    pub end: bool,
}

/// How far a listing has got.
pub struct Progress {
    pub map: MapView,
    /// The line after which the listing starts has not been met yet.
    pub skip: bool,
    pub skipped: nat,
    pub out: Seq<DirLineView>,
    /// There is no room for more.
    pub full: bool,
}

/// The line of an entry.
pub open spec fn line_of(m: MapView, dir: Seq<char>, e: NodeEntryView) -> DirLineView {
    let id = ids::id_for(m, paths::child(dir, e.name));
    DirLine { fileid: id, name: e.name, attr: attr::attr_of(e.node, id) }
}

/// One entry of a listing: it is entered, and then passed over, found not to fit,
/// or listed.
pub open spec fn advance(
    p: Progress,
    dir: Seq<char>,
    e: NodeEntryView,
    start_after: u64,
    max_entries: usize,
) -> Progress {
    let path = paths::child(dir, e.name);
    let map = ids::entered(p.map, path, e.node.stats.ino);
    if p.full {
        p
    } else if p.skip {
        Progress {
            map,
            skip: ids::id_for(p.map, path) != start_after,
            skipped: p.skipped + 1,
            ..p
        }
    } else if p.out.len() >= max_entries {
        Progress { map, full: true, ..p }
    } else {
        Progress { map, out: p.out.push(line_of(p.map, dir, e)), ..p }
    }
}

/// A listing after its first `n` entries.
pub open spec fn progress(
    m: MapView,
    dir: Seq<char>,
    entries: Seq<NodeEntryView>,
    n: int,
    start_after: u64,
    max_entries: usize,
) -> Progress
    decreases n,
{
    if n <= 0 {
        Progress { map: m, skip: start_after > 0, skipped: 0, out: Seq::empty(), full: false }
    } else {
        advance(
            progress(m, dir, entries, n - 1, start_after, max_entries),
            dir,
            entries[n - 1],
            start_after,
            max_entries,
        )
    }
}

/// There is an identifier left for every entry that the listing enters.
pub open spec fn ids_suffice(
    m: MapView,
    dir: Seq<char>,
    entries: Seq<NodeEntryView>,
    start_after: u64,
    max_entries: usize,
) -> bool {
    forall|i: int|
        0 <= i < entries.len() ==> {
            let p = #[trigger] progress(m, dir, entries, i, start_after, max_entries);
            p.full || ids::has_id_left(p.map, paths::child(dir, entries[i].name))
        }
}

/// What the client is answered. `AttrOf` says that the attributes of the file
/// with this identifier are to be got; a new file is named along with them.
#[derive(Debug)]
pub enum Answer {
    Attr(Fattr),
    AttrOf { id: u64, new: bool },
    Id(u64),
    Done,
    Data { data: Vec<u8>, eof: bool },
    Target { target: String },
    Listing(ReadDirResult),
}

pub open spec fn job_result(r: Result<NfsJob, NfsStat>) -> Result<JobView, NfsStat> {
    match r {
        Ok(j) => Ok(j@),
        Err(e) => Err(e),
    }
}

/// The inode with an identifier, which has to be known.
pub open spec fn known(m: MapView, id: u64) -> Result<i64, NfsStat> {
    match ids::inode_of(m, id) {
        Some(i) => Ok(i),
        None => Err(NfsStat::NoEntry),
    }
}

/// The path and the inode with an identifier, which has to be known.
pub open spec fn known_dir(m: MapView, id: u64) -> Result<(Seq<char>, i64), NfsStat> {
    match (ids::path_of(m, id), ids::inode_of(m, id)) {
        (Some(p), Some(i)) => Ok((p, i)),
        _ => Err(NfsStat::NoEntry),
    }
}

/// The entry `name` of the directory `dirid`.
pub open spec fn place(m: MapView, dirid: u64, name: Seq<u8>) -> Result<PlaceView, NfsStat> {
    match known_dir(m, dirid) {
        Err(e) => Err(e),
        Ok(d) => match text::utf8(name) {
            None => Err(NfsStat::Invalid),
            Some(name) => Ok(Place { dir: d.1, name, path: paths::child(d.0, name) }),
        },
    }
}

/// A job on an entry of a directory.
pub open spec fn on_place(
    p: Result<PlaceView, NfsStat>,
    job: spec_fn(PlaceView) -> JobView,
) -> Result<JobView, NfsStat> {
    match p {
        Ok(p) => Ok(job(p)),
        Err(e) => Err(e),
    }
}

/// A job on an inode.
pub open spec fn on_inode(i: Result<i64, NfsStat>, job: spec_fn(i64) -> JobView) -> Result<
    JobView,
    NfsStat,
> {
    match i {
        Ok(i) => Ok(job(i)),
        Err(e) => Err(e),
    }
}

/// What a lookup starts with: an identifier that is known, or a job.
#[derive(Debug)]
pub enum Start<J> {
    Known(u64),
    Job(J),
}

pub open spec fn start_result(r: Result<Start<NfsJob>, NfsStat>) -> Result<
    Start<JobView>,
    NfsStat,
> {
    match r {
        Ok(Start::Known(id)) => Ok(Start::Known(id)),
        Ok(Start::Job(j)) => Ok(Start::Job(j@)),
        Err(e) => Err(e),
    }
}

/// How a lookup starts: `.` is the directory itself, `..` the one above it.
pub open spec fn lookup_start(m: MapView, dirid: u64, name: Seq<u8>) -> Result<
    Start<JobView>,
    NfsStat,
> {
    match place(m, dirid, name) {
        Err(e) => Err(e),
        Ok(at) => if at.name == "."@ {
            Ok(Start::Known(dirid))
        } else if at.name == ".."@ {
            Ok(Start::Job(Job::Resolve { path: paths::directory(m.paths[dirid]) }))
        } else {
            Ok(Start::Job(Job::Lookup { at }))
        },
    }
}

/// The adapter.
pub struct AgentNFS {
    pub map: InodeMap,
}

impl AgentNFS {
    /// An adapter that knows the root.
    pub fn new() -> (r: Self)
        ensures
            r.map@ == ids::fresh(),
    {
        AgentNFS { map: InodeMap::new() }
    }

    /// The identifier of the root.
    pub fn root_dir(&self) -> (r: u64)
        ensures
            r == ids::ROOT_ID,
    {
        ids::ROOT_ID
    }

    fn inode(&self, id: u64) -> (r: Result<i64, NfsStat>)
        ensures
            r == known(self.map@, id),
    {
        match self.map.get_fs_ino(id) {
            Some(i) => Ok(i),
            None => Err(NfsStat::NoEntry),
        }
    }

    fn directory(&self, id: u64) -> (r: Result<(String, i64), NfsStat>)
        ensures
            match r {
                Ok(d) => known_dir(self.map@, id) == Ok::<(Seq<char>, i64), NfsStat>((d.0@, d.1)),
                Err(e) => known_dir(self.map@, id) == Err::<(Seq<char>, i64), NfsStat>(e),
            },
    {
        match self.map.get_path(id) {
            None => Err(NfsStat::NoEntry),
            Some(p) => match self.map.get_fs_ino(id) {
                None => Err(NfsStat::NoEntry),
                Some(i) => Ok((p, i)),
            },
        }
    }

    fn place(&self, dirid: u64, name: &[u8]) -> (r: Result<Place<String>, NfsStat>)
        ensures
            match r {
                Ok(p) => place(self.map@, dirid, name@) == Ok::<PlaceView, NfsStat>(p@),
                Err(e) => place(self.map@, dirid, name@) == Err::<PlaceView, NfsStat>(e),
            },
    {
        match self.directory(dirid) {
            Err(e) => Err(e),
            Ok(d) => match text::utf8_text(name) {
                None => Err(NfsStat::Invalid),
                Some(n) => {
                    let path = paths::join_path(d.0.as_str(), n.as_str());
                    Ok(Place { dir: d.1, name: n, path })
                },
            },
        }
    }

    /// Starts to look a name up in a directory.
    pub fn lookup(&self, dirid: u64, filename: &[u8]) -> (r: Result<Start<NfsJob>, NfsStat>)
        ensures
            start_result(r) == lookup_start(self.map@, dirid, filename@),
    {
        let at = match self.place(dirid, filename) {
            Err(e) => {
                return Err(e);
            },
            Ok(at) => at,
        };
        if text::same(at.name.as_str(), ".") {
            return Ok(Start::Known(dirid));
        }
        if text::same(at.name.as_str(), "..") {
            return match self.map.get_path(dirid) {
                Some(p) => Ok(Start::Job(Job::Resolve { path: paths::parent_path(p.as_str()) })),
                None => Err(NfsStat::NoEntry),
            };
        }
        Ok(Start::Job(Job::Lookup { at }))
    }

    /// Starts to get attributes.
    pub fn getattr(&self, id: u64) -> (r: Result<NfsJob, NfsStat>)
        ensures
            job_result(r) == on_inode(
                known(self.map@, id),
                |ino: i64| Job::GetAttr { id, ino },
            ),
    {
        match self.inode(id) {
            Ok(ino) => Ok(Job::GetAttr { id, ino }),
            Err(e) => Err(e),
        }
    }

    /// Starts to change attributes.
    pub fn setattr(&self, id: u64, change: SetAttr) -> (r: Result<NfsJob, NfsStat>)
        ensures
            job_result(r) == on_inode(
                known(self.map@, id),
                |ino: i64| Job::SetAttr { id, ino, change },
            ),
    {
        match self.inode(id) {
            Ok(ino) => Ok(Job::SetAttr { id, ino, change }),
            Err(e) => Err(e),
        }
    }

    /// Starts to read.
    pub fn read(&self, id: u64, offset: u64, count: u32) -> (r: Result<NfsJob, NfsStat>)
        ensures
            job_result(r) == on_inode(
                known(self.map@, id),
                |ino: i64| Job::Read { ino, offset, count },
            ),
    {
        match self.inode(id) {
            Ok(ino) => Ok(Job::Read { ino, offset, count }),
            Err(e) => Err(e),
        }
    }

    /// Starts to write.
    pub fn write(&self, id: u64, offset: u64, data: Vec<u8>) -> (r: Result<NfsJob, NfsStat>)
        ensures
            job_result(r) == on_inode(
                known(self.map@, id),
                |ino: i64| Job::Write { id, ino, offset, data: data@ },
            ),
    {
        match self.inode(id) {
            Ok(ino) => Ok(Job::Write { id, ino, offset, data }),
            Err(e) => Err(e),
        }
    }

    /// Starts to create a file, with the mode that is asked for.
    pub fn create(&self, dirid: u64, filename: &[u8], mode: Option<u32>, auth: Auth) -> (r: Result<
        NfsJob,
        NfsStat,
    >)
        ensures
            job_result(r) == on_place(
                place(self.map@, dirid, filename@),
                |at: PlaceView|
                    Job::Create { at, mode: attr::permissions(mode, 0o644), auth },
            ),
    {
        match self.place(dirid, filename) {
            Ok(at) => Ok(Job::Create { at, mode: attr::permissions_for(mode, 0o644), auth }),
            Err(e) => Err(e),
        }
    }

    /// Starts to create a file that must not be there yet.
    pub fn create_exclusive(&self, dirid: u64, filename: &[u8], auth: Auth) -> (r: Result<
        NfsJob,
        NfsStat,
    >)
        ensures
            job_result(r) == on_place(
                place(self.map@, dirid, filename@),
                |at: PlaceView| Job::CreateExclusive { at, auth },
            ),
    {
        match self.place(dirid, filename) {
            Ok(at) => Ok(Job::CreateExclusive { at, auth }),
            Err(e) => Err(e),
        }
    }

    /// Starts to make a directory, with the mode that is asked for.
    pub fn mkdir(&self, dirid: u64, dirname: &[u8], mode: Option<u32>, auth: Auth) -> (r: Result<
        NfsJob,
        NfsStat,
    >)
        ensures
            job_result(r) == on_place(
                place(self.map@, dirid, dirname@),
                |at: PlaceView|
                    Job::MkDir { at, mode: attr::permissions(mode, 0o755), auth },
            ),
    {
        match self.place(dirid, dirname) {
            Ok(at) => Ok(Job::MkDir { at, mode: attr::permissions_for(mode, 0o755), auth }),
            Err(e) => Err(e),
        }
    }

    /// Starts to make a device, a socket or a pipe; nothing else can be made this
    /// way.
    pub fn mknod(
        &self,
        dirid: u64,
        filename: &[u8],
        kind: FileKind,
        mode: Option<u32>,
        rdev: Device,
        auth: Auth,
    ) -> (r: Result<NfsJob, NfsStat>)
        ensures
            job_result(r) == match place(self.map@, dirid, filename@) {
                Err(e) => Err::<JobView, NfsStat>(e),
                Ok(at) => match attr::node_type(kind) {
                    None => Err(NfsStat::BadType),
                    Some(bits) => Ok(
                        JobView::MkNod {
                            at,
                            mode: bits | attr::permissions(mode, 0o644),
                            rdev: attr::device_number(rdev.major, rdev.minor),
                            auth,
                        },
                    ),
                },
            },
    {
        match self.place(dirid, filename) {
            Err(e) => Err(e),
            Ok(at) => match attr::type_bits(kind) {
                None => Err(NfsStat::BadType),
                Some(bits) => Ok(
                    Job::MkNod {
                        at,
                        mode: bits | attr::permissions_for(mode, 0o644),
                        rdev: attr::number_of(rdev),
                        auth,
                    },
                ),
            },
        }
    }

    /// Starts to make a symbolic link.
    pub fn symlink(&self, dirid: u64, linkname: &[u8], target: &[u8], auth: Auth) -> (r: Result<
        NfsJob,
        NfsStat,
    >)
        ensures
            job_result(r) == match place(self.map@, dirid, linkname@) {
                Err(e) => Err::<JobView, NfsStat>(e),
                Ok(at) => match text::utf8(target@) {
                    None => Err(NfsStat::Invalid),
                    Some(target) => Ok(JobView::SymLink { at, target, auth }),
                },
            },
    {
        match self.place(dirid, linkname) {
            Err(e) => Err(e),
            Ok(at) => match text::utf8_text(target) {
                None => Err(NfsStat::Invalid),
                Some(target) => Ok(Job::SymLink { at, target, auth }),
            },
        }
    }

    /// Starts to remove an entry.
    pub fn remove(&self, dirid: u64, filename: &[u8]) -> (r: Result<NfsJob, NfsStat>)
        ensures
            job_result(r) == on_place(
                place(self.map@, dirid, filename@),
                |at: PlaceView| Job::Remove { at },
            ),
    {
        match self.place(dirid, filename) {
            Ok(at) => Ok(Job::Remove { at }),
            Err(e) => Err(e),
        }
    }

    /// Starts to move an entry. Both directories have to be known before the
    /// names are looked at.
    pub fn rename(
        &self,
        from_dirid: u64,
        from_filename: &[u8],
        to_dirid: u64,
        to_filename: &[u8],
    ) -> (r: Result<NfsJob, NfsStat>)
        ensures
            job_result(r) == if known_dir(self.map@, from_dirid) is Err || known_dir(
                self.map@,
                to_dirid,
            ) is Err {
                Err::<JobView, NfsStat>(NfsStat::NoEntry)
            } else {
                match (
                    place(self.map@, from_dirid, from_filename@),
                    place(self.map@, to_dirid, to_filename@),
                ) {
                    (Ok(from), Ok(to)) => Ok(JobView::Rename { from, to }),
                    _ => Err(NfsStat::Invalid),
                }
            },
    {
        if let Err(e) = self.directory(from_dirid) {
            return Err(e);
        }
        if let Err(e) = self.directory(to_dirid) {
            return Err(e);
        }
        match self.place(from_dirid, from_filename) {
            Err(e) => Err(e),
            Ok(from) => match self.place(to_dirid, to_filename) {
                Err(e) => Err(e),
                Ok(to) => Ok(Job::Rename { from, to }),
            },
        }
    }

    /// Starts to list a directory.
    pub fn readdir(&self, dirid: u64, start_after: u64, max_entries: usize) -> (r: Result<
        NfsJob,
        NfsStat,
    >)
        ensures
            job_result(r) == match known_dir(self.map@, dirid) {
                Err(e) => Err::<JobView, NfsStat>(e),
                Ok(d) => Ok(
                    JobView::ReadDir { dir: d.1, path: d.0, start_after, max_entries },
                ),
            },
    {
        match self.directory(dirid) {
            Err(e) => Err(e),
            Ok(d) => Ok(Job::ReadDir { dir: d.1, path: d.0, start_after, max_entries }),
        }
    }

    /// Starts to read a symbolic link.
    pub fn readlink(&self, id: u64) -> (r: Result<NfsJob, NfsStat>)
        ensures
            job_result(r) == on_inode(known(self.map@, id), |ino: i64| Job::ReadLink { ino }),
    {
        match self.inode(id) {
            Ok(ino) => Ok(Job::ReadLink { ino }),
            Err(e) => Err(e),
        }
    }

    /// Lists the entries of the directory at `dir` after the one with the
    /// identifier `start_after`, at most `max_entries` of them. All entries that
    /// are looked at are entered in the table.
    pub fn list(
        &mut self,
        dir: &str,
        entries: &Vec<NodeEntry<String>>,
        start_after: u64,
        max_entries: usize,
    ) -> (r: ReadDirResult)
        requires
            ids_suffice(
                old(self).map@,
                dir@,
                plan::views(entries@),
                start_after,
                max_entries,
            ),
        ensures
            ({
                let p = progress(
                    old(self).map@,
                    dir@,
                    plan::views(entries@),
                    entries@.len() as int,
                    start_after,
                    max_entries,
                );
                &&& final(self).map@ == p.map
                &&& plan::views(r.entries@) == p.out
                &&& r.end == (p.out.len() + p.skipped >= entries@.len())
            }),
    {
        let ghost m = self.map@;
        let ghost seen = plan::views(entries@);
        let ghost n = entries@.len() as int;
        let mut out: Vec<DirLine<String>> = Vec::new();
        let mut skip = start_after > 0;
        let mut skipped: usize = 0;
        let mut full = false;
        let mut i: usize = 0;
        assert(plan::views(out@) =~= Seq::<DirLineView>::empty());
        while i < entries.len() && !full
            invariant
                i <= entries@.len(),
                seen == plan::views(entries@),
                n == entries@.len(),
                ids_suffice(m, dir@, seen, start_after, max_entries),
                skipped + out@.len() <= i,
                ({
                    let p = progress(m, dir@, seen, i as int, start_after, max_entries);
                    &&& self.map@ == p.map
                    &&& skip == p.skip
                    &&& skipped == p.skipped
                    &&& plan::views(out@) == p.out
                    &&& full == p.full
                }),
            decreases entries@.len() - i,
        {
            let e = &entries[i];
            assert(seen[i as int] == e@);
            let ghost before = progress(m, dir@, seen, i as int, start_after, max_entries);
            let path = paths::join_path(dir, e.name.as_str());
            let id = self.map.get_or_create_ino(path.as_str(), e.node.stats.ino);
            if skip {
                if id == start_after {
                    skip = false;
                }
                skipped = skipped + 1;
            } else if out.len() >= max_entries {
                full = true;
            } else {
                let ghost lines = plan::views(out@);
                out.push(
                    DirLine {
                        fileid: id,
                        name: e.name.clone(),
                        attr: attr::stats_to_fattr(&e.node, id),
                    },
                );
                assert(plan::views(out@) =~= lines.push(line_of(before.map, dir@, e@)));
            }
            i = i + 1;
        }
        proof {
            lemma_full_stays(m, dir@, seen, i as int, n, start_after, max_entries);
        }
        let end = out.len() + skipped >= entries.len();
        ReadDirResult { entries: out, end }
    }

    /// Carries the end of an operation out.
    pub fn finish(&mut self, end: NfsEnd) -> (r: Answer)
        requires
            match end@ {
                End::Enter { path, .. } => ids::has_id_left(old(self).map@, path),
                End::List { path, entries, start_after, max_entries } => ids_suffice(
                    old(self).map@,
                    path,
                    entries,
                    start_after,
                    max_entries,
                ),
                _ => true,
            },
        ensures
            match end@ {
                End::Attr(a) => r == Answer::Attr(a) && final(self).map@ == old(self).map@,
                End::AttrOf { id } => r == (Answer::AttrOf { id, new: false }) && final(self).map@
                    == old(self).map@,
                End::Enter { path, ino, attr } => {
                    let id = ids::id_for(old(self).map@, path);
                    &&& r == if attr {
                        Answer::AttrOf { id, new: true }
                    } else {
                        Answer::Id(id)
                    }
                    &&& final(self).map@ == ids::entered(old(self).map@, path, ino)
                },
                End::Forget { path } => r is Done && final(self).map@ == ids::forgotten(
                    old(self).map@,
                    path,
                ),
                End::Move { from, to } => r is Done && final(self).map@ == ids::moved(
                    old(self).map@,
                    from,
                    to,
                ),
                End::Data { data, eof } => {
                    &&& final(self).map@ == old(self).map@
                    &&& r matches Answer::Data { data: d, eof: e } && d@ == data && e == eof
                },
                End::Target { target } => {
                    &&& final(self).map@ == old(self).map@
                    &&& r matches Answer::Target { target: t } && t@ == target
                },
                End::List { path, entries, start_after, max_entries } => {
                    let p = progress(
                        old(self).map@,
                        path,
                        entries,
                        entries.len() as int,
                        start_after,
                        max_entries,
                    );
                    &&& final(self).map@ == p.map
                    &&& r matches Answer::Listing(l) && plan::views(l.entries@) == p.out && l.end
                        == (p.out.len() + p.skipped >= entries.len())
                },
            },
    {
        match end {
            End::Attr(a) => Answer::Attr(a),
            End::AttrOf { id } => Answer::AttrOf { id, new: false },
            End::Enter { path, ino, attr } => {
                let id = self.map.get_or_create_ino(path.as_str(), ino);
                if attr {
                    Answer::AttrOf { id, new: true }
                } else {
                    Answer::Id(id)
                }
            },
            End::Forget { path } => {
                self.map.remove_path(path.as_str());
                Answer::Done
            },
            End::Move { from, to } => {
                self.map.rename_path(from.as_str(), to.as_str());
                Answer::Done
            },
            End::Data { data, eof } => Answer::Data { data, eof },
            End::Target { target } => Answer::Target { target },
            End::List { path, entries, start_after, max_entries } => Answer::Listing(
                self.list(path.as_str(), entries, start_after, max_entries),
            ),
        }
    }
}

/// A listing never lacks an identifier where as many are left as it has entries.
pub proof fn law_listing_has_ids(
    m: MapView,
    dir: Seq<char>,
    entries: Seq<NodeEntryView>,
    start_after: u64,
    max_entries: usize,
)
    requires
        m.next + entries.len() <= u64::MAX,
    ensures
        ids_suffice(m, dir, entries, start_after, max_entries),
{
    assert forall|i: int| 0 <= i < entries.len() implies {
        let p = #[trigger] progress(m, dir, entries, i, start_after, max_entries);
        p.full || ids::has_id_left(p.map, paths::child(dir, entries[i].name))
    } by {
        lemma_ids_taken(m, dir, entries, i, start_after, max_entries);
    }
}

proof fn lemma_ids_taken(
    m: MapView,
    dir: Seq<char>,
    entries: Seq<NodeEntryView>,
    n: int,
    start_after: u64,
    max_entries: usize,
)
    requires
        0 <= n <= entries.len(),
        m.next + entries.len() <= u64::MAX,
    ensures
        progress(m, dir, entries, n, start_after, max_entries).map.next <= m.next + n,
    decreases n,
{
    if n > 0 {
        lemma_ids_taken(m, dir, entries, n - 1, start_after, max_entries);
    }
}

/// Once a listing is full, or at its end, it does not change any more.
proof fn lemma_full_stays(
    m: MapView,
    dir: Seq<char>,
    entries: Seq<NodeEntryView>,
    i: int,
    n: int,
    start_after: u64,
    max_entries: usize,
)
    requires
        0 <= i <= n,
        i < n ==> progress(m, dir, entries, i, start_after, max_entries).full,
    ensures
        progress(m, dir, entries, n, start_after, max_entries) == progress(
            m,
            dir,
            entries,
            i,
            start_after,
            max_entries,
        ),
    decreases n - i,
{
    if i < n {
        lemma_full_stays(m, dir, entries, i, n - 1, start_after, max_entries);
    }
}

} // verus!
