//! The handlers of the kernel's requests. A request starts against the tables
//! of paths and open files, asks the file system what it needs, and ends with
//! an answer and changes of the tables.

use crate::errno::Errno;
use crate::fuse::calls;
use crate::fuse::calls::{
    Answer, AnswerView, Edit, FsCallView, FsReplyView, KernelAnswer, OutcomeView,
};
use crate::paths;
use crate::plan;
use crate::plan::Plan;
use crate::text;
use std::collections::HashMap;
use vstd::prelude::*;
use vstd::string::*;

verus! {

broadcast use {crate::plan::group_after, vstd::std_specs::hash::group_hash_axioms};

pub type FusePlan = Plan<FsCallView, FsReplyView, OutcomeView>;

/// The size of a block.
pub const BLOCK_SIZE: u64 = 4096;

/// How many blocks there seem to be.
pub const TOTAL_BLOCKS: u64 = 1073741824;

/// How many inodes there seem to be.
pub const TOTAL_INODES: u64 = 1000000;

/// How long a name may be.
pub const MAX_NAMELEN: u32 = 255;

/// Options for mounting.
#[derive(Debug, Clone)]
pub struct FuseMountOptions {
    /// Where to mount.
    pub mountpoint: String,
    /// Unmount when the process ends.
    pub auto_unmount: bool,
    /// Let root use the file system.
    pub allow_root: bool,
    /// The name that is shown for the file system.
    pub fsname: String,
    /// The owner of all files, by default the current user.
    pub uid: Option<u32>,
    /// The group of all files, by default that of the current user.
    pub gid: Option<u32>,
}

/// An option that the kernel is told when mounting.
#[derive(Debug)]
pub enum MountOption<S> {
    FSName(S),
    AutoUnmount,
    AllowRoot,
}

impl View for MountOption<String> {
    type V = MountOption<Seq<char>>;

    open spec fn view(&self) -> MountOption<Seq<char>> {
        match self {
            MountOption::FSName(s) => MountOption::FSName(s@),
            MountOption::AutoUnmount => MountOption::AutoUnmount,
            MountOption::AllowRoot => MountOption::AllowRoot,
        }
    }
}

/// What the kernel is asked to let the file system do.
#[derive(Debug, Clone, Copy, PartialEq, Eq, Structural)]
pub enum Capability {
    AsyncRead,
    WritebackCache,
    ParallelDirops,
    CacheSymlinks,
    NoOpendirSupport,
}

/// What the kernel is asked to let the file system do.
pub fn wanted_capabilities() -> (r: Vec<Capability>)
    ensures
        r@ == seq![
            Capability::AsyncRead,
            Capability::WritebackCache,
            Capability::ParallelDirops,
            Capability::CacheSymlinks,
            Capability::NoOpendirSupport,
        ],
{
    let mut out: Vec<Capability> = Vec::new();
    out.push(Capability::AsyncRead);
    out.push(Capability::WritebackCache);
    out.push(Capability::ParallelDirops);
    out.push(Capability::CacheSymlinks);
    out.push(Capability::NoOpendirSupport);
    out
}

/// The options that the kernel is told.
pub open spec fn option_list(fsname: Seq<char>, auto_unmount: bool, allow_root: bool) -> Seq<
    MountOption<Seq<char>>,
> {
    seq![MountOption::FSName(fsname)] + (if auto_unmount {
        seq![MountOption::<Seq<char>>::AutoUnmount]
    } else {
        Seq::empty()
    }) + (if allow_root {
        seq![MountOption::<Seq<char>>::AllowRoot]
    } else {
        Seq::empty()
    })
}

impl FuseMountOptions {
    /// The options that the kernel is told.
    pub fn mount_options(&self) -> (r: Vec<MountOption<String>>)
        ensures
            plan::views(r@) == option_list(self.fsname@, self.auto_unmount, self.allow_root),
    {
        let mut out: Vec<MountOption<String>> = Vec::new();
        out.push(MountOption::FSName(self.fsname.clone()));
        if self.auto_unmount {
            out.push(MountOption::AutoUnmount);
        }
        if self.allow_root {
            out.push(MountOption::AllowRoot);
        }
        assert(plan::views(out@) =~= option_list(self.fsname@, self.auto_unmount, self.allow_root));
        out
    }

    /// The owner and the group of all files, given the current ones.
    pub fn owner(&self, uid: u32, gid: u32) -> (r: (u32, u32))
        ensures
            r.0 == (match self.uid {
                Some(u) => u,
                None => uid,
            }),
            r.1 == (match self.gid {
                Some(g) => g,
                None => gid,
            }),
    {
        let u: u32 = match self.uid {
            Some(u) => u,
            None => uid,
        };
        let g: u32 = match self.gid {
            Some(g) => g,
            None => gid,
        };
        (u, g)
    }
}

/// What the table of paths holds.
pub open spec fn path_views(m: Map<u64, String>) -> Map<u64, Seq<char>> {
    m.map_values(|s: String| s@)
}

/// The tables of the adapter: the path of each inode that the kernel knows, and
/// the open files by handle.
#[verifier::reject_recursive_types(F)]
pub struct AgentFSFuse<F> {
    pub path_cache: HashMap<u64, String>,
    pub open_files: HashMap<u64, F>,
    pub next_fh: u64,
    pub uid: u32,
    pub gid: u32,
}

/// What the tables hold.
#[verifier::reject_recursive_types(F)]
pub struct FuseView<F> {
    pub paths: Map<u64, Seq<char>>,
    pub open: Map<u64, F>,
    pub next_fh: u64,
    pub uid: u32,
    pub gid: u32,
}

impl<F> View for AgentFSFuse<F> {
    type V = FuseView<F>;

    open spec fn view(&self) -> FuseView<F> {
        FuseView {
            paths: path_views(self.path_cache@),
            open: self.open_files@,
            next_fh: self.next_fh,
            uid: self.uid,
            gid: self.gid,
        }
    }
}

/// The table of paths after a change.
pub open spec fn edited(paths: Map<u64, Seq<char>>, edit: Edit<Seq<char>>) -> Map<u64, Seq<char>> {
    match edit {
        Edit::Insert { ino, path } => paths.insert(ino, path),
        Edit::Remove { ino } => paths.remove(ino),
    }
}

/// The table of paths after changes, one after the other.
pub open spec fn edited_all(paths: Map<u64, Seq<char>>, edits: Seq<Edit<Seq<char>>>) -> Map<
    u64,
    Seq<char>,
>
    decreases edits.len(),
{
    if edits.len() == 0 {
        paths
    } else {
        edited(edited_all(paths, edits.drop_last()), edits.last())
    }
}

/// The path of `name` in the directory `parent`, if the directory is known and
/// the name is text.
pub open spec fn looked_up(
    paths: Map<u64, Seq<char>>,
    parent: u64,
    name: Option<Seq<char>>,
) -> Option<Seq<char>> {
    if paths.dom().contains(parent) && name is Some {
        Some(paths::child(paths[parent], name->0))
    } else {
        None
    }
}

/// A request under way, with all it needs from the tables.
#[derive(Debug)]
pub enum Job<S, B> {
    Lookup { path: S },
    GetAttr { path: S },
    ReadLink { path: S },
    /// `fh` is the handle of an open file.
    SetAttr { path: S, size: Option<u64>, fh: Option<u64> },
    ReadDir { ino: u64, path: S, offset: i64 },
    ReadDirPlus { ino: u64, path: S, offset: i64 },
    MkDir { path: S },
    RmDir { path: S },
    Create { path: S },
    SymLink { path: S, target: S },
    Unlink { path: S },
    Rename { from: S, to: S },
    Open { path: S },
    Read { fh: u64, offset: i64, size: u32 },
    Write { fh: u64, offset: i64, data: B },
    FSync { fh: u64 },
    StatFs,
}

pub type JobView = Job<Seq<char>, Seq<u8>>;

pub type FuseJob = Job<String, Vec<u8>>;

impl View for Job<String, Vec<u8>> {
    type V = JobView;

    open spec fn view(&self) -> JobView {
        match self {
            Job::Lookup { path } => Job::Lookup { path: path@ },
            Job::GetAttr { path } => Job::GetAttr { path: path@ },
            Job::ReadLink { path } => Job::ReadLink { path: path@ },
            Job::SetAttr { path, size, fh } => Job::SetAttr {
                path: path@,
                size: *size,
                fh: *fh,
            },
            Job::ReadDir { ino, path, offset } => Job::ReadDir {
                ino: *ino,
                path: path@,
                offset: *offset,
            },
            Job::ReadDirPlus { ino, path, offset } => Job::ReadDirPlus {
                ino: *ino,
                path: path@,
                offset: *offset,
            },
            Job::MkDir { path } => Job::MkDir { path: path@ },
            Job::RmDir { path } => Job::RmDir { path: path@ },
            Job::Create { path } => Job::Create { path: path@ },
            Job::SymLink { path, target } => Job::SymLink { path: path@, target: target@ },
            Job::Unlink { path } => Job::Unlink { path: path@ },
            Job::Rename { from, to } => Job::Rename { from: from@, to: to@ },
            Job::Open { path } => Job::Open { path: path@ },
            Job::Read { fh, offset, size } => Job::Read {
                fh: *fh,
                offset: *offset,
                size: *size,
            },
            Job::Write { fh, offset, data } => Job::Write {
                fh: *fh,
                offset: *offset,
                data: data@,
            },
            Job::FSync { fh } => Job::FSync { fh: *fh },
            Job::StatFs => Job::StatFs,
        }
    }
}

pub open spec fn job_result(r: Result<FuseJob, Errno>) -> Result<JobView, Errno> {
    match r {
        Ok(j) => Ok(j@),
        Err(e) => Err(e),
    }
}

/// A job on a path, or the error of a path that is not known.
pub open spec fn on_path(path: Option<Seq<char>>, job: spec_fn(Seq<char>) -> JobView) -> Result<
    JobView,
    Errno,
> {
    match path {
        Some(p) => Ok(job(p)),
        None => Err(Errno::NoEntry),
    }
}

/// A job on an open file, or the error of a handle that is not known.
pub open spec fn on_handle(open: bool, job: JobView) -> Result<JobView, Errno> {
    if open {
        Ok(job)
    } else {
        Err(Errno::BadHandle)
    }
}

pub open spec fn path_of<F>(v: FuseView<F>, ino: u64) -> Option<Seq<char>> {
    if v.paths.dom().contains(ino) {
        Some(v.paths[ino])
    } else {
        None
    }
}

impl<F> AgentFSFuse<F> {
    /// Tables that know no path.
    pub fn new(uid: u32, gid: u32) -> (r: Self)
        ensures
            r@.paths == Map::<u64, Seq<char>>::empty(),
            r@.open == Map::<u64, F>::empty(),
            r@.next_fh == 1,
            r@.uid == uid,
            r@.gid == gid,
    {
        let r = AgentFSFuse {
            path_cache: HashMap::new(),
            open_files: HashMap::new(),
            next_fh: 1,
            uid,
            gid,
        };
        assert(r@.paths =~= Map::<u64, Seq<char>>::empty());
        r
    }

    /// Tables that know the root.
    pub fn mounted(uid: u32, gid: u32) -> (r: Self)
        ensures
            r@.paths == Map::<u64, Seq<char>>::empty().insert(1u64, "/"@),
            r@.open == Map::<u64, F>::empty(),
            r@.next_fh == 1,
            r@.uid == uid,
            r@.gid == gid,
    {
        let mut r = Self::new(uid, gid);
        r.add_path(1, "/".to_owned());
        r
    }

    /// Enters the path of an inode.
    pub fn add_path(&mut self, ino: u64, path: String)
        ensures
            final(self)@ == (FuseView { paths: old(self)@.paths.insert(ino, path@), ..old(self)@ }),
    {
        let ghost before = self@;
        let _ = self.path_cache.insert(ino, path);
        assert(self@.paths =~= before.paths.insert(ino, path@));
    }

    /// Strikes the path of an inode out.
    fn drop_path(&mut self, ino: u64)
        ensures
            final(self)@ == (FuseView { paths: old(self)@.paths.remove(ino), ..old(self)@ }),
    {
        let ghost before = self@;
        let _ = self.path_cache.remove(&ino);
        assert(self@.paths =~= before.paths.remove(ino));
    }

    /// The path of an inode.
    pub fn get_path(&self, ino: u64) -> (r: Option<String>)
        ensures
            text::opt(r) == path_of(self@, ino),
    {
        match self.path_cache.get(&ino) {
            Some(p) => Some(p.clone()),
            None => None,
        }
    }

    /// The path of `name` in the directory `parent`, if the name is text.
    pub fn lookup_path(&self, parent_ino: u64, name: &[u8]) -> (r: Option<String>)
        ensures
            text::opt(r) == looked_up(self@.paths, parent_ino, text::utf8(name@)),
    {
        match self.path_cache.get(&parent_ino) {
            Some(parent) => match text::utf8_text(name) {
                Some(n) => Some(paths::join_path(parent.as_str(), n.as_str())),
                None => None,
            },
            None => None,
        }
    }

    /// Whether a handle is that of an open file.
    pub fn is_open(&self, fh: u64) -> (r: bool)
        ensures
            r == self@.open.dom().contains(fh),
    {
        self.open_files.contains_key(&fh)
    }

    /// The open file with a handle.
    pub fn open_file(&self, fh: u64) -> (r: Option<&F>)
        ensures
            match r {
                Some(f) => self@.open.dom().contains(fh) && *f == self@.open[fh],
                None => !self@.open.dom().contains(fh),
            },
    {
        self.open_files.get(&fh)
    }

    /// Enters an opened file, under the next handle.
    pub fn register(&mut self, file: F) -> (r: u64)
        ensures
            r == old(self)@.next_fh,
            final(self)@ == (FuseView {
                open: old(self)@.open.insert(r, file),
                next_fh: old(self)@.next_fh.wrapping_add(1),
                ..old(self)@
            }),
    {
        let fh: u64 = self.next_fh;
        self.next_fh = fh.wrapping_add(1);
        let _ = self.open_files.insert(fh, file);
        fh
    }

    /// Carries changes of the table of paths out.
    pub fn apply(&mut self, edits: &Vec<Edit<String>>)
        ensures
            final(self)@ == (FuseView {
                paths: edited_all(old(self)@.paths, plan::views(edits@)),
                ..old(self)@
            }),
    {
        let ghost all = plan::views(edits@);
        let ghost before = self@;
        let mut i: usize = 0;
        while i < edits.len()
            invariant
                i <= edits@.len(),
                all == plan::views(edits@),
                self@ == (FuseView {
                    paths: edited_all(before.paths, all.take(i as int)),
                    ..before
                }),
            decreases edits@.len() - i,
        {
            assert(all.take(i + 1).drop_last() =~= all.take(i as int));
            assert(all.take(i + 1).last() == edits@[i as int]@);
            match &edits[i] {
                Edit::Insert { ino, path } => {
                    self.add_path(*ino, path.clone());
                },
                Edit::Remove { ino } => {
                    self.drop_path(*ino);
                },
            }
            i = i + 1;
        }
        assert(all.take(i as int) =~= all);
    }

    /// Starts to look `name` up in the directory `parent`.
    pub fn lookup(&self, parent: u64, name: &[u8]) -> (r: Result<FuseJob, Errno>)
        ensures
            job_result(r) == on_path(
                looked_up(self@.paths, parent, text::utf8(name@)),
                |path: Seq<char>| Job::Lookup { path },
            ),
    {
        match self.lookup_path(parent, name) {
            Some(path) => Ok(Job::Lookup { path }),
            None => Err(Errno::NoEntry),
        }
    }

    /// Starts to get the attributes of an inode.
    pub fn getattr(&self, ino: u64) -> (r: Result<FuseJob, Errno>)
        ensures
            job_result(r) == on_path(path_of(self@, ino), |path: Seq<char>| Job::GetAttr { path }),
    {
        match self.get_path(ino) {
            Some(path) => Ok(Job::GetAttr { path }),
            None => Err(Errno::NoEntry),
        }
    }

    /// Starts to read a symbolic link.
    pub fn readlink(&self, ino: u64) -> (r: Result<FuseJob, Errno>)
        ensures
            job_result(r) == on_path(path_of(self@, ino), |path: Seq<char>| Job::ReadLink { path }),
    {
        match self.get_path(ino) {
            Some(path) => Ok(Job::ReadLink { path }),
            None => Err(Errno::NoEntry),
        }
    }

    /// Starts to change attributes. Only a change of the size has an effect. A
    /// handle has to be that of an open file when the size changes; else it is of
    /// no account.
    pub fn setattr(&self, ino: u64, size: Option<u64>, fh: Option<u64>) -> (r: Result<
        FuseJob,
        Errno,
    >)
        ensures
            job_result(r) == if size is Some && fh is Some && !self@.open.dom().contains(fh->0) {
                Err(Errno::BadHandle)
            } else {
                on_path(
                    path_of(self@, ino),
                    |path: Seq<char>|
                        Job::SetAttr {
                            path,
                            size,
                            fh: if fh is Some && self@.open.dom().contains(fh->0) {
                                fh
                            } else {
                                None
                            },
                        },
                )
            },
    {
        let open: Option<u64> = match fh {
            Some(h) => if self.is_open(h) {
                Some(h)
            } else {
                None
            },
            None => None,
        };
        if size.is_some() && fh.is_some() && open.is_none() {
            return Err(Errno::BadHandle);
        }
        match self.get_path(ino) {
            Some(path) => Ok(Job::SetAttr { path, size, fh: open }),
            None => Err(Errno::NoEntry),
        }
    }

    /// Starts to list a directory.
    pub fn readdir(&self, ino: u64, offset: i64) -> (r: Result<FuseJob, Errno>)
        ensures
            job_result(r) == on_path(
                path_of(self@, ino),
                |path: Seq<char>| Job::ReadDir { ino, path, offset },
            ),
    {
        match self.get_path(ino) {
            Some(path) => Ok(Job::ReadDir { ino, path, offset }),
            None => Err(Errno::NoEntry),
        }
    }

    /// Starts to list a directory with attributes.
    pub fn readdirplus(&self, ino: u64, offset: i64) -> (r: Result<FuseJob, Errno>)
        ensures
            job_result(r) == on_path(
                path_of(self@, ino),
                |path: Seq<char>| Job::ReadDirPlus { ino, path, offset },
            ),
    {
        match self.get_path(ino) {
            Some(path) => Ok(Job::ReadDirPlus { ino, path, offset }),
            None => Err(Errno::NoEntry),
        }
    }

    /// Starts to make a directory.
    pub fn mkdir(&self, parent: u64, name: &[u8]) -> (r: Result<FuseJob, Errno>)
        ensures
            job_result(r) == on_path(
                looked_up(self@.paths, parent, text::utf8(name@)),
                |path: Seq<char>| Job::MkDir { path },
            ),
    {
        match self.lookup_path(parent, name) {
            Some(path) => Ok(Job::MkDir { path }),
            None => Err(Errno::NoEntry),
        }
    }

    /// Starts to remove a directory.
    pub fn rmdir(&self, parent: u64, name: &[u8]) -> (r: Result<FuseJob, Errno>)
        ensures
            job_result(r) == on_path(
                looked_up(self@.paths, parent, text::utf8(name@)),
                |path: Seq<char>| Job::RmDir { path },
            ),
    {
        match self.lookup_path(parent, name) {
            Some(path) => Ok(Job::RmDir { path }),
            None => Err(Errno::NoEntry),
        }
    }

    /// Starts to create and open a file.
    pub fn create(&self, parent: u64, name: &[u8]) -> (r: Result<FuseJob, Errno>)
        ensures
            job_result(r) == on_path(
                looked_up(self@.paths, parent, text::utf8(name@)),
                |path: Seq<char>| Job::Create { path },
            ),
    {
        match self.lookup_path(parent, name) {
            Some(path) => Ok(Job::Create { path }),
            None => Err(Errno::NoEntry),
        }
    }

    /// Starts to make a symbolic link. The target has to be text.
    pub fn symlink(&self, parent: u64, link_name: &[u8], target: &[u8]) -> (r: Result<
        FuseJob,
        Errno,
    >)
        ensures
            job_result(r) == match looked_up(self@.paths, parent, text::utf8(link_name@)) {
                None => Err::<JobView, Errno>(Errno::NoEntry),
                Some(path) => match text::utf8(target@) {
                    None => Err(Errno::Invalid),
                    Some(target) => Ok(JobView::SymLink { path, target }),
                },
            },
    {
        match self.lookup_path(parent, link_name) {
            Some(path) => match text::utf8_text(target) {
                Some(target) => Ok(Job::SymLink { path, target }),
                None => Err(Errno::Invalid),
            },
            None => Err(Errno::NoEntry),
        }
    }

    /// Starts to remove a file.
    pub fn unlink(&self, parent: u64, name: &[u8]) -> (r: Result<FuseJob, Errno>)
        ensures
            job_result(r) == on_path(
                looked_up(self@.paths, parent, text::utf8(name@)),
                |path: Seq<char>| Job::Unlink { path },
            ),
    {
        match self.lookup_path(parent, name) {
            Some(path) => Ok(Job::Unlink { path }),
            None => Err(Errno::NoEntry),
        }
    }

    /// Starts to move an entry.
    pub fn rename(
        &self,
        parent: u64,
        name: &[u8],
        newparent: u64,
        newname: &[u8],
    ) -> (r: Result<FuseJob, Errno>)
        ensures
            job_result(r) == match (
                looked_up(self@.paths, parent, text::utf8(name@)),
                looked_up(self@.paths, newparent, text::utf8(newname@)),
            ) {
                (Some(from), Some(to)) => Ok(JobView::Rename { from, to }),
                _ => Err(Errno::NoEntry),
            },
    {
        match self.lookup_path(parent, name) {
            Some(from) => match self.lookup_path(newparent, newname) {
                Some(to) => Ok(Job::Rename { from, to }),
                None => Err(Errno::NoEntry),
            },
            None => Err(Errno::NoEntry),
        }
    }

    /// Starts to open a file.
    pub fn open(&self, ino: u64) -> (r: Result<FuseJob, Errno>)
        ensures
            job_result(r) == on_path(path_of(self@, ino), |path: Seq<char>| Job::Open { path }),
    {
        match self.get_path(ino) {
            Some(path) => Ok(Job::Open { path }),
            None => Err(Errno::NoEntry),
        }
    }

    /// Starts to read from an open file.
    pub fn read(&self, fh: u64, offset: i64, size: u32) -> (r: Result<FuseJob, Errno>)
        ensures
            job_result(r) == on_handle(
                self@.open.dom().contains(fh),
                (JobView::Read { fh, offset, size }),
            ),
    {
        if self.is_open(fh) {
            Ok(Job::Read { fh, offset, size })
        } else {
            Err(Errno::BadHandle)
        }
    }

    /// Starts to write to an open file.
    pub fn write(&self, fh: u64, offset: i64, data: Vec<u8>) -> (r: Result<FuseJob, Errno>)
        ensures
            job_result(r) == on_handle(
                self@.open.dom().contains(fh),
                (JobView::Write { fh, offset, data: data@ }),
            ),
    {
        if self.is_open(fh) {
            Ok(Job::Write { fh, offset, data })
        } else {
            Err(Errno::BadHandle)
        }
    }

    /// Writes go to the file system at once, so there is nothing to flush.
    pub fn flush(&self, fh: u64) -> (r: KernelAnswer)
        ensures
            r@ == if self@.open.dom().contains(fh) {
                AnswerView::Done
            } else {
                AnswerView::Error(Errno::BadHandle)
            },
    {
        if self.is_open(fh) {
            Answer::Done
        } else {
            Answer::Error(Errno::BadHandle)
        }
    }

    /// Starts to bring an open file to storage.
    pub fn fsync(&self, fh: u64) -> (r: Result<FuseJob, Errno>)
        ensures
            job_result(r) == on_handle(
                self@.open.dom().contains(fh),
                (JobView::FSync { fh }),
            ),
    {
        if self.is_open(fh) {
            Ok(Job::FSync { fh })
        } else {
            Err(Errno::BadHandle)
        }
    }

    /// Closes an open file. A handle that is not known is of no account.
    pub fn release(&mut self, fh: u64) -> (r: KernelAnswer)
        ensures
            r@ == AnswerView::Done,
            final(self)@ == (FuseView { open: old(self)@.open.remove(fh), ..old(self)@ }),
    {
        let _ = self.open_files.remove(&fh);
        Answer::Done
    }

    /// Starts to count the room there is.
    pub fn statfs(&self) -> (r: FuseJob)
        ensures
            r@ == JobView::StatFs,
    {
        Job::StatFs
    }
}

} // verus!
