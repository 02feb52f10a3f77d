//! The table of open entries, and how requests of Windows start and end.

use crate::nodes::{NodeResponse, TimeChange};
use crate::plan;
use crate::text;
use crate::winfsp::info;
use crate::winfsp::jobs;
use crate::winfsp::jobs::{EndView, Good, WinEnd, WinPlan, WinStep};
use std::collections::HashMap;
use vstd::prelude::*;
use vstd::string::*;

verus! {

broadcast use vstd::std_specs::hash::group_hash_axioms;

/// Options for mounting.
#[derive(Debug, Clone)]
pub struct MountOpts {
    pub mountpoint: String,
    pub fsname: String,
}

/// Unmounts a file system. There is nothing to do: it ends with its host.
pub fn unmount(mountpoint: &str, lazy: bool) -> (r: Result<(), String>)
    ensures
        r is Ok,
{
    Ok(())
}

/// What Windows keeps of an open entry: its handle.
#[derive(Debug, Clone, Copy, PartialEq, Eq, Structural)]
pub struct FileContext {
    pub fh: u64,
}

/// An open entry. A directory has no file.
pub struct OpenFile<F> {
    pub file: Option<F>,
    pub ino: i64,
    pub is_dir: bool,
    /// The entry is to be deleted when it is closed.
    pub delete_on_close: bool,
    pub path: String,
}

/// What an open entry holds.
pub struct OpenView<F> {
    pub file: Option<F>,
    pub ino: i64,
    pub is_dir: bool,
    pub delete_on_close: bool,
    pub path: Seq<char>,
}

impl<F> View for OpenFile<F> {
    type V = OpenView<F>;

    open spec fn view(&self) -> OpenView<F> {
        OpenView {
            file: self.file,
            ino: self.ino,
            is_dir: self.is_dir,
            delete_on_close: self.delete_on_close,
            path: self.path@,
        }
    }
}

/// The open entries by handle.
#[verifier::reject_recursive_types(F)]
pub struct AgentFSWinFsp<F> {
    pub open_files: HashMap<u64, OpenFile<F>>,
    pub next_fh: u64,
}

/// What the table holds.
#[verifier::reject_recursive_types(F)]
pub struct WinView<F> {
    pub open: Map<u64, OpenView<F>>,
    pub next_fh: u64,
}

impl<F> View for AgentFSWinFsp<F> {
    type V = WinView<F>;

    open spec fn view(&self) -> WinView<F> {
        WinView {
            open: self.open_files@.map_values(|f: OpenFile<F>| f@),
            next_fh: self.next_fh,
        }
    }
}

/// A request under way, with all it needs from the table.
#[derive(Debug)]
pub enum Job<S, B> {
    Security { path: S },
    Open { path: S },
    Create { path: S, is_dir: bool },
    Delete { path: S, is_dir: bool },
    Info { ino: i64 },
    Basic { ino: i64, atime: TimeChange, mtime: TimeChange },
    Rename { old_path: S, new_path: S },
    List { ino: i64, marker: Option<S> },
    Read { fh: u64, offset: u64, room: usize },
    Write { fh: u64, ino: i64, offset: u64, data: B },
    Truncate { fh: u64, ino: i64, size: u64 },
    Changed { ino: i64 },
    Flush { fh: u64, ino: i64 },
    Volume,
}

pub type JobView = Job<Seq<char>, Seq<u8>>;

pub type WinJob = Job<String, Vec<u8>>;

impl View for Job<String, Vec<u8>> {
    type V = JobView;

    open spec fn view(&self) -> JobView {
        match self {
            Job::Security { path } => Job::Security { path: path@ },
            Job::Open { path } => Job::Open { path: path@ },
            Job::Create { path, is_dir } => Job::Create { path: path@, is_dir: *is_dir },
            Job::Delete { path, is_dir } => Job::Delete { path: path@, is_dir: *is_dir },
            Job::Info { ino } => Job::Info { ino: *ino },
            Job::Basic { ino, atime, mtime } => Job::Basic {
                ino: *ino,
                atime: *atime,
                mtime: *mtime,
            },
            Job::Rename { old_path, new_path } => Job::Rename {
                old_path: old_path@,
                new_path: new_path@,
            },
            Job::List { ino, marker } => Job::List { ino: *ino, marker: text::opt(*marker) },
            Job::Read { fh, offset, room } => Job::Read {
                fh: *fh,
                offset: *offset,
                room: *room,
            },
            Job::Write { fh, ino, offset, data } => Job::Write {
                fh: *fh,
                ino: *ino,
                offset: *offset,
                data: data@,
            },
            Job::Truncate { fh, ino, size } => Job::Truncate {
                fh: *fh,
                ino: *ino,
                size: *size,
            },
            Job::Changed { ino } => Job::Changed { ino: *ino },
            Job::Flush { fh, ino } => Job::Flush { fh: *fh, ino: *ino },
            Job::Volume => Job::Volume,
        }
    }
}

/// The course of a request.
pub open spec fn job_plan(job: JobView) -> WinPlan {
    match job {
        Job::Security { path } => jobs::security_plan(path),
        Job::Open { path } => jobs::open_plan(path),
        Job::Create { path, is_dir } => jobs::create_plan(path, is_dir),
        Job::Delete { path, is_dir } => jobs::delete_plan(path, is_dir),
        Job::Info { ino } => jobs::info_plan(ino),
        Job::Basic { ino, atime, mtime } => jobs::basic_plan(ino, atime, mtime),
        Job::Rename { old_path, new_path } => jobs::rename_plan(old_path, new_path),
        Job::List { ino, marker } => jobs::list_plan(ino, marker),
        Job::Read { fh, offset, room } => jobs::read_plan(fh, offset, room),
        Job::Write { fh, ino, offset, data } => jobs::write_plan(fh, ino, offset, data),
        Job::Truncate { fh, ino, size } => jobs::truncate_plan(fh, ino, size),
        Job::Changed { ino } => jobs::changed_plan(ino),
        Job::Flush { fh, ino } => jobs::flush_plan(fh, ino),
        Job::Volume => jobs::volume_plan(),
    }
}

impl Job<String, Vec<u8>> {
    /// What this request does next, after the replies so far.
    pub fn run(&self, replies: &Vec<NodeResponse>) -> (r: WinStep)
        ensures
            jobs::step_view(r) == plan::next(job_plan(self@), plan::views(replies@)),
    {
        match self {
            Job::Security { path } => jobs::run_security(path.as_str(), replies),
            Job::Open { path } => jobs::run_open(path.as_str(), replies),
            Job::Create { path, is_dir } => jobs::run_create(path.as_str(), *is_dir, replies),
            Job::Delete { path, is_dir } => jobs::run_delete(path.as_str(), *is_dir, replies),
            Job::Info { ino } => jobs::run_info(*ino, replies),
            Job::Basic { ino, atime, mtime } => jobs::run_basic(*ino, *atime, *mtime, replies),
            Job::Rename { old_path, new_path } => jobs::run_rename(
                old_path.as_str(),
                new_path.as_str(),
                replies,
            ),
            Job::List { ino, marker } => jobs::run_list(*ino, marker, replies),
            Job::Read { fh, offset, room } => jobs::run_read(*fh, *offset, *room, replies),
            Job::Write { fh, ino, offset, data } => jobs::run_write(
                *fh,
                *ino,
                *offset,
                data,
                replies,
            ),
            Job::Truncate { fh, ino, size } => jobs::run_truncate(*fh, *ino, *size, replies),
            Job::Changed { ino } => jobs::run_changed(*ino, replies),
            Job::Flush { fh, ino } => jobs::run_flush(*fh, *ino, replies),
            Job::Volume => jobs::run_volume(replies),
        }
    }
}

/// What a request starts with: a job, or nothing to do.
#[derive(Debug)]
pub enum Start<J> {
    Job(J),
    Done,
}

pub open spec fn start_result(r: Result<Start<WinJob>, i32>) -> Result<Start<JobView>, i32> {
    match r {
        Ok(Start::Job(j)) => Ok(Start::Job(j@)),
        Ok(Start::Done) => Ok(Start::Done),
        Err(s) => Err(s),
    }
}

pub open spec fn open_entry<F>(v: WinView<F>, fh: u64) -> Option<OpenView<F>> {
    if v.open.dom().contains(fh) {
        Some(v.open[fh])
    } else {
        None
    }
}

/// A job on an open entry, which has to be known.
pub open spec fn on_entry<F>(
    e: Option<OpenView<F>>,
    job: spec_fn(OpenView<F>) -> Result<Start<JobView>, i32>,
) -> Result<Start<JobView>, i32> {
    match e {
        Some(e) => job(e),
        None => Err(info::STATUS_INVALID_PARAMETER),
    }
}

/// A job on an open file, with what it gives for a directory.
pub open spec fn on_file<F>(
    e: OpenView<F>,
    otherwise: Result<Start<JobView>, i32>,
    job: JobView,
) -> Result<Start<JobView>, i32> {
    if e.file is Some {
        Ok(Start::Job(job))
    } else {
        otherwise
    }
}

/// The table after a request has ended.
pub open spec fn settled<F>(
    v: WinView<F>,
    end: EndView,
    path: Seq<char>,
    file: Option<F>,
) -> WinView<F> {
    if !end.handle {
        v
    } else {
        WinView {
            open: match end.result {
                Ok(Good::Opened { ino, is_dir, .. }) => v.open.insert(
                    v.next_fh,
                    OpenView {
                        file: if is_dir {
                            None
                        } else {
                            file
                        },
                        ino,
                        is_dir,
                        delete_on_close: false,
                        path,
                    },
                ),
                _ => v.open,
            },
            next_fh: v.next_fh.wrapping_add(1),
        }
    }
}

/// The table after an entry has been marked for deletion, or unmarked.
pub open spec fn marked<F>(v: WinView<F>, fh: u64, delete: bool) -> WinView<F> {
    if v.open.dom().contains(fh) {
        WinView {
            open: v.open.insert(fh, OpenView { delete_on_close: delete, ..v.open[fh] }),
            ..v
        }
    } else {
        v
    }
}

impl<F> AgentFSWinFsp<F> {
    /// A table without open entries.
    pub fn new() -> (r: Self)
        ensures
            r@.open == Map::<u64, OpenView<F>>::empty(),
            r@.next_fh == 1,
    {
        let r = AgentFSWinFsp { open_files: HashMap::new(), next_fh: 1 };
        assert(r@.open =~= Map::<u64, OpenView<F>>::empty());
        r
    }

    /// The open entry with a handle.
    pub fn entry(&self, fh: u64) -> (r: Option<&OpenFile<F>>)
        ensures
            match r {
                Some(f) => open_entry(self@, fh) == Some(f@),
                None => open_entry(self@, fh) is None,
            },
    {
        self.open_files.get(&fh)
    }

    /// The path of Windows in the form of the file system.
    pub fn win_path_to_unix(path: &str) -> (r: String)
        ensures
            r@ == text::slashed(path@),
    {
        text::forward_slashes(path)
    }

    /// Starts to ask for the rights to an entry.
    pub fn get_security_by_name(&self, file_name: &str) -> (r: WinJob)
        ensures
            r@ == (JobView::Security { path: text::slashed(file_name@) }),
    {
        Job::Security { path: Self::win_path_to_unix(file_name) }
    }

    /// Starts to open an entry.
    pub fn open(&self, file_name: &str) -> (r: WinJob)
        ensures
            r@ == (JobView::Open { path: text::slashed(file_name@) }),
    {
        Job::Open { path: Self::win_path_to_unix(file_name) }
    }

    /// Starts to open an entry, which is made if it is not there.
    pub fn create(&self, file_name: &str, create_options: u32) -> (r: WinJob)
        ensures
            r@ == (JobView::Create {
                path: text::slashed(file_name@),
                is_dir: create_options & info::FILE_DIRECTORY_FILE != 0,
            }),
    {
        let is_dir = (create_options & info::FILE_DIRECTORY_FILE) != 0;
        Job::Create { path: Self::win_path_to_unix(file_name), is_dir }
    }

    /// Carries the end of a request for the entry at `path` out: what has been
    /// opened gets a handle. A handle that was taken in vain is not used again.
    pub fn settle(&mut self, end: &WinEnd, path: &str, file: Option<F>) -> (r: Option<FileContext>)
        ensures
            final(self)@ == settled(old(self)@, jobs::end_view(*end), path@, file),
            r == if end.handle && end.result is Ok && end.result->Ok_0 is Opened {
                Some(FileContext { fh: old(self)@.next_fh })
            } else {
                None
            },
    {
        let ghost before = self@;
        if !end.handle {
            return None;
        }
        let fh: u64 = self.next_fh;
        self.next_fh = fh.wrapping_add(1);
        match &end.result {
            Ok(Good::Opened { ino, is_dir, .. }) => {
                let entry = OpenFile {
                    file: if *is_dir {
                        None
                    } else {
                        file
                    },
                    ino: *ino,
                    is_dir: *is_dir,
                    delete_on_close: false,
                    path: path.to_owned(),
                };
                let ghost held = entry@;
                let _ = self.open_files.insert(fh, entry);
                assert(self@.open =~= before.open.insert(fh, held));
                Some(FileContext { fh })
            },
            _ => None,
        }
    }

    /// Closes an entry. One that was marked for deletion is then to be deleted.
    pub fn close(&mut self, context: FileContext) -> (r: Option<WinJob>)
        ensures
            final(self)@ == (WinView { open: old(self)@.open.remove(context.fh), ..old(self)@ }),
            (match r {
                Some(j) => Some(j@),
                None => None,
            }) == match open_entry(old(self)@, context.fh) {
                Some(e) => if e.delete_on_close {
                    Some(JobView::Delete { path: e.path, is_dir: e.is_dir })
                } else {
                    None
                },
                None => None,
            },
    {
        let ghost before = self@;
        let removed = self.open_files.remove(&context.fh);
        assert(self@.open =~= before.open.remove(context.fh));
        match removed {
            Some(e) => if e.delete_on_close {
                Some(Job::Delete { path: e.path, is_dir: e.is_dir })
            } else {
                None
            },
            None => None,
        }
    }

    /// Starts to ask for what there is to tell of an open entry.
    pub fn get_file_info(&self, context: &FileContext) -> (r: Result<Start<WinJob>, i32>)
        ensures
            start_result(r) == on_entry(
                open_entry(self@, context.fh),
                |e: OpenView<F>| Ok(Start::Job(Job::Info { ino: e.ino })),
            ),
    {
        match self.entry(context.fh) {
            Some(e) => Ok(Start::Job(Job::Info { ino: e.ino })),
            None => Err(info::STATUS_INVALID_PARAMETER),
        }
    }

    /// Starts to change the times of an open entry.
    pub fn set_basic_info(
        &self,
        context: &FileContext,
        last_access_time: u64,
        last_write_time: u64,
    ) -> (r: Result<Start<WinJob>, i32>)
        ensures
            start_result(r) == on_entry(
                open_entry(self@, context.fh),
                |e: OpenView<F>|
                    Ok(
                        Start::Job(
                            Job::Basic {
                                ino: e.ino,
                                atime: info::time_change(last_access_time),
                                mtime: info::time_change(last_write_time),
                            },
                        ),
                    ),
            ),
    {
        match self.entry(context.fh) {
            Some(e) => Ok(
                Start::Job(
                    Job::Basic {
                        ino: e.ino,
                        atime: info::change_to(last_access_time),
                        mtime: info::change_to(last_write_time),
                    },
                ),
            ),
            None => Err(info::STATUS_INVALID_PARAMETER),
        }
    }

    /// Marks an open entry to be deleted when it is closed, or takes the mark
    /// back.
    pub fn set_delete(&mut self, context: &FileContext, delete_file: bool) -> (r: Result<(), i32>)
        ensures
            final(self)@ == marked(old(self)@, context.fh, delete_file),
            r == if old(self)@.open.dom().contains(context.fh) {
                Ok(())
            } else {
                Err::<(), i32>(info::STATUS_INVALID_PARAMETER)
            },
    {
        let ghost before = self@;
        let fh: u64 = context.fh;
        match self.open_files.remove(&fh) {
            Some(e) => {
                let entry = OpenFile {
                    file: e.file,
                    ino: e.ino,
                    is_dir: e.is_dir,
                    delete_on_close: delete_file,
                    path: e.path,
                };
                let ghost held = entry@;
                let _ = self.open_files.insert(fh, entry);
                assert(self@.open =~= before.open.insert(fh, held));
                Ok(())
            },
            None => {
                assert(self@.open =~= before.open);
                Err(info::STATUS_INVALID_PARAMETER)
            },
        }
    }

    /// Starts to move an entry.
    pub fn rename(&self, file_name: &str, new_file_name: &str) -> (r: WinJob)
        ensures
            r@ == (JobView::Rename {
                old_path: text::slashed(file_name@),
                new_path: text::slashed(new_file_name@),
            }),
    {
        Job::Rename {
            old_path: Self::win_path_to_unix(file_name),
            new_path: Self::win_path_to_unix(new_file_name),
        }
    }

    /// Starts to list an open directory, behind the entry with the name of the
    /// marker.
    pub fn read_directory(&self, context: &FileContext, marker: Option<String>) -> (r: Result<
        Start<WinJob>,
        i32,
    >)
        ensures
            start_result(r) == on_entry(
                open_entry(self@, context.fh),
                |e: OpenView<F>|
                    Ok(Start::Job(Job::List { ino: e.ino, marker: text::opt(marker) })),
            ),
    {
        match self.entry(context.fh) {
            Some(e) => Ok(Start::Job(Job::List { ino: e.ino, marker })),
            None => Err(info::STATUS_INVALID_PARAMETER),
        }
    }

    /// Starts to read from an open file into a buffer with room for `room`
    /// bytes.
    pub fn read(&self, context: &FileContext, room: usize, offset: u64) -> (r: Result<
        Start<WinJob>,
        i32,
    >)
        ensures
            start_result(r) == on_entry(
                open_entry(self@, context.fh),
                |e: OpenView<F>|
                    on_file(
                        e,
                        Err(info::STATUS_FILE_IS_A_DIRECTORY),
                        Job::Read { fh: context.fh, offset, room },
                    ),
            ),
    {
        match self.entry(context.fh) {
            Some(e) => if e.file.is_some() {
                Ok(Start::Job(Job::Read { fh: context.fh, offset, room }))
            } else {
                Err(info::STATUS_FILE_IS_A_DIRECTORY)
            },
            None => Err(info::STATUS_INVALID_PARAMETER),
        }
    }

    /// Starts to write to an open file.
    pub fn write(&self, context: &FileContext, data: Vec<u8>, offset: u64) -> (r: Result<
        Start<WinJob>,
        i32,
    >)
        ensures
            start_result(r) == on_entry(
                open_entry(self@, context.fh),
                |e: OpenView<F>|
                    on_file(
                        e,
                        Err(info::STATUS_FILE_IS_A_DIRECTORY),
                        Job::Write { fh: context.fh, ino: e.ino, offset, data: data@ },
                    ),
            ),
    {
        match self.entry(context.fh) {
            Some(e) => if e.file.is_some() {
                Ok(Start::Job(Job::Write { fh: context.fh, ino: e.ino, offset, data }))
            } else {
                Err(info::STATUS_FILE_IS_A_DIRECTORY)
            },
            None => Err(info::STATUS_INVALID_PARAMETER),
        }
    }

    /// Starts to set the size of an open file. Room need not be set aside, and a
    /// directory has no size to set.
    pub fn set_file_size(&self, context: &FileContext, new_size: u64, set_allocation_size: bool) -> (r:
        Result<Start<WinJob>, i32>)
        ensures
            start_result(r) == on_entry(
                open_entry(self@, context.fh),
                |e: OpenView<F>|
                    if e.is_dir {
                        Ok(Start::Done)
                    } else {
                        on_file(
                            e,
                            Ok(Start::Done),
                            if set_allocation_size {
                                Job::Changed { ino: e.ino }
                            } else {
                                Job::Truncate { fh: context.fh, ino: e.ino, size: new_size }
                            },
                        )
                    },
            ),
    {
        match self.entry(context.fh) {
            Some(e) => if e.is_dir || e.file.is_none() {
                Ok(Start::Done)
            } else if set_allocation_size {
                Ok(Start::Job(Job::Changed { ino: e.ino }))
            } else {
                Ok(Start::Job(Job::Truncate { fh: context.fh, ino: e.ino, size: new_size }))
            },
            None => Err(info::STATUS_INVALID_PARAMETER),
        }
    }

    /// Starts to empty an open file.
    pub fn overwrite(&self, context: &FileContext) -> (r: Result<Start<WinJob>, i32>)
        ensures
            start_result(r) == on_entry(
                open_entry(self@, context.fh),
                |e: OpenView<F>|
                    if e.is_dir {
                        Ok(Start::Done)
                    } else {
                        on_file(
                            e,
                            Ok(Start::Done),
                            Job::Truncate { fh: context.fh, ino: e.ino, size: 0 },
                        )
                    },
            ),
    {
        match self.entry(context.fh) {
            Some(e) => if e.is_dir || e.file.is_none() {
                Ok(Start::Done)
            } else {
                Ok(Start::Job(Job::Truncate { fh: context.fh, ino: e.ino, size: 0 }))
            },
            None => Err(info::STATUS_INVALID_PARAMETER),
        }
    }

    /// Starts to bring an open file to storage. Where there is no file there is
    /// nothing to do.
    pub fn flush(&self, context: Option<&FileContext>) -> (r: Result<Start<WinJob>, i32>)
        ensures
            start_result(r) == match context {
                None => Ok::<Start<JobView>, i32>(Start::Done),
                Some(c) => match open_entry(self@, c.fh) {
                    None => Ok(Start::Done),
                    Some(e) => on_file(
                        e,
                        Ok(Start::Done),
                        JobView::Flush { fh: c.fh, ino: e.ino },
                    ),
                },
            },
    {
        match context {
            None => Ok(Start::Done),
            Some(c) => match self.entry(c.fh) {
                None => Ok(Start::Done),
                Some(e) => if e.file.is_some() {
                    Ok(Start::Job(Job::Flush { fh: c.fh, ino: e.ino }))
                } else {
                    Ok(Start::Done)
                },
            },
        }
    }

    /// Starts to ask for the room on the volume.
    pub fn get_volume_info(&self) -> (r: WinJob)
        ensures
            r@ == JobView::Volume,
    {
        Job::Volume
    }
}

/// An entry that was marked is deleted when it is closed, by the path under which
/// it was opened; one that was not marked, or unmarked, is not.
pub proof fn law_mark_decides_on_closing<F>(v: WinView<F>, fh: u64, delete: bool)
    requires
        v.open.dom().contains(fh),
    ensures
        open_entry(marked(v, fh, delete), fh) matches Some(e) && e.delete_on_close == delete
            && e.path == v.open[fh].path && e.is_dir == v.open[fh].is_dir,
        forall|other: u64|
            other != fh ==> #[trigger] open_entry(marked(v, fh, delete), other) == open_entry(
                v,
                other,
            ),
{
}

/// An entry that has been opened is not marked, and no other entry is disturbed,
/// as long as handles have not run out.
pub proof fn law_opened_is_not_marked<F>(
    v: WinView<F>,
    end: EndView,
    path: Seq<char>,
    file: Option<F>,
)
    requires
        end.handle,
        end.result matches Ok(g) && g is Opened,
        forall|fh: u64| #[trigger] v.open.dom().contains(fh) ==> fh < v.next_fh,
        v.next_fh < u64::MAX,
    ensures
        open_entry(v, v.next_fh) is None,
        open_entry(settled(v, end, path, file), v.next_fh) matches Some(e) && !e.delete_on_close
            && e.path == path,
        forall|fh: u64|
            fh != v.next_fh ==> #[trigger] open_entry(settled(v, end, path, file), fh) == open_entry(
                v,
                fh,
            ),
        forall|fh: u64| #[trigger]
            settled(v, end, path, file).open.dom().contains(fh) ==> fh < settled(
                v,
                end,
                path,
                file,
            ).next_fh,
{
}

} // verus!
