//! Copying a whole directory of the base up into the delta, one call at a
//! time.

use crate::fs::types;
use crate::overlay::calls;
use crate::overlay::calls::{
    Call, CallView, FailureView, Layer, LayerCall, LayerFailure, LayerReply, Reply, ReplyView,
};
use crate::overlay::ops;
use crate::text;
use vstd::prelude::*;

verus! {

/// One thing that is still to be done.
#[derive(Debug)]
pub enum Task<S, B> {
    /// Create the directory, and then copy what is in it.
    MakeDir(S),
    /// Copy what is in the directory, which is there by now.
    ListDir(S),
    /// See what the entry is, and then copy it.
    Examine(S),
    ReadLink(S),
    PutLink { target: S, path: S },
    ReadFile(S),
    PutFile { path: S, data: B },
}

pub type TaskView = Task<Seq<char>, Seq<u8>>;

pub type CopyTask = Task<String, Vec<u8>>;

impl View for Task<String, Vec<u8>> {
    type V = TaskView;

    open spec fn view(&self) -> TaskView {
        match self {
            Task::MakeDir(p) => Task::MakeDir(p@),
            Task::ListDir(p) => Task::ListDir(p@),
            Task::Examine(p) => Task::Examine(p@),
            Task::ReadLink(p) => Task::ReadLink(p@),
            Task::PutLink { target, path } => Task::PutLink { target: target@, path: path@ },
            Task::ReadFile(p) => Task::ReadFile(p@),
            Task::PutFile { path, data } => Task::PutFile { path: path@, data: data@ },
        }
    }
}

pub open spec fn task_views(tasks: Seq<CopyTask>) -> Seq<TaskView> {
    Seq::new(tasks.len(), |i: int| tasks[i]@)
}

/// The call that a task makes.
pub open spec fn task_call(task: TaskView) -> CallView {
    match task {
        Task::MakeDir(path) => Call::Mkdir { path },
        Task::ListDir(path) => Call::Readdir { layer: Layer::Base, path },
        Task::Examine(path) => Call::Stat { layer: Layer::Base, path },
        Task::ReadLink(path) => Call::Readlink { layer: Layer::Base, path },
        Task::PutLink { target, path } => Call::Symlink { target, path },
        Task::ReadFile(path) => Call::ReadFile { layer: Layer::Base, path },
        Task::PutFile { path, data } => Call::WriteFile { path, data },
    }
}

/// The entry that a task is about.
pub open spec fn task_path(task: TaskView) -> Seq<char> {
    match task {
        Task::MakeDir(path) => path,
        Task::ListDir(path) => path,
        Task::Examine(path) => path,
        Task::ReadLink(path) => path,
        Task::PutLink { path, .. } => path,
        Task::ReadFile(path) => path,
        Task::PutFile { path, .. } => path,
    }
}

/// The tasks for the entries of a directory, the first one last.
pub open spec fn child_tasks(dir: Seq<char>, names: Seq<Seq<char>>) -> Seq<TaskView> {
    Seq::new(
        names.len(),
        |i: int| Task::Examine(ops::child_prefix(dir) + names[names.len() - 1 - i]),
    )
}

/// What a task leaves to be done once its call is answered, the first thing
/// last.
pub open spec fn task_next(task: TaskView, reply: ReplyView) -> Result<Seq<TaskView>, FailureView> {
    let nothing = Seq::<TaskView>::empty();
    match reply {
        Reply::Failed(f) => Err(f),
        _ => match task {
            Task::MakeDir(path) => Ok(seq![Task::ListDir(path)]),
            Task::ListDir(path) => match calls::names_reply(reply) {
                Ok(Some(names)) => Ok(child_tasks(path, names)),
                _ => Ok(nothing),
            },
            Task::Examine(path) => match calls::stats_reply(reply) {
                Ok(Some(stats)) => if types::dir_mode(stats.mode) {
                    Ok(seq![Task::MakeDir(path)])
                } else if types::link_mode(stats.mode) {
                    Ok(seq![Task::ReadLink(path)])
                } else {
                    Ok(seq![Task::ReadFile(path)])
                },
                _ => Ok(nothing),
            },
            Task::ReadLink(path) => match calls::target_reply(reply) {
                Ok(Some(target)) => Ok(seq![Task::PutLink { target, path }]),
                _ => Ok(nothing),
            },
            Task::ReadFile(path) => match calls::bytes_reply(reply) {
                Ok(Some(data)) => Ok(seq![Task::PutFile { path, data }]),
                _ => Ok(nothing),
            },
            _ => Ok(nothing),
        },
    }
}

/// The copy of a directory under way: what is still to be done, the next thing
/// last.
pub struct CopyTree {
    pub tasks: Vec<CopyTask>,
}

impl View for CopyTree {
    type V = Seq<TaskView>;

    open spec fn view(&self) -> Seq<TaskView> {
        task_views(self.tasks@)
    }
}

fn one(task: CopyTask) -> (r: Vec<CopyTask>)
    ensures
        task_views(r@) == seq![task@],
{
    let mut out: Vec<CopyTask> = Vec::new();
    out.push(task);
    assert(task_views(out@) =~= seq![task@]);
    out
}

fn none() -> (r: Vec<CopyTask>)
    ensures
        task_views(r@) == Seq::<TaskView>::empty(),
{
    let out: Vec<CopyTask> = Vec::new();
    assert(task_views(out@) =~= Seq::<TaskView>::empty());
    out
}

fn children(dir: &str, names: &Vec<String>) -> (r: Vec<CopyTask>)
    ensures
        task_views(r@) == child_tasks(dir@, text::views(names@)),
{
    let prefix = if text::same(dir, "/") {
        "/".to_owned()
    } else {
        text::concat(dir, "/")
    };
    let ghost nv = text::views(names@);
    let mut out: Vec<CopyTask> = Vec::new();
    let mut i: usize = names.len();
    while i > 0
        invariant
            i <= names@.len(),
            nv == text::views(names@),
            prefix@ == ops::child_prefix(dir@),
            task_views(out@) == child_tasks(dir@, nv).take(names@.len() - i),
        decreases i,
    {
        i = i - 1;
        let path = text::concat(prefix.as_str(), names[i].as_str());
        let ghost before = task_views(out@);
        let task = Task::Examine(path);
        out.push(task);
        assert(task_views(out@) =~= before.push(task@));
        assert(child_tasks(dir@, nv)[names@.len() - 1 - i] == task@);
        assert(task_views(out@) =~= child_tasks(dir@, nv).take(names@.len() - i));
    }
    assert(task_views(out@) =~= child_tasks(dir@, nv));
    out
}

/// The call that `task` makes.
pub fn call_of(task: &CopyTask) -> (r: LayerCall)
    ensures
        r@ == task_call(task@),
{
    match task {
        Task::MakeDir(p) => Call::Mkdir { path: p.clone() },
        Task::ListDir(p) => Call::Readdir { layer: Layer::Base, path: p.clone() },
        Task::Examine(p) => Call::Stat { layer: Layer::Base, path: p.clone() },
        Task::ReadLink(p) => Call::Readlink { layer: Layer::Base, path: p.clone() },
        Task::PutLink { target, path } => Call::Symlink {
            target: target.clone(),
            path: path.clone(),
        },
        Task::ReadFile(p) => Call::ReadFile { layer: Layer::Base, path: p.clone() },
        Task::PutFile { path, data } => Call::WriteFile {
            path: path.clone(),
            data: calls::copy_bytes(data.as_slice()),
        },
    }
}

/// What `task` leaves to be done once its call is answered.
pub fn advance(task: CopyTask, reply: &LayerReply) -> (r: Result<Vec<CopyTask>, LayerFailure>)
    ensures
        match r {
            Ok(tasks) => task_next(task@, reply@) == Ok::<Seq<TaskView>, FailureView>(
                task_views(tasks@),
            ),
            Err(f) => task_next(task@, reply@) == Err::<Seq<TaskView>, FailureView>(f@),
        },
{
    if let Reply::Failed(f) = reply {
        return Err(f.clone());
    }
    let tasks = match task {
        Task::MakeDir(p) => one(Task::ListDir(p)),
        Task::ListDir(p) => match reply.names() {
            Ok(Some(names)) => children(p.as_str(), &names),
            _ => none(),
        },
        Task::Examine(p) => match reply.stats() {
            Ok(Some(stats)) => if stats.is_directory() {
                one(Task::MakeDir(p))
            } else if stats.is_symlink() {
                one(Task::ReadLink(p))
            } else {
                one(Task::ReadFile(p))
            },
            _ => none(),
        },
        Task::ReadLink(p) => match reply.target() {
            Ok(Some(target)) => one(Task::PutLink { target, path: p }),
            _ => none(),
        },
        Task::ReadFile(p) => match reply.bytes() {
            Ok(Some(data)) => one(Task::PutFile { path: p, data }),
            _ => none(),
        },
        _ => none(),
    };
    Ok(tasks)
}

impl CopyTree {
    /// The copy of the directory at `path`, before anything is done.
    pub fn new(path: &str) -> (r: Self)
        ensures
            r@ == seq![Task::<Seq<char>, Seq<u8>>::MakeDir(path@)],
    {
        CopyTree { tasks: one(Task::MakeDir(path.to_owned())) }
    }

    /// The next call; there is none once the copy is complete.
    pub fn request(&self) -> (r: Option<LayerCall>)
        ensures
            match r {
                Some(q) => self@.len() > 0 && q@ == task_call(self@.last()),
                None => self@.len() == 0,
            },
    {
        let n: usize = self.tasks.len();
        if n == 0 {
            None
        } else {
            assert(self@.last() == self.tasks@[n - 1]@);
            Some(call_of(&self.tasks[n - 1]))
        }
    }

    /// Takes the reply to the next call. Where the call failed, the copy stops
    /// there.
    pub fn reply(&mut self, reply: &LayerReply) -> (r: Result<(), LayerFailure>)
        requires
            old(self)@.len() > 0,
        ensures
            match task_next(old(self)@.last(), reply@) {
                Ok(tasks) => r is Ok && final(self)@ == old(self)@.drop_last() + tasks,
                Err(f) => r is Err && r->Err_0@ == f && final(self)@ == old(self)@.drop_last(),
            },
    {
        let ghost before = self@;
        match self.tasks.pop() {
            Some(task) => {
                assert(self@ =~= before.drop_last());
                assert(task@ == before.last());
                match advance(task, reply) {
                    Ok(mut tasks) => {
                        let ghost tv = task_views(tasks@);
                        self.tasks.append(&mut tasks);
                        assert(self@ =~= before.drop_last() + tv);
                        Ok(())
                    },
                    Err(f) => Err(f),
                }
            },
            None => Ok(()),
        }
    }
}

/// Every task of a copy is about an entry at or below the directory that is
/// copied.
pub open spec fn within(root: Seq<char>, tasks: Seq<TaskView>) -> bool {
    forall|i: int|
        0 <= i < tasks.len() ==> text::begins(task_path(#[trigger] tasks[i]), root)
}

/// A copy never leaves the directory that is copied.
pub proof fn law_copy_stays_below(root: Seq<char>, tasks: Seq<TaskView>, reply: ReplyView)
    requires
        within(root, tasks),
        tasks.len() > 0,
        task_next(tasks.last(), reply) is Ok,
    ensures
        within(root, tasks.drop_last() + task_next(tasks.last(), reply)->Ok_0),
{
    let more = task_next(tasks.last(), reply)->Ok_0;
    let all = tasks.drop_last() + more;
    let path = task_path(tasks.last());
    assert(tasks[tasks.len() - 1] == tasks.last());
    assert forall|i: int| 0 <= i < all.len() implies text::begins(
        task_path(#[trigger] all[i]),
        root,
    ) by {
        if i < tasks.len() - 1 {
            assert(all[i] == tasks[i]);
        } else {
            let t = more[i - (tasks.len() - 1)];
            assert(all[i] == t);
            if tasks.last() is ListDir {
                reveal_strlit("/");
                let prefix = ops::child_prefix(path);
                assert(text::begins(prefix, path)) by {
                    assert(prefix.take(path.len() as int) =~= path);
                }
                assert(task_path(t).take(prefix.len() as int) =~= prefix);
                assert(task_path(t).take(root.len() as int) =~= path.take(root.len() as int)) by {
                    assert(task_path(t).take(path.len() as int) =~= path);
                }
            }
        }
    }
}

} // verus!
