//! What holds when a directory is moved: all that is in it comes along.

use crate::fs::types;
use crate::overlay::copy;
use crate::overlay::copy::{Task, TaskView};
use crate::overlay::laws;
use crate::overlay::layers;
use crate::overlay::layers::{Kind, Layers, Node, Tree};
use crate::overlay::ops;
use crate::overlay::ops::OvPlan;
use crate::paths;
use crate::text;
use vstd::prelude::*;

verus! {

/// The entry at `q` is the root, or has a tidy path and is in a directory.
pub open spec fn well_placed(t: Tree, q: Seq<char>) -> bool {
    q == "/"@ || (laws::tidy(q) && t.contains_key(layers::dir_of(q)) && t[layers::dir_of(q)].kind
        == Kind::Dir)
}

/// Every entry is where it can be.
pub open spec fn proper(t: Tree) -> bool {
    forall|q: Seq<char>| t.contains_key(q) ==> #[trigger] well_placed(t, q)
}

/// Two entries show the same: they are of one kind, and have the same contents or
/// target.
pub open spec fn alike(a: Node, b: Node) -> bool {
    &&& a.kind == b.kind
    &&& a.kind == Kind::File ==> a.data == b.data
    &&& a.kind == Kind::Link ==> a.target == b.target
}

/// The layers once a copy has come to its end, if it does with at most `most` calls
/// behind the first one.
pub open spec fn copied(l: Layers, tasks: Seq<TaskView>, most: nat) -> Option<Layers>
    decreases most,
{
    if tasks.len() == 0 {
        Some(l)
    } else {
        let q = copy::task_call(tasks.last());
        match copy::task_next(tasks.last(), layers::answer(l, q)) {
            Err(_) => None,
            Ok(more) => if most == 0 {
                None
            } else {
                copied(layers::effect(l, q), tasks.drop_last() + more, (most - 1) as nat)
            },
        }
    }
}

proof fn lemma_run_copy(
    l: Layers,
    tasks: Seq<TaskView>,
    most: nat,
    then: spec_fn(()) -> OvPlan<()>,
)
    ensures
        match copied(l, tasks, most) {
            Some(c) => layers::run(ops::copy_plan::<()>(tasks, most, then), l) == layers::run(
                then(()),
                c,
            ),
            None => layers::run(ops::copy_plan::<()>(tasks, most, then), l).0 is Err,
        },
    decreases most,
{
    broadcast use crate::overlay::layers::group_run;

    if tasks.len() > 0 {
        let q = copy::task_call(tasks.last());
        match copy::task_next(tasks.last(), layers::answer(l, q)) {
            Err(_) => {},
            Ok(more) => {
                if most > 0 {
                    lemma_run_copy(
                        layers::effect(l, q),
                        tasks.drop_last() + more,
                        (most - 1) as nat,
                        then,
                    );
                }
            },
        }
    }
}

/// What is in a directory is below it.
proof fn lemma_child_under(p: Seq<char>, name: Seq<char>)
    requires
        p != "/"@,
    ensures
        layers::under(ops::child_prefix(p) + name, p),
{
    reveal_strlit("/");
    assert((p + "/"@ + name).take(p.len() as int + 1) =~= p + "/"@);
}

/// The directory of an entry below `p` is `p` or below it.
proof fn lemma_step_up(t: Tree, q: Seq<char>, p: Seq<char>)
    requires
        proper(t),
        t.contains_key(q),
        layers::under(q, p),
        q != p,
        p.len() > 1,
    ensures
        layers::under(layers::dir_of(q), p),
        layers::under(q, layers::dir_of(q)),
        layers::dir_of(q).len() < q.len(),
        t.contains_key(layers::dir_of(q)),
        t[layers::dir_of(q)].kind == Kind::Dir,
        ops::child_prefix(layers::dir_of(q)) + paths::parts(q).last() == q,
        paths::parts(q).last().len() > 0,
        !paths::parts(q).last().contains('/'),
{
    reveal_strlit("/");
    assert(well_placed(t, q));
    assert(q != "/"@);
    laws::lemma_place(q);
    let d = layers::dir_of(q);
    let name = paths::parts(q).last();
    assert(q.take(p.len() as int + 1)[p.len() as int] == '/');
    assert(q[p.len() as int] == '/');
    if d == "/"@ {
        assert(q =~= "/"@ + name);
        assert(q[p.len() as int] == name[p.len() - 1]);
        assert(name.contains(name[p.len() - 1]));
    } else {
        assert(q =~= d + "/"@ + name);
        if p.len() > d.len() {
            assert(q[p.len() as int] == name[p.len() - d.len() - 1]);
            assert(name.contains(name[p.len() - d.len() - 1]));
        } else if p.len() == d.len() {
            assert(q.take(p.len() as int) =~= d);
            assert(q.take(p.len() as int) =~= p);
        } else {
            assert(d.take(p.len() as int + 1) =~= q.take(p.len() as int + 1));
        }
        assert(q.take(d.len() as int + 1) =~= d + "/"@);
    }
}

/// Only directories have entries below them.
proof fn lemma_leaf(t: Tree, q: Seq<char>, p: Seq<char>)
    requires
        proper(t),
        t.contains_key(q),
        layers::under(q, p),
        q != p,
        p.len() > 1,
    ensures
        t.contains_key(p),
        t[p].kind == Kind::Dir,
    decreases q.len(),
{
    lemma_step_up(t, q, p);
    if layers::dir_of(q) != p {
        lemma_leaf(t, layers::dir_of(q), p);
    }
}

/// The way down from a directory to an entry below it leads through one of its
/// entries.
proof fn lemma_way_down(t: Tree, q: Seq<char>, p: Seq<char>) -> (name: Seq<char>)
    requires
        proper(t),
        t.contains_key(q),
        layers::under(q, p),
        q != p,
        p.len() > 1,
    ensures
        layers::names_in(t, p).contains(name),
        layers::under(q, ops::child_prefix(p) + name),
    decreases q.len(),
{
    lemma_step_up(t, q, p);
    let d = layers::dir_of(q);
    if d == p {
        paths::parts(q).last()
    } else {
        let name = lemma_way_down(t, d, p);
        laws::lemma_under(q, d, ops::child_prefix(p) + name);
        name
    }
}

/// A task of the copy of `f` is about an entry of the base, and carries what the
/// base has there.
pub open spec fn fits(base: Tree, f: Seq<char>, task: TaskView) -> bool {
    let p = copy::task_path(task);
    &&& layers::under(p, f)
    &&& base.contains_key(p)
    &&& match task {
        Task::MakeDir(_) => base[p].kind == Kind::Dir,
        Task::ListDir(_) => base[p].kind == Kind::Dir,
        Task::Examine(_) => true,
        Task::ReadLink(_) => base[p].kind == Kind::Link,
        Task::PutLink { target, .. } => base[p].kind == Kind::Link && target == base[p].target,
        Task::ReadFile(_) => base[p].kind == Kind::File,
        Task::PutFile { data, .. } => base[p].kind == Kind::File && data == base[p].data,
    }
}

/// The task takes care of the entry at `q`.
pub open spec fn covers(task: TaskView, q: Seq<char>) -> bool {
    layers::under(q, copy::task_path(task)) && !(task is ListDir && q == copy::task_path(task))
}

pub open spec fn covered(tasks: Seq<TaskView>, q: Seq<char>) -> bool {
    exists|i: int| 0 <= i < tasks.len() && #[trigger] covers(tasks[i], q)
}

/// What holds throughout the copy of `f`, which started from `start`: what the delta
/// has there is what the base has, what it does not have yet is still to be
/// done, and nothing else has changed.
pub open spec fn under_way(start: Layers, l: Layers, f: Seq<char>, tasks: Seq<TaskView>) -> bool {
    &&& l.base == start.base
    &&& l.whiteouts == start.whiteouts
    &&& forall|i: int| 0 <= i < tasks.len() ==> fits(l.base, f, #[trigger] tasks[i])
    &&& forall|q: Seq<char>| #[trigger]
        l.delta.contains_key(q) && layers::under(q, f) ==> l.base.contains_key(q) && alike(
            l.delta[q],
            l.base[q],
        )
    &&& forall|q: Seq<char>| #[trigger]
        l.base.contains_key(q) && layers::under(q, f) ==> l.delta.contains_key(q) || covered(
            tasks,
            q,
        )
    &&& forall|q: Seq<char>|
        !layers::under(q, f) ==> (#[trigger] l.delta.contains_key(q)
            == start.delta.contains_key(q))
    &&& forall|q: Seq<char>| #[trigger]
        l.delta.contains_key(q) && !layers::under(q, f) ==> l.delta[q] == start.delta[q]
}

/// What a task that succeeds does to the layers: nothing, or it puts what the base
/// has into the delta.
proof fn lemma_effect(l: Layers, f: Seq<char>, task: TaskView)
    requires
        fits(l.base, f, task),
        copy::task_next(task, layers::answer(l, copy::task_call(task))) is Ok,
        forall|q: Seq<char>| #[trigger]
            l.delta.contains_key(q) && layers::under(q, f) ==> l.base.contains_key(q) && alike(
                l.delta[q],
                l.base[q],
            ),
    ensures
        ({
            let p = copy::task_path(task);
            let e = layers::effect(l, copy::task_call(task));
            &&& e.base == l.base
            &&& e.whiteouts == l.whiteouts
            &&& if task is MakeDir || task is PutLink || task is PutFile {
                e.delta.contains_key(p) && e.delta == l.delta.insert(p, e.delta[p]) && alike(
                    e.delta[p],
                    l.base[p],
                )
            } else {
                e.delta == l.delta
            }
        }),
{
    let p = copy::task_path(task);
    if l.delta.contains_key(p) {
        assert(layers::under(p, f));
    }
}

proof fn lemma_list_task(l: Layers, f: Seq<char>, p: Seq<char>)
    requires
        proper(l.base),
        l.base.dom().finite(),
        p.len() > 1,
        layers::under(p, f),
        l.base.contains_key(p),
    ensures
        ({
            let more = copy::child_tasks(p, layers::names_in(l.base, p).to_seq());
            &&& forall|i: int| 0 <= i < more.len() ==> fits(l.base, f, #[trigger] more[i])
            &&& forall|x: Seq<char>| #[trigger]
                l.base.contains_key(x) && layers::under(x, p) && x != p ==> covered(more, x)
        }),
{
    reveal_strlit("/");
    let names = layers::names_in(l.base, p);
    laws::lemma_names_finite(l.base, p);
    names.lemma_to_seq_to_set_id();
    let list = names.to_seq();
    let more = copy::child_tasks(p, list);
    assert forall|i: int| 0 <= i < more.len() implies fits(l.base, f, #[trigger] more[i]) by {
        let name = list[list.len() - 1 - i];
        assert(list.to_set().contains(name));
        lemma_child_under(p, name);
        laws::lemma_under(ops::child_prefix(p) + name, p, f);
    }
    assert forall|x: Seq<char>| #[trigger]
        l.base.contains_key(x) && layers::under(x, p) && x != p implies covered(more, x) by {
        let name = lemma_way_down(l.base, x, p);
        assert(list.to_set().contains(name));
        let k = choose|k: int| 0 <= k < list.len() && list[k] == name;
        let i = list.len() - 1 - k;
        assert(more[i] == Task::<Seq<char>, Seq<u8>>::Examine(ops::child_prefix(p) + name));
        assert(covers(more[i], x));
    }
}

/// What the tasks other than listings leave to be done.
proof fn lemma_next(l: Layers, f: Seq<char>, task: TaskView)
    requires
        fits(l.base, f, task),
        copy::task_next(task, layers::answer(l, copy::task_call(task))) is Ok,
        !(task is ListDir),
    ensures
        ({
            let p = copy::task_path(task);
            let more = copy::task_next(task, layers::answer(l, copy::task_call(task)))->Ok_0;
            if task is PutLink || task is PutFile {
                more.len() == 0
            } else {
                more.len() == 1 && fits(l.base, f, more[0]) && copy::task_path(more[0]) == p && (
                more[0] is ListDir <==> task is MakeDir)
            }
        }),
{
    types::law_default_modes();
    types::law_file_types_exclude_each_other(types::DEFAULT_FILE_MODE);
    types::law_file_types_exclude_each_other(types::DEFAULT_DIR_MODE);
    types::law_file_types_exclude_each_other(types::SYMLINK_MODE);
}

/// A task leaves tasks that fit, and with what it puts into the delta these take
/// care of all that it took care of.
proof fn lemma_task(l: Layers, f: Seq<char>, task: TaskView)
    requires
        proper(l.base),
        l.base.dom().finite(),
        f.len() > 1,
        fits(l.base, f, task),
        copy::task_next(task, layers::answer(l, copy::task_call(task))) is Ok,
    ensures
        ({
            let more = copy::task_next(task, layers::answer(l, copy::task_call(task)))->Ok_0;
            &&& forall|i: int| 0 <= i < more.len() ==> fits(l.base, f, #[trigger] more[i])
            &&& forall|x: Seq<char>| #[trigger]
                l.base.contains_key(x) && covers(task, x) ==> covered(more, x) || (x
                    == copy::task_path(task) && (task is MakeDir || task is PutLink
                    || task is PutFile))
        }),
{
    let p = copy::task_path(task);
    let more = copy::task_next(task, layers::answer(l, copy::task_call(task)))->Ok_0;
    assert(p.len() > 1) by {
        laws::lemma_under(p, f, f);
    }
    if task is ListDir {
        lemma_list_task(l, f, p);
    } else {
        lemma_next(l, f, task);
        assert forall|x: Seq<char>| #[trigger]
            l.base.contains_key(x) && covers(task, x) implies covered(more, x) || (x == p && (
        task is MakeDir || task is PutLink || task is PutFile)) by {
            if task is PutLink || task is PutFile {
                if x != p {
                    lemma_leaf(l.base, x, p);
                }
            } else if !(task is MakeDir && x == p) {
                assert(covers(more[0], x));
            }
        }
    }
}

/// The copy stays in order where the last task makes room for `more`, and `e` are the
/// layers once it has put what it puts at `p`.
proof fn lemma_in_order(
    start: Layers,
    l: Layers,
    e: Layers,
    f: Seq<char>,
    tasks: Seq<TaskView>,
    more: Seq<TaskView>,
    puts: bool,
)
    requires
        tasks.len() > 0,
        under_way(start, l, f, tasks),
        e.base == l.base,
        e.whiteouts == l.whiteouts,
        ({
            let p = copy::task_path(tasks.last());
            if puts {
                e.delta.contains_key(p) && e.delta == l.delta.insert(p, e.delta[p]) && alike(
                    e.delta[p],
                    l.base[p],
                )
            } else {
                e.delta == l.delta
            }
        }),
        forall|i: int| 0 <= i < more.len() ==> fits(l.base, f, #[trigger] more[i]),
        forall|x: Seq<char>| #[trigger]
            l.base.contains_key(x) && covers(tasks.last(), x) ==> covered(more, x) || (x
                == copy::task_path(tasks.last()) && puts),
    ensures
        under_way(start, e, f, tasks.drop_last() + more),
{
    let p = copy::task_path(tasks.last());
    let rest = tasks.drop_last() + more;
    assert(fits(l.base, f, tasks[tasks.len() - 1]));
    assert forall|i: int| 0 <= i < rest.len() implies fits(e.base, f, #[trigger] rest[i]) by {
        if i < tasks.len() - 1 {
            assert(rest[i] == tasks[i]);
        } else {
            assert(rest[i] == more[i - (tasks.len() - 1)]);
        }
    }
    assert forall|x: Seq<char>| #[trigger]
        e.base.contains_key(x) && layers::under(x, f) implies e.delta.contains_key(x) || covered(
        rest,
        x,
    ) by {
        if !e.delta.contains_key(x) {
            assert(!l.delta.contains_key(x));
            let i = choose|i: int| 0 <= i < tasks.len() && #[trigger] covers(tasks[i], x);
            if i < tasks.len() - 1 {
                assert(rest[i] == tasks[i]);
                assert(covers(rest[i], x));
            } else {
                let j = choose|j: int| 0 <= j < more.len() && #[trigger] covers(more[j], x);
                assert(rest[tasks.len() - 1 + j] == more[j]);
                assert(covers(rest[tasks.len() - 1 + j], x));
            }
        }
    }
    assert forall|x: Seq<char>| #[trigger]
        e.delta.contains_key(x) && layers::under(x, f) implies e.base.contains_key(x) && alike(
        e.delta[x],
        e.base[x],
    ) by {
        if x != p || !puts {
            assert(l.delta.contains_key(x));
        }
    }
    assert forall|x: Seq<char>| !layers::under(x, f) implies (#[trigger] e.delta.contains_key(x)
        == start.delta.contains_key(x)) by {
        assert(x != p);
        assert(l.delta.contains_key(x) == start.delta.contains_key(x));
    }
    assert forall|x: Seq<char>| #[trigger]
        e.delta.contains_key(x) && !layers::under(x, f) implies e.delta[x] == start.delta[x] by {
        assert(x != p);
        assert(l.delta.contains_key(x));
    }
}

/// A task leaves the copy in order.
proof fn lemma_under_way(start: Layers, l: Layers, f: Seq<char>, tasks: Seq<TaskView>)
    requires
        proper(l.base),
        l.base.dom().finite(),
        f.len() > 1,
        tasks.len() > 0,
        under_way(start, l, f, tasks),
        copy::task_next(tasks.last(), layers::answer(l, copy::task_call(tasks.last()))) is Ok,
    ensures
        ({
            let q = copy::task_call(tasks.last());
            let more = copy::task_next(tasks.last(), layers::answer(l, q))->Ok_0;
            under_way(start, layers::effect(l, q), f, tasks.drop_last() + more)
        }),
{
    let task = tasks.last();
    let q = copy::task_call(task);
    let more = copy::task_next(task, layers::answer(l, q))->Ok_0;
    assert(fits(l.base, f, tasks[tasks.len() - 1]));
    lemma_task(l, f, task);
    lemma_effect(l, f, task);
    lemma_in_order(
        start,
        l,
        layers::effect(l, q),
        f,
        tasks,
        more,
        task is MakeDir || task is PutLink || task is PutFile,
    );
}

/// Once a copy has come to its end, the delta has all that the base has there.
proof fn lemma_copied(start: Layers, l: Layers, f: Seq<char>, tasks: Seq<TaskView>, most: nat)
    requires
        proper(l.base),
        l.base.dom().finite(),
        f.len() > 1,
        under_way(start, l, f, tasks),
        copied(l, tasks, most) is Some,
    ensures
        under_way(start, copied(l, tasks, most)->0, f, Seq::empty()),
    decreases most,
{
    if tasks.len() == 0 {
        assert(tasks =~= Seq::empty());
    } else {
        let q = copy::task_call(tasks.last());
        let more = copy::task_next(tasks.last(), layers::answer(l, q))->Ok_0;
        lemma_under_way(start, l, f, tasks);
        lemma_copied(
            start,
            layers::effect(l, q),
            f,
            tasks.drop_last() + more,
            (most - 1) as nat,
        );
    }
}

/// No mark below `top` hides `p`.
pub open spec fn unmarked(l: Layers, top: Seq<char>, p: Seq<char>) -> bool {
    forall|w: Seq<char>| #[trigger]
        l.whiteouts.contains(w) && text::begins(w, top + "/"@) ==> !layers::under(p, w)
}

/// Below what is seen nothing is deleted but by a mark on the way.
proof fn lemma_seen_below(l: Layers, p: Seq<char>, top: Seq<char>)
    requires
        layers::under(p, top),
        top.len() > 0,
        !layers::hidden(l, top),
        unmarked(l, top, p),
    ensures
        !layers::hidden(l, p),
    decreases p.len(),
{
    if p != top {
        reveal_strlit("/");
        ops::lemma_last_slash(p);
        let at = top.len() as int;
        assert(p.take(at + 1)[at] == '/');
        assert(p[at] == '/');
        let i = ops::last_slash(p)->0;
        let dir = p.take(i);
        assert(layers::under(dir, top)) by {
            assert(p.take(at + 1).take(at) =~= top);
            if i == at {
                assert(dir =~= top);
            } else {
                assert(dir.take(at + 1) =~= p.take(at + 1));
            }
        }
        assert(layers::under(p, dir)) by {
            assert(p[i] == '/');
            assert(p.take(i + 1) =~= dir + "/"@);
        }
        assert(unmarked(l, top, dir)) by {
            assert forall|w: Seq<char>| #[trigger]
                l.whiteouts.contains(w) && text::begins(w, top + "/"@) implies !layers::under(
                dir,
                w,
            ) by {
                if layers::under(dir, w) {
                    laws::lemma_under(p, dir, w);
                }
            }
        }
        lemma_seen_below(l, dir, top);
        assert(layers::under(p, p));
    }
}

/// What is below a deleted path is deleted.
proof fn lemma_deleted_below(l: Layers, p: Seq<char>, top: Seq<char>)
    requires
        layers::under(p, top),
        top.len() > 0,
        l.whiteouts.contains(top),
    ensures
        layers::hidden(l, p),
    decreases p.len(),
{
    if p != top {
        reveal_strlit("/");
        ops::lemma_last_slash(p);
        let at = top.len() as int;
        assert(p.take(at + 1)[at] == '/');
        assert(p[at] == '/');
        let i = ops::last_slash(p)->0;
        let dir = p.take(i);
        assert(layers::under(dir, top)) by {
            assert(p.take(at + 1).take(at) =~= top);
            if i == at {
                assert(dir =~= top);
            } else {
                assert(dir.take(at + 1) =~= p.take(at + 1));
            }
        }
        lemma_deleted_below(l, dir, top);
    }
}

/// What is below two paths shows that one of them is below the other.
proof fn lemma_one_way_down(x: Seq<char>, a: Seq<char>, b: Seq<char>)
    requires
        layers::under(x, a),
        layers::under(x, b),
    ensures
        layers::under(a, b) || layers::under(b, a),
{
    reveal_strlit("/");
    if x != a && x != b {
        assert(x.take(a.len() as int) =~= a) by {
            assert(x.take(a.len() as int + 1).take(a.len() as int) =~= a);
        }
        assert(x.take(b.len() as int) =~= b) by {
            assert(x.take(b.len() as int + 1).take(b.len() as int) =~= b);
        }
        if a.len() == b.len() {
            assert(a =~= b);
        } else if a.len() < b.len() {
            assert(b.take(a.len() as int + 1) =~= x.take(a.len() as int + 1));
        } else {
            assert(a.take(b.len() as int + 1) =~= x.take(b.len() as int + 1));
        }
    }
}

/// A path with `f` in front, with `t` in its place.
pub open spec fn rebased(q: Seq<char>, f: Seq<char>, t: Seq<char>) -> Seq<char> {
    t + q.skip(f.len() as int)
}

proof fn lemma_rebased(q: Seq<char>, f: Seq<char>, t: Seq<char>)
    requires
        layers::under(q, f),
    ensures
        layers::under(rebased(q, f, t), t),
        f + rebased(q, f, t).skip(t.len() as int) == q,
{
    reveal_strlit("/");
    let r = rebased(q, f, t);
    assert(r.skip(t.len() as int) =~= q.skip(f.len() as int));
    if q == f {
        assert(r =~= t);
        assert(f + r.skip(t.len() as int) =~= q);
    } else {
        let at = f.len() as int;
        assert(q.take(at + 1) == f + "/"@);
        assert(q.take(at + 1).take(at) =~= f);
        assert(q.take(at + 1)[at] == '/');
        assert(q =~= f + q.skip(at)) by {
            assert(q.take(at) =~= q.take(at + 1).take(at));
        }
        assert(r.take(t.len() as int + 1) =~= t + "/"@);
        assert(f + r.skip(t.len() as int) =~= q);
    }
}

/// What moving a directory that was copied up does to what is in it.
proof fn lemma_moved_along(c: Layers, f: Seq<char>, t: Seq<char>, now: i64, q: Seq<char>)
    requires
        laws::rooted(c),
        laws::tidy(f),
        laws::tidy(t),
        laws::clean(c, f),
        laws::clean(c, t),
        c.delta.contains_key(f),
        laws::replaceable(c, f, t),
        !layers::under(f, t),
        !layers::under(t, f),
        unmarked(c, t, rebased(q, f, t)),
        layers::under(q, f),
        c.delta.contains_key(q),
    ensures
        laws::visible(laws::finished(c, f, t, now), rebased(q, f, t)) == Some(c.delta[q]),
{
    let dropped = laws::without_mark(c, t);
    let e = laws::with_parents(dropped, t);
    let after = laws::finished(c, f, t, now);
    let r = rebased(q, f, t);
    laws::lemma_finished(c, f, t, now);
    assert(laws::clean(dropped, t));
    laws::lemma_with_parents(dropped, t);
    lemma_rebased(q, f, t);
    assert(after.delta == layers::moved(e.delta, f, t));
    assert(f != t);
    assert(e.delta.contains_key(q) && e.delta[q] == c.delta[q]);
    assert(after.delta.contains_key(r) && after.delta[r] == c.delta[q]);
    assert(!layers::hidden(after, t));
    assert(unmarked(after, t, r)) by {
        assert forall|w: Seq<char>| #[trigger]
            after.whiteouts.contains(w) && text::begins(w, t + "/"@) implies !layers::under(
            r,
            w,
        ) by {
            assert(w != f);
            assert(e.whiteouts.contains(w));
            assert(dropped.whiteouts.contains(w));
        }
    }
    lemma_seen_below(after, r, t);
}

/// Nothing is seen at or below the old name of what was moved.
proof fn lemma_none_left(c: Layers, f: Seq<char>, t: Seq<char>, now: i64)
    requires
        laws::rooted(c),
        proper(c.base),
        laws::tidy(f),
        f.len() > 1,
        laws::tidy(t),
        laws::clean(c, f),
        laws::clean(c, t),
        c.delta.contains_key(f),
        laws::replaceable(c, f, t),
        !layers::under(f, t),
        !layers::under(t, f),
    ensures
        forall|x: Seq<char>|
            layers::under(x, f) ==> #[trigger] laws::visible(laws::finished(c, f, t, now), x) is None,
{
    let dropped = laws::without_mark(c, t);
    let e = laws::with_parents(dropped, t);
    let after = laws::finished(c, f, t, now);
    laws::lemma_finished(c, f, t, now);
    assert(after.delta == layers::moved(e.delta, f, t));
    assert(f != t);
    assert forall|x: Seq<char>| layers::under(x, f) implies #[trigger] laws::visible(
        after,
        x,
    ) is None by {
        if layers::under(x, t) {
            lemma_one_way_down(x, f, t);
        }
        assert(!after.delta.contains_key(x));
        if c.base.contains_key(f) {
            lemma_deleted_below(after, x, f);
        } else if c.base.contains_key(x) {
            lemma_leaf(c.base, x, f);
        }
    }
}

proof fn lemma_run_move(l: Layers, from: Seq<char>, to: Seq<char>, now: i64, most: nat)
    requires
        ({
            let f = ops::normal(from);
            !l.delta.contains_key(f) && l.base.contains_key(f) && l.base[f].kind == Kind::Dir
        }),
    ensures
        ({
            let f = ops::normal(from);
            let r = layers::run(ops::rename_plan(from, to, now, most), l);
            match copied(l, seq![Task::MakeDir(f)], most) {
                Some(c) => r == layers::run(ops::rename_finish_plan(from, to, now), c),
                None => r.0 is Err,
            }
        }),
{
    broadcast use crate::overlay::layers::group_run;

    types::law_default_modes();
    let finish = ops::rename_finish_plan(from, to, now);
    lemma_run_copy(l, seq![Task::MakeDir(ops::normal(from))], most, |_u: ()| finish);
}

/// Whatever a directory that only the base has held is seen under the new name of
/// the directory once it is moved, and at and below the old name nothing is seen any
/// more.
pub proof fn law_moved_directory_takes_all_along(
    l: Layers,
    from: Seq<char>,
    to: Seq<char>,
    now: i64,
    most: nat,
    q: Seq<char>,
)
    requires
        laws::rooted(l),
        proper(l.base),
        l.base.dom().finite(),
        laws::tidy(ops::normal(from)),
        laws::tidy(ops::normal(to)),
        laws::clean(l, ops::normal(to)),
        !layers::hidden(l, ops::normal(from)),
        l.base.contains_key(ops::normal(from)),
        l.base[ops::normal(from)].kind == Kind::Dir,
        proper(l.delta),
        !l.delta.contains_key(ops::normal(from)),
        l.delta.contains_key(ops::normal(to)) ==> l.delta[ops::normal(to)].kind == Kind::Dir
            && layers::removable(l, ops::normal(to)),
        !layers::under(ops::normal(from), ops::normal(to)),
        !layers::under(ops::normal(to), ops::normal(from)),
        unmarked(l, ops::normal(to), rebased(q, ops::normal(from), ops::normal(to))),
        l.base.contains_key(q),
        layers::under(q, ops::normal(from)),
        layers::run(ops::rename_plan(from, to, now, most), l).0 is Ok,
    ensures
        ({
            let after = layers::run(ops::rename_plan(from, to, now, most), l).1;
            &&& laws::visible(after, rebased(q, ops::normal(from), ops::normal(to))) matches Some(n)
                && alike(n, l.base[q])
            &&& forall|x: Seq<char>|
                layers::under(x, ops::normal(from)) ==> #[trigger] laws::visible(after, x) is None
        }),
{
    let f = ops::normal(from);
    let t = ops::normal(to);
    let tasks = seq![Task::<Seq<char>, Seq<u8>>::MakeDir(f)];
    lemma_run_move(l, from, to, now, most);
    let c = copied(l, tasks, most)->0;
    lemma_long(f);
    assert forall|x: Seq<char>| #[trigger] l.delta.contains_key(x) implies !layers::under(
        x,
        f,
    ) by {
        if layers::under(x, f) {
            lemma_leaf(l.delta, x, f);
        }
    }
    assert(under_way(l, l, f, tasks)) by {
        assert forall|x: Seq<char>| #[trigger]
            l.base.contains_key(x) && layers::under(x, f) implies covered(tasks, x) by {
            assert(covers(tasks[0], x));
        }
    }
    lemma_copied(l, l, f, tasks, most);
    let none = Seq::<TaskView>::empty();
    assert(c.delta.contains_key(q) && c.delta.contains_key(f)) by {
        assert(!covered(none, q) && !covered(none, f));
        assert(layers::under(f, f));
    }
    laws::lemma_visible_is_clean(l, f);
    lemma_short(f, l, c);
    assert(laws::clean(c, t)) by {
        let tc = paths::parts(t);
        assert forall|k: int| 1 <= k < tc.len() implies !(c.whiteouts.contains(
            #[trigger] paths::path_string(tc.take(k)),
        ) && c.delta.contains_key(paths::path_string(tc.take(k)))) by {
            let d = paths::path_string(tc.take(k));
            if layers::under(d, f) {
                laws::lemma_under_front(tc, k);
                laws::lemma_under(t, d, f);
            }
        }
    }
    assert(laws::rooted(c)) by {
        reveal_strlit("/");
        assert(!layers::under("/"@, f));
    }
    assert(laws::replaceable(c, f, t)) by {
        assert(l.delta.contains_key(t) == c.delta.contains_key(t));
        if c.delta.contains_key(t) {
            assert(c.delta[t] == l.delta[t]);
            assert(alike(c.delta[f], l.base[f]));
            assert forall|x: Seq<char>| #[trigger] c.delta.contains_key(x) implies !text::begins(
                x,
                t + "/"@,
            ) by {
                if layers::under(x, t) {
                    if layers::under(x, f) {
                        lemma_one_way_down(x, f, t);
                    }
                    assert(l.delta.contains_key(x));
                }
            }
        }
    }
    laws::lemma_finished(c, f, t, now);
    laws::lemma_run_finish(c, from, to, now);
    lemma_moved_along(c, f, t, now, q);
    lemma_none_left(c, f, t, now);
}

/// Whatever the delta has in a directory of its own is seen under the new name of
/// the directory once it is moved, and at and below the old name nothing is seen any
/// more, neither of the delta nor of the base.
pub proof fn law_moved_directory_takes_the_delta_along(
    l: Layers,
    from: Seq<char>,
    to: Seq<char>,
    now: i64,
    most: nat,
    q: Seq<char>,
)
    requires
        laws::rooted(l),
        proper(l.base),
        laws::tidy(ops::normal(from)),
        laws::tidy(ops::normal(to)),
        laws::clean(l, ops::normal(to)),
        !layers::hidden(l, ops::normal(from)),
        l.delta.contains_key(ops::normal(from)),
        l.delta[ops::normal(from)].kind == Kind::Dir,
        l.delta.contains_key(ops::normal(to)) ==> l.delta[ops::normal(to)].kind == Kind::Dir
            && layers::removable(l, ops::normal(to)),
        !layers::under(ops::normal(from), ops::normal(to)),
        !layers::under(ops::normal(to), ops::normal(from)),
        unmarked(l, ops::normal(to), rebased(q, ops::normal(from), ops::normal(to))),
        l.delta.contains_key(q),
        layers::under(q, ops::normal(from)),
    ensures
        ({
            let (r, after) = layers::run(ops::rename_plan(from, to, now, most), l);
            &&& r is Ok
            &&& laws::visible(after, rebased(q, ops::normal(from), ops::normal(to))) == Some(
                l.delta[q],
            )
            &&& forall|x: Seq<char>|
                layers::under(x, ops::normal(from)) ==> #[trigger] laws::visible(after, x) is None
        }),
{
    let f = ops::normal(from);
    let t = ops::normal(to);
    laws::lemma_run_rename(l, from, to, now, most);
    lemma_long(f);
    laws::lemma_visible_is_clean(l, f);
    laws::lemma_finished(l, f, t, now);
    laws::lemma_run_finish(l, from, to, now);
    lemma_moved_along(l, f, t, now, q);
    lemma_none_left(l, f, t, now);
}

proof fn lemma_long(f: Seq<char>)
    requires
        laws::tidy(f),
    ensures
        f.len() > 1,
{
    paths::lemma_parts_of_path(paths::parts(f));
    reveal_strlit("/");
    if f.len() == 1 {
        assert(f =~= "/"@);
    }
}

/// What is above a directory is not touched by its copy.
proof fn lemma_short(f: Seq<char>, l: Layers, c: Layers)
    requires
        laws::tidy(f),
        laws::clean(l, f),
        c.whiteouts == l.whiteouts,
        forall|q: Seq<char>|
            !layers::under(q, f) ==> (#[trigger] c.delta.contains_key(q) == l.delta.contains_key(q)),
    ensures
        laws::clean(c, f),
{
    let cs = paths::parts(f);
    assert forall|k: int| 1 <= k < cs.len() implies !(c.whiteouts.contains(
        #[trigger] paths::path_string(cs.take(k)),
    ) && c.delta.contains_key(paths::path_string(cs.take(k)))) by {
        let d = paths::path_string(cs.take(k));
        if layers::under(d, f) {
            laws::lemma_under_front(cs, k);
            laws::lemma_under(d, f, d);
            laws::lemma_plain_front(cs, k);
            laws::lemma_paths_differ(cs.take(k), cs);
            reveal_strlit("/");
        }
    }
}

} // verus!
