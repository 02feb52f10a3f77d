//! What holds of the overlay: the base is never changed, what is removed is
//! hidden, what is written is read, and a listing shows both layers.

use crate::fs::types::{FsError, Stats};
use crate::overlay::calls::{
    Call, CallView, Failure, FailureView, FilesystemStats, Layer, Reply, ReplyView,
};
use crate::overlay::layers;
use crate::overlay::layers::{Kind, Layers, Node, Tree};
use crate::overlay::ops;
use crate::paths;
use crate::plan::Plan;
use crate::text;
use crate::text::Edge;
use vstd::prelude::*;

verus! {

/// No operation whatever changes the base.
pub proof fn law_base_is_never_changed<T>(p: Plan<CallView, ReplyView, T>, l: Layers)
    ensures
        layers::run(p, l).1.base == l.base,
    decreases p,
{
    match p {
        Plan::Done(_) => {},
        Plan::Ask(q, next) => {
            law_base_is_never_changed(next(layers::answer(l, q)), layers::effect(l, q));
        },
    }
}

/// What is seen at a path: what the delta has, else what the base has, unless it
/// is deleted.
pub open spec fn visible(l: Layers, p: Seq<char>) -> Option<Node> {
    if layers::hidden(l, p) {
        None
    } else if l.delta.contains_key(p) {
        Some(l.delta[p])
    } else if l.base.contains_key(p) {
        Some(l.base[p])
    } else {
        None
    }
}

/// Reading a file gives the contents of what is seen.
pub proof fn law_read_outcome(l: Layers, path: Seq<char>)
    ensures
        layers::run(ops::read_file_plan(path), l) == (
            Ok::<Option<Seq<u8>>, FailureView>(
                match visible(l, ops::normal(path)) {
                    Some(n) => Some(n.data),
                    None => None,
                },
            ),
            l,
        ),
{
    broadcast use crate::overlay::layers::group_run;

}

/// Reading a part of a file gives that part of what reading all of it gives.
pub proof fn law_part_is_read(l: Layers, path: Seq<char>, offset: u64, size: u64)
    ensures
        layers::run(ops::pread_plan(path, offset, size), l) == (
            match layers::run(ops::read_file_plan(path), l).0 {
                Ok(Some(data)) => Ok(Some(layers::part(data, offset, size))),
                other => other,
            },
            l,
        ),
{
    broadcast use crate::overlay::layers::group_run;

    law_read_outcome(l, path);
}

/// The statistics of a path are those of what is seen.
pub proof fn law_stat_outcome(l: Layers, path: Seq<char>)
    ensures
        layers::run(ops::stat_plan(path), l).1 == l,
        layers::run(ops::stat_plan(path), l).0 is Ok,
        match visible(l, ops::normal(path)) {
            Some(n) => layers::run(ops::stat_plan(path), l).0->Ok_0 matches Some(s) && s.mode
                == layers::node_stats(n).mode && s.size == layers::node_stats(n).size,
            None => layers::run(ops::stat_plan(path), l).0->Ok_0 is None,
        },
        layers::run(ops::lstat_plan(path), l) == layers::run(ops::stat_plan(path), l),
{
    broadcast use crate::overlay::layers::group_run;

}

/// Reading a link gives the target of what is seen: of a link of either layer its
/// target, of a path where nothing is seen none. What is seen and is no link is
/// refused. Nothing is changed.
pub proof fn law_readlink_outcome(l: Layers, path: Seq<char>)
    ensures
        layers::run(ops::readlink_plan(path), l) == (
            match visible(l, ops::normal(path)) {
                Some(n) => if n.kind == Kind::Link {
                    Ok::<Option<Seq<char>>, FailureView>(Some(n.target))
                } else {
                    Err(Failure::Fs(FsError::NotASymlink))
                },
                None => Ok(None),
            },
            l,
        ),
{
    broadcast use crate::overlay::layers::group_run;

}

/// What a plan comes to where each call is answered as `f` says, whatever the
/// layers are.
pub open spec fn told<T>(
    p: Plan<CallView, ReplyView, T>,
    f: spec_fn(CallView) -> ReplyView,
) -> T
    decreases p,
{
    match p {
        Plan::Done(t) => t,
        Plan::Ask(q, next) => told(next(f(q)), f),
    }
}

/// Whether a path counts as deleted, by what is said of the whiteouts.
pub open spec fn said_deleted(f: spec_fn(CallView) -> ReplyView, path: Seq<char>) -> bool
    decreases path.len(),
{
    proof {
        ops::lemma_last_slash(path);
    }
    f(Call::HasWhiteout { path }) == ReplyView::Flag(true) || match ops::above(
        path,
    ) {
        Some(dir) => said_deleted(f, dir),
        None => false,
    }
}

/// Each question after a whiteout is answered.
pub open spec fn marks_told(f: spec_fn(CallView) -> ReplyView) -> bool {
    forall|path: Seq<char>| #[trigger] f(Call::HasWhiteout { path }) is Flag
}

pub broadcast proof fn lemma_told_done<T>(t: T, f: spec_fn(CallView) -> ReplyView)
    ensures
        #[trigger] told(Plan::<CallView, ReplyView, T>::Done(t), f) == t,
{
}

pub broadcast proof fn lemma_told_ask<T>(
    q: CallView,
    next: spec_fn(ReplyView) -> Plan<CallView, ReplyView, T>,
    f: spec_fn(CallView) -> ReplyView,
)
    ensures
        #[trigger] told(Plan::Ask(q, next), f) == told(next(f(q)), f),
{
}

pub broadcast proof fn lemma_told_whiteout<T>(
    path: Seq<char>,
    then: spec_fn(bool) -> ops::OvPlan<T>,
    f: spec_fn(CallView) -> ReplyView,
)
    requires
        marks_told(f),
    ensures
        #[trigger] told(ops::whiteout_plan::<T>(path, then), f) == told(
            then(said_deleted(f, path)),
            f,
        ),
    decreases path.len(),
{
    broadcast use lemma_told_done, lemma_told_ask;

    assert(f(Call::HasWhiteout { path }) is Flag);
    match ops::above(path) {
        Some(dir) => {
            ops::lemma_last_slash(path);
            lemma_told_whiteout(dir, then, f);
        },
        None => {},
    }
}

broadcast group group_told {
    lemma_told_done,
    lemma_told_ask,
    lemma_told_whiteout,
}

/// The statistics that one layer or the other gives for a path are handed on as
/// they are, those of the delta before those of the base, and only the root of the
/// base gets the inode that the kernel expects. What follows links asks the layers
/// to follow them, and what does not does not.
pub proof fn law_statistics_are_the_layers_own(
    f: spec_fn(CallView) -> ReplyView,
    path: Seq<char>,
    delta: Option<Stats>,
    base: Option<Stats>,
    follow: bool,
)
    requires
        marks_told(f),
        f(
            if follow {
                Call::Stat { layer: Layer::Delta, path: ops::normal(path) }
            } else {
                Call::Lstat { layer: Layer::Delta, path: ops::normal(path) }
            },
        ) == ReplyView::Stats(delta),
        f(
            if follow {
                Call::Stat { layer: Layer::Base, path: ops::normal(path) }
            } else {
                Call::Lstat { layer: Layer::Base, path: ops::normal(path) }
            },
        ) == ReplyView::Stats(base),
    ensures
        ({
            let seen = told(
                if follow {
                    ops::stat_plan(path)
                } else {
                    ops::lstat_plan(path)
                },
                f,
            );
            let p = ops::normal(path);
            &&& said_deleted(f, p) ==> seen == Ok::<Option<Stats>, FailureView>(None)
            &&& !said_deleted(f, p) && delta is Some ==> seen == Ok::<Option<Stats>, FailureView>(
                delta,
            )
            &&& !said_deleted(f, p) && delta is None && p != "/"@ ==> seen == Ok::<
                Option<Stats>,
                FailureView,
            >(base)
            &&& !said_deleted(f, p) && delta is None && p == "/"@ && base is Some ==> seen == Ok::<
                Option<Stats>,
                FailureView,
            >(Some(Stats { ino: 1, ..base->0 }))
        }),
{
    broadcast use group_told;

}

/// How much is in use is what the delta says, and where it cannot say, that is the
/// failure.
pub proof fn law_usage_is_the_deltas(f: spec_fn(CallView) -> ReplyView)
    ensures
        match f(Call::Statfs) {
            Reply::Usage(u) => told(ops::statfs_plan(), f) == Ok::<FilesystemStats, FailureView>(
                u,
            ),
            Reply::Failed(e) => told(ops::statfs_plan(), f) == Err::<FilesystemStats, FailureView>(
                e,
            ),
            _ => true,
        },
{
    broadcast use group_told;

}

/// What removing an entry comes to.
pub open spec fn remove_outcome(l: Layers, p: Seq<char>) -> (Result<(), FailureView>, Layers) {
    let out = layers::effect(l, Call::Remove { path: p });
    if !layers::hidden(out, p) && l.base.contains_key(p) {
        (Ok(()), Layers { whiteouts: out.whiteouts.insert(p), ..out })
    } else if layers::removable(l, p) {
        (Ok(()), out)
    } else {
        (Err(Failure::Fs(FsError::NotFound)), out)
    }
}

/// Removing an entry comes to what `remove_outcome` says.
pub proof fn law_remove_outcome(l: Layers, path: Seq<char>, now: i64)
    ensures
        layers::run(ops::remove_plan(path, now), l) == remove_outcome(l, ops::normal(path)),
{
    broadcast use crate::overlay::layers::group_run;

}

/// An entry that was removed is seen no more, and cannot be read.
pub proof fn law_removed_is_hidden(l: Layers, path: Seq<char>, now: i64)
    requires
        layers::run(ops::remove_plan(path, now), l).0 is Ok,
    ensures
        ({
            let after = layers::run(ops::remove_plan(path, now), l).1;
            &&& layers::run(ops::stat_plan(path), after).0 == Ok::<Option<Stats>, FailureView>(
                None,
            )
            &&& layers::run(ops::read_file_plan(path), after).0 == Ok::<
                Option<Seq<u8>>,
                FailureView,
            >(None)
        }),
{
    let p = ops::normal(path);
    law_remove_outcome(l, path, now);
    let after = remove_outcome(l, p).1;
    law_stat_outcome(after, path);
    law_read_outcome(after, path);
}

/// An entry of the base that is seen can be removed, and is marked as deleted; so can an
/// entry of the delta that has nothing below it, which is taken out. What is in neither
/// layer is not found. Nothing else is touched.
pub proof fn law_when_a_removal_succeeds(l: Layers, path: Seq<char>, now: i64)
    ensures
        ({
            let p = ops::normal(path);
            let (r, after) = layers::run(ops::remove_plan(path, now), l);
            let mark = l.base.contains_key(p) && !layers::hidden(l, p);
            &&& r is Ok <==> mark || layers::removable(l, p)
            &&& r is Err ==> r == Err::<(), FailureView>(Failure::Fs(FsError::NotFound)) && after
                == l
            &&& after.delta == if layers::removable(l, p) {
                l.delta.remove(p)
            } else {
                l.delta
            }
            &&& after.whiteouts == if mark {
                l.whiteouts.insert(p)
            } else {
                l.whiteouts
            }
        }),
{
    let p = ops::normal(path);
    law_remove_outcome(l, path, now);
    lemma_same_marks(l, layers::effect(l, Call::Remove { path: p }), p);
}

/// What neither layer has cannot be moved, and nothing changes.
pub proof fn law_nothing_is_not_moved(
    l: Layers,
    from: Seq<char>,
    to: Seq<char>,
    now: i64,
    most: nat,
)
    requires
        !l.delta.contains_key(ops::normal(from)),
        !l.base.contains_key(ops::normal(from)),
    ensures
        layers::run(ops::rename_plan(from, to, now, most), l) == (
            Err::<(), FailureView>(Failure::Fs(FsError::NotFound)),
            l,
        ),
{
    broadcast use crate::overlay::layers::group_run;

}

/// The paths that are written without `.`, `..` and doubled slashes.
pub open spec fn tidy(p: Seq<char>) -> bool {
    &&& paths::parts(p).len() > 0
    &&& paths::all_plain(paths::parts(p))
    &&& p == paths::path_string(paths::parts(p))
}

/// No directory above a path is both deleted and in the delta.
pub open spec fn clean(l: Layers, p: Seq<char>) -> bool {
    forall|k: int|
        1 <= k < paths::parts(p).len() ==> !(l.whiteouts.contains(
            #[trigger] paths::path_string(paths::parts(p).take(k)),
        ) && l.delta.contains_key(paths::path_string(paths::parts(p).take(k))))
}

/// The delta has its root.
pub open spec fn rooted(l: Layers) -> bool {
    l.delta.contains_key("/"@)
}

/// `q` is the path of one of the first `k` directories on the way along `cs`.
pub closed spec fn on_the_way(cs: Seq<Seq<char>>, k: int, q: Seq<char>) -> bool {
    exists|j: int| 1 <= j <= k && q == #[trigger] paths::path_string(cs.take(j))
}

/// The layers once the first `k` directories on the way along `cs` are there.
pub closed spec fn prepared(l: Layers, cs: Seq<Seq<char>>, k: nat) -> Layers
    decreases k,
{
    if k == 0 {
        l
    } else {
        layers::with_dir(
            prepared(l, cs, (k - 1) as nat),
            paths::path_string(cs.take(k as int)),
        )
    }
}

pub proof fn lemma_plain_front(cs: Seq<Seq<char>>, k: int)
    requires
        paths::all_plain(cs),
        0 <= k <= cs.len(),
    ensures
        paths::all_plain(cs.take(k)),
{
    assert forall|i: int| 0 <= i < k implies paths::plain(#[trigger] cs.take(k)[i]) by {
        assert(cs.take(k)[i] == cs[i]);
    }
}

/// One more component makes the path one name longer.
proof fn lemma_path_push(cs: Seq<Seq<char>>)
    requires
        cs.len() > 0,
    ensures
        paths::path_string(cs) == (if cs.len() == 1 {
            Seq::empty()
        } else {
            paths::path_string(cs.drop_last())
        }) + "/"@ + cs.last(),
        paths::path_string(Seq::<Seq<char>>::empty()) == "/"@,
{
    reveal_strlit("/");
    if cs.len() == 1 {
        assert(cs =~= seq![cs[0]]);
    }
    assert(paths::path_string(cs) =~= (if cs.len() == 1 {
        Seq::empty()
    } else {
        paths::path_string(cs.drop_last())
    }) + "/"@ + cs.last());
    assert(paths::path_string(Seq::<Seq<char>>::empty()) =~= "/"@);
}

proof fn lemma_last_slash_at(s: Seq<char>, at: int)
    requires
        0 <= at < s.len(),
        s[at] == '/',
        forall|i: int| at < i < s.len() ==> s[i] != '/',
    ensures
        ops::last_slash(s) == Some(at),
{
    ops::lemma_last_slash(s);
}

/// The directory that an entry is in has the path of the other components.
pub proof fn lemma_dir_of(cs: Seq<Seq<char>>)
    requires
        paths::all_plain(cs),
        cs.len() > 0,
    ensures
        ops::above(paths::path_string(cs)) == if cs.len() == 1 {
            None
        } else {
            Some(paths::path_string(cs.drop_last()))
        },
        layers::dir_of(paths::path_string(cs)) == paths::path_string(cs.drop_last()),
        ops::child_prefix(paths::path_string(cs.drop_last())) + cs.last() == paths::path_string(
            cs,
        ),
        paths::path_string(cs) != "/"@,
{
    reveal_strlit("/");
    lemma_path_push(cs);
    let s = paths::path_string(cs);
    let last = cs.last();
    assert(paths::plain(cs[cs.len() - 1]));
    let at = s.len() - last.len() - 1;
    assert(s[at] == '/');
    assert forall|i: int| at < i < s.len() implies s[i] != '/' by {
        assert(s[i] == last[i - at - 1]);
        assert(last.contains(last[i - at - 1]));
    }
    lemma_last_slash_at(s, at);
    paths::lemma_parts_of_path(cs);
    if cs.len() == 1 {
        assert(cs.drop_last() =~= Seq::<Seq<char>>::empty());
        assert("/"@ + last =~= s);
    } else {
        assert(s.take(at) =~= paths::path_string(cs.drop_last()));
        lemma_plain_front(cs, cs.len() - 1);
        assert(cs.take(cs.len() - 1) =~= cs.drop_last());
        paths::lemma_parts_of_path(cs.drop_last());
        assert(paths::path_string(cs.drop_last()).len() > 0);
    }
}

/// Paths of different components differ.
pub proof fn lemma_paths_differ(a: Seq<Seq<char>>, b: Seq<Seq<char>>)
    requires
        paths::all_plain(a),
        paths::all_plain(b),
        a.len() > 0,
        b.len() > 0,
        a != b,
    ensures
        paths::path_string(a) != paths::path_string(b),
{
    paths::lemma_parts_of_path(a);
    paths::lemma_parts_of_path(b);
}

/// A path is at or below each directory on the way to it.
pub proof fn lemma_under_front(cs: Seq<Seq<char>>, k: int)
    requires
        paths::all_plain(cs),
        1 <= k <= cs.len(),
    ensures
        layers::under(paths::path_string(cs), paths::path_string(cs.take(k))),
    decreases cs.len(),
{
    reveal_strlit("/");
    if k == cs.len() {
        assert(cs.take(k) =~= cs);
    } else {
        let up = cs.drop_last();
        lemma_plain_front(cs, cs.len() - 1);
        assert(cs.take(cs.len() - 1) =~= up);
        assert(up.take(k) =~= cs.take(k));
        lemma_under_front(up, k);
        lemma_path_push(cs);
        let s = paths::path_string(cs);
        let top = paths::path_string(cs.take(k));
        let mid = paths::path_string(up);
        assert(s == mid + "/"@ + cs.last());
        if mid == top {
            assert(s.take(top.len() as int + 1) =~= top + "/"@);
        } else {
            assert(s.take(top.len() as int + 1) =~= mid.take(top.len() as int + 1));
        }
    }
}

/// A path is deleted where it or a directory on the way to it is.
proof fn lemma_hidden(l: Layers, cs: Seq<Seq<char>>)
    requires
        paths::all_plain(cs),
        cs.len() > 0,
    ensures
        layers::hidden(l, paths::path_string(cs)) <==> exists|k: int|
            1 <= k <= cs.len() && l.whiteouts.contains(
                #[trigger] paths::path_string(cs.take(k)),
            ),
    decreases cs.len(),
{
    lemma_dir_of(cs);
    assert(cs.take(cs.len() as int) =~= cs);
    if cs.len() > 1 {
        let up = cs.drop_last();
        lemma_plain_front(cs, cs.len() - 1);
        assert(cs.take(cs.len() - 1) =~= up);
        lemma_hidden(l, up);
        assert forall|k: int| 1 <= k <= up.len() implies #[trigger] up.take(k) == cs.take(k) by {
            assert(up.take(k) =~= cs.take(k));
        }
        if layers::hidden(l, paths::path_string(up)) {
            let k = choose|k: int|
                1 <= k <= up.len() && l.whiteouts.contains(
                    #[trigger] paths::path_string(up.take(k)),
                );
            assert(l.whiteouts.contains(paths::path_string(cs.take(k))));
        }
        if exists|k: int|
            1 <= k <= cs.len() && l.whiteouts.contains(#[trigger] paths::path_string(cs.take(k))) {
            let k = choose|k: int|
                1 <= k <= cs.len() && l.whiteouts.contains(
                    #[trigger] paths::path_string(cs.take(k)),
                );
            if k < cs.len() {
                assert(l.whiteouts.contains(paths::path_string(up.take(k))));
            }
        }
    }
}

/// What is ensured is what is prepared for all components but the last.
proof fn lemma_ensured(l: Layers, cs: Seq<Seq<char>>, j: nat)
    requires
        j < cs.len(),
    ensures
        layers::ensured(
            prepared(l, cs, j),
            if j == 0 {
                Seq::empty()
            } else {
                paths::path_string(cs.take(j as int))
            },
            cs.skip(j as int),
        ) == prepared(l, cs, (cs.len() - 1) as nat),
    decreases cs.len() - j,
{
    let rest = cs.skip(j as int);
    if rest.len() > 1 {
        let current = if j == 0 {
            Seq::empty()
        } else {
            paths::path_string(cs.take(j as int))
        };
        let next = cs.take(j as int + 1);
        lemma_path_push(next);
        assert(next.drop_last() =~= cs.take(j as int));
        assert(current + "/"@ + rest[0] == paths::path_string(next));
        assert(rest.drop_first() =~= cs.skip(j as int + 1));
        lemma_ensured(l, cs, j + 1);
    }
}

pub proof fn lemma_prepared(l: Layers, cs: Seq<Seq<char>>, k: nat)
    requires
        paths::all_plain(cs),
        rooted(l),
        k <= cs.len(),
        forall|j: int|
            1 <= j <= k ==> !(l.whiteouts.contains(#[trigger] paths::path_string(cs.take(j)))
                && l.delta.contains_key(paths::path_string(cs.take(j)))),
    ensures
        ({
            let e = prepared(l, cs, k);
            &&& e.base == l.base
            &&& forall|q: Seq<char>| #[trigger]
                l.delta.contains_key(q) ==> e.delta.contains_key(q) && e.delta[q] == l.delta[q]
            &&& forall|q: Seq<char>| #[trigger]
                e.delta.contains_key(q) ==> l.delta.contains_key(q) || (on_the_way(
                    cs,
                    k as int,
                    q,
                ) && !e.whiteouts.contains(q))
            &&& forall|q: Seq<char>| #[trigger]
                e.whiteouts.contains(q) ==> l.whiteouts.contains(q)
            &&& forall|q: Seq<char>| #[trigger]
                l.whiteouts.contains(q) ==> e.whiteouts.contains(q) || on_the_way(
                    cs,
                    k as int,
                    q,
                )
            &&& forall|j: int|
                1 <= j <= k ==> e.delta.contains_key(#[trigger] paths::path_string(cs.take(j)))
                    && !e.whiteouts.contains(paths::path_string(cs.take(j)))
        }),
    decreases k,
{
    if k > 0 {
        let up = prepared(l, cs, (k - 1) as nat);
        let e = prepared(l, cs, k);
        let dir = paths::path_string(cs.take(k as int));
        lemma_prepared(l, cs, (k - 1) as nat);
        lemma_plain_front(cs, k as int);
        lemma_dir_of(cs.take(k as int));
        assert(cs.take(k as int).drop_last() =~= cs.take(k - 1));
        if k == 1 {
            lemma_path_push(cs.take(1));
            assert(cs.take(0) =~= Seq::<Seq<char>>::empty());
        }
        assert(up.delta.contains_key(layers::dir_of(dir)));
        assert forall|q: Seq<char>| on_the_way(cs, k - 1, q) implies on_the_way(
            cs,
            k as int,
            q,
        ) by {
            let j = choose|j: int| 1 <= j <= k - 1 && q == #[trigger] paths::path_string(cs.take(j));
            assert(q == paths::path_string(cs.take(j)));
        }
        assert(on_the_way(cs, k as int, dir));
        if up.delta.contains_key(dir) {
            assert(e == up);
            if up.whiteouts.contains(dir) {
                assert(l.delta.contains_key(dir));
                assert(l.whiteouts.contains(paths::path_string(cs.take(k as int))));
            }
        } else {
            let dropped = layers::effect(up, Call::DropWhiteout { path: dir });
            assert(layers::free(dropped, dir));
            assert(e.delta == up.delta.insert(dir, layers::new_dir()));
            assert(e.whiteouts == up.whiteouts.remove(dir));
        }
        assert forall|j: int| 1 <= j <= k implies e.delta.contains_key(
            #[trigger] paths::path_string(cs.take(j)),
        ) && !e.whiteouts.contains(paths::path_string(cs.take(j))) by {
            if j < k {
                assert(up.delta.contains_key(paths::path_string(cs.take(j))));
            }
        }
    }
}

/// The layers once the directories above the entry at `p` are there.
pub open spec fn with_parents(l: Layers, p: Seq<char>) -> Layers {
    layers::ensured(l, Seq::empty(), paths::parts(p))
}

/// Making the directories above an entry leaves the entry as it is, and takes
/// back what hid the directories.
pub proof fn lemma_with_parents(l: Layers, p: Seq<char>)
    requires
        rooted(l),
        tidy(p),
        clean(l, p),
    ensures
        ({
            let e = with_parents(l, p);
            let cs = paths::parts(p);
            &&& e == prepared(l, cs, (cs.len() - 1) as nat)
            &&& forall|q: Seq<char>| #[trigger]
                l.delta.contains_key(q) ==> e.delta.contains_key(q) && e.delta[q] == l.delta[q]
            &&& forall|q: Seq<char>| #[trigger]
                e.whiteouts.contains(q) ==> l.whiteouts.contains(q)
            &&& e.base == l.base
            &&& rooted(e)
            &&& clean(e, p)
            &&& e.delta.contains_key(p) == l.delta.contains_key(p)
            &&& l.delta.contains_key(p) ==> e.delta[p] == l.delta[p]
            &&& e.delta.contains_key(layers::dir_of(p))
            &&& e.whiteouts.contains(p) == l.whiteouts.contains(p)
            &&& layers::hidden(e, p) == l.whiteouts.contains(p)
            &&& p != "/"@
        }),
{
    let cs = paths::parts(p);
    let n = (cs.len() - 1) as nat;
    let e = with_parents(l, p);
    assert(cs.skip(0) =~= cs);
    lemma_ensured(l, cs, 0);
    assert(e == prepared(l, cs, n));
    lemma_prepared(l, cs, n);
    lemma_dir_of(cs);
    assert(cs.take(cs.len() as int) =~= cs);
    assert(cs.drop_last() =~= cs.take(n as int));
    if n == 0 {
        lemma_path_push(cs);
        assert(cs.take(0) =~= Seq::<Seq<char>>::empty());
    }
    assert(!on_the_way(cs, n as int, p)) by {
        if on_the_way(cs, n as int, p) {
            let j = choose|j: int| 1 <= j <= n && p == #[trigger] paths::path_string(cs.take(j));
            lemma_plain_front(cs, j);
            lemma_paths_differ(cs.take(j), cs);
        }
    }
    lemma_hidden(e, cs);
    if l.whiteouts.contains(p) {
        assert(e.whiteouts.contains(paths::path_string(cs.take(cs.len() as int))));
    }
}

/// A path that is not deleted is clean.
pub proof fn lemma_visible_is_clean(l: Layers, p: Seq<char>)
    requires
        tidy(p),
        !layers::hidden(l, p),
    ensures
        clean(l, p),
        !l.whiteouts.contains(p),
{
    let cs = paths::parts(p);
    lemma_hidden(l, cs);
    assert(cs.take(cs.len() as int) =~= cs);
    if l.whiteouts.contains(p) {
        assert(l.whiteouts.contains(paths::path_string(cs.take(cs.len() as int))));
    }
}

pub open spec fn without_mark(l: Layers, p: Seq<char>) -> Layers {
    Layers { whiteouts: l.whiteouts.remove(p), ..l }
}

/// What is written to a file is read from it, also where the file had been
/// deleted before.
pub proof fn law_written_is_read(l: Layers, path: Seq<char>, data: Seq<u8>)
    requires
        rooted(l),
        tidy(ops::normal(path)),
        clean(l, ops::normal(path)),
    ensures
        ({
            let (r, after) = layers::run(ops::write_file_plan(path, data), l);
            &&& r is Ok
            &&& layers::run(ops::read_file_plan(path), after).0 == Ok::<
                Option<Seq<u8>>,
                FailureView,
            >(Some(data))
        }),
{
    broadcast use crate::overlay::layers::group_run;

    let p = ops::normal(path);
    let dropped = without_mark(l, p);
    lemma_with_parents(dropped, p);
    let e = with_parents(dropped, p);
    let after = layers::effect(e, Call::WriteFile { path: p, data });
    assert(layers::run(ops::write_file_plan(path, data), l) == (Ok::<(), FailureView>(()), after));
    lemma_same_marks(e, after, p);
    law_read_outcome(after, path);
}

/// Whether a path is deleted rests on the whiteouts alone.
proof fn lemma_same_marks(a: Layers, b: Layers, p: Seq<char>)
    requires
        a.whiteouts == b.whiteouts,
    ensures
        layers::hidden(a, p) == layers::hidden(b, p),
    decreases p.len(),
{
    match ops::above(p) {
        Some(dir) => {
            ops::lemma_last_slash(p);
            lemma_same_marks(a, b, dir);
        },
        None => {},
    }
}

/// What is below a path is below all that the path is below.
pub proof fn lemma_under(a: Seq<char>, b: Seq<char>, c: Seq<char>)
    requires
        layers::under(a, b),
        layers::under(b, c),
    ensures
        layers::under(a, c),
        a.len() >= b.len(),
{
    reveal_strlit("/");
    if a != b && b != c {
        assert(a.take(c.len() as int + 1) =~= b.take(c.len() as int + 1)) by {
            assert(a.take(b.len() as int + 1) == b + "/"@);
            assert(a.take(b.len() as int) =~= b);
        }
    }
}

/// Marks that are not at or above a path have no say in whether it is deleted.
proof fn lemma_other_marks(a: Layers, b: Layers, q: Seq<char>)
    requires
        forall|w: Seq<char>|
            (#[trigger] a.whiteouts.contains(w)) != b.whiteouts.contains(w) ==> !layers::under(
                q,
                w,
            ),
    ensures
        layers::hidden(a, q) == layers::hidden(b, q),
    decreases q.len(),
{
    assert(layers::under(q, q));
    assert(a.whiteouts.contains(q) == b.whiteouts.contains(q));
    match ops::above(q) {
        Some(dir) => {
            reveal_strlit("/");
            ops::lemma_last_slash(q);
            let i = ops::last_slash(q)->0;
            assert(q.take(i + 1) =~= dir + "/"@);
            assert forall|w: Seq<char>|
                (#[trigger] a.whiteouts.contains(w)) != b.whiteouts.contains(
                    w,
                ) implies !layers::under(dir, w) by {
                if layers::under(dir, w) {
                    lemma_under(q, dir, w);
                }
            }
            lemma_other_marks(a, b, dir);
        },
        None => {},
    }
}

/// Removing an entry changes what is seen at it and below it, and nowhere else.
pub proof fn law_removal_hides_nothing_else(l: Layers, path: Seq<char>, now: i64, q: Seq<char>)
    requires
        !layers::under(q, ops::normal(path)),
    ensures
        visible(layers::run(ops::remove_plan(path, now), l).1, q) == visible(l, q),
{
    let p = ops::normal(path);
    law_remove_outcome(l, path, now);
    let after = remove_outcome(l, p).1;
    lemma_other_marks(l, after, q);
}

/// Writing a file changes what is seen at its path and in the directories above it,
/// and nowhere else, but below what was deleted: a deleted directory in which the
/// file is written is seen again with what the base has in it.
pub proof fn law_writing_changes_nothing_else(
    l: Layers,
    path: Seq<char>,
    data: Seq<u8>,
    q: Seq<char>,
)
    requires
        rooted(l),
        tidy(ops::normal(path)),
        clean(l, ops::normal(path)),
        !layers::under(ops::normal(path), q),
        forall|w: Seq<char>| #[trigger]
            l.whiteouts.contains(w) && layers::under(ops::normal(path), w) ==> !layers::under(q, w),
    ensures
        visible(layers::run(ops::write_file_plan(path, data), l).1, q) == visible(l, q),
{
    broadcast use crate::overlay::layers::group_run;

    let p = ops::normal(path);
    let cs = paths::parts(p);
    let n = (cs.len() - 1) as nat;
    let dropped = without_mark(l, p);
    lemma_with_parents(dropped, p);
    let e = with_parents(dropped, p);
    let after = layers::effect(e, Call::WriteFile { path: p, data });
    assert(layers::run(ops::write_file_plan(path, data), l) == (Ok::<(), FailureView>(()), after));
    lemma_prepared(dropped, cs, n);
    assert forall|w: Seq<char>| on_the_way(cs, n as int, w) implies layers::under(p, w) by {
        let j = choose|j: int| 1 <= j <= n && w == #[trigger] paths::path_string(cs.take(j));
        lemma_under_front(cs, j);
    }
    assert(q != p && !on_the_way(cs, n as int, q)) by {
        assert(layers::under(p, p));
    }
    assert forall|w: Seq<char>|
        (#[trigger] l.whiteouts.contains(w)) != after.whiteouts.contains(
            w,
        ) implies !layers::under(q, w) by {
        if w == p {
            assert(layers::under(p, w));
        } else {
            assert(dropped.whiteouts.contains(w) == l.whiteouts.contains(w));
        }
    }
    lemma_other_marks(l, after, q);
}

/// A file that was deleted and written again is read with its new contents.
pub proof fn law_recreated_is_read(l: Layers, path: Seq<char>, data: Seq<u8>, now: i64)
    requires
        rooted(l),
        tidy(ops::normal(path)),
        clean(l, ops::normal(path)),
        layers::run(ops::remove_plan(path, now), l).0 is Ok,
    ensures
        ({
            let removed = layers::run(ops::remove_plan(path, now), l).1;
            let after = layers::run(ops::write_file_plan(path, data), removed).1;
            layers::run(ops::read_file_plan(path), after).0 == Ok::<Option<Seq<u8>>, FailureView>(
                Some(data),
            )
        }),
{
    let p = ops::normal(path);
    let cs = paths::parts(p);
    law_remove_outcome(l, path, now);
    let removed = remove_outcome(l, p).1;
    assert forall|k: int| 1 <= k < cs.len() implies !(removed.whiteouts.contains(
        #[trigger] paths::path_string(cs.take(k)),
    ) && removed.delta.contains_key(paths::path_string(cs.take(k)))) by {
        lemma_plain_front(cs, k);
        lemma_paths_differ(cs.take(k), cs);
    }
    law_written_is_read(removed, path, data);
}

/// The layers once the file at `p` is in the delta, from the base if need be.
pub open spec fn copied_up(l: Layers, p: Seq<char>) -> Layers {
    if l.delta.contains_key(p) || !l.base.contains_key(p) {
        l
    } else {
        layers::effect(
            with_parents(l, p),
            Call::WriteFile { path: p, data: l.base[p].data },
        )
    }
}

proof fn lemma_copied_up(l: Layers, p: Seq<char>)
    requires
        rooted(l),
        tidy(p),
        clean(l, p),
        l.delta.contains_key(p) || l.base.contains_key(p),
    ensures
        ({
            let c = copied_up(l, p);
            &&& c.base == l.base
            &&& rooted(c)
            &&& clean(c, p)
            &&& c.delta.contains_key(p)
            &&& c.delta[p].data == if l.delta.contains_key(p) {
                l.delta[p].data
            } else {
                l.base[p].data
            }
            &&& !l.delta.contains_key(p) ==> layers::writable(with_parents(l, p), p)
            &&& !layers::hidden(l, p) ==> !layers::hidden(c, p)
        }),
{
    let cs = paths::parts(p);
    let c = copied_up(l, p);
    if !l.delta.contains_key(p) {
        let e = with_parents(l, p);
        lemma_with_parents(l, p);
        lemma_same_marks(e, c, p);
        assert forall|k: int| 1 <= k < cs.len() implies !(c.whiteouts.contains(
            #[trigger] paths::path_string(cs.take(k)),
        ) && c.delta.contains_key(paths::path_string(cs.take(k)))) by {
            lemma_plain_front(cs, k);
            lemma_paths_differ(cs.take(k), cs);
        }
        if !layers::hidden(l, p) {
            lemma_visible_is_clean(l, p);
        }
    }
}

/// A part that is written to a file replaces that part of it and nothing else: a
/// file that only the base had is copied up first.
pub proof fn law_written_part_is_read(l: Layers, path: Seq<char>, offset: u64, data: Seq<u8>)
    requires
        rooted(l),
        tidy(ops::normal(path)),
        clean(l, ops::normal(path)),
        l.delta.contains_key(ops::normal(path)) || l.base.contains_key(ops::normal(path)),
    ensures
        ({
            let p = ops::normal(path);
            let before = if l.delta.contains_key(p) {
                l.delta[p].data
            } else {
                l.base[p].data
            };
            let (r, after) = layers::run(ops::pwrite_plan(path, offset, data), l);
            &&& r is Ok
            &&& layers::run(ops::read_file_plan(path), after).0 == Ok::<
                Option<Seq<u8>>,
                FailureView,
            >(Some(layers::overwritten(before, offset, data)))
            &&& after.base == l.base
        }),
{
    broadcast use crate::overlay::layers::group_run;

    let p = ops::normal(path);
    let c = copied_up(l, p);
    lemma_copied_up(l, p);
    let dropped = without_mark(c, p);
    lemma_with_parents(dropped, p);
    let e = with_parents(dropped, p);
    let after = layers::effect(e, Call::Pwrite { path: p, offset, data });
    assert(layers::run(ops::pwrite_plan(path, offset, data), l) == (
        Ok::<(), FailureView>(()),
        after,
    ));
    lemma_same_marks(e, after, p);
    law_read_outcome(after, path);
}

/// A part that is written to a file that no layer has makes the file: it holds the part
/// where it was to stand, and zeros in front of it.
pub proof fn law_part_of_a_new_file_is_read(l: Layers, path: Seq<char>, offset: u64, data: Seq<u8>)
    requires
        rooted(l),
        tidy(ops::normal(path)),
        clean(l, ops::normal(path)),
        !l.delta.contains_key(ops::normal(path)),
        !l.base.contains_key(ops::normal(path)),
        data.len() > 0,
    ensures
        ({
            let (r, after) = layers::run(ops::pwrite_plan(path, offset, data), l);
            &&& r is Ok
            &&& layers::run(ops::read_file_plan(path), after).0 == Ok::<
                Option<Seq<u8>>,
                FailureView,
            >(Some(Seq::new(offset as nat, |i: int| 0u8) + data))
        }),
{
    broadcast use crate::overlay::layers::group_run;

    let p = ops::normal(path);
    let dropped = without_mark(l, p);
    lemma_with_parents(dropped, p);
    let e = with_parents(dropped, p);
    let after = layers::effect(e, Call::Pwrite { path: p, offset, data });
    assert(layers::run(ops::pwrite_plan(path, offset, data), l) == (
        Ok::<(), FailureView>(()),
        after,
    ));
    lemma_same_marks(e, after, p);
    law_read_outcome(after, path);
    assert(!e.delta.contains_key(p)) by {
        let cs = paths::parts(p);
        lemma_prepared(dropped, cs, (cs.len() - 1) as nat);
        if on_the_way(cs, cs.len() - 1, p) {
            let j = choose|j: int|
                1 <= j <= cs.len() - 1 && p == #[trigger] paths::path_string(cs.take(j));
            lemma_plain_front(cs, j);
            lemma_paths_differ(cs.take(j), cs);
        }
    }
    assert(layers::overwritten(Seq::empty(), offset, data) =~= Seq::new(
        offset as nat,
        |i: int| 0u8,
    ) + data);
}

/// A file that is seen is cut off or filled up with zeros, and one that no layer
/// has is not found.
pub proof fn law_truncated_is_read(l: Layers, path: Seq<char>, size: u64)
    requires
        rooted(l),
        tidy(ops::normal(path)),
    ensures
        ({
            let p = ops::normal(path);
            let (r, after) = layers::run(ops::truncate_plan(path, size), l);
            match visible(l, p) {
                Some(n) => r is Ok && layers::run(ops::read_file_plan(path), after).0 == Ok::<
                    Option<Seq<u8>>,
                    FailureView,
                >(Some(layers::resized(n.data, size))),
                None => !l.delta.contains_key(p) && !l.base.contains_key(p) ==> r == Err::<
                    (),
                    FailureView,
                >(Failure::Fs(FsError::NotFound)) && after == l,
            }
        }),
{
    broadcast use crate::overlay::layers::group_run;

    let p = ops::normal(path);
    if visible(l, p) is Some {
        lemma_visible_is_clean(l, p);
        let c = copied_up(l, p);
        lemma_copied_up(l, p);
        let after = layers::effect(c, Call::Truncate { path: p, size });
        assert(layers::run(ops::truncate_plan(path, size), l) == (
            Ok::<(), FailureView>(()),
            after,
        ));
        lemma_same_marks(c, after, p);
        law_read_outcome(after, path);
    }
}

/// A directory that is not seen is created, and is seen as one afterwards; one that
/// is seen is not created again.
pub proof fn law_directory_is_created_once(l: Layers, path: Seq<char>)
    requires
        rooted(l),
        tidy(ops::normal(path)),
        clean(l, ops::normal(path)),
    ensures
        ({
            let p = ops::normal(path);
            let (r, after) = layers::run(ops::mkdir_plan(path), l);
            &&& visible(l, p) is Some ==> r == Err::<(), FailureView>(
                Failure::Fs(FsError::AlreadyExists),
            ) && after == l
            &&& visible(l, p) is None && !l.delta.contains_key(p) ==> r is Ok && (visible(
                after,
                p,
            ) matches Some(n) && n.kind == Kind::Dir) && layers::run(
                ops::mkdir_plan(path),
                after,
            ).0 == Err::<(), FailureView>(Failure::Fs(FsError::AlreadyExists))
        }),
{
    broadcast use crate::overlay::layers::group_run;

    let p = ops::normal(path);
    if visible(l, p) is None && !l.delta.contains_key(p) {
        let dropped = without_mark(l, p);
        lemma_with_parents(dropped, p);
        let e = with_parents(dropped, p);
        let after = layers::effect(e, Call::Mkdir { path: p });
        assert(layers::run(ops::mkdir_plan(path), l) == (Ok::<(), FailureView>(()), after));
        lemma_same_marks(e, after, p);
    }
}

/// The target that a link was created with is the target that is read.
pub proof fn law_link_reads_back(l: Layers, target: Seq<char>, path: Seq<char>)
    requires
        rooted(l),
        tidy(ops::normal(path)),
        clean(l, ops::normal(path)),
        !l.delta.contains_key(ops::normal(path)),
    ensures
        ({
            let (r, after) = layers::run(ops::symlink_plan(target, path), l);
            &&& r is Ok
            &&& layers::run(ops::readlink_plan(path), after).0 == Ok::<
                Option<Seq<char>>,
                FailureView,
            >(Some(target))
        }),
{
    broadcast use crate::overlay::layers::group_run;

    let p = ops::normal(path);
    let dropped = without_mark(l, p);
    lemma_with_parents(dropped, p);
    let e = with_parents(dropped, p);
    let after = layers::effect(e, Call::Symlink { target, path: p });
    assert(layers::run(ops::symlink_plan(target, path), l) == (Ok::<(), FailureView>(()), after));
    lemma_same_marks(e, after, p);
}

proof fn lemma_shown(list: Seq<Seq<char>>, hidden: Seq<Seq<char>>, name: Seq<char>)
    ensures
        ops::shown(list, hidden).contains(name) <==> (list.contains(name) && !hidden.contains(
            name,
        )),
    decreases list.len(),
{
    broadcast use vstd::seq_lib::group_seq_properties;

    if list.len() > 0 {
        lemma_shown(list.drop_last(), hidden, name);
        assert(list =~= list.drop_last().push(list.last()));
    }
}

proof fn lemma_child_names(prefix: Seq<char>, list: Seq<Seq<char>>, name: Seq<char>)
    ensures
        ops::child_names(prefix, list).contains(name) <==> (name.len() > 0 && !name.contains('/')
            && list.contains(prefix + name)),
    decreases list.len(),
{
    broadcast use vstd::seq_lib::group_seq_properties;

    reveal(ops::child_names);
    if list.len() > 0 {
        lemma_child_names(prefix, list.drop_last(), name);
        assert(list =~= list.drop_last().push(list.last()));
        let last = list.last();
        if last == prefix + name {
            assert(last.take(prefix.len() as int) =~= prefix);
            assert(last.skip(prefix.len() as int) =~= name);
        }
        if text::begins(last, prefix) && last.skip(prefix.len() as int) == name {
            assert(last =~= prefix + name);
        }
    }
}

/// A listing holds exactly the entries of the delta and the entries of the base
/// that are not deleted, each once, in order.
pub proof fn law_listing_merges_the_layers(
    delta: Option<Seq<Seq<char>>>,
    base: Option<Seq<Seq<char>>>,
    hidden: Seq<Seq<char>>,
    name: Seq<char>,
)
    ensures
        text::increasing(ops::merged(delta, base, hidden)),
        ops::merged(delta, base, hidden).contains(name) <==> (ops::or_none(delta).contains(name)
            || (ops::or_none(base).contains(name) && !hidden.contains(name))),
{
    broadcast use vstd::seq_lib::group_seq_properties;

    reveal(ops::merged);
    let d = ops::or_none(delta);
    let b = ops::shown(ops::or_none(base), hidden);
    text::law_sorting_keeps_the_texts(d + b);
    lemma_shown(ops::or_none(base), hidden, name);
}

/// Only finitely many entries and whiteouts are there.
pub open spec fn finite(l: Layers) -> bool {
    l.whiteouts.finite() && l.delta.dom().finite() && l.base.dom().finite()
}

pub proof fn lemma_names_finite(t: Tree, dir: Seq<char>)
    requires
        t.dom().finite(),
    ensures
        layers::names_in(t, dir).finite(),
{
    let prefix = ops::child_prefix(dir);
    let cut = |q: Seq<char>| q.skip(prefix.len() as int);
    t.dom().lemma_map_finite(cut);
    assert(layers::names_in(t, dir).subset_of(t.dom().map(cut))) by {
        assert forall|name: Seq<char>| layers::names_in(t, dir).contains(name) implies t.dom().map(
            cut,
        ).contains(name) by {
            let q = prefix + name;
            assert(cut(q) =~= name);
            assert(t.dom().contains(q));
        }
    }
    vstd::set_lib::lemma_set_subset_finite(t.dom().map(cut), layers::names_in(t, dir));
}

/// The entry `name` is shown in the directory at `dir`: the delta has it, or the
/// base has it and it is not deleted.
pub open spec fn listed(l: Layers, dir: Seq<char>, name: Seq<char>) -> bool {
    ||| l.delta.contains_key(dir) && layers::names_in(l.delta, dir).contains(name)
    ||| l.base.contains_key(dir) && layers::names_in(l.base, dir).contains(name)
        && !l.whiteouts.contains(ops::child_prefix(dir) + name)
}

/// Listing a directory that is seen shows each entry that is there, once and in
/// order; one that is not seen is not listed.
pub proof fn law_listing_outcome(l: Layers, path: Seq<char>)
    requires
        finite(l),
    ensures
        ({
            let p = ops::normal(path);
            let (r, after) = layers::run(ops::readdir_plan(path), l);
            &&& after == l
            &&& r is Ok
            &&& match r->Ok_0 {
                Some(list) => visible(l, p) is Some && text::increasing(list) && forall|
                    name: Seq<char>,
                | #[trigger] list.contains(name) <==> listed(l, p, name),
                None => visible(l, p) is None,
            }
        }),
{
    broadcast use crate::overlay::layers::group_run;

    let p = ops::normal(path);
    let prefix = ops::child_prefix(p);
    let marks = l.whiteouts.filter(|w: Seq<char>| text::begins(w, prefix));
    lemma_names_finite(l.delta, p);
    lemma_names_finite(l.base, p);
    vstd::set_lib::lemma_set_subset_finite(l.whiteouts, marks);
    marks.lemma_to_seq_to_set_id();
    layers::names_in(l.delta, p).lemma_to_seq_to_set_id();
    layers::names_in(l.base, p).lemma_to_seq_to_set_id();
    let d = if l.delta.contains_key(p) {
        Some(layers::names_in(l.delta, p).to_seq())
    } else {
        None
    };
    let b = if l.base.contains_key(p) {
        Some(layers::names_in(l.base, p).to_seq())
    } else {
        None
    };
    let hidden = ops::child_names(prefix, marks.to_seq());
    let list = ops::merged(d, b, hidden);
    assert forall|name: Seq<char>| #[trigger] list.contains(name) <==> listed(l, p, name) by {
        law_listing_merges_the_layers(d, b, hidden, name);
        lemma_child_names(prefix, marks.to_seq(), name);
        assert(marks.to_seq().contains(prefix + name) <==> marks.to_seq().to_set().contains(
            prefix + name,
        ));
        assert((prefix + name).take(prefix.len() as int) =~= prefix);
        if d is Some {
            assert(d->0.contains(name) <==> d->0.to_set().contains(name));
        }
        if b is Some {
            assert(b->0.contains(name) <==> b->0.to_set().contains(name));
        }
    }
    law_listing_merges_the_layers(d, b, hidden, Seq::empty());
}

/// The directory above a tidy path, and the name in it.
pub proof fn lemma_place(p: Seq<char>)
    requires
        tidy(p),
    ensures
        ops::normal(p) == p,
        ops::normal(layers::dir_of(p)) == layers::dir_of(p),
        ops::child_prefix(layers::dir_of(p)) + paths::parts(p).last() == p,
        paths::parts(p).last().len() > 0,
        !paths::parts(p).last().contains('/'),
{
    reveal_strlit("/");
    let cs = paths::parts(p);
    lemma_dir_of(cs);
    paths::lemma_parts_of_path(cs);
    assert(paths::plain(cs[cs.len() - 1]));
    if cs.len() == 1 {
        assert(cs.drop_last() =~= Seq::<Seq<char>>::empty());
        lemma_path_push(cs);
        assert("/"@.drop_last() =~= Seq::<char>::empty());
        assert(text::trim_back(Seq::<char>::empty(), Edge::Slash).len() == 0);
        assert(text::trim_back("/"@, Edge::Slash).len() == 0);
    } else {
        lemma_plain_front(cs, cs.len() - 1);
        assert(cs.take(cs.len() - 1) =~= cs.drop_last());
        paths::lemma_parts_of_path(cs.drop_last());
    }
}

/// A file that was written is listed in its directory.
pub proof fn law_written_is_listed(l: Layers, path: Seq<char>, data: Seq<u8>)
    requires
        finite(l),
        rooted(l),
        !l.whiteouts.contains("/"@),
        tidy(ops::normal(path)),
        clean(l, ops::normal(path)),
    ensures
        ({
            let p = ops::normal(path);
            let after = layers::run(ops::write_file_plan(path, data), l).1;
            let r = layers::run(ops::readdir_plan(layers::dir_of(p)), after).0;
            r matches Ok(Some(list)) && list.contains(paths::parts(p).last())
        }),
{
    broadcast use crate::overlay::layers::group_run;

    let p = ops::normal(path);
    let cs = paths::parts(p);
    let dir = layers::dir_of(p);
    let dropped = without_mark(l, p);
    lemma_with_parents(dropped, p);
    let e = with_parents(dropped, p);
    let after = layers::effect(e, Call::WriteFile { path: p, data });
    assert(layers::run(ops::write_file_plan(path, data), l) == (Ok::<(), FailureView>(()), after));
    lemma_place(p);
    lemma_prepared_finite(dropped, cs, (cs.len() - 1) as nat);
    lemma_dir_of(cs);
    lemma_same_marks(e, after, p);
    assert(!layers::hidden(after, dir)) by {
        if cs.len() == 1 {
            lemma_path_push(cs);
            assert(cs.drop_last() =~= Seq::<Seq<char>>::empty());
            lemma_prepared(dropped, cs, 0);
            reveal_strlit("/");
            ops::lemma_last_slash("/"@);
        }
    }
    law_listing_outcome(after, dir);
    assert(layers::names_in(after.delta, dir).contains(cs.last()));
    assert(listed(after, dir, cs.last()));
}

proof fn lemma_prepared_finite(l: Layers, cs: Seq<Seq<char>>, k: nat)
    requires
        finite(l),
    ensures
        finite(prepared(l, cs, k)),
    decreases k,
{
    if k > 0 {
        lemma_prepared_finite(l, cs, (k - 1) as nat);
    }
}

/// An entry that was removed is not listed in its directory, unless it is a
/// directory that the delta keeps for what is in it.
pub proof fn law_removed_is_not_listed(l: Layers, path: Seq<char>, now: i64)
    requires
        finite(l),
        tidy(ops::normal(path)),
        layers::run(ops::remove_plan(path, now), l).0 is Ok,
        l.delta.contains_key(ops::normal(path)) ==> layers::removable(l, ops::normal(path)),
    ensures
        ({
            let p = ops::normal(path);
            let after = layers::run(ops::remove_plan(path, now), l).1;
            let r = layers::run(ops::readdir_plan(layers::dir_of(p)), after).0;
            r is Ok && (r matches Ok(Some(list)) ==> !list.contains(paths::parts(p).last()))
        }),
{
    let p = ops::normal(path);
    let cs = paths::parts(p);
    let dir = layers::dir_of(p);
    law_remove_outcome(l, path, now);
    let out = layers::effect(l, Call::Remove { path: p });
    let after = remove_outcome(l, p).1;
    lemma_place(p);
    lemma_dir_of(cs);
    law_listing_outcome(after, dir);
    if layers::hidden(out, p) {
        lemma_same_marks(out, after, p);
        lemma_same_marks(out, after, dir);
        if !after.whiteouts.contains(p) {
            assert(layers::hidden(after, dir));
        }
    }
    assert(!after.delta.contains_key(p));
    assert(visible(after, dir) is None || !listed(after, dir, cs.last()));
}

/// Where neither of two paths is at or below the other, the directories above one
/// of them come out as they are wanted, and the other entry stays as it is.
proof fn lemma_apart(l: Layers, p: Seq<char>, other: Seq<char>)
    requires
        rooted(l),
        tidy(p),
        tidy(other),
        clean(l, p),
        clean(l, other),
        !layers::under(p, other),
    ensures
        ({
            let e = with_parents(l, p);
            &&& clean(e, other)
            &&& e.delta.contains_key(other) == l.delta.contains_key(other)
            &&& l.delta.contains_key(other) ==> e.delta[other] == l.delta[other]
        }),
{
    let cs = paths::parts(p);
    let n = (cs.len() - 1) as nat;
    let e = with_parents(l, p);
    lemma_with_parents(l, p);
    lemma_prepared(l, cs, n);
    assert(!on_the_way(cs, n as int, other)) by {
        if on_the_way(cs, n as int, other) {
            let j = choose|j: int|
                1 <= j <= n && other == #[trigger] paths::path_string(cs.take(j));
            lemma_under_front(cs, j);
        }
    }
}

/// The layers once an entry of the delta is moved.
pub open spec fn finished(l: Layers, f: Seq<char>, t: Seq<char>, now: i64) -> Layers {
    let m = layers::effect(
        with_parents(without_mark(l, t), t),
        Call::Rename { from: f, to: t },
    );
    if l.base.contains_key(f) {
        layers::effect(m, Call::AddWhiteout { path: f, now })
    } else {
        m
    }
}

pub proof fn lemma_run_finish(l: Layers, from: Seq<char>, to: Seq<char>, now: i64)
    requires
        with_parents(without_mark(l, ops::normal(to)), ops::normal(to)).base == l.base,
        layers::movable(
            with_parents(without_mark(l, ops::normal(to)), ops::normal(to)),
            ops::normal(from),
            ops::normal(to),
        ),
    ensures
        layers::run(ops::rename_finish_plan(from, to, now), l) == (
            Ok::<(), FailureView>(()),
            finished(l, ops::normal(from), ops::normal(to), now),
        ),
{
    broadcast use crate::overlay::layers::group_run;

}

pub proof fn lemma_run_rename(l: Layers, from: Seq<char>, to: Seq<char>, now: i64, most: nat)
    requires
        ({
            let f = ops::normal(from);
            ||| l.delta.contains_key(f)
            ||| l.base.contains_key(f) && l.base[f].kind != Kind::Dir && layers::writable(
                with_parents(l, f),
                f,
            )
        }),
    ensures
        layers::run(ops::rename_plan(from, to, now, most), l) == layers::run(
            ops::rename_finish_plan(from, to, now),
            copied_up(l, ops::normal(from)),
        ),
{
    broadcast use crate::overlay::layers::group_run;

    crate::fs::types::law_default_modes();
}

/// Whether the entry of the delta at `f` may take the place of what the delta has at
/// `t`: there is nothing there, or it is of the same kind and has nothing below it.
pub open spec fn replaceable(l: Layers, f: Seq<char>, t: Seq<char>) -> bool {
    l.delta.contains_key(t) ==> {
        &&& l.delta[t].kind == Kind::Dir <==> l.delta[f].kind == Kind::Dir
        &&& l.delta[t].kind == Kind::Dir ==> layers::removable(l, t)
    }
}

/// What moving an entry that the delta has does to it.
pub proof fn lemma_finished(l: Layers, f: Seq<char>, t: Seq<char>, now: i64)
    requires
        rooted(l),
        tidy(f),
        tidy(t),
        clean(l, f),
        clean(l, t),
        l.delta.contains_key(f),
        replaceable(l, f, t),
        !layers::under(f, t),
        !layers::under(t, f),
    ensures
        with_parents(without_mark(l, t), t).base == l.base,
        layers::movable(with_parents(without_mark(l, t), t), f, t),
        visible(finished(l, f, t, now), t) == Some(l.delta[f]),
        visible(finished(l, f, t, now), f) is None,
{
    let tc = paths::parts(t);
    let dropped = without_mark(l, t);
    assert(clean(dropped, f));
    assert(clean(dropped, t));
    lemma_with_parents(dropped, t);
    let e = with_parents(dropped, t);
    lemma_apart(dropped, t, f);
    lemma_dir_of(paths::parts(f));
    assert(replaceable(e, f, t)) by {
        if l.delta.contains_key(t) && l.delta[t].kind == Kind::Dir {
            reveal_strlit("/");
            lemma_prepared(dropped, tc, (tc.len() - 1) as nat);
            assert forall|q: Seq<char>| #[trigger] e.delta.contains_key(q) implies !text::begins(
                q,
                t + "/"@,
            ) by {
                if !dropped.delta.contains_key(q) {
                    let j = choose|j: int|
                        1 <= j <= tc.len() - 1 && q == #[trigger] paths::path_string(tc.take(j));
                    lemma_under_front(tc, j);
                }
            }
        }
    }
    let m = layers::effect(e, Call::Rename { from: f, to: t });
    let after = finished(l, f, t, now);
    assert(f + t.skip(t.len() as int) =~= f);
    assert(m.delta.contains_key(t) && m.delta[t] == l.delta[f]);
    assert(!m.delta.contains_key(f));
    lemma_hidden(e, tc);
    lemma_hidden(after, tc);
    if layers::hidden(after, t) {
        let k = choose|k: int|
            1 <= k <= tc.len() && after.whiteouts.contains(
                #[trigger] paths::path_string(tc.take(k)),
            );
        lemma_under_front(tc, k);
        assert(e.whiteouts.contains(paths::path_string(tc.take(k))));
    }
}

/// A file that is seen is read under its new name once it is moved, in place of a
/// file that the delta had there, and seen no more under its old one.
pub proof fn law_renamed_is_read(
    l: Layers,
    from: Seq<char>,
    to: Seq<char>,
    now: i64,
    most: nat,
)
    requires
        rooted(l),
        tidy(ops::normal(from)),
        tidy(ops::normal(to)),
        clean(l, ops::normal(to)),
        visible(l, ops::normal(from)) matches Some(n) && n.kind == Kind::File,
        l.delta.contains_key(ops::normal(to)) ==> l.delta[ops::normal(to)].kind == Kind::File,
        !layers::under(ops::normal(from), ops::normal(to)),
        !layers::under(ops::normal(to), ops::normal(from)),
    ensures
        ({
            let (r, after) = layers::run(ops::rename_plan(from, to, now, most), l);
            &&& r is Ok
            &&& layers::run(ops::read_file_plan(to), after).0 == layers::run(
                ops::read_file_plan(from),
                l,
            ).0
            &&& layers::run(ops::stat_plan(from), after).0 == Ok::<Option<Stats>, FailureView>(
                None,
            )
        }),
{
    let f = ops::normal(from);
    let t = ops::normal(to);
    let tc = paths::parts(t);
    lemma_visible_is_clean(l, f);
    let c = copied_up(l, f);
    lemma_copied_up(l, f);
    assert(clean(c, t) && replaceable(c, f, t)) by {
        if !l.delta.contains_key(f) {
            lemma_apart(l, f, t);
            lemma_with_parents(l, f);
            assert(c.delta[f].kind == Kind::File);
            assert forall|k: int| 1 <= k < tc.len() implies !(c.whiteouts.contains(
                #[trigger] paths::path_string(tc.take(k)),
            ) && c.delta.contains_key(paths::path_string(tc.take(k)))) by {
                lemma_under_front(tc, k);
            }
        }
    }
    lemma_finished(c, f, t, now);
    lemma_run_finish(c, from, to, now);
    lemma_run_rename(l, from, to, now, most);
    let after = finished(c, f, t, now);
    law_read_outcome(l, from);
    law_read_outcome(after, to);
    law_stat_outcome(after, from);
}

} // verus!
