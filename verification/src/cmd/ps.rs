//! The list of sandbox sessions.

use crate::plan;
use crate::strmap;
use crate::text;
use vstd::prelude::*;
use vstd::string::*;

verus! {

/// The least width of a column.
pub const LEAST_WIDTH: usize = 10;

/// What was found in the directory of sessions.
#[derive(Debug)]
pub struct Found {
    /// The name, if it is text.
    pub name: Option<String>,
    pub path: String,
    pub is_dir: bool,
    /// The changes of a session lie there.
    pub has_delta: bool,
}

/// A session. One that runs has a mountpoint.
#[derive(Debug)]
pub struct SessionInfo {
    pub id: String,
    pub mountpoint: Option<String>,
}

/// What a session holds.
pub struct SessionView {
    pub id: Seq<char>,
    pub mountpoint: Option<Seq<char>>,
}

impl View for SessionInfo {
    type V = SessionView;

    open spec fn view(&self) -> SessionView {
        SessionView { id: self.id@, mountpoint: text::opt(self.mountpoint) }
    }
}

/// The path of `name` below `path`.
pub open spec fn below(path: Seq<char>, name: Seq<char>) -> Seq<char> {
    if path.len() == 0 || path.last() == '/' {
        path + name
    } else {
        path + "/"@ + name
    }
}

/// The session that was found, if it is one: a directory with changes, and a name
/// that is text. It runs if an agent with its name is mounted.
pub open spec fn session_of(f: Found, mounted: Seq<Seq<char>>) -> Option<SessionView> {
    if f.is_dir && f.has_delta && f.name is Some {
        Some(
            SessionView {
                id: f.name->0@,
                mountpoint: if mounted.contains(f.name->0@) {
                    Some(below(f.path@, "mnt"@))
                } else {
                    None
                },
            },
        )
    } else {
        None
    }
}

/// The sessions among the first `n` that were found: those that run, or all.
pub open spec fn collected(found: Seq<Found>, mounted: Seq<Seq<char>>, show_all: bool, n: int) -> Seq<
    SessionView,
>
    decreases n,
{
    if n <= 0 {
        Seq::empty()
    } else {
        let before = collected(found, mounted, show_all, n - 1);
        match session_of(found[n - 1], mounted) {
            Some(s) => if show_all || s.mountpoint is Some {
                before.push(s)
            } else {
                before
            },
            None => before,
        }
    }
}

/// A sorted list with one more session, behind those with the same name.
pub open spec fn placed(s: Seq<SessionView>, x: SessionView) -> Seq<SessionView>
    decreases s.len(),
{
    if s.len() > 0 && text::less(x.id, s.last().id) {
        placed(s.drop_last(), x).push(s.last())
    } else {
        s.push(x)
    }
}

/// The sessions in the order of their names.
pub open spec fn by_name(s: Seq<SessionView>) -> Seq<SessionView>
    decreases s.len(),
{
    if s.len() == 0 {
        s
    } else {
        placed(by_name(s.drop_last()), s.last())
    }
}

/// `n` spaces.
pub open spec fn blanks(n: int) -> Seq<char> {
    Seq::new(n as nat, |i: int| ' ')
}

/// `s` with spaces behind it, up to a width.
pub open spec fn padded(s: Seq<char>, width: int) -> Seq<char> {
    if s.len() >= width {
        s
    } else {
        s + blanks(width - s.len())
    }
}

/// A line with three columns.
pub open spec fn row(a: Seq<char>, wa: int, b: Seq<char>, wb: int, c: Seq<char>) -> Seq<char> {
    padded(a, wa) + "  "@ + padded(b, wb) + "  "@ + c + "\n"@
}

pub open spec fn wider(a: int, b: int) -> int {
    if a >= b {
        a
    } else {
        b
    }
}

/// The width of the column of names, in bytes.
pub open spec fn id_width(s: Seq<SessionView>) -> int
    decreases s.len(),
{
    if s.len() == 0 {
        LEAST_WIDTH as int
    } else {
        wider(id_width(s.drop_last()), text::utf8_len(s.last().id) as int)
    }
}

/// The width of the column of mountpoints, in bytes.
pub open spec fn mount_width(s: Seq<SessionView>) -> int
    decreases s.len(),
{
    if s.len() == 0 {
        LEAST_WIDTH as int
    } else {
        wider(
            mount_width(s.drop_last()),
            match s.last().mountpoint {
                Some(m) => text::utf8_len(m) as int,
                None => 1,
            },
        )
    }
}

/// The line of a session.
pub open spec fn session_row(s: SessionView, wa: int, wb: int) -> Seq<char> {
    match s.mountpoint {
        Some(m) => row(s.id, wa, m, wb, "running"@),
        None => row(s.id, wa, "-"@, wb, "stopped"@),
    }
}

/// The lines of the first `n` sessions.
pub open spec fn session_rows(s: Seq<SessionView>, n: int, wa: int, wb: int) -> Seq<char>
    decreases n,
{
    if n <= 0 {
        Seq::empty()
    } else {
        session_rows(s, n - 1, wa, wb) + session_row(s[n - 1], wa, wb)
    }
}

/// What is printed of sessions.
pub open spec fn printed(s: Seq<SessionView>, run_dir: Seq<char>, show_all: bool) -> Seq<char> {
    if s.len() == 0 {
        if show_all {
            "No sandbox sessions found in "@ + run_dir + "\n"@
        } else {
            "No running sandbox sessions. Use -a to show all sessions.\n"@
        }
    } else {
        row("SESSION ID"@, id_width(s), "MOUNTPOINT"@, mount_width(s), "STATUS"@) + session_rows(
            s,
            s.len() as int,
            id_width(s),
            mount_width(s),
        )
    }
}

/// The path of `name` below `path`.
pub fn join_below(path: &str, name: &str) -> (r: String)
    ensures
        r@ == below(path@, name@),
{
    let chars = text::chars_of(path);
    let n: usize = chars.len();
    if n == 0 || chars[n - 1] == '/' {
        text::concat(path, name)
    } else {
        text::concat3(path, "/", name)
    }
}

/// The session that was found, if it is one.
pub fn session(f: &Found, mounted: &Vec<String>) -> (r: Option<SessionInfo>)
    ensures
        (match r {
            Some(s) => Some(s@),
            None => None,
        }) == session_of(*f, text::views(mounted@)),
{
    if !f.is_dir || !f.has_delta {
        return None;
    }
    match &f.name {
        None => None,
        Some(name) => {
            let mountpoint = if strmap::member(mounted, name.as_str()) {
                Some(join_below(f.path.as_str(), "mnt"))
            } else {
                None
            };
            Some(SessionInfo { id: name.clone(), mountpoint })
        },
    }
}

fn collect(found: &Vec<Found>, mounted: &Vec<String>, show_all: bool) -> (r: Vec<SessionInfo>)
    ensures
        plan::views(r@) == collected(
            found@,
            text::views(mounted@),
            show_all,
            found@.len() as int,
        ),
{
    let mut out: Vec<SessionInfo> = Vec::new();
    let mut i: usize = 0;
    assert(plan::views(out@) =~= Seq::<SessionView>::empty());
    while i < found.len()
        invariant
            i <= found@.len(),
            plan::views(out@) == collected(found@, text::views(mounted@), show_all, i as int),
        decreases found@.len() - i,
    {
        if let Some(s) = session(&found[i], mounted) {
            if show_all || s.mountpoint.is_some() {
                let ghost before = plan::views(out@);
                let ghost more = s@;
                out.push(s);
                assert(plan::views(out@) =~= before.push(more));
            }
        }
        i = i + 1;
    }
    out
}

proof fn lemma_placed(s: Seq<SessionView>, x: SessionView, pos: int)
    requires
        0 <= pos <= s.len(),
        forall|i: int| pos <= i < s.len() ==> text::less(x.id, #[trigger] s[i].id),
        pos > 0 ==> !text::less(x.id, s[pos - 1].id),
    ensures
        placed(s, x) == s.insert(pos, x),
    decreases s.len(),
{
    if pos < s.len() {
        assert(s[s.len() - 1] == s.last());
        let front = s.drop_last();
        assert forall|i: int| pos <= i < front.len() implies text::less(
            x.id,
            #[trigger] front[i].id,
        ) by {
            assert(front[i] == s[i]);
        }
        lemma_placed(front, x, pos);
        assert(front.insert(pos, x).push(s.last()) =~= s.insert(pos, x));
    } else {
        if s.len() > 0 {
            assert(s[s.len() - 1] == s.last());
        }
        assert(s.push(x) =~= s.insert(pos, x));
    }
}

fn sort_sessions(sessions: Vec<SessionInfo>) -> (r: Vec<SessionInfo>)
    ensures
        plan::views(r@) == by_name(plan::views(sessions@)),
{
    let ghost all = plan::views(sessions@);
    let mut rest = sessions;
    let mut given: Vec<SessionInfo> = Vec::new();
    while rest.len() > 0
        invariant
            plan::views(rest@) == all.take(rest@.len() as int),
            rest@.len() + given@.len() == all.len(),
            forall|i: int|
                0 <= i < given@.len() ==> (#[trigger] given@[i])@ == all[all.len() - 1 - i],
        decreases rest@.len(),
    {
        let ghost n = rest@.len() as int;
        let ghost before = plan::views(rest@);
        if let Some(x) = rest.pop() {
            assert(before[n - 1] == x@);
            assert(plan::views(rest@) =~= all.take(n - 1));
            given.push(x);
        }
    }
    let mut out: Vec<SessionInfo> = Vec::new();
    assert(plan::views(out@) =~= by_name(all.take(0)));
    while given.len() > 0
        invariant
            given@.len() <= all.len(),
            forall|i: int|
                0 <= i < given@.len() ==> (#[trigger] given@[i])@ == all[all.len() - 1 - i],
            plan::views(out@) == by_name(all.take(all.len() - given@.len())),
            out@.len() == all.len() - given@.len(),
        decreases given@.len(),
    {
        let ghost k = (all.len() - given@.len()) as int;
        assert(given@[given@.len() - 1]@ == all[k]);
        if let Some(x) = given.pop() {
            assert(x@ == all[k]);
            let ghost sorted = plan::views(out@);
            let mut pos: usize = out.len();
            while pos > 0 && text::is_less(x.id.as_str(), out[pos - 1].id.as_str())
                invariant
                    pos <= out@.len(),
                    sorted == plan::views(out@),
                    forall|i: int|
                        pos <= i < sorted.len() ==> text::less(x@.id, #[trigger] sorted[i].id),
                decreases pos,
            {
                pos = pos - 1;
                assert(sorted[pos as int] == out@[pos as int]@);
            }
            if pos > 0 {
                assert(sorted[pos - 1] == out@[pos - 1]@);
            }
            proof {
                lemma_placed(sorted, x@, pos as int);
            }
            let ghost held = x@;
            out.insert(pos, x);
            assert(plan::views(out@) =~= sorted.insert(pos as int, held));
            assert(all.take(k + 1).drop_last() =~= all.take(k));
            assert(all.take(k + 1).last() == held);
        }
    }
    assert(all.take(all.len() as int) =~= all);
    out
}

fn widths(sessions: &Vec<SessionInfo>) -> (r: (usize, usize))
    ensures
        r.0 == id_width(plan::views(sessions@)),
        r.1 == mount_width(plan::views(sessions@)),
{
    let ghost all = plan::views(sessions@);
    let mut a: usize = LEAST_WIDTH;
    let mut b: usize = LEAST_WIDTH;
    let mut i: usize = 0;
    assert(all.take(0) =~= Seq::<SessionView>::empty());
    while i < sessions.len()
        invariant
            i <= sessions@.len(),
            all == plan::views(sessions@),
            a == id_width(all.take(i as int)),
            b == mount_width(all.take(i as int)),
        decreases sessions@.len() - i,
    {
        let s = &sessions[i];
        assert(all.take(i + 1).drop_last() =~= all.take(i as int));
        assert(all.take(i + 1).last() == s@);
        let x: usize = text::byte_len(s.id.as_str());
        let y: usize = match &s.mountpoint {
            Some(m) => text::byte_len(m.as_str()),
            None => 1,
        };
        if x > a {
            a = x;
        }
        if y > b {
            b = y;
        }
        i = i + 1;
    }
    assert(all.take(i as int) =~= all);
    (a, b)
}

fn pad_to(out: &mut String, s: &str, width: usize)
    ensures
        final(out)@ == old(out)@ + padded(s@, width as int),
{
    let ghost before = out@;
    out.append(s);
    let mut n: usize = text::chars_of(s).len();
    assert(out@ =~= before + s@ + blanks(0));
    let ghost start = n as int;
    if n < width {
        while n < width
            invariant
                start <= n <= width,
                out@ == before + s@ + blanks(n - start),
            decreases width - n,
        {
            out.push(' ');
            n = n + 1;
            assert(out@ =~= before + s@ + blanks(n - start));
        }
        assert(before + s@ + blanks(width - start) =~= before + (s@ + blanks(width - start)));
    } else {
        assert(before + s@ + blanks(0) =~= before + s@);
    }
}

fn push_row(out: &mut String, a: &str, wa: usize, b: &str, wb: usize, c: &str)
    ensures
        final(out)@ == old(out)@ + row(a@, wa as int, b@, wb as int, c@),
{
    let ghost before = out@;
    pad_to(out, a, wa);
    out.append("  ");
    pad_to(out, b, wb);
    out.append("  ");
    out.append(c);
    out.append("\n");
    assert(out@ =~= before + row(a@, wa as int, b@, wb as int, c@));
}

/// What is printed of sessions.
pub fn render(sessions: &Vec<SessionInfo>, run_dir: &str, show_all: bool) -> (r: String)
    ensures
        r@ == printed(plan::views(sessions@), run_dir@, show_all),
{
    if sessions.len() == 0 {
        if show_all {
            return text::concat3("No sandbox sessions found in ", run_dir, "\n");
        }
        return "No running sandbox sessions. Use -a to show all sessions.\n".to_owned();
    }
    let ghost all = plan::views(sessions@);
    let (wa, wb) = widths(sessions);
    let mut out = String::new();
    push_row(&mut out, "SESSION ID", wa, "MOUNTPOINT", wb, "STATUS");
    let ghost head = row("SESSION ID"@, wa as int, "MOUNTPOINT"@, wb as int, "STATUS"@);
    assert(out@ =~= head + session_rows(all, 0, wa as int, wb as int));
    let mut i: usize = 0;
    while i < sessions.len()
        invariant
            i <= sessions@.len(),
            all == plan::views(sessions@),
            out@ == head + session_rows(all, i as int, wa as int, wb as int),
        decreases sessions@.len() - i,
    {
        let s = &sessions[i];
        assert(all[i as int] == s@);
        let ghost before = out@;
        match &s.mountpoint {
            Some(m) => {
                push_row(&mut out, s.id.as_str(), wa, m.as_str(), wb, "running");
            },
            None => {
                push_row(&mut out, s.id.as_str(), wa, "-", wb, "stopped");
            },
        }
        i = i + 1;
        assert(out@ =~= head + session_rows(all, i as int, wa as int, wb as int));
    }
    out
}

/// What the command prints: the sessions that run, or all of them, in the order
/// of their names.
pub fn ps(found: &Vec<Found>, mounted: &Vec<String>, run_dir: &str, show_all: bool) -> (r: String)
    ensures
        r@ == printed(
            by_name(
                collected(found@, text::views(mounted@), show_all, found@.len() as int),
            ),
            run_dir@,
            show_all,
        ),
{
    let sessions = sort_sessions(collect(found, mounted, show_all));
    render(&sessions, run_dir, show_all)
}

/// No session comes before one with a lesser name.
pub open spec fn in_order(s: Seq<SessionView>) -> bool {
    forall|i: int, j: int| 0 <= i < j < s.len() ==> !text::less((#[trigger] s[j]).id, (#[trigger] s[i]).id)
}

proof fn lemma_placed_in_order(s: Seq<SessionView>, x: SessionView)
    requires
        in_order(s),
    ensures
        in_order(placed(s, x)),
        placed(s, x).to_multiset() == s.to_multiset().insert(x),
        forall|i: int|
            0 <= i < placed(s, x).len() ==> #[trigger] placed(s, x)[i] == x || s.contains(
                placed(s, x)[i],
            ),
    decreases s.len(),
{
    broadcast use vstd::seq_lib::group_to_multiset_ensures;

    if s.len() > 0 && text::less(x.id, s.last().id) {
        let front = s.drop_last();
        lemma_placed_in_order(front, x);
        let p = placed(front, x);
        assert(s =~= front.push(s.last()));
        assert forall|i: int| 0 <= i < p.len() implies !text::less(s.last().id, (#[trigger]
        p[i]).id) by {
            if p[i] == x {
                if text::less(s.last().id, x.id) {
                    text::lemma_less_transitive(x.id, s.last().id, x.id);
                    text::lemma_less_irreflexive(x.id);
                }
            } else {
                let k = choose|k: int| 0 <= k < front.len() && front[k] == p[i];
                assert(s[k] == p[i]);
                assert(s[s.len() - 1] == s.last());
            }
        }
        let out = placed(s, x);
        assert forall|i: int| 0 <= i < out.len() implies #[trigger] out[i] == x || s.contains(
            out[i],
        ) by {
            if i < p.len() {
                assert(out[i] == p[i]);
                if p[i] != x {
                    let k = choose|k: int| 0 <= k < front.len() && front[k] == p[i];
                    assert(s[k] == out[i]);
                }
            } else {
                assert(s[s.len() - 1] == out[i]);
            }
        }
        assert(front.to_multiset().insert(x).insert(s.last()) =~= front.to_multiset().insert(
            s.last(),
        ).insert(x));
    } else {
        let out = s.push(x);
        assert forall|i: int, j: int| 0 <= i < j < out.len() implies !text::less(
            (#[trigger] out[j]).id,
            (#[trigger] out[i]).id,
        ) by {
            if j == s.len() {
                if text::less(x.id, s[i].id) {
                    if i == s.len() - 1 {
                        assert(s.last() == s[i]);
                    } else {
                        assert(!text::less(s[s.len() - 1].id, s[i].id));
                        text::lemma_less_total(s[i].id, s.last().id);
                        if text::less(s[i].id, s.last().id) {
                            text::lemma_less_transitive(x.id, s[i].id, s.last().id);
                        }
                    }
                }
            }
        }
        assert forall|i: int| 0 <= i < out.len() implies #[trigger] out[i] == x || s.contains(
            out[i],
        ) by {
            if i < s.len() {
                assert(s[i] == out[i]);
            }
        }
    }
}

/// Sorting keeps the sessions and puts them in the order of their names.
pub proof fn law_sessions_are_sorted(s: Seq<SessionView>)
    ensures
        in_order(by_name(s)),
        by_name(s).to_multiset() == s.to_multiset(),
    decreases s.len(),
{
    broadcast use vstd::seq_lib::group_to_multiset_ensures;

    if s.len() > 0 {
        law_sessions_are_sorted(s.drop_last());
        lemma_placed_in_order(by_name(s.drop_last()), s.last());
        assert(s =~= s.drop_last().push(s.last()));
    }
}

/// Without `-a` only sessions that run are listed.
pub proof fn law_only_running_sessions(found: Seq<Found>, mounted: Seq<Seq<char>>, n: int)
    requires
        0 <= n <= found.len(),
    ensures
        forall|i: int|
            0 <= i < collected(found, mounted, false, n).len() ==> (#[trigger] collected(
                found,
                mounted,
                false,
                n,
            )[i]).mountpoint is Some && mounted.contains(
                collected(found, mounted, false, n)[i].id,
            ),
    decreases n,
{
    if n > 0 {
        law_only_running_sessions(found, mounted, n - 1);
    }
}

/// Every directory of changes with a name that is text is listed where all sessions are
/// asked for, and where it is mounted in any case: under its name, with the place where
/// it is mounted, if it is.
pub proof fn law_every_session_is_listed(
    found: Seq<Found>,
    mounted: Seq<Seq<char>>,
    show_all: bool,
    n: int,
    k: int,
)
    requires
        0 <= k < n <= found.len(),
        found[k].is_dir,
        found[k].has_delta,
        found[k].name is Some,
        show_all || mounted.contains(found[k].name->0@),
    ensures
        exists|i: int|
            0 <= i < collected(found, mounted, show_all, n).len() && {
                let s = #[trigger] collected(found, mounted, show_all, n)[i];
                &&& s.id == found[k].name->0@
                &&& s.mountpoint is Some <==> mounted.contains(s.id)
                &&& s.mountpoint is Some ==> s.mountpoint->0 == below(found[k].path@, "mnt"@)
            },
    decreases n,
{
    let now = collected(found, mounted, show_all, n);
    if k == n - 1 {
        assert(now.last() == session_of(found[k], mounted)->0);
        assert(now[now.len() - 1].id == found[k].name->0@);
    } else {
        law_every_session_is_listed(found, mounted, show_all, n - 1, k);
        let before = collected(found, mounted, show_all, n - 1);
        let i = choose|i: int|
            0 <= i < before.len() && {
                let s = #[trigger] before[i];
                &&& s.id == found[k].name->0@
                &&& s.mountpoint is Some <==> mounted.contains(s.id)
                &&& s.mountpoint is Some ==> s.mountpoint->0 == below(found[k].path@, "mnt"@)
            };
        assert(now[i] == before[i]);
    }
}

/// What is listed was found: nothing but directories of changes with a name that is text.
pub proof fn law_only_sessions_are_listed(
    found: Seq<Found>,
    mounted: Seq<Seq<char>>,
    show_all: bool,
    n: int,
    i: int,
)
    requires
        0 <= n <= found.len(),
        0 <= i < collected(found, mounted, show_all, n).len(),
    ensures
        exists|k: int|
            0 <= k < n && {
                let f = #[trigger] found[k];
                &&& f.is_dir
                &&& f.has_delta
                &&& f.name is Some
                &&& f.name->0@ == collected(found, mounted, show_all, n)[i].id
            },
    decreases n,
{
    let now = collected(found, mounted, show_all, n);
    let before = collected(found, mounted, show_all, n - 1);
    if i < before.len() {
        law_only_sessions_are_listed(found, mounted, show_all, n - 1, i);
        assert(now[i] == before[i]);
    } else {
        assert(found[n - 1].is_dir);
    }
}

} // verus!
