//! A round of looking at the action files: which are dealt with, in which order,
//! and what the running jobs have to tell.

use crate::appfs::events;
use crate::appfs::events::{Event, JobView};
use crate::appfs::gate;
use crate::appfs::gate::{ActionFingerprint, GateView, Observation, ACTION_COOLDOWN_NS};
use crate::appfs::runtime::{AppfsAdapter, ProcessOutcome, RuntimeView};
use crate::json;
use crate::paths;
use crate::text;
use vstd::prelude::*;
use vstd::string::*;

verus! {

/// The barrier after a submission has been dealt with: the state of the file is
/// remembered, and where an action was submitted the file is closed for a while.
pub open spec fn dealt_with(
    g: GateView,
    path: Seq<char>,
    fp: ActionFingerprint,
    outcome: ProcessOutcome,
    now: u64,
) -> GateView {
    let r = gate::remembered(g, path, fp);
    if outcome == ProcessOutcome::Submitted {
        GateView { blocked: r.blocked.insert(path, (now + ACTION_COOLDOWN_NS) as u64), ..r }
    } else {
        r
    }
}

/// An event out of a draft, at some time.
pub open spec fn is_event_of(e: Event, v: RuntimeView, seq: int, draft: events::DraftView) -> bool {
    &&& e.seq == seq
    &&& exists|ts: Seq<char>|
        e.line@ == json::rendered(
            #[trigger] events::event_object(v.app_id, v.session_id, seq as i64, ts, draft),
        )
}

impl AppfsAdapter {
    /// Looks at an action file, and says whether it is to be read. A file whose
    /// state cannot be told is passed over.
    pub fn consider(&mut self, path: &str, fp: Option<ActionFingerprint>, now: u64) -> (r: bool)
        ensures
            match fp {
                None => !r && final(self).gate@ == old(self).gate@,
                Some(fp) => r == (gate::standing(old(self).gate@, path@, fp, now)
                    == Observation::Ready) && final(self).gate@ == gate::observed(
                    old(self).gate@,
                    path@,
                    fp,
                    now,
                ),
            },
            final(self)@ == old(self)@,
    {
        match fp {
            None => false,
            Some(fp) => match self.gate.observe(path, fp, now) {
                Observation::Ready => true,
                _ => false,
            },
        }
    }

    /// Takes what was read from an action file, and says whether there is
    /// something to deal with: a file that cannot be read is looked at again, a
    /// blank one counts as dealt with.
    pub fn take_payload(&mut self, path: &str, fp: ActionFingerprint, body: Option<&str>) -> (r:
        bool)
        ensures
            r == match text::opt_str(body) {
                None => false,
                Some(body) => text::trimmed(body).len() > 0,
            },
            final(self).gate@ == match text::opt_str(body) {
                None => old(self).gate@,
                Some(body) => if text::trimmed(body).len() == 0 {
                    gate::remembered(old(self).gate@, path@, fp)
                } else {
                    old(self).gate@
                },
            },
            final(self)@ == old(self)@,
    {
        match body {
            None => false,
            Some(body) => {
                let trimmed = text::chars_of(text::trim(body).as_str());
                if trimmed.len() == 0 {
                    self.gate.remember(path, fp);
                    false
                } else {
                    true
                }
            },
        }
    }

    /// Takes note that a submission has been dealt with.
    pub fn settle(
        &mut self,
        path: &str,
        fp: ActionFingerprint,
        outcome: ProcessOutcome,
        now: u64,
    )
        requires
            now <= u64::MAX - ACTION_COOLDOWN_NS,
        ensures
            final(self).gate@ == dealt_with(old(self).gate@, path@, fp, outcome, now),
            final(self)@ == old(self)@,
    {
        self.gate.remember(path, fp);
        match outcome {
            ProcessOutcome::Submitted => {
                self.gate.enforce_submit_cooldown(path, now);
            },
            ProcessOutcome::Rejected => {},
        }
    }

    /// Tells of every running job once, and forgets those that are through.
    pub fn drain_streaming_jobs(&mut self) -> (r: Vec<Event>)
        requires
            old(self)@.next_seq + old(self)@.jobs.len() <= i64::MAX,
        ensures
            r@.len() == old(self)@.jobs.len(),
            forall|i: int|
                0 <= i < r@.len() ==> #[trigger] is_event_of(
                    r@[i],
                    old(self)@,
                    old(self)@.next_seq + i,
                    events::job_draft(old(self)@.jobs[i]),
                ),
            final(self)@ == (RuntimeView {
                next_seq: (old(self)@.next_seq + old(self)@.jobs.len()) as i64,
                jobs: events::round_rest(old(self)@.jobs),
                ..old(self)@
            }),
            final(self).gate == old(self).gate,
    {
        let ghost start = self@;
        let jobs = self.take_jobs();
        let (drafts, rest) = events::drain_round(jobs);
        let ghost wanted = events::round_drafts(start.jobs);
        let ghost n = drafts@.len() as int;
        assert(events::draft_views(drafts@).len() == n);
        let ghost gate_before = self.gate;
        let mut out: Vec<Event> = Vec::new();
        for draft in it: drafts.into_iter()
            invariant
                it.seq() == drafts@,
                events::draft_views(drafts@) == wanted,
                wanted == events::round_drafts(start.jobs),
                n == drafts@.len(),
                n == start.jobs.len(),
                start.next_seq + n <= i64::MAX,
                out@.len() == it.index(),
                self@ == (RuntimeView {
                    next_seq: (start.next_seq + it.index()) as i64,
                    jobs: Seq::<JobView>::empty(),
                    ..start
                }),
                self.gate == gate_before,
                forall|i: int|
                    0 <= i < out@.len() ==> #[trigger] is_event_of(
                        out@[i],
                        start,
                        start.next_seq + i,
                        events::job_draft(start.jobs[i]),
                    ),
        {
            let ghost k = it.index() as int;
            assert(wanted[k] == draft@);
            let ghost before = out@;
            let e = self.emit_event(draft);
            assert(is_event_of(e, start, start.next_seq + k, events::job_draft(start.jobs[k])));
            out.push(e);
            assert forall|i: int| 0 <= i < out@.len() implies #[trigger] is_event_of(
                out@[i],
                start,
                start.next_seq + i,
                events::job_draft(start.jobs[i]),
            ) by {
                if i < k {
                    assert(out@[i] == before[i]);
                }
            }
        }
        self.put_jobs(rest);
        out
    }
}

/// Whether one list of names comes before another: name by name.
pub open spec fn earlier(a: Seq<Seq<char>>, b: Seq<Seq<char>>) -> bool
    decreases a.len(),
{
    if b.len() == 0 {
        false
    } else if a.len() == 0 {
        true
    } else if a[0] != b[0] {
        text::less(a[0], b[0])
    } else {
        earlier(a.drop_first(), b.drop_first())
    }
}

/// Whether one path comes before another: component by component.
pub open spec fn path_earlier(a: Seq<char>, b: Seq<char>) -> bool {
    earlier(paths::without_dots(paths::parts(a)), paths::without_dots(paths::parts(b)))
}

/// A sorted list with one more path, behind those that are the same.
pub open spec fn placed(s: Seq<Seq<char>>, x: Seq<char>) -> Seq<Seq<char>>
    decreases s.len(),
{
    if s.len() > 0 && path_earlier(x, s.last()) {
        placed(s.drop_last(), x).push(s.last())
    } else {
        s.push(x)
    }
}

/// The order in which action files are dealt with.
pub open spec fn in_turn(s: Seq<Seq<char>>) -> Seq<Seq<char>>
    decreases s.len(),
{
    if s.len() == 0 {
        s
    } else {
        placed(in_turn(s.drop_last()), s.last())
    }
}

fn comes_earlier(a: &str, b: &str) -> (r: bool)
    ensures
        r == path_earlier(a@, b@),
{
    let x = paths::drop_dots(&paths::split_parts(a));
    let y = paths::drop_dots(&paths::split_parts(b));
    let ghost xs = text::views(x@);
    let ghost ys = text::views(y@);
    let mut i: usize = 0;
    assert(xs.skip(0) =~= xs);
    assert(ys.skip(0) =~= ys);
    while i < x.len() && i < y.len()
        invariant
            i <= x@.len(),
            i <= y@.len(),
            xs == text::views(x@),
            ys == text::views(y@),
            xs == paths::without_dots(paths::parts(a@)),
            ys == paths::without_dots(paths::parts(b@)),
            earlier(xs, ys) == earlier(xs.skip(i as int), ys.skip(i as int)),
        decreases x@.len() - i,
    {
        assert(xs.skip(i as int)[0] == x@[i as int]@);
        assert(ys.skip(i as int)[0] == y@[i as int]@);
        if !text::same(x[i].as_str(), y[i].as_str()) {
            return text::is_less(x[i].as_str(), y[i].as_str());
        }
        assert(xs.skip(i as int).drop_first() =~= xs.skip(i + 1));
        assert(ys.skip(i as int).drop_first() =~= ys.skip(i + 1));
        i = i + 1;
    }
    i < y.len()
}

proof fn lemma_placed(s: Seq<Seq<char>>, x: Seq<char>, pos: int)
    requires
        0 <= pos <= s.len(),
        forall|i: int| pos <= i < s.len() ==> path_earlier(x, #[trigger] s[i]),
        pos > 0 ==> !path_earlier(x, s[pos - 1]),
    ensures
        placed(s, x) == s.insert(pos, x),
    decreases s.len(),
{
    if pos < s.len() {
        assert(s[s.len() - 1] == s.last());
        let front = s.drop_last();
        assert forall|i: int| pos <= i < front.len() implies path_earlier(x, #[trigger] front[i]) by {
            assert(front[i] == s[i]);
        }
        lemma_placed(front, x, pos);
        assert(front.insert(pos, x).push(s.last()) =~= s.insert(pos, x));
    } else {
        if s.len() > 0 {
            assert(s[s.len() - 1] == s.last());
        }
        assert(s.push(x) =~= s.insert(pos, x));
    }
}

/// Puts action files in the order in which they are dealt with.
pub fn order_actions(found: &Vec<String>) -> (r: Vec<String>)
    ensures
        text::views(r@) == in_turn(text::views(found@)),
{
    let ghost all = text::views(found@);
    let mut out: Vec<String> = Vec::new();
    let mut i: usize = 0;
    assert(text::views(out@) =~= in_turn(all.take(0)));
    while i < found.len()
        invariant
            i <= found@.len(),
            all == text::views(found@),
            text::views(out@) == in_turn(all.take(i as int)),
            out@.len() == i,
        decreases found@.len() - i,
    {
        let x = found[i].clone();
        let ghost sorted = text::views(out@);
        let mut pos: usize = out.len();
        while pos > 0 && comes_earlier(x.as_str(), out[pos - 1].as_str())
            invariant
                pos <= out@.len(),
                sorted == text::views(out@),
                forall|k: int|
                    pos <= k < sorted.len() ==> path_earlier(x@, #[trigger] sorted[k]),
            decreases pos,
        {
            pos = pos - 1;
            assert(sorted[pos as int] == out@[pos as int]@);
        }
        if pos > 0 {
            assert(sorted[pos - 1] == out@[pos - 1]@);
        }
        proof {
            lemma_placed(sorted, x@, pos as int);
        }
        let ghost held = x@;
        out.insert(pos, x);
        assert(text::views(out@) =~= sorted.insert(pos as int, held));
        assert(all.take(i + 1).drop_last() =~= all.take(i as int));
        assert(all.take(i + 1).last() == held);
        i = i + 1;
    }
    assert(all.take(i as int) =~= all);
    out
}

/// Nothing is lost or added when action files are put in order.
pub proof fn law_order_keeps_the_files(s: Seq<Seq<char>>)
    ensures
        in_turn(s).to_multiset() == s.to_multiset(),
    decreases s.len(),
{
    broadcast use vstd::seq_lib::group_to_multiset_ensures;

    if s.len() > 0 {
        law_order_keeps_the_files(s.drop_last());
        lemma_placed_keeps(in_turn(s.drop_last()), s.last());
        assert(s =~= s.drop_last().push(s.last()));
    }
}

proof fn lemma_placed_keeps(s: Seq<Seq<char>>, x: Seq<char>)
    ensures
        placed(s, x).to_multiset() == s.to_multiset().insert(x),
    decreases s.len(),
{
    broadcast use vstd::seq_lib::group_to_multiset_ensures;

    if s.len() > 0 && path_earlier(x, s.last()) {
        let front = s.drop_last();
        lemma_placed_keeps(front, x);
        assert(s =~= front.push(s.last()));
        assert(front.to_multiset().insert(x).insert(s.last()) =~= front.to_multiset().insert(
            s.last(),
        ).insert(x));
    }
}

proof fn lemma_earlier_once(a: Seq<Seq<char>>, b: Seq<Seq<char>>)
    ensures
        !(earlier(a, b) && earlier(b, a)),
    decreases a.len(),
{
    if a.len() > 0 && b.len() > 0 {
        if a[0] == b[0] {
            lemma_earlier_once(a.drop_first(), b.drop_first());
        } else {
            text::lemma_less_total(a[0], b[0]);
        }
    }
}

/// What is not earlier than one list, which is not earlier than another, is not
/// earlier than that.
proof fn lemma_not_earlier(a: Seq<Seq<char>>, b: Seq<Seq<char>>, c: Seq<Seq<char>>)
    requires
        !earlier(a, b),
        !earlier(b, c),
    ensures
        !earlier(a, c),
    decreases a.len(),
{
    if a.len() > 0 && b.len() > 0 && c.len() > 0 {
        text::lemma_less_total(a[0], b[0]);
        text::lemma_less_total(b[0], c[0]);
        text::lemma_less_total(a[0], c[0]);
        if a[0] == b[0] && b[0] == c[0] {
            lemma_not_earlier(a.drop_first(), b.drop_first(), c.drop_first());
        } else if a[0] != b[0] && b[0] != c[0] {
            text::lemma_less_transitive(c[0], b[0], a[0]);
        }
    }
}

/// Whether no path comes before one that stands ahead of it.
pub open spec fn in_path_order(s: Seq<Seq<char>>) -> bool {
    forall|i: int, j: int| 0 <= i < j < s.len() ==> !path_earlier(#[trigger] s[j], #[trigger] s[i])
}

proof fn lemma_placed_in_order(s: Seq<Seq<char>>, x: Seq<char>)
    requires
        in_path_order(s),
    ensures
        in_path_order(placed(s, x)),
        forall|i: int|
            0 <= i < placed(s, x).len() ==> (#[trigger] placed(s, x)[i] == x || s.contains(
                placed(s, x)[i],
            )),
    decreases s.len(),
{
    let out = placed(s, x);
    if s.len() > 0 && path_earlier(x, s.last()) {
        let front = s.drop_last();
        assert forall|i: int, j: int| 0 <= i < j < front.len() implies !path_earlier(
            #[trigger] front[j],
            #[trigger] front[i],
        ) by {
            assert(front[i] == s[i] && front[j] == s[j]);
        }
        lemma_placed_in_order(front, x);
        let head = placed(front, x);
        assert forall|i: int| 0 <= i < out.len() implies (#[trigger] out[i] == x || s.contains(
            out[i],
        )) by {
            if i < head.len() {
                assert(out[i] == head[i]);
                if head[i] != x {
                    let k = choose|k: int| 0 <= k < front.len() && front[k] == head[i];
                    assert(s[k] == head[i]);
                }
            } else {
                assert(s[s.len() - 1] == s.last());
            }
        }
        assert forall|i: int, j: int| 0 <= i < j < out.len() implies !path_earlier(
            #[trigger] out[j],
            #[trigger] out[i],
        ) by {
            assert(out[i] == head[i]);
            if j < head.len() {
                assert(out[j] == head[j]);
            } else if head[i] == x {
                lemma_earlier_once(
                    paths::without_dots(paths::parts(x)),
                    paths::without_dots(paths::parts(s.last())),
                );
            } else {
                let k = choose|k: int| 0 <= k < front.len() && front[k] == head[i];
                assert(s[k] == head[i]);
                assert(s[s.len() - 1] == s.last());
            }
        }
    } else {
        assert forall|i: int| 0 <= i < out.len() implies (#[trigger] out[i] == x || s.contains(
            out[i],
        )) by {
            if i < s.len() {
                assert(s[i] == out[i]);
            }
        }
        assert forall|i: int, j: int| 0 <= i < j < out.len() implies !path_earlier(
            #[trigger] out[j],
            #[trigger] out[i],
        ) by {
            assert(out[i] == s[i]);
            if j < s.len() {
                assert(out[j] == s[j]);
            } else if i < s.len() - 1 {
                assert(s[s.len() - 1] == s.last());
                lemma_not_earlier(
                    paths::without_dots(paths::parts(x)),
                    paths::without_dots(paths::parts(s.last())),
                    paths::without_dots(paths::parts(s[i])),
                );
            }
        }
    }
}

/// Action files are dealt with in the order of their paths.
pub proof fn law_actions_come_in_order(s: Seq<Seq<char>>)
    ensures
        in_path_order(in_turn(s)),
    decreases s.len(),
{
    if s.len() > 0 {
        law_actions_come_in_order(s.drop_last());
        lemma_placed_in_order(in_turn(s.drop_last()), s.last());
    }
}

/// A file that has been dealt with is left alone until its state changes.
pub proof fn law_dealt_with_is_left_alone(
    g: GateView,
    path: Seq<char>,
    fp: ActionFingerprint,
    outcome: ProcessOutcome,
    now: u64,
    later: u64,
)
    ensures
        gate::standing(dealt_with(g, path, fp, outcome, now), path, fp, later)
            == Observation::Unchanged,
{
}

/// An action that was submitted closes its file for the time that is set, and one
/// that was rejected does not.
pub proof fn law_only_submissions_close(
    g: GateView,
    path: Seq<char>,
    fp: ActionFingerprint,
    now: u64,
)
    requires
        now <= u64::MAX - ACTION_COOLDOWN_NS,
    ensures
        ({
            let closed = dealt_with(g, path, fp, ProcessOutcome::Submitted, now);
            &&& !gate::due(closed, path, now)
            &&& gate::due(closed, path, (now + ACTION_COOLDOWN_NS) as u64)
            &&& dealt_with(g, path, fp, ProcessOutcome::Rejected, now).blocked == g.blocked
        }),
{
}

} // verus!
