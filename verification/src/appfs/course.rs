//! The course of a round: what becomes of the jobs that run, and of each action file that
//! is found.

use crate::appfs::events;
use crate::appfs::events::{DraftView, JobView};
use crate::appfs::gate;
use crate::appfs::gate::{ActionFingerprint, GateView, Observation};
use crate::appfs::poll;
use crate::appfs::round;
use crate::appfs::round::{News, NewsView, RoundView, Stage, StageView, TaskView};
use crate::appfs::runtime::{ProcessOutcome, RuntimeView};
use crate::json;
use crate::text;
use vstd::prelude::*;

verus! {

/// A task writes the event of a draft, under the next number of the runtime `v`.
pub open spec fn tells(task: TaskView, v: RuntimeView, ts: Seq<char>, draft: DraftView) -> bool {
    task == TaskView::Write {
        seq: v.next_seq,
        line: json::rendered(
            events::event_object(v.app_id, v.session_id, v.next_seq, ts, draft),
        ),
    }
}

/// What comes next in a round, once the news is in.
pub open spec fn next(r: RoundView, news: NewsView, now: u64, ts: Seq<char>) -> RoundView {
    round::moved(r.v, r.g, r.stage, news, now, ts)
}

/// A round goes on with the file number `at`, or comes to a good end where there is none.
pub open spec fn turns_to(r: RoundView, files: Seq<Seq<char>>, at: int) -> bool {
    if at < files.len() {
        r.task == TaskView::Inspect { path: files[at] } && r.stage == StageView::Inspecting {
            files,
            at: at as usize,
        }
    } else {
        r.task == TaskView::Stop { well: true }
    }
}

/// A round starts with the jobs, the first one first: each is told of under a number of
/// its own, the cursor is saved behind it, and the next one follows; what is left of them
/// is saved, and then the action files are looked for. Without jobs that comes at once.
pub proof fn law_jobs_come_first(
    v: RuntimeView,
    g: GateView,
    left: Seq<JobView>,
    kept: Seq<JobView>,
    now: u64,
    ts: Seq<char>,
)
    requires
        v.next_seq < i64::MAX,
    ensures
        v.jobs.len() == 0 ==> round::started(v, g, ts).task == TaskView::Look && round::started(
            v,
            g,
            ts,
        ).v == v,
        v.jobs.len() > 0 ==> tells(
            round::started(v, g, ts).task,
            v,
            ts,
            events::job_draft(v.jobs[0]),
        ),
        ({
            let r = round::tell(v, g, left, kept, ts);
            let saved = next(r, News::Done, now, ts);
            let after = next(saved, News::Done, now, ts);
            &&& left.len() > 0 ==> {
                &&& tells(r.task, v, ts, events::job_draft(left[0]))
                &&& saved.task == TaskView::SaveCursor
                &&& saved.v.cursor.max_seq == v.next_seq
            }
            &&& left.len() > 1 ==> tells(after.task, saved.v, ts, events::job_draft(left[1]))
                && saved.v.next_seq == v.next_seq + 1
            &&& left.len() == 1 ==> after.task == TaskView::SaveJobs
            &&& left.len() == 0 ==> r.task == TaskView::SaveJobs && r.v.jobs == kept && saved.task
                == TaskView::Look
        }),
{
}

/// The action files that are found are looked at one after the other, in the order of
/// their paths, from the first on.
pub proof fn law_files_are_looked_at_in_turn(
    v: RuntimeView,
    g: GateView,
    found: Seq<Seq<char>>,
    now: u64,
    ts: Seq<char>,
)
    ensures
        turns_to(
            round::moved(v, g, Stage::Looking, News::Found(found), now, ts),
            poll::in_turn(found),
            0,
        ),
{
}

/// A file that cannot be looked at, or that has not kept still long enough, or that has
/// been dealt with in this state, is passed over. One that is ready is read. One that
/// cannot be read is passed over and will be ready again; one that holds nothing but
/// whitespace is passed over and counts as dealt with. What is read of any other goes to
/// the adapter as it is.
pub proof fn law_ready_file_is_taken(
    v: RuntimeView,
    g: GateView,
    files: Seq<Seq<char>>,
    at: usize,
    fp: ActionFingerprint,
    body: Seq<char>,
    now: u64,
    ts: Seq<char>,
)
    requires
        at < files.len() <= usize::MAX,
    ensures
        ({
            let path = files[at as int];
            let here = StageView::Inspecting { files, at };
            let missing = round::moved(v, g, here, News::State(None), now, ts);
            let looked = round::moved(v, g, here, News::State(Some(fp)), now, ts);
            let ready = gate::standing(g, path, fp, now) == Observation::Ready;
            let unread = next(looked, News::Body(None), now, ts);
            let read = next(looked, News::Body(Some(body)), now, ts);
            &&& turns_to(missing, files, at + 1)
            &&& !ready ==> turns_to(looked, files, at + 1)
            &&& ready ==> {
                &&& looked.task == TaskView::Read { path }
                &&& turns_to(unread, files, at + 1)
                &&& text::trimmed(body).len() == 0 ==> turns_to(read, files, at + 1) && (at + 1
                    < files.len() ==> read.g.last.contains_pair(path, fp))
                &&& text::trimmed(body).len() > 0 ==> read.task == TaskView::Process {
                    path: text::slashed(path),
                    body,
                }
            }
        }),
{
}

/// Once the adapter has had a submission, the event that tells of it is written under the
/// next number, the cursor is saved behind it, and the file counts as dealt with; where a
/// job was started instead, the jobs are saved before that. A file whose action was
/// submitted is closed for a second and a half, and one whose action was rejected is not.
/// Then the next file comes.
pub proof fn law_submission_is_settled(
    v: RuntimeView,
    g: GateView,
    files: Seq<Seq<char>>,
    at: usize,
    fp: ActionFingerprint,
    outcome: ProcessOutcome,
    draft: DraftView,
    news: NewsView,
    now: u64,
    ts: Seq<char>,
)
    requires
        at < files.len() <= usize::MAX,
        v.next_seq < i64::MAX,
        now <= u64::MAX - 1_500_000_000,
    ensures
        ({
            let path = files[at as int];
            let here = StageView::Processing { files, at, fp };
            let told = round::moved(
                v,
                g,
                here,
                News::Processed { outcome, draft: Some(draft), job_queued: false },
                now,
                ts,
            );
            let saved = next(told, News::Done, now, ts);
            let settled = next(saved, News::Done, now, ts);
            let queued = round::moved(
                v,
                g,
                here,
                News::Processed { outcome, draft: None, job_queued: true },
                now,
                ts,
            );
            let kept = next(queued, News::Done, now, ts);
            let silent = round::moved(
                v,
                g,
                here,
                News::Processed { outcome, draft: None, job_queued: false },
                now,
                ts,
            );
            &&& tells(told.task, v, ts, draft)
            &&& saved.task == TaskView::SaveCursor
            &&& saved.v.cursor.max_seq == v.next_seq
            &&& settled_well(g, settled, files, at, fp, outcome, news, now, ts)
            &&& queued.task == TaskView::SaveJobs
            &&& settled_well(g, kept, files, at, fp, outcome, news, now, ts)
            &&& settled_well(g, silent, files, at, fp, outcome, news, now, ts)
        }),
{
}

/// The state of the file counts as dealt with; the file is closed where its action was
/// submitted, and then the next one comes, whatever came of closing it.
pub open spec fn settled_well(
    g: GateView,
    r: RoundView,
    files: Seq<Seq<char>>,
    at: usize,
    fp: ActionFingerprint,
    outcome: ProcessOutcome,
    news: NewsView,
    now: u64,
    ts: Seq<char>,
) -> bool {
    let path = files[at as int];
    match outcome {
        ProcessOutcome::Submitted => {
            &&& r.task == TaskView::Close { path }
            &&& r.g.last.contains_pair(path, fp)
            &&& r.g.blocked.contains_pair(path, (now + 1_500_000_000) as u64)
            &&& turns_to(next(r, news, now, ts), files, at + 1)
        },
        ProcessOutcome::Rejected => {
            &&& turns_to(r, files, at + 1)
            &&& at + 1 < files.len() ==> r.g.last.contains_pair(path, fp)
            &&& r.g.blocked == g.blocked
        },
    }
}

} // verus!
