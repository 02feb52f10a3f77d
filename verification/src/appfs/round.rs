//! A whole round of looking at the action files, one step at a time: the library
//! says what is to be done, and is told how it went.

use crate::appfs::events;
use crate::appfs::events::{DraftView, EventDraft, JobView, StreamingJob};
use crate::appfs::gate;
use crate::appfs::gate::{ActionFingerprint, GateView, Observation, ACTION_COOLDOWN_NS};
use crate::appfs::poll;
use crate::appfs::runtime;
use crate::appfs::runtime::{ActionResult, AppfsAdapter, ProcessOutcome, RuntimeView};
use crate::clock;
use crate::json;
use crate::text;
use vstd::prelude::*;

verus! {

/// How far a round has got. First the running jobs are told of, then the action
/// files are dealt with one after the other.
#[derive(Debug)]
pub enum Stage<L, J> {
    /// The event `seq` of a job is being written.
    Telling { left: J, kept: J, seq: i64 },
    /// The cursor is being saved behind it.
    Told { left: J, kept: J },
    /// The jobs that are left are being saved.
    Keeping,
    /// The action files are being looked for.
    Looking,
    Inspecting { files: L, at: usize },
    Reading { files: L, at: usize, fp: ActionFingerprint },
    Processing { files: L, at: usize, fp: ActionFingerprint },
    /// The event `seq` of a submission is being written; without one, the job
    /// that it has started is being saved.
    Answering {
        files: L,
        at: usize,
        fp: ActionFingerprint,
        outcome: ProcessOutcome,
        seq: Option<i64>,
    },
    /// The cursor is being saved behind it.
    Answered { files: L, at: usize, fp: ActionFingerprint, outcome: ProcessOutcome },
    Closing { files: L, at: usize },
    Over { well: bool },
}

pub type StageView = Stage<Seq<Seq<char>>, Seq<JobView>>;

pub type RoundStage = Stage<Vec<String>, Vec<StreamingJob>>;

impl View for Stage<Vec<String>, Vec<StreamingJob>> {
    type V = StageView;

    open spec fn view(&self) -> StageView {
        match self {
            Stage::Telling { left, kept, seq } => Stage::Telling {
                left: events::job_views(left@),
                kept: events::job_views(kept@),
                seq: *seq,
            },
            Stage::Told { left, kept } => Stage::Told {
                left: events::job_views(left@),
                kept: events::job_views(kept@),
            },
            Stage::Keeping => Stage::Keeping,
            Stage::Looking => Stage::Looking,
            Stage::Inspecting { files, at } => Stage::Inspecting {
                files: text::views(files@),
                at: *at,
            },
            Stage::Reading { files, at, fp } => Stage::Reading {
                files: text::views(files@),
                at: *at,
                fp: *fp,
            },
            Stage::Processing { files, at, fp } => Stage::Processing {
                files: text::views(files@),
                at: *at,
                fp: *fp,
            },
            Stage::Answering { files, at, fp, outcome, seq } => Stage::Answering {
                files: text::views(files@),
                at: *at,
                fp: *fp,
                outcome: *outcome,
                seq: *seq,
            },
            Stage::Answered { files, at, fp, outcome } => Stage::Answered {
                files: text::views(files@),
                at: *at,
                fp: *fp,
                outcome: *outcome,
            },
            Stage::Closing { files, at } => Stage::Closing {
                files: text::views(files@),
                at: *at,
            },
            Stage::Over { well } => Stage::Over { well: *well },
        }
    }
}

/// Whether a stage points at a file that is there.
pub open spec fn in_bounds(s: StageView) -> bool {
    match s {
        Stage::Inspecting { files, at } => at < files.len() <= usize::MAX,
        Stage::Reading { files, at, .. } => at < files.len() <= usize::MAX,
        Stage::Processing { files, at, .. } => at < files.len() <= usize::MAX,
        Stage::Answering { files, at, .. } => at < files.len() <= usize::MAX,
        Stage::Answered { files, at, .. } => at < files.len() <= usize::MAX,
        Stage::Closing { files, at } => at < files.len() <= usize::MAX,
        _ => true,
    }
}

/// What is to be done next.
#[derive(Debug)]
pub enum Task<S> {
    /// Append the line to the stream, and write it to the replay file of `seq`.
    Write { seq: i64, line: S },
    SaveCursor,
    SaveJobs,
    /// Look for action files.
    Look,
    /// Find the length of a file and when it was last written.
    Inspect { path: S },
    Read { path: S },
    /// Take a submission to the adapter.
    Process { path: S, body: S },
    /// Close a file to writers.
    Close { path: S },
    Stop { well: bool },
}

pub type TaskView = Task<Seq<char>>;

impl View for Task<String> {
    type V = TaskView;

    open spec fn view(&self) -> TaskView {
        match self {
            Task::Write { seq, line } => Task::Write { seq: *seq, line: line@ },
            Task::SaveCursor => Task::SaveCursor,
            Task::SaveJobs => Task::SaveJobs,
            Task::Look => Task::Look,
            Task::Inspect { path } => Task::Inspect { path: path@ },
            Task::Read { path } => Task::Read { path: path@ },
            Task::Process { path, body } => Task::Process { path: path@, body: body@ },
            Task::Close { path } => Task::Close { path: path@ },
            Task::Stop { well } => Task::Stop { well: *well },
        }
    }
}

/// How it went.
#[derive(Debug)]
pub enum News<S, L, D> {
    Done,
    Failed,
    Found(L),
    /// What was found of a file, if it could be looked at.
    State(Option<ActionFingerprint>),
    /// What was read from a file, if it could be read.
    Body(Option<S>),
    Processed { outcome: ProcessOutcome, draft: Option<D>, job_queued: bool },
}

pub type NewsView = News<Seq<char>, Seq<Seq<char>>, DraftView>;

pub type RoundNews = News<String, Vec<String>, EventDraft>;

impl View for News<String, Vec<String>, EventDraft> {
    type V = NewsView;

    open spec fn view(&self) -> NewsView {
        match self {
            News::Done => News::Done,
            News::Failed => News::Failed,
            News::Found(l) => News::Found(text::views(l@)),
            News::State(fp) => News::State(*fp),
            News::Body(b) => News::Body(text::opt(*b)),
            News::Processed { outcome, draft, job_queued } => News::Processed {
                outcome: *outcome,
                draft: runtime::opt_draft(*draft),
                job_queued: *job_queued,
            },
        }
    }
}

/// A round, what the runtime knows, and what is to be done next.
#[verifier::ext_equal]
pub struct RoundView {
    pub v: RuntimeView,
    pub g: GateView,
    pub stage: StageView,
    pub task: TaskView,
}

/// The end of a round.
pub open spec fn stopped(v: RuntimeView, g: GateView, well: bool) -> RoundView {
    RoundView { v, g, stage: Stage::Over { well }, task: Task::Stop { well } }
}

/// The runtime once it has given a number away.
pub open spec fn numbered(v: RuntimeView) -> RuntimeView {
    RuntimeView { next_seq: (v.next_seq + 1) as i64, ..v }
}

/// The next event, to be written.
pub open spec fn writing(v: RuntimeView, ts: Seq<char>, draft: DraftView) -> TaskView {
    Task::Write {
        seq: v.next_seq,
        line: json::rendered(
            events::event_object(v.app_id, v.session_id, v.next_seq, ts, draft),
        ),
    }
}

/// The runtime once the event `seq` is out.
pub open spec fn published(v: RuntimeView, seq: i64) -> RuntimeView {
    RuntimeView { cursor: v.cursor.spec_after(seq), ..v }
}

/// The jobs that are kept, with what is left of one more.
pub open spec fn kept_with(kept: Seq<JobView>, job: JobView) -> Seq<JobView> {
    match events::job_rest(job) {
        Some(rest) => kept.push(rest),
        None => kept,
    }
}

/// The next job is told of; after the last one the jobs that are left are saved.
pub open spec fn tell(
    v: RuntimeView,
    g: GateView,
    left: Seq<JobView>,
    kept: Seq<JobView>,
    ts: Seq<char>,
) -> RoundView {
    if left.len() == 0 {
        RoundView {
            v: RuntimeView { jobs: kept, ..v },
            g,
            stage: Stage::Keeping,
            task: Task::SaveJobs,
        }
    } else {
        RoundView {
            v: numbered(v),
            g,
            stage: Stage::Telling {
                left: left.drop_first(),
                kept: kept_with(kept, left[0]),
                seq: v.next_seq,
            },
            task: writing(v, ts, events::job_draft(left[0])),
        }
    }
}

/// The start of a round: while they are told of, the runtime holds no jobs.
pub open spec fn started(v: RuntimeView, g: GateView, ts: Seq<char>) -> RoundView {
    if v.jobs.len() == 0 {
        RoundView { v, g, stage: Stage::Looking, task: Task::Look }
    } else {
        tell(
            RuntimeView { jobs: Seq::<JobView>::empty(), ..v },
            g,
            v.jobs,
            Seq::<JobView>::empty(),
            ts,
        )
    }
}

/// The file number `at` comes next; after the last one, what is known of files
/// that are gone is forgotten.
pub open spec fn go_on(v: RuntimeView, g: GateView, files: Seq<Seq<char>>, at: int) -> RoundView {
    if at < files.len() {
        RoundView {
            v,
            g,
            stage: Stage::Inspecting { files, at: at as usize },
            task: Task::Inspect { path: files[at] },
        }
    } else {
        stopped(v, gate::only_seen(g, files.to_set()), true)
    }
}

/// A submission has been dealt with.
pub open spec fn settled(
    v: RuntimeView,
    g: GateView,
    files: Seq<Seq<char>>,
    at: usize,
    fp: ActionFingerprint,
    outcome: ProcessOutcome,
    now: u64,
) -> RoundView {
    let g2 = poll::dealt_with(g, files[at as int], fp, outcome, now);
    if outcome == ProcessOutcome::Submitted {
        RoundView {
            v,
            g: g2,
            stage: Stage::Closing { files, at },
            task: Task::Close { path: files[at as int] },
        }
    } else {
        go_on(v, g2, files, at + 1)
    }
}

/// A file has been looked at.
pub open spec fn inspected(
    v: RuntimeView,
    g: GateView,
    files: Seq<Seq<char>>,
    at: usize,
    fp: Option<ActionFingerprint>,
    now: u64,
) -> RoundView {
    let path = files[at as int];
    match fp {
        None => go_on(v, g, files, at + 1),
        Some(fp) => {
            let g2 = gate::observed(g, path, fp, now);
            if gate::standing(g, path, fp, now) == Observation::Ready {
                RoundView {
                    v,
                    g: g2,
                    stage: Stage::Reading { files, at, fp },
                    task: Task::Read { path },
                }
            } else {
                go_on(v, g2, files, at + 1)
            }
        },
    }
}

/// A file has been read.
pub open spec fn read_in(
    v: RuntimeView,
    g: GateView,
    files: Seq<Seq<char>>,
    at: usize,
    fp: ActionFingerprint,
    body: Option<Seq<char>>,
) -> RoundView {
    let path = files[at as int];
    match body {
        None => go_on(v, g, files, at + 1),
        Some(body) => if text::trimmed(body).len() == 0 {
            go_on(v, gate::remembered(g, path, fp), files, at + 1)
        } else {
            RoundView {
                v,
                g,
                stage: Stage::Processing { files, at, fp },
                task: Task::Process { path: text::slashed(path), body },
            }
        },
    }
}

/// A submission has been to the adapter.
pub open spec fn processed(
    v: RuntimeView,
    g: GateView,
    files: Seq<Seq<char>>,
    at: usize,
    fp: ActionFingerprint,
    outcome: ProcessOutcome,
    draft: Option<DraftView>,
    job_queued: bool,
    now: u64,
    ts: Seq<char>,
) -> RoundView {
    match draft {
        Some(draft) => RoundView {
            v: numbered(v),
            g,
            stage: Stage::Answering { files, at, fp, outcome, seq: Some(v.next_seq) },
            task: writing(v, ts, draft),
        },
        None => if job_queued {
            RoundView {
                v,
                g,
                stage: Stage::Answering { files, at, fp, outcome, seq: None },
                task: Task::SaveJobs,
            }
        } else {
            settled(v, g, files, at, fp, outcome, now)
        },
    }
}

/// What comes of the news at a stage. Whatever has failed ends the round, but for
/// closing a file; so does news that does not belong there.
pub open spec fn moved(
    v: RuntimeView,
    g: GateView,
    stage: StageView,
    news: NewsView,
    now: u64,
    ts: Seq<char>,
) -> RoundView {
    match (stage, news) {
        (Stage::Telling { left, kept, seq }, News::Done) => RoundView {
            v: published(v, seq),
            g,
            stage: Stage::Told { left, kept },
            task: Task::SaveCursor,
        },
        (Stage::Told { left, kept }, News::Done) => tell(v, g, left, kept, ts),
        (Stage::Keeping, News::Done) => RoundView {
            v,
            g,
            stage: Stage::Looking,
            task: Task::Look,
        },
        (Stage::Looking, News::Found(files)) => go_on(v, g, poll::in_turn(files), 0),
        (Stage::Inspecting { files, at }, News::State(fp)) => inspected(v, g, files, at, fp, now),
        (Stage::Reading { files, at, fp }, News::Body(body)) => read_in(v, g, files, at, fp, body),
        (
            Stage::Processing { files, at, fp },
            News::Processed { outcome, draft, job_queued },
        ) => processed(v, g, files, at, fp, outcome, draft, job_queued, now, ts),
        (Stage::Answering { files, at, fp, outcome, seq }, News::Done) => match seq {
            Some(seq) => RoundView {
                v: published(v, seq),
                g,
                stage: Stage::Answered { files, at, fp, outcome },
                task: Task::SaveCursor,
            },
            None => settled(v, g, files, at, fp, outcome, now),
        },
        (Stage::Answered { files, at, fp, outcome }, News::Done) => settled(
            v,
            g,
            files,
            at,
            fp,
            outcome,
            now,
        ),
        (Stage::Closing { files, at }, _) => go_on(v, g, files, at + 1),
        (Stage::Over { well }, _) => stopped(v, g, well),
        _ => stopped(v, g, false),
    }
}

/// Whether the runtime, a stage and a task are as a round says.
pub open spec fn is_at(rt: AppfsAdapter, stage: RoundStage, task: Task<String>, r: RoundView) -> bool {
    &&& rt@ == r.v
    &&& rt.gate@ == r.g
    &&& stage@ == r.stage
    &&& task@ == r.task
}

impl News<String, Vec<String>, EventDraft> {
    /// What the adapter has made of a submission, as news.
    pub fn of_result(result: ActionResult) -> (r: Self)
        ensures
            r@ == (NewsView::Processed {
                outcome: result.outcome,
                draft: runtime::opt_draft(result.draft),
                job_queued: result.job_queued,
            }),
    {
        News::Processed {
            outcome: result.outcome,
            draft: result.draft,
            job_queued: result.job_queued,
        }
    }
}

fn over(well: bool) -> (r: (RoundStage, Task<String>))
    ensures
        r.0@ == (StageView::Over { well }),
        r.1@ == (TaskView::Stop { well }),
{
    (Stage::Over { well }, Task::Stop { well })
}

impl AppfsAdapter {
    fn tell_next(&mut self, left: Vec<StreamingJob>, kept: Vec<StreamingJob>, ts: &str) -> (r: (
        RoundStage,
        Task<String>,
    ))
        requires
            old(self)@.next_seq < i64::MAX,
        ensures
            is_at(
                *final(self),
                r.0,
                r.1,
                tell(
                    old(self)@,
                    old(self).gate@,
                    events::job_views(left@),
                    events::job_views(kept@),
                    ts@,
                ),
            ),
    {
        let ghost v = self@;
        let mut left = left;
        let mut kept = kept;
        let ghost l = events::job_views(left@);
        let ghost k = events::job_views(kept@);
        if left.len() == 0 {
            self.put_jobs(kept);
            return (Stage::Keeping, Task::SaveJobs);
        }
        let job = left.remove(0);
        assert(job@ == l[0]);
        assert(events::job_views(left@) =~= l.drop_first());
        let (draft, rest) = events::advance_job(job);
        if let Some(rest) = rest {
            let ghost held = rest@;
            kept.push(rest);
            assert(events::job_views(kept@) =~= k.push(held));
        }
        assert(events::job_views(kept@) == kept_with(k, l[0]));
        let e = self.emit_event_at(draft, ts);
        (Stage::Telling { left, kept, seq: e.seq }, Task::Write { seq: e.seq, line: e.line })
    }

    /// Starts a round at the time `ts`.
    pub fn start_round_at(&mut self, ts: &str) -> (r: (RoundStage, Task<String>))
        requires
            old(self)@.next_seq < i64::MAX,
        ensures
            is_at(*final(self), r.0, r.1, started(old(self)@, old(self).gate@, ts@)),
            in_bounds(r.0@),
    {
        if self.streaming_jobs.len() == 0 {
            return (Stage::Looking, Task::Look);
        }
        let jobs = self.take_jobs();
        let kept: Vec<StreamingJob> = Vec::new();
        assert(events::job_views(kept@) =~= Seq::<JobView>::empty());
        self.tell_next(jobs, kept, ts)
    }

    /// Starts a round.
    pub fn start_round(&mut self) -> (r: (RoundStage, Task<String>))
        requires
            old(self)@.next_seq < i64::MAX,
        ensures
            exists|ts: Seq<char>|
                is_at(*final(self), r.0, r.1, #[trigger] started(old(self)@, old(self).gate@, ts)),
            in_bounds(r.0@),
    {
        let ts = clock::now_rfc3339();
        self.start_round_at(ts.as_str())
    }

    fn next_file(&mut self, files: Vec<String>, at: usize) -> (r: (RoundStage, Task<String>))
        ensures
            is_at(
                *final(self),
                r.0,
                r.1,
                go_on(old(self)@, old(self).gate@, text::views(files@), at as int),
            ),
            in_bounds(r.0@),
    {
        let n: usize = files.len();
        if at < n {
            let path = files[at].clone();
            assert(text::views(files@)[at as int] == path@);
            (Stage::Inspecting { files, at }, Task::Inspect { path })
        } else {
            self.gate.retain_seen(&files);
            over(true)
        }
    }

    fn finish_file(
        &mut self,
        files: Vec<String>,
        at: usize,
        fp: ActionFingerprint,
        outcome: ProcessOutcome,
        now: u64,
    ) -> (r: (RoundStage, Task<String>))
        requires
            at < files@.len(),
            now <= u64::MAX - ACTION_COOLDOWN_NS,
        ensures
            is_at(
                *final(self),
                r.0,
                r.1,
                settled(
                    old(self)@,
                    old(self).gate@,
                    text::views(files@),
                    at,
                    fp,
                    outcome,
                    now,
                ),
            ),
            in_bounds(r.0@),
    {
        let n: usize = files.len();
        let path = files[at].clone();
        assert(text::views(files@)[at as int] == path@ && at < n);
        self.settle(path.as_str(), fp, outcome, now);
        match outcome {
            ProcessOutcome::Submitted => (Stage::Closing { files, at }, Task::Close { path }),
            ProcessOutcome::Rejected => self.next_file(files, at + 1),
        }
    }

    fn take_state(
        &mut self,
        files: Vec<String>,
        at: usize,
        fp: Option<ActionFingerprint>,
        now: u64,
    ) -> (r: (RoundStage, Task<String>))
        requires
            at < files@.len(),
        ensures
            is_at(
                *final(self),
                r.0,
                r.1,
                inspected(old(self)@, old(self).gate@, text::views(files@), at, fp, now),
            ),
            in_bounds(r.0@),
    {
        let n: usize = files.len();
        let path = files[at].clone();
        assert(text::views(files@)[at as int] == path@ && at < n);
        let ready = self.consider(path.as_str(), fp, now);
        match fp {
            Some(fp) if ready => (Stage::Reading { files, at, fp }, Task::Read { path }),
            _ => self.next_file(files, at + 1),
        }
    }

    fn take_body(
        &mut self,
        files: Vec<String>,
        at: usize,
        fp: ActionFingerprint,
        body: Option<String>,
    ) -> (r: (RoundStage, Task<String>))
        requires
            at < files@.len(),
        ensures
            is_at(
                *final(self),
                r.0,
                r.1,
                read_in(
                    old(self)@,
                    old(self).gate@,
                    text::views(files@),
                    at,
                    fp,
                    text::opt(body),
                ),
            ),
            in_bounds(r.0@),
    {
        let n: usize = files.len();
        let path = files[at].clone();
        assert(text::views(files@)[at as int] == path@ && at < n);
        let worth = match &body {
            Some(b) => self.take_payload(path.as_str(), fp, Some(b.as_str())),
            None => false,
        };
        match body {
            Some(body) if worth => (
                Stage::Processing { files, at, fp },
                Task::Process { path: text::forward_slashes(path.as_str()), body },
            ),
            _ => self.next_file(files, at + 1),
        }
    }

    fn take_result(
        &mut self,
        files: Vec<String>,
        at: usize,
        fp: ActionFingerprint,
        result: ActionResult,
        now: u64,
        ts: &str,
    ) -> (r: (RoundStage, Task<String>))
        requires
            at < files@.len(),
            old(self)@.next_seq < i64::MAX,
            now <= u64::MAX - ACTION_COOLDOWN_NS,
        ensures
            is_at(
                *final(self),
                r.0,
                r.1,
                processed(
                    old(self)@,
                    old(self).gate@,
                    text::views(files@),
                    at,
                    fp,
                    result.outcome,
                    runtime::opt_draft(result.draft),
                    result.job_queued,
                    now,
                    ts@,
                ),
            ),
            in_bounds(r.0@),
    {
        let n: usize = files.len();
        assert(at < n);
        let outcome = result.outcome;
        match result.draft {
            Some(draft) => {
                let e = self.emit_event_at(draft, ts);
                (
                    Stage::Answering { files, at, fp, outcome, seq: Some(e.seq) },
                    Task::Write { seq: e.seq, line: e.line },
                )
            },
            None => if result.job_queued {
                (Stage::Answering { files, at, fp, outcome, seq: None }, Task::SaveJobs)
            } else {
                self.finish_file(files, at, fp, outcome, now)
            },
        }
    }

    /// Takes the news at a stage of a round, at the time `ts`; `now` is the time of
    /// the clock that never goes back.
    pub fn advance_round_at(&mut self, stage: RoundStage, news: RoundNews, now: u64, ts: &str) -> (r: (
        RoundStage,
        Task<String>,
    ))
        requires
            in_bounds(stage@),
            old(self)@.next_seq < i64::MAX,
            now <= u64::MAX - ACTION_COOLDOWN_NS,
        ensures
            is_at(
                *final(self),
                r.0,
                r.1,
                moved(old(self)@, old(self).gate@, stage@, news@, now, ts@),
            ),
            in_bounds(r.0@),
    {
        match stage {
            Stage::Telling { left, kept, seq } => match news {
                News::Done => {
                    self.publish_event(seq);
                    (Stage::Told { left, kept }, Task::SaveCursor)
                },
                _ => over(false),
            },
            Stage::Told { left, kept } => match news {
                News::Done => self.tell_next(left, kept, ts),
                _ => over(false),
            },
            Stage::Keeping => match news {
                News::Done => (Stage::Looking, Task::Look),
                _ => over(false),
            },
            Stage::Looking => match news {
                News::Found(files) => {
                    let files = poll::order_actions(&files);
                    self.next_file(files, 0)
                },
                _ => over(false),
            },
            Stage::Inspecting { files, at } => match news {
                News::State(fp) => self.take_state(files, at, fp, now),
                _ => over(false),
            },
            Stage::Reading { files, at, fp } => match news {
                News::Body(body) => self.take_body(files, at, fp, body),
                _ => over(false),
            },
            Stage::Processing { files, at, fp } => match news {
                News::Processed { outcome, draft, job_queued } => self.take_result(
                    files,
                    at,
                    fp,
                    ActionResult { outcome, draft, job_queued },
                    now,
                    ts,
                ),
                _ => over(false),
            },
            Stage::Answering { files, at, fp, outcome, seq } => match news {
                News::Done => match seq {
                    Some(seq) => {
                        self.publish_event(seq);
                        (Stage::Answered { files, at, fp, outcome }, Task::SaveCursor)
                    },
                    None => self.finish_file(files, at, fp, outcome, now),
                },
                _ => over(false),
            },
            Stage::Answered { files, at, fp, outcome } => match news {
                News::Done => self.finish_file(files, at, fp, outcome, now),
                _ => over(false),
            },
            Stage::Closing { files, at } => self.next_file(files, at + 1),
            Stage::Over { well } => over(well),
        }
    }

    /// Takes the news at a stage of a round.
    pub fn advance_round(&mut self, stage: RoundStage, news: RoundNews, now: u64) -> (r: (
        RoundStage,
        Task<String>,
    ))
        requires
            in_bounds(stage@),
            old(self)@.next_seq < i64::MAX,
            now <= u64::MAX - ACTION_COOLDOWN_NS,
        ensures
            exists|ts: Seq<char>|
                is_at(
                    *final(self),
                    r.0,
                    r.1,
                    #[trigger] moved(old(self)@, old(self).gate@, stage@, news@, now, ts),
                ),
            in_bounds(r.0@),
    {
        let ts = clock::now_rfc3339();
        self.advance_round_at(stage, news, now, ts.as_str())
    }
}

/// A failure ends the round and leaves the barrier as it was, but for closing a
/// file, which may fail.
pub proof fn law_failure_ends_the_round(
    v: RuntimeView,
    g: GateView,
    stage: StageView,
    now: u64,
    ts: Seq<char>,
)
    requires
        !(stage is Closing),
        !(stage is Over),
    ensures
        moved(v, g, stage, News::Failed, now, ts) == stopped(v, g, false),
{
}

/// A file is read only where it has kept still in a state that was not dealt
/// with, and goes to the adapter only after it has been read.
pub proof fn law_only_still_files_are_read(
    v: RuntimeView,
    g: GateView,
    stage: StageView,
    news: NewsView,
    now: u64,
    ts: Seq<char>,
)
    requires
        in_bounds(stage),
    ensures
        moved(v, g, stage, news, now, ts).task matches Task::Read { path } ==> news
            matches News::State(Some(fp)) && gate::standing(g, path, fp, now)
            == Observation::Ready,
        moved(v, g, stage, news, now, ts).task matches Task::Process { body, .. } ==> news
            matches News::Body(Some(b)) && b == body && text::trimmed(b).len() > 0,
{
}

/// An event is written under the next number, and that number is not given away
/// again.
pub proof fn law_numbers_are_given_once(
    v: RuntimeView,
    g: GateView,
    stage: StageView,
    news: NewsView,
    now: u64,
    ts: Seq<char>,
)
    requires
        in_bounds(stage),
        v.next_seq < i64::MAX,
    ensures
        ({
            let r = moved(v, g, stage, news, now, ts);
            match r.task {
                Task::Write { seq, .. } => seq == v.next_seq && r.v.next_seq == seq + 1,
                _ => r.v.next_seq == v.next_seq,
            }
        }),
{
}

/// The cursor moves only onto an event that has been written.
pub proof fn law_cursor_follows_what_is_written(
    v: RuntimeView,
    g: GateView,
    stage: StageView,
    news: NewsView,
    now: u64,
    ts: Seq<char>,
)
    ensures
        ({
            let after = moved(v, g, stage, news, now, ts).v.cursor;
            ||| after == v.cursor
            ||| news is Done && after.max_seq == match stage {
                Stage::Telling { seq, .. } => seq,
                Stage::Answering { seq, .. } => seq->0,
                _ => v.cursor.max_seq,
            } && (stage is Telling || stage is Answering)
        }),
{
}

/// How far off the end of its part of the round a stage is: telling of jobs, then
/// looking, then the files.
pub open spec fn part(s: StageView) -> int {
    match s {
        Stage::Telling { .. } => 3,
        Stage::Told { .. } => 3,
        Stage::Keeping => 3,
        Stage::Looking => 2,
        Stage::Over { .. } => 0,
        _ => 1,
    }
}

pub open spec fn steps_left(s: StageView) -> int {
    match s {
        Stage::Telling { left, .. } => 2 * left.len() as int + 2,
        Stage::Told { left, .. } => 2 * left.len() as int + 1,
        Stage::Keeping => 0,
        Stage::Inspecting { files, at } => 8 * (files.len() - at) + 7,
        Stage::Reading { files, at, .. } => 8 * (files.len() - at) + 6,
        Stage::Processing { files, at, .. } => 8 * (files.len() - at) + 5,
        Stage::Answering { files, at, .. } => 8 * (files.len() - at) + 4,
        Stage::Answered { files, at, .. } => 8 * (files.len() - at) + 3,
        Stage::Closing { files, at } => 8 * (files.len() - at) + 2,
        _ => 0,
    }
}

/// Every step brings a round closer to its end.
pub proof fn law_round_comes_to_its_end(
    v: RuntimeView,
    g: GateView,
    stage: StageView,
    news: NewsView,
    now: u64,
    ts: Seq<char>,
)
    requires
        in_bounds(stage),
        !(stage is Over),
    ensures
        ({
            let s = moved(v, g, stage, news, now, ts).stage;
            part(s) < part(stage) || part(s) == part(stage) && 0 <= steps_left(s) < steps_left(
                stage,
            )
        }),
{
}

/// Telling of the jobs one by one leaves what telling of all of them at once
/// does: at every stage, what is kept and what the rest will leave are together
/// the same.
pub proof fn law_jobs_are_told_of_once(
    v: RuntimeView,
    g: GateView,
    left: Seq<JobView>,
    kept: Seq<JobView>,
    ts: Seq<char>,
)
    ensures
        match tell(v, g, left, kept, ts).stage {
            Stage::Telling { left: l, kept: k, .. } => k + events::round_rest(l) == kept
                + events::round_rest(left),
            _ => tell(v, g, left, kept, ts).v.jobs == kept + events::round_rest(left),
        },
{
    if left.len() == 0 {
        assert(kept + events::round_rest(left) =~= kept);
    } else {
        lemma_rest_from_the_front(left);
        let rest = events::round_rest(left.drop_first());
        match events::job_rest(left[0]) {
            Some(job) => {
                assert(kept.push(job) + rest =~= kept + (seq![job] + rest));
            },
            None => {},
        }
    }
}

proof fn lemma_rest_from_the_front(jobs: Seq<JobView>)
    requires
        jobs.len() > 0,
    ensures
        events::round_rest(jobs) == match events::job_rest(jobs[0]) {
            Some(job) => seq![job] + events::round_rest(jobs.drop_first()),
            None => events::round_rest(jobs.drop_first()),
        },
    decreases jobs.len(),
{
    let tail = jobs.drop_first();
    if jobs.len() == 1 {
        assert(jobs.drop_last() =~= Seq::<JobView>::empty());
        assert(tail =~= Seq::<JobView>::empty());
        assert(events::round_rest(tail) =~= Seq::<JobView>::empty());
        match events::job_rest(jobs[0]) {
            Some(job) => {
                assert(Seq::<JobView>::empty().push(job) =~= seq![job] + events::round_rest(tail));
            },
            None => {},
        }
    } else {
        let front = jobs.drop_last();
        lemma_rest_from_the_front(front);
        assert(front.drop_first() =~= tail.drop_last());
        assert(tail.last() == jobs.last());
        let mid = events::round_rest(tail.drop_last());
        match (events::job_rest(jobs[0]), events::job_rest(jobs.last())) {
            (Some(a), Some(b)) => {
                assert((seq![a] + mid).push(b) =~= seq![a] + mid.push(b));
            },
            _ => {},
        }
    }
}

} // verus!
