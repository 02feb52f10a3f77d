//! The event stream: the lines that answer actions, the cursor over them, and
//! the streaming jobs that are still to be told.

use crate::appfs::adapter::{
    AdapterControlOutcomeV1, AdapterErrorV1, AdapterErrorView, AdapterStreamingPlanV1,
    StreamingPlanView,
};
use crate::json;
use crate::json::{Json, JsonView};
use crate::text;
use vstd::prelude::*;

verus! {

pub const DEFAULT_RETENTION_HINT_SEC: i64 = 86400;

pub const ERR_PAGER_HANDLE_EXPIRED: &'static str = "PAGER_HANDLE_EXPIRED";

pub const ERR_INTERNAL: &'static str = "INTERNAL";

/// The range of sequence numbers that the stream holds.
#[derive(Debug, Clone, Copy, PartialEq, Eq, Structural)]
pub struct CursorState {
    pub min_seq: i64,
    pub max_seq: i64,
    pub retention_hint_sec: i64,
}

pub open spec fn retention(hint: i64) -> i64 {
    if hint <= 0 {
        DEFAULT_RETENTION_HINT_SEC
    } else {
        hint
    }
}

impl CursorState {
    /// The cursor once it has been read: a retention that was never set gets
    /// its default.
    pub open spec fn spec_loaded(self) -> CursorState {
        CursorState { retention_hint_sec: retention(self.retention_hint_sec), ..self }
    }

    /// The cursor once the event `seq` is out.
    pub open spec fn spec_after(self, seq: i64) -> CursorState {
        CursorState {
            min_seq: if self.min_seq <= 0 {
                seq
            } else {
                self.min_seq
            },
            max_seq: seq,
            retention_hint_sec: retention(self.retention_hint_sec),
        }
    }

    /// The cursor once it has been read.
    pub fn loaded(self) -> (r: CursorState)
        ensures
            r == self.spec_loaded(),
    {
        CursorState {
            min_seq: self.min_seq,
            max_seq: self.max_seq,
            retention_hint_sec: if self.retention_hint_sec <= 0 {
                DEFAULT_RETENTION_HINT_SEC
            } else {
                self.retention_hint_sec
            },
        }
    }

    /// The cursor once the event `seq` is out.
    pub fn after(self, seq: i64) -> (r: CursorState)
        ensures
            r == self.spec_after(seq),
    {
        let loaded = self.loaded();
        CursorState {
            min_seq: if self.min_seq <= 0 {
                seq
            } else {
                self.min_seq
            },
            max_seq: seq,
            retention_hint_sec: loaded.retention_hint_sec,
        }
    }
}

/// An event before it has a number and a time.
#[derive(Debug)]
pub struct EventDraft {
    pub path: String,
    pub request_id: String,
    pub event_type: &'static str,
    pub content: Option<Json>,
    pub error: Option<Json>,
    pub client_token: Option<String>,
}

/// What a draft holds.
pub struct DraftView {
    pub path: Seq<char>,
    pub request_id: Seq<char>,
    pub event_type: Seq<char>,
    pub content: Option<JsonView>,
    pub error: Option<JsonView>,
    pub client_token: Option<Seq<char>>,
}

impl View for EventDraft {
    type V = DraftView;

    open spec fn view(&self) -> DraftView {
        DraftView {
            path: self.path@,
            request_id: self.request_id@,
            event_type: self.event_type@,
            content: json::opt(self.content),
            error: json::opt(self.error),
            client_token: text::opt(self.client_token),
        }
    }
}

/// An event of the stream: its number and its line.
#[derive(Debug)]
pub struct Event {
    pub seq: i64,
    pub line: String,
}

/// The members that every event has, in order.
pub open spec fn common_members(
    app: Seq<char>,
    session_id: Seq<char>,
    seq: i64,
    ts: Seq<char>,
    draft: DraftView,
) -> Seq<(Seq<char>, JsonView)> {
    seq![
        ("seq"@, JsonView::Int(seq)),
        ("event_id"@, JsonView::Text("evt-"@ + text::signed_decimal(seq as int))),
        ("ts"@, JsonView::Text(ts)),
        ("app"@, JsonView::Text(app)),
        ("session_id"@, JsonView::Text(session_id)),
        ("request_id"@, JsonView::Text(draft.request_id)),
        ("path"@, JsonView::Text(draft.path)),
        ("type"@, JsonView::Text(draft.event_type)),
    ]
}

pub open spec fn optional(key: Seq<char>, value: Option<JsonView>) -> Seq<(Seq<char>, JsonView)> {
    match value {
        Some(v) => seq![(key, v)],
        None => Seq::<(Seq<char>, JsonView)>::empty(),
    }
}

pub open spec fn token_value(token: Option<Seq<char>>) -> Option<JsonView> {
    match token {
        Some(t) => Some(JsonView::Text(t)),
        None => None,
    }
}

/// An event as a JSON object: the common members, and behind them the content,
/// the error and the client token as far as there are any.
pub open spec fn event_object(
    app: Seq<char>,
    session_id: Seq<char>,
    seq: i64,
    ts: Seq<char>,
    draft: DraftView,
) -> JsonView {
    JsonView::Object(
        common_members(app, session_id, seq, ts, draft) + optional("content"@, draft.content)
            + optional("error"@, draft.error) + optional(
            "client_token"@,
            token_value(draft.client_token),
        ),
    )
}

/// The draft of a completed action.
pub open spec fn completed_draft(
    path: Seq<char>,
    request_id: Seq<char>,
    content: JsonView,
    token: Option<Seq<char>>,
) -> DraftView {
    DraftView {
        path,
        request_id,
        event_type: "action.completed"@,
        content: Some(content),
        error: None,
        client_token: token,
    }
}

/// The error member of a failed action.
pub open spec fn error_object(code: Seq<char>, message: Seq<char>, retryable: bool) -> JsonView {
    JsonView::Object(
        seq![
            ("code"@, JsonView::Text(code)),
            ("message"@, JsonView::Text(message)),
            ("retryable"@, JsonView::Bool(retryable)),
        ],
    )
}

/// The draft of a failed action.
pub open spec fn failed_draft(
    path: Seq<char>,
    request_id: Seq<char>,
    code: Seq<char>,
    message: Seq<char>,
    retryable: bool,
    token: Option<Seq<char>>,
) -> DraftView {
    DraftView {
        path,
        request_id,
        event_type: "action.failed"@,
        content: None,
        error: Some(error_object(code, message, retryable)),
        client_token: token,
    }
}

/// The draft that tells of an error of the adapter. Errors inside the adapter
/// may be tried again.
pub open spec fn adapter_error_draft(
    path: Seq<char>,
    request_id: Seq<char>,
    error: AdapterErrorView,
    token: Option<Seq<char>>,
) -> DraftView {
    match error {
        AdapterErrorView::Rejected { code, message, retryable } => failed_draft(
            path,
            request_id,
            code,
            message,
            retryable,
            token,
        ),
        AdapterErrorView::Internal { message } => failed_draft(
            path,
            request_id,
            ERR_INTERNAL@,
            message,
            true,
            token,
        ),
    }
}

/// The draft that tells how the adapter answered a control action.
pub open spec fn control_draft(
    path: Seq<char>,
    request_id: Seq<char>,
    result: Result<AdapterControlOutcomeV1, AdapterErrorV1>,
    token: Option<Seq<char>>,
) -> DraftView {
    match result {
        Ok(AdapterControlOutcomeV1::Completed { content }) => completed_draft(
            path,
            request_id,
            content@,
            token,
        ),
        Err(e) => adapter_error_draft(path, request_id, e@, token),
    }
}

/// Builds the draft of a completed action.
pub fn draft_completed(
    path: &str,
    request_id: &str,
    content: Json,
    client_token: Option<String>,
) -> (r: EventDraft)
    ensures
        r@ == completed_draft(path@, request_id@, content@, text::opt(client_token)),
{
    EventDraft {
        path: path.to_owned(),
        request_id: request_id.to_owned(),
        event_type: "action.completed",
        content: Some(content),
        error: None,
        client_token,
    }
}

/// Builds the draft of a failed action.
pub fn draft_failed(
    path: &str,
    request_id: &str,
    code: &str,
    message: &str,
    retryable: bool,
    client_token: Option<String>,
) -> (r: EventDraft)
    ensures
        r@ == failed_draft(
            path@,
            request_id@,
            code@,
            message@,
            retryable,
            text::opt(client_token),
        ),
{
    let mut members: Vec<(String, Json)> = Vec::new();
    json::push_member(&mut members, "code", Json::Text(code.to_owned()));
    json::push_member(&mut members, "message", Json::Text(message.to_owned()));
    json::push_member(&mut members, "retryable", Json::Bool(retryable));
    let error = json::object(members);
    assert(error@->Object_0 =~= error_object(code@, message@, retryable)->Object_0);
    EventDraft {
        path: path.to_owned(),
        request_id: request_id.to_owned(),
        event_type: "action.failed",
        content: None,
        error: Some(error),
        client_token,
    }
}

/// Builds the draft of an action that the runtime itself refused. Only an
/// expired handle may be tried again.
pub fn draft_refused(
    path: &str,
    request_id: &str,
    code: &str,
    message: &str,
    client_token: Option<String>,
) -> (r: EventDraft)
    ensures
        r@ == failed_draft(
            path@,
            request_id@,
            code@,
            message@,
            code@ == ERR_PAGER_HANDLE_EXPIRED@,
            text::opt(client_token),
        ),
{
    let retryable = text::same(code, ERR_PAGER_HANDLE_EXPIRED);
    draft_failed(path, request_id, code, message, retryable, client_token)
}

/// Builds the draft that tells of an error of the adapter.
pub fn draft_adapter_error(
    path: &str,
    request_id: &str,
    error: &AdapterErrorV1,
    client_token: Option<String>,
) -> (r: EventDraft)
    ensures
        r@ == adapter_error_draft(path@, request_id@, error@, text::opt(client_token)),
{
    match error {
        AdapterErrorV1::Rejected { code, message, retryable } => draft_failed(
            path,
            request_id,
            code.as_str(),
            message.as_str(),
            *retryable,
            client_token,
        ),
        AdapterErrorV1::Internal { message } => draft_failed(
            path,
            request_id,
            ERR_INTERNAL,
            message.as_str(),
            true,
            client_token,
        ),
    }
}

/// Builds the draft that tells how the adapter answered a control action.
pub fn draft_control(
    path: &str,
    request_id: &str,
    result: Result<AdapterControlOutcomeV1, AdapterErrorV1>,
    client_token: Option<String>,
) -> (r: EventDraft)
    ensures
        r@ == control_draft(path@, request_id@, result, text::opt(client_token)),
{
    match result {
        Ok(AdapterControlOutcomeV1::Completed { content }) => draft_completed(
            path,
            request_id,
            content,
            client_token,
        ),
        Err(e) => draft_adapter_error(path, request_id, &e, client_token),
    }
}

/// Builds the object of the event `seq`.
pub fn event_json(app: &str, session_id: &str, seq: i64, ts: &str, draft: EventDraft) -> (r: Json)
    ensures
        r@ == event_object(app@, session_id@, seq, ts@, draft@),
{
    let ghost d = draft@;
    let mut members: Vec<(String, Json)> = Vec::new();
    json::push_member(&mut members, "seq", Json::Int(seq));
    let id = text::concat("evt-", text::decimal_i64(seq).as_str());
    json::push_member(&mut members, "event_id", Json::Text(id));
    json::push_member(&mut members, "ts", Json::Text(ts.to_owned()));
    json::push_member(&mut members, "app", Json::Text(app.to_owned()));
    json::push_member(&mut members, "session_id", Json::Text(session_id.to_owned()));
    json::push_member(&mut members, "request_id", Json::Text(draft.request_id));
    json::push_member(&mut members, "path", Json::Text(draft.path));
    json::push_member(&mut members, "type", Json::Text(draft.event_type.to_owned()));
    let ghost common = common_members(app@, session_id@, seq, ts@, d);
    assert(json::members_view(members@) =~= common);
    if let Some(content) = draft.content {
        json::push_member(&mut members, "content", content);
    }
    let ghost with_content = common + optional("content"@, d.content);
    assert(json::members_view(members@) =~= with_content);
    if let Some(error) = draft.error {
        json::push_member(&mut members, "error", error);
    }
    let ghost with_error = with_content + optional("error"@, d.error);
    assert(json::members_view(members@) =~= with_error);
    if let Some(token) = draft.client_token {
        json::push_member(&mut members, "client_token", Json::Text(token));
    }
    assert(json::members_view(members@) =~= with_error + optional(
        "client_token"@,
        token_value(d.client_token),
    ));
    json::object(members)
}

/// The name of the file from which the stream can be replayed at `seq`.
pub fn replay_file_name(seq: i64) -> (r: String)
    ensures
        r@ == text::signed_decimal(seq as int) + ".evt.jsonl"@,
{
    text::concat(text::decimal_i64(seq).as_str(), ".evt.jsonl")
}

/// A streaming action that is still to be told: first that it was accepted,
/// then how far it got, then how it ended.
#[derive(Debug)]
pub struct StreamingJob {
    pub request_id: String,
    pub path: String,
    pub client_token: Option<String>,
    pub accepted: Option<Json>,
    pub progress: Option<Json>,
    pub terminal: Json,
    pub stage: u8,
}

/// What a job holds.
pub struct JobView {
    pub request_id: Seq<char>,
    pub path: Seq<char>,
    pub client_token: Option<Seq<char>>,
    pub accepted: Option<JsonView>,
    pub progress: Option<JsonView>,
    pub terminal: JsonView,
    pub stage: u8,
}

impl View for StreamingJob {
    type V = JobView;

    open spec fn view(&self) -> JobView {
        JobView {
            request_id: self.request_id@,
            path: self.path@,
            client_token: text::opt(self.client_token),
            accepted: json::opt(self.accepted),
            progress: json::opt(self.progress),
            terminal: self.terminal@,
            stage: self.stage,
        }
    }
}

pub open spec fn job_views(jobs: Seq<StreamingJob>) -> Seq<JobView> {
    Seq::new(jobs.len(), |i: int| jobs[i]@)
}

pub open spec fn draft_views(drafts: Seq<EventDraft>) -> Seq<DraftView> {
    Seq::new(drafts.len(), |i: int| drafts[i]@)
}

/// The job of a streaming plan, before anything has been told.
pub open spec fn new_job(
    path: Seq<char>,
    request_id: Seq<char>,
    token: Option<Seq<char>>,
    plan: StreamingPlanView,
) -> JobView {
    JobView {
        request_id,
        path,
        client_token: token,
        accepted: plan.accepted_content,
        progress: plan.progress_content,
        terminal: plan.terminal_content,
        stage: 0,
    }
}

pub open spec fn or_else(value: Option<JsonView>, default: JsonView) -> JsonView {
    match value {
        Some(v) => v,
        None => default,
    }
}

/// The progress that is told where a plan gives none.
pub open spec fn default_progress() -> JsonView {
    JsonView::Object(seq![("percent"@, JsonView::Int(50))])
}

/// What is told of a job at its stage.
pub open spec fn job_draft(job: JobView) -> DraftView {
    let (event_type, content) = if job.stage == 0 {
        ("action.accepted"@, or_else(job.accepted, JsonView::Text("accepted"@)))
    } else if job.stage == 1 {
        ("action.progress"@, or_else(job.progress, default_progress()))
    } else {
        ("action.completed"@, job.terminal)
    };
    DraftView {
        path: job.path,
        request_id: job.request_id,
        event_type,
        content: Some(content),
        error: None,
        client_token: job.client_token,
    }
}

/// What is left of a job once its stage has been told.
pub open spec fn job_rest(job: JobView) -> Option<JobView> {
    if job.stage == 0 {
        Some(JobView { stage: 1, ..job })
    } else if job.stage == 1 {
        Some(JobView { stage: 2, ..job })
    } else {
        None
    }
}

/// What is told of each job, in order.
pub open spec fn round_drafts(jobs: Seq<JobView>) -> Seq<DraftView> {
    Seq::new(jobs.len(), |i: int| job_draft(jobs[i]))
}

/// The jobs that are left once each has been told of.
pub open spec fn round_rest(jobs: Seq<JobView>) -> Seq<JobView>
    decreases jobs.len(),
{
    if jobs.len() == 0 {
        jobs
    } else {
        let rest = round_rest(jobs.drop_last());
        match job_rest(jobs.last()) {
            Some(job) => rest.push(job),
            None => rest,
        }
    }
}

/// Builds the job of a streaming plan.
pub fn job_of_plan(
    path: &str,
    request_id: &str,
    client_token: Option<String>,
    plan: AdapterStreamingPlanV1,
) -> (r: StreamingJob)
    ensures
        r@ == new_job(path@, request_id@, text::opt(client_token), plan@),
{
    StreamingJob {
        request_id: request_id.to_owned(),
        path: path.to_owned(),
        client_token,
        accepted: plan.accepted_content,
        progress: plan.progress_content,
        terminal: plan.terminal_content,
        stage: 0,
    }
}

/// Tells of a job at its stage, and moves it on.
pub fn advance_job(job: StreamingJob) -> (r: (EventDraft, Option<StreamingJob>))
    ensures
        r.0@ == job_draft(job@),
        match r.1 {
            Some(next) => job_rest(job@) == Some(next@),
            None => job_rest(job@) is None,
        },
{
    let event_type = if job.stage == 0 {
        "action.accepted"
    } else if job.stage == 1 {
        "action.progress"
    } else {
        "action.completed"
    };
    let content = if job.stage == 0 {
        match &job.accepted {
            Some(j) => j.clone(),
            None => Json::Text("accepted".to_owned()),
        }
    } else if job.stage == 1 {
        match &job.progress {
            Some(j) => j.clone(),
            None => {
                let mut members: Vec<(String, Json)> = Vec::new();
                json::push_member(&mut members, "percent", Json::Int(50));
                assert(json::members_view(members@) =~= default_progress()->Object_0);
                json::object(members)
            },
        }
    } else {
        job.terminal.clone()
    };
    let draft = EventDraft {
        path: job.path.clone(),
        request_id: job.request_id.clone(),
        event_type,
        content: Some(content),
        error: None,
        client_token: text::copy_opt(&job.client_token),
    };
    if job.stage > 1 {
        return (draft, None);
    }
    let stage: u8 = job.stage + 1;
    let next = StreamingJob {
        request_id: job.request_id,
        path: job.path,
        client_token: job.client_token,
        accepted: job.accepted,
        progress: job.progress,
        terminal: job.terminal,
        stage,
    };
    (draft, Some(next))
}

/// Tells of every job once: the drafts, one for each job in order, and the jobs
/// that are left.
pub fn drain_round(jobs: Vec<StreamingJob>) -> (r: (Vec<EventDraft>, Vec<StreamingJob>))
    ensures
        draft_views(r.0@) == round_drafts(job_views(jobs@)),
        job_views(r.1@) == round_rest(job_views(jobs@)),
{
    let ghost all = job_views(jobs@);
    let mut drafts: Vec<EventDraft> = Vec::new();
    let mut rest: Vec<StreamingJob> = Vec::new();
    assert(draft_views(drafts@) =~= round_drafts(all.take(0)));
    assert(job_views(rest@) =~= round_rest(all.take(0)));
    for job in it: jobs.into_iter()
        invariant
            all == job_views(jobs@),
            it.seq() == jobs@,
            draft_views(drafts@) == round_drafts(all.take(it.index() as int)),
            job_views(rest@) == round_rest(all.take(it.index() as int)),
    {
        let ghost k = it.index() as int;
        assert(all[k] == job@);
        assert(all.take(k + 1).drop_last() =~= all.take(k));
        let ghost drafts_before = draft_views(drafts@);
        let ghost rest_before = job_views(rest@);
        let (draft, next) = advance_job(job);
        drafts.push(draft);
        assert(draft_views(drafts@) =~= drafts_before.push(draft@));
        assert(round_drafts(all.take(k + 1)) =~= drafts_before.push(draft@));
        if let Some(n) = next {
            rest.push(n);
            assert(job_views(rest@) =~= rest_before.push(n@));
        }
    }
    assert(all.take(all.len() as int) =~= all);
    (drafts, rest)
}

/// A streaming action is told of three times, accepted, then progress, then
/// completed, and then no more.
pub proof fn law_streaming_lifecycle(job: JobView)
    requires
        job.stage == 0,
    ensures
        job_rest(job) is Some,
        job_rest(job_rest(job)->0) is Some,
        job_rest(job_rest(job_rest(job)->0)->0) is None,
        job_draft(job).event_type == "action.accepted"@,
        job_draft(job_rest(job)->0).event_type == "action.progress"@,
        job_draft(job_rest(job_rest(job)->0)->0).event_type == "action.completed"@,
        job_draft(job_rest(job_rest(job)->0)->0).content == Some(job.terminal),
{
}

/// Every event of a job names the request, the path and the token of the
/// action that started it.
pub proof fn law_events_keep_their_request(job: JobView)
    ensures
        job_draft(job).request_id == job.request_id,
        job_draft(job).path == job.path,
        job_draft(job).client_token == job.client_token,
        job_rest(job) is Some ==> job_rest(job)->0.request_id == job.request_id && job_rest(
            job,
        )->0.path == job.path && job_rest(job)->0.client_token == job.client_token,
{
}

/// Every event says its number, its own name, when it was told, the application,
/// the session, the request, the path and what has happened; the content, the
/// error and the client token as far as the draft has them.
pub proof fn law_events_are_complete(
    app: Seq<char>,
    session_id: Seq<char>,
    seq: i64,
    ts: Seq<char>,
    draft: DraftView,
)
    ensures
        ({
            let e = event_object(app, session_id, seq, ts, draft);
            &&& json::member(e, "seq"@) == Some(JsonView::Int(seq))
            &&& json::string_member(e, "event_id"@) == Some(
                "evt-"@ + text::signed_decimal(seq as int),
            )
            &&& json::string_member(e, "ts"@) == Some(ts)
            &&& json::string_member(e, "app"@) == Some(app)
            &&& json::string_member(e, "session_id"@) == Some(session_id)
            &&& json::string_member(e, "request_id"@) == Some(draft.request_id)
            &&& json::string_member(e, "path"@) == Some(draft.path)
            &&& json::string_member(e, "type"@) == Some(draft.event_type)
            &&& json::member(e, "content"@) == draft.content
            &&& json::member(e, "error"@) == draft.error
            &&& json::member(e, "client_token"@) == token_value(draft.client_token)
        }),
{
    reveal_strlit("seq");
    reveal_strlit("event_id");
    reveal_strlit("ts");
    reveal_strlit("app");
    reveal_strlit("session_id");
    reveal_strlit("request_id");
    reveal_strlit("path");
    reveal_strlit("type");
    reveal_strlit("content");
    reveal_strlit("error");
    reveal_strlit("client_token");
    let m = event_object(app, session_id, seq, ts, draft)->Object_0;
    let common = common_members(app, session_id, seq, ts, draft);
    let n1 = optional("content"@, draft.content).len();
    let n2 = optional("error"@, draft.error).len();
    assert forall|i: int| 0 <= i < 8 implies #[trigger] m[i] == common[i] by {}
    assert("session_id"@[0] != "request_id"@[0]);
    assert("event_id"@.len() == 8 && "session_id"@.len() == 10 && "request_id"@.len() == 10);
    assert("path"@[0] != "type"@[0]);
    assert("error"@.len() == 5 && "client_token"@.len() == 12 && "content"@.len() == 7);
    lemma_find_at(m, 0);
    lemma_find_at(m, 1);
    assert("ts"@.len() == 2 && "seq"@.len() == 3);
    assert("seq"@[0] != "app"@[0]);
    lemma_find_at(m, 2);
    lemma_find_at(m, 3);
    lemma_find_at(m, 4);
    lemma_find_at(m, 5);
    lemma_find_at(m, 6);
    lemma_find_at(m, 7);
    match draft.content {
        Some(c) => {
            assert(m[8] == ("content"@, c));
            lemma_find_at(m, 8);
        },
        None => {
            lemma_find_none(m, "content"@);
        },
    }
    match draft.error {
        Some(x) => {
            assert(m[8 + n1 as int] == ("error"@, x));
            lemma_find_at(m, 8 + n1 as int);
        },
        None => {
            lemma_find_none(m, "error"@);
        },
    }
    match draft.client_token {
        Some(t) => {
            assert(m[(8 + n1 + n2) as int] == ("client_token"@, JsonView::Text(t)));
            lemma_find_at(m, (8 + n1 + n2) as int);
        },
        None => {
            lemma_find_none(m, "client_token"@);
        },
    }
}

proof fn lemma_find_at(m: Seq<(Seq<char>, JsonView)>, i: int)
    requires
        0 <= i < m.len(),
        forall|j: int| 0 <= j < i ==> (#[trigger] m[j]).0 != m[i].0,
    ensures
        json::find(m, m[i].0) == Some(m[i].1),
    decreases i,
{
    if i > 0 {
        let rest = m.drop_first();
        assert(rest[i - 1] == m[i]);
        assert(m[0].0 != m[i].0);
        assert forall|j: int| 0 <= j < i - 1 implies (#[trigger] rest[j]).0 != rest[i - 1].0 by {
            assert(rest[j] == m[j + 1]);
        }
        lemma_find_at(rest, i - 1);
    }
}

proof fn lemma_find_none(m: Seq<(Seq<char>, JsonView)>, key: Seq<char>)
    requires
        forall|j: int| 0 <= j < m.len() ==> (#[trigger] m[j]).0 != key,
    ensures
        json::find(m, key) is None,
    decreases m.len(),
{
    if m.len() > 0 {
        let rest = m.drop_first();
        assert(m[0].0 != key);
        assert forall|j: int| 0 <= j < rest.len() implies (#[trigger] rest[j]).0 != key by {
            assert(rest[j] == m[j + 1]);
        }
        lemma_find_none(rest, key);
    }
}

/// Events with different numbers have different names.
pub proof fn law_event_names_are_unique(a: i64, b: i64)
    requires
        a != b,
    ensures
        "evt-"@ + text::signed_decimal(a as int) != "evt-"@ + text::signed_decimal(b as int),
{
    let x = "evt-"@ + text::signed_decimal(a as int);
    let y = "evt-"@ + text::signed_decimal(b as int);
    if x == y {
        assert(x.skip("evt-"@.len() as int) =~= text::signed_decimal(a as int));
        assert(y.skip("evt-"@.len() as int) =~= text::signed_decimal(b as int));
        text::lemma_signed_decimal_injective(a as int, b as int);
    }
}

/// A failure says with a code and a message why.
pub proof fn law_failures_say_why(
    path: Seq<char>,
    request_id: Seq<char>,
    code: Seq<char>,
    message: Seq<char>,
    retryable: bool,
    token: Option<Seq<char>>,
)
    ensures
        ({
            let draft = failed_draft(path, request_id, code, message, retryable, token);
            &&& draft.error is Some
            &&& json::string_member(draft.error->0, "code"@) == Some(code)
            &&& json::string_member(draft.error->0, "message"@) == Some(message)
            &&& json::member(draft.error->0, "retryable"@) == Some(JsonView::Bool(retryable))
        }),
{
    reveal_strlit("code");
    reveal_strlit("message");
    reveal_strlit("retryable");
    let m = error_object(code, message, retryable)->Object_0;
    assert("code"@.len() == 4 && "message"@.len() == 7 && "retryable"@.len() == 9);
    lemma_find_at(m, 0);
    lemma_find_at(m, 1);
    lemma_find_at(m, 2);
}

/// How often a job will still be told of.
pub open spec fn tellings(job: JobView) -> int {
    if job.stage == 0 {
        3
    } else if job.stage == 1 {
        2
    } else {
        1
    }
}

/// At whatever stage a job is taken up, each telling brings it closer to its end,
/// and the last one, and no other, tells that it is completed.
pub proof fn law_every_job_ends(job: JobView)
    ensures
        job_rest(job) is Some ==> tellings(job_rest(job)->0) == tellings(job) - 1,
        job_rest(job) is None <==> tellings(job) == 1,
        job_rest(job) is None <==> job_draft(job).event_type == "action.completed"@,
        job_rest(job) is None ==> job_draft(job).content == Some(job.terminal),
{
    reveal_strlit("action.accepted");
    reveal_strlit("action.progress");
    reveal_strlit("action.completed");
    assert("action.accepted"@.len() == 15 && "action.completed"@.len() == 16);
    assert("action.progress"@.len() == 15);
}

} // verus!
