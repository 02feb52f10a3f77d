//! The runtime of an application: submissions, pages, jobs and the stream.

use agentfs::appfs::adapter::{
    AdapterControlActionV1, AdapterControlOutcomeV1, AdapterErrorV1, AdapterExecutionModeV1,
    AdapterInputModeV1, AdapterStreamingPlanV1, AdapterSubmitOutcomeV1, AppAdapterV1,
    RequestContextV1,
};
use agentfs::appfs::events::{
    advance_job, draft_adapter_error, draft_completed, draft_refused, job_of_plan,
    replay_file_name, CursorState, EventDraft, DEFAULT_RETENTION_HINT_SEC,
};
use agentfs::appfs::gate::{
    ActionFingerprint, Observation, SubmitGate, ACTION_COOLDOWN_NS, SUBMIT_STABLE_NS,
};
use agentfs::appfs::layout::{Layout, Presence};
use agentfs::appfs::paging::HandleTable;
use agentfs::appfs::payload::{ExecutionMode, InputMode};
use agentfs::appfs::poll::order_actions;
use agentfs::appfs::round::{News, RoundNews, RoundStage, Stage, Task};
use agentfs::appfs::runtime::{
    app_id_mismatch, bridge_endpoint, bridge_timeout_ms, load_action_specs, poll_interval_ms,
    session_or_fresh, validate_payload, ActionSpec, AppfsAdapter, ManifestNode, ProcessOutcome,
};
use agentfs::json::Json;

fn s(t: &str) -> String {
    t.to_string()
}

fn object(members: Vec<(&str, Json)>) -> Json {
    Json::Object(members.into_iter().map(|(k, v)| (k.to_string(), v)).collect())
}

/// An adapter that notes what it is asked.
struct Recorder {
    seen: Vec<String>,
    fail: Option<bool>,
}

impl AppAdapterV1 for Recorder {
    fn app_id(&self) -> &str {
        "demo"
    }

    fn submit_action(
        &mut self,
        path: &str,
        payload: &str,
        input_mode: AdapterInputModeV1,
        execution_mode: AdapterExecutionModeV1,
        ctx: &RequestContextV1,
    ) -> Result<AdapterSubmitOutcomeV1, AdapterErrorV1> {
        self.seen.push(format!(
            "{} {:?} {:?} {:?} {} {:?}",
            path,
            payload,
            input_mode,
            execution_mode,
            ctx.session_id,
            ctx.client_token
        ));
        match self.fail {
            Some(true) => Err(AdapterErrorV1::Internal { message: s("broken") }),
            Some(false) => Err(AdapterErrorV1::Rejected {
                code: s("NO"),
                message: s("not today"),
                retryable: false,
            }),
            None => match execution_mode {
                AdapterExecutionModeV1::Inline => Ok(AdapterSubmitOutcomeV1::Completed {
                    content: object(vec![("ok", Json::Bool(true))]),
                }),
                AdapterExecutionModeV1::Streaming => Ok(AdapterSubmitOutcomeV1::Streaming {
                    plan: AdapterStreamingPlanV1 {
                        accepted_content: None,
                        progress_content: None,
                        terminal_content: object(vec![("ok", Json::Bool(true))]),
                    },
                }),
            },
        }
    }

    fn submit_control_action(
        &mut self,
        path: &str,
        action: AdapterControlActionV1,
        _ctx: &RequestContextV1,
    ) -> Result<AdapterControlOutcomeV1, AdapterErrorV1> {
        self.seen.push(match action {
            AdapterControlActionV1::PagingFetchNext { handle_id, page_no, has_more } => {
                format!("{} {} {} {}", path, handle_id, page_no, has_more)
            }
            AdapterControlActionV1::PagingClose { handle_id } => {
                format!("{} close {}", path, handle_id)
            }
        });
        Ok(AdapterControlOutcomeV1::Completed { content: Json::Null })
    }
}

fn recorder() -> Recorder {
    Recorder { seen: Vec::new(), fail: None }
}

fn action(template: &str, input_mode: InputMode, execution_mode: ExecutionMode) -> ActionSpec {
    ActionSpec { template: s(template), input_mode, execution_mode, max_payload_bytes: Some(64) }
}

fn runtime() -> AppfsAdapter {
    AppfsAdapter::new(
        s("demo"),
        s("sess-1"),
        vec![
            action("contacts/{id}/send.act", InputMode::Text, ExecutionMode::Inline),
            action("files/fetch.act", InputMode::Json, ExecutionMode::Streaming),
            action("_paging/fetch_next.act", InputMode::TextOrJson, ExecutionMode::Inline),
            action("_paging/close.act", InputMode::TextOrJson, ExecutionMode::Inline),
        ],
        CursorState { min_seq: 0, max_seq: 4, retention_hint_sec: 0 },
        Vec::new(),
    )
}

fn error_code(draft: &EventDraft) -> String {
    draft.error.as_ref().unwrap().get("code").unwrap().as_str().unwrap().to_string()
}

const PAGE: &str = r#"{"page": {"handle_id": "ph_1", "expires_at": "2026-01-01T00:00:10Z"}}"#;

#[test]
fn inline_action_completes() {
    let mut rt = runtime();
    let mut app = recorder();
    let r = rt.process_action(&mut app, "contacts/bob/send.act", "token: t1\nhello\n");
    assert_eq!(r.outcome, ProcessOutcome::Submitted);
    assert!(!r.job_queued);
    let draft = r.draft.unwrap();
    assert_eq!(draft.event_type, "action.completed");
    assert_eq!(draft.path, "/contacts/bob/send.act");
    assert_eq!(draft.client_token, Some(s("t1")));
    assert!(draft.request_id.starts_with("req-") && draft.request_id.len() == 12);
    assert_eq!(
        app.seen,
        vec!["/contacts/bob/send.act \"token: t1\\nhello\\n\" Text Inline sess-1 Some(\"t1\")"]
    );
}

#[test]
fn streaming_action_tells_three_times() {
    let mut rt = runtime();
    let r = rt.process_action(&mut recorder(), "files/fetch.act", "{\"client_token\": \"c\"}");
    assert!(r.job_queued && r.draft.is_none());
    assert_eq!(rt.streaming_jobs.len(), 1);
    let mut kinds = Vec::new();
    for n in 0..3i64 {
        let events = rt.drain_streaming_jobs();
        assert_eq!(events.len(), 1);
        assert_eq!(events[0].seq, 5 + n);
        let v: serde_json::Value = serde_json::from_str(&events[0].line).unwrap();
        assert_eq!(v["seq"], 5 + n);
        assert_eq!(v["client_token"], "c");
        kinds.push((v["type"].as_str().unwrap().to_string(), v["content"].clone()));
    }
    assert_eq!(kinds[0].0, "action.accepted");
    assert_eq!(kinds[0].1, "accepted");
    assert_eq!(kinds[1].0, "action.progress");
    assert_eq!(kinds[1].1["percent"], 50);
    assert_eq!(kinds[2].0, "action.completed");
    assert_eq!(kinds[2].1["ok"], true);
    assert!(rt.drain_streaming_jobs().is_empty());
    assert_eq!(rt.next_seq, 8);
}

#[test]
fn errors_of_the_adapter_become_failures() {
    let mut rt = runtime();
    let mut app = Recorder { seen: Vec::new(), fail: Some(true) };
    let d = rt.process_action(&mut app, "contacts/bob/send.act", "hi\n").draft.unwrap();
    assert_eq!(d.event_type, "action.failed");
    assert_eq!(error_code(&d), "INTERNAL");
    assert!(matches!(d.error.as_ref().unwrap().get("retryable"), Some(Json::Bool(true))));
    app.fail = Some(false);
    let d = rt.process_action(&mut app, "contacts/bob/send.act", "hi\n").draft.unwrap();
    assert_eq!(error_code(&d), "NO");
    assert!(matches!(d.error.as_ref().unwrap().get("retryable"), Some(Json::Bool(false))));
}

#[test]
fn rejected_submissions_leave_no_trace() {
    let mut rt = runtime();
    let mut app = recorder();
    let long = "x".repeat(80);
    for (path, body) in [
        ("../up.act", "x\n"),
        ("nobody/knows.act", "x\n"),
        ("contacts/bob/send.act", "  "),
        ("contacts/bob/send.act", long.as_str()),
        ("files/fetch.act", "not json"),
        ("_paging/fetch_next.act", "bad handle\n"),
        ("_paging/fetch_next.act", "bad/handle\n"),
        ("_paging/close.act", "bad/handle\n"),
    ] {
        let r = rt.process_action(&mut app, path, body);
        assert_eq!(r.outcome, ProcessOutcome::Rejected);
        assert!(r.draft.is_none() && !r.job_queued);
    }
    assert!(app.seen.is_empty());
    assert!(rt.streaming_jobs.is_empty());
    assert_eq!(rt.next_seq, 5);
}

#[test]
fn adapter_is_asked_once_for_each_page_and_once_to_close() {
    let mut rt = runtime();
    let mut app = recorder();
    let page = r#"{"page": {"handle_id": "ph_1"}}"#;
    rt.register_resource("chats/list.res.json", page);
    let mut ask = |path: &str| rt.process_action(&mut app, path, "ph_1\n").draft.unwrap();
    assert_eq!(ask("_paging/fetch_next.act").event_type, "action.completed");
    assert_eq!(ask("_paging/close.act").event_type, "action.completed");
    assert_eq!(error_code(&ask("_paging/close.act")), "PAGER_HANDLE_CLOSED");
    assert_eq!(error_code(&ask("_paging/fetch_next.act")), "PAGER_HANDLE_CLOSED");
    assert_eq!(
        app.seen,
        vec!["/_paging/fetch_next.act ph_1 1 true", "/_paging/close.act close ph_1"]
    );
    assert!(rt.handles.has_page_left("ph_1") && rt.handles.has_page_left("ph_2"));
    let mut app = recorder();
    let r = rt.try_process_action(&mut app, "contacts/bob/send.act", "hi\n").unwrap();
    assert_eq!(r.outcome, ProcessOutcome::Submitted);
    let r = rt.try_process_action(&mut app, "_paging/fetch_next.act", "ph_1\n").unwrap();
    assert_eq!(error_code(&r.draft.unwrap()), "PAGER_HANDLE_CLOSED");
    let r = rt.try_process_action(&mut app, "../up.act", "hi\n").unwrap();
    assert_eq!(r.outcome, ProcessOutcome::Rejected);
    assert_eq!(app.seen.len(), 1);
}

#[test]
fn new_runtime_has_dealt_with_nothing() {
    let rt = runtime();
    let mut fresh = SubmitGate::new();
    let mut gate = rt.gate;
    let fp = ActionFingerprint { len: 1, modified_ns: 1 };
    assert_eq!(gate.observe("a.act", fp, 0), fresh.observe("a.act", fp, 0));
    assert!(gate.restore_blocked_actions(u64::MAX).is_empty());
}

#[test]
fn pages_are_counted_and_closed() {
    let mut rt = runtime();
    let mut app = recorder();
    rt.register_resource("chats/list.res.json", PAGE);
    for _ in 0..3 {
        let d = rt.handle_fetch_next(&mut app, "/p", "r", "ph_1", None, None, 1767225600);
        assert_eq!(d.event_type, "action.completed");
    }
    let d = rt.handle_close_handle(&mut app, "/c", "r", "ph_1", None, None, 1767225600);
    assert_eq!(d.event_type, "action.completed");
    assert_eq!(app.seen, vec!["/p ph_1 1 true", "/p ph_1 2 true", "/p ph_1 3 false", "/c close ph_1"]);
    let d = rt.handle_fetch_next(&mut app, "/p", "r", "ph_1", None, None, 1767225600);
    assert_eq!(error_code(&d), "PAGER_HANDLE_CLOSED");
    let d = rt.handle_close_handle(&mut app, "/c", "r", "ph_1", None, None, 1767225600);
    assert_eq!(error_code(&d), "PAGER_HANDLE_CLOSED");
    assert_eq!(app.seen.len(), 4);
}

#[test]
fn refused_pages_say_why() {
    let mut rt = runtime();
    let mut app = recorder();
    rt.register_resource("chats/list.res.json", PAGE);
    let mut code = |id: &str, who: Option<&str>, now: i64| {
        error_code(&rt.handle_fetch_next(&mut app, "/p", "r", id, who, None, now))
    };
    assert_eq!(code("no good", None, 0), "INVALID_ARGUMENT");
    assert_eq!(code("ph_2", None, 0), "PAGER_HANDLE_NOT_FOUND");
    assert_eq!(code("ph_1", Some("other"), 0), "PERMISSION_DENIED");
    assert_eq!(code("ph_1", None, 1767225610), "PAGER_HANDLE_EXPIRED");
    assert!(app.seen.is_empty());
}

#[test]
fn handles_belong_to_the_session_that_the_page_names() {
    let mut table = HandleTable::new();
    let page = |id: &str, owner: &str| {
        object(vec![(
            "page",
            object(vec![("handle_id", Json::Text(s(id))), ("session_id", Json::Text(s(owner)))]),
        )])
    };
    table.register(&page("ph_a", " alice "), "sess-1");
    table.register(&page("ph_b", "  "), "sess-1");
    assert!(table.check_request("sess-1", "ph_a", Some("alice"), 0).is_none());
    assert!(table.check_request("sess-1", "ph_a", None, 0).is_some());
    assert!(table.check_request("sess-1", "ph_b", None, 0).is_none());
}

#[test]
fn long_handles_are_kept_under_a_short_name() {
    let mut table = HandleTable::new();
    let long = format!("ph_{}", "a".repeat(300));
    let page = object(vec![("page", object(vec![("handle_id", Json::Text(long.clone()))]))]);
    table.register(&page, "sess-1");
    let key = table.resolve_handle_key(&long);
    assert_eq!(key.len(), 255);
    assert_ne!(key, long);
    assert_eq!(table.resolve_handle_key(&key), key);
    assert!(table.check_request("sess-1", &key, None, 0).is_none());
}

#[test]
fn stream_files_announce_no_handles() {
    let mut rt = runtime();
    rt.register_resource("_stream/list.res.json", PAGE);
    rt.register_resource("chats/broken.res.json", "{");
    assert_eq!(
        rt.handles.check_request("sess-1", "ph_1", None, 0),
        Some(("PAGER_HANDLE_NOT_FOUND", "handle not found"))
    );
}

#[test]
fn events_are_numbered_one_by_one() {
    let mut rt = runtime();
    let draft = || draft_completed("/a.act", "req-1", Json::Null, None);
    let a = rt.emit_event_at(draft(), "2026-01-01T00:00:00Z");
    rt.publish_event(a.seq);
    let b = rt.emit_event(draft());
    rt.publish_event(b.seq);
    assert_eq!((a.seq, b.seq), (5, 6));
    assert_eq!(
        rt.cursor,
        CursorState { min_seq: 5, max_seq: 6, retention_hint_sec: DEFAULT_RETENTION_HINT_SEC }
    );
    let v: serde_json::Value = serde_json::from_str(&a.line).unwrap();
    assert_eq!(v["event_id"], "evt-5");
    assert_eq!(v["ts"], "2026-01-01T00:00:00Z");
    assert_eq!(v["app"], "demo");
    assert_eq!(v["session_id"], "sess-1");
    assert_eq!(v["request_id"], "req-1");
    assert_eq!(v["path"], "/a.act");
    assert_eq!(v["type"], "action.completed");
    assert!(v.get("error").is_none() && v.get("client_token").is_none());
    assert_eq!(replay_file_name(7), "7.evt.jsonl");
}

#[test]
fn event_is_one_line() {
    let mut rt = runtime();
    let draft = draft_completed("/a.act", "req-1", Json::Text(s("two\nlines")), None);
    let e = rt.emit_event_at(draft, "2026-01-01T00:00:00Z");
    assert!(e.line.contains("two\\nlines"));
    assert!(!e.line.contains('\n'));
}

#[test]
fn only_expired_handles_may_be_retried() {
    let retry = |code: &str| {
        matches!(
            draft_refused("/p", "r", code, "m", None).error.unwrap().get("retryable"),
            Some(Json::Bool(true))
        )
    };
    assert!(retry("PAGER_HANDLE_EXPIRED"));
    assert!(!retry("PAGER_HANDLE_CLOSED"));
    let e = AdapterErrorV1::Rejected { code: s("X"), message: s("m"), retryable: true };
    assert_eq!(error_code(&draft_adapter_error("/p", "r", &e, None)), "X");
}

#[test]
fn job_ends_after_three_stages() {
    let plan = AdapterStreamingPlanV1 {
        accepted_content: Some(Json::Int(1)),
        progress_content: Some(Json::Int(2)),
        terminal_content: Json::Int(3),
    };
    let job = job_of_plan("/x.act", "r", None, plan);
    let (a, rest) = advance_job(job);
    let (b, rest) = advance_job(rest.unwrap());
    let (c, rest) = advance_job(rest.unwrap());
    assert!(rest.is_none());
    for (draft, n) in [(a, 1i64), (b, 2), (c, 3)] {
        assert!(matches!(draft.content, Some(Json::Int(m)) if m == n));
    }
}

#[test]
fn files_have_to_keep_still() {
    let mut gate = SubmitGate::new();
    let one = ActionFingerprint { len: 1, modified_ns: 1 };
    let two = ActionFingerprint { len: 2, modified_ns: 2 };
    assert_eq!(gate.observe("a.act", one, 0), Observation::Waiting);
    assert_eq!(gate.observe("a.act", one, SUBMIT_STABLE_NS - 1), Observation::Waiting);
    assert_eq!(gate.observe("a.act", two, SUBMIT_STABLE_NS), Observation::Waiting);
    assert_eq!(gate.observe("a.act", two, 2 * SUBMIT_STABLE_NS), Observation::Ready);
    gate.remember("a.act", two);
    assert_eq!(gate.observe("a.act", two, 9 * SUBMIT_STABLE_NS), Observation::Unchanged);
    gate.retain_seen(&vec![s("b.act")]);
    assert_eq!(gate.observe("a.act", two, 9 * SUBMIT_STABLE_NS), Observation::Waiting);
}

#[test]
fn submitted_files_close_for_a_while() {
    let mut rt = runtime();
    let fp = ActionFingerprint { len: 1, modified_ns: 1 };
    assert!(!rt.consider("a.act", None, 0));
    assert!(!rt.consider("a.act", Some(fp), 0));
    assert!(rt.consider("a.act", Some(fp), SUBMIT_STABLE_NS));
    assert!(!rt.take_payload("a.act", fp, None));
    assert!(rt.take_payload("a.act", fp, Some("x")));
    rt.settle("a.act", fp, ProcessOutcome::Submitted, 10);
    rt.settle("b.act", fp, ProcessOutcome::Rejected, 10);
    assert!(rt.gate.restore_blocked_actions(9 + ACTION_COOLDOWN_NS).is_empty());
    assert_eq!(rt.gate.restore_blocked_actions(10 + ACTION_COOLDOWN_NS), vec!["a.act"]);
    assert!(rt.gate.restore_blocked_actions(u64::MAX).is_empty());
    assert!(!rt.consider("a.act", Some(fp), u64::MAX));
}

#[test]
fn blank_files_count_as_dealt_with() {
    let mut rt = runtime();
    let fp = ActionFingerprint { len: 1, modified_ns: 1 };
    assert!(!rt.take_payload("a.act", fp, Some(" \n")));
    assert_eq!(rt.gate.observe("a.act", fp, 0), Observation::Unchanged);
}

#[test]
fn action_files_are_ordered_by_component() {
    let found = vec![s("/b.act"), s("/a-b/x.act"), s("/a/x.act"), s("/a.act")];
    assert_eq!(order_actions(&found), vec!["/a/x.act", "/a-b/x.act", "/a.act", "/b.act"]);
}

#[test]
fn manifests_declare_actions() {
    let node = |template: &str, kind: &str, input: Option<&str>, run: Option<&str>| ManifestNode {
        template: s(template),
        kind: s(kind),
        input_mode: input.map(s),
        execution_mode: run.map(s),
        max_payload_bytes: Some(8),
    };
    let specs = load_action_specs(&vec![
        node("/a.act", "action", Some("text"), Some("streaming")),
        node("b.act", "action", Some("json"), Some("inline")),
        node("c.act", "action", Some("odd"), None),
        node("d.res.json", "resource", None, None),
        node("e.txt", "action", None, None),
    ]);
    let seen: Vec<_> =
        specs.iter().map(|x| (x.template.as_str(), x.input_mode, x.execution_mode)).collect();
    assert_eq!(
        seen,
        vec![
            ("a.act", InputMode::Text, ExecutionMode::Streaming),
            ("b.act", InputMode::Json, ExecutionMode::Inline),
            ("c.act", InputMode::TextOrJson, ExecutionMode::Inline),
        ]
    );
    assert_eq!(validate_payload(&specs[1], "[1]"), Ok(()));
    assert_eq!(validate_payload(&specs[1], "[1"), Err("INVALID_PAYLOAD"));
    assert_eq!(validate_payload(&specs[1], "[1,2,3,4]"), Err("EMSGSIZE"));
    assert_eq!(validate_payload(&specs[1], ""), Err("INVALID_ARGUMENT"));
}

#[test]
fn start_of_the_runtime() {
    assert_eq!(poll_interval_ms(10), 50);
    assert_eq!(poll_interval_ms(250), 250);
    assert_eq!(bridge_endpoint(&Some(s(" http://x "))), Some(s("http://x")));
    assert_eq!(bridge_endpoint(&Some(s("  "))), None);
    assert_eq!(bridge_endpoint(&None), None);
    assert_eq!(session_or_fresh(Some(s("mine"))), "mine");
    let fresh = session_or_fresh(None);
    assert!(fresh.starts_with("sess-") && fresh.len() == 13);
    assert!(fresh[5..].chars().all(|c| c.is_ascii_hexdigit()));
    assert_eq!(app_id_mismatch("a", "a"), None);
    assert_eq!(
        app_id_mismatch("a", "b").unwrap(),
        "Adapter app_id mismatch: adapter=a runtime=b"
    );
    assert_eq!((bridge_timeout_ms(0), bridge_timeout_ms(7)), (1, 7));
}

#[test]
fn parts_of_an_application_have_to_be_there() {
    let l = Layout::new("/apps", "demo");
    assert_eq!(l.app_dir, "/apps/demo");
    assert_eq!(l.manifest, "/apps/demo/_meta/manifest.res.json");
    assert_eq!(l.events, "/apps/demo/_stream/events.evt.jsonl");
    assert_eq!(l.cursor, "/apps/demo/_stream/cursor.res.json");
    assert_eq!(l.replay_dir, "/apps/demo/_stream/from-seq");
    assert_eq!(l.jobs, "/apps/demo/_stream/inflight.jobs.res.json");
    let says = |n: usize| {
        l.missing(Presence {
            app_dir: n != 0,
            manifest: n != 1,
            events: n != 2,
            cursor: n != 3,
            replay_dir: n != 4,
        })
    };
    assert_eq!(says(0).unwrap(), "App directory not found: /apps/demo");
    assert!(says(1).unwrap().starts_with("Missing manifest file: "));
    assert!(says(2).unwrap().starts_with("Missing events stream file: "));
    assert!(says(3).unwrap().starts_with("Missing cursor file: "));
    assert!(says(4).unwrap().starts_with("Missing replay directory: "));
    assert_eq!(says(9), None);
    assert_eq!(Layout::new("/apps", "/other").app_dir, "/other");
}

/// A world of files for a round.
struct World {
    files: Vec<(String, String, u128)>,
    lines: Vec<String>,
    closed: Vec<String>,
    saved: Vec<&'static str>,
    fail_writes: bool,
}

impl World {
    fn perform(&mut self, rt: &mut AppfsAdapter, app: &mut Recorder, task: Task<String>) -> RoundNews {
        match task {
            Task::Write { line, .. } => {
                if self.fail_writes {
                    return News::Failed;
                }
                self.lines.push(line);
                News::Done
            }
            Task::SaveCursor => {
                self.saved.push("cursor");
                News::Done
            }
            Task::SaveJobs => {
                self.saved.push("jobs");
                News::Done
            }
            Task::Look => News::Found(self.files.iter().map(|f| f.0.clone()).collect()),
            Task::Inspect { path } => News::State(self.files.iter().find(|f| f.0 == path).map(|f| {
                ActionFingerprint { len: f.1.len() as u64, modified_ns: f.2 }
            })),
            Task::Read { path } => {
                News::Body(self.files.iter().find(|f| f.0 == path).map(|f| f.1.clone()))
            }
            Task::Process { path, body } => News::of_result(rt.process_action(app, &path, &body)),
            Task::Close { path } => {
                self.closed.push(path);
                News::Failed
            }
            Task::Stop { .. } => panic!("the round is over"),
        }
    }

    fn round(&mut self, rt: &mut AppfsAdapter, app: &mut Recorder, now: u64) -> bool {
        let (mut stage, mut task): (RoundStage, Task<String>) = rt.start_round();
        loop {
            if let Stage::Over { well } = stage {
                return well;
            }
            let news = self.perform(rt, app, task);
            let next = rt.advance_round(stage, news, now);
            stage = next.0;
            task = next.1;
        }
    }
}

fn world(files: Vec<(&str, &str)>) -> World {
    World {
        files: files.into_iter().map(|(p, b)| (s(p), s(b), 1)).collect(),
        lines: Vec::new(),
        closed: Vec::new(),
        saved: Vec::new(),
        fail_writes: false,
    }
}

#[test]
fn rounds_take_submissions_once() {
    let mut rt = runtime();
    let mut app = recorder();
    let mut w = world(vec![
        ("files/fetch.act", "{}"),
        ("contacts/bob/send.act", "hi\n"),
        ("contacts/eve/send.act", " "),
        ("nobody/knows.act", "x\n"),
    ]);
    assert!(w.round(&mut rt, &mut app, 0));
    assert!(app.seen.is_empty());
    assert!(w.round(&mut rt, &mut app, SUBMIT_STABLE_NS));
    assert_eq!(app.seen.len(), 2);
    assert!(app.seen[0].starts_with("/contacts/bob/send.act"));
    assert_eq!(w.closed, vec!["contacts/bob/send.act", "files/fetch.act"]);
    assert_eq!(w.lines.len(), 1);
    assert_eq!(w.saved, vec!["cursor", "jobs"]);
    for _ in 0..4 {
        assert!(w.round(&mut rt, &mut app, 9 * SUBMIT_STABLE_NS));
    }
    assert_eq!(app.seen.len(), 2);
    assert_eq!(w.lines.len(), 4);
    assert_eq!(rt.cursor.max_seq, 8);
    assert_eq!(rt.gate.restore_blocked_actions(u64::MAX).len(), 2);
}

#[test]
fn rounds_end_where_the_stream_cannot_be_written() {
    let mut rt = runtime();
    let mut app = recorder();
    let mut w = world(vec![("contacts/bob/send.act", "hi\n")]);
    assert!(w.round(&mut rt, &mut app, 0));
    w.fail_writes = true;
    assert!(!w.round(&mut rt, &mut app, SUBMIT_STABLE_NS));
    assert_eq!(rt.cursor.max_seq, 4);
    assert_eq!(rt.next_seq, 6);
    assert!(w.closed.is_empty());
    assert!(matches!(rt.advance_round_at(Stage::Looking, News::Done, 0, "t").0, Stage::Over { well: false }));
}
