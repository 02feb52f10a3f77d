//! The runtime of one application: it takes submissions, hands them to the
//! adapter, and tells the stream how they went.

use crate::appfs::adapter;
use crate::appfs::adapter::{
    AdapterControlActionV1, AdapterControlOutcomeV1, AdapterErrorV1, AdapterExecutionModeV1,
    AdapterInputModeV1, AdapterSubmitOutcomeV1, AppAdapterV1, ControlActionView, RequestContextV1,
    RequestContextView,
};
use crate::appfs::events;
use crate::appfs::events::{CursorState, DraftView, Event, EventDraft, JobView, StreamingJob};
use crate::appfs::gate::{GateView, SubmitGate};
use crate::appfs::paging;
use crate::appfs::paging::{HandleTable, TableView, PAGES_PER_HANDLE};
use crate::appfs::payload;
use crate::appfs::payload::{ExecutionMode, InputMode, PagingRequest, PagingRequestView};
use crate::appfs::segments;
use crate::clock;
use crate::json;
use crate::json::{Json, JsonView};
use crate::text;
use crate::text::Edge;
use vstd::prelude::*;
use vstd::string::*;

verus! {

/// The shortest time between two looks at the action files, in milliseconds.
pub const MIN_POLL_MS: u64 = 50;

/// How a submission was taken.
#[derive(Debug, Clone, Copy, PartialEq, Eq, Structural)]
pub enum ProcessOutcome {
    Submitted,
    Rejected,
}

/// An action that the manifest declares.
#[derive(Debug)]
pub struct ActionSpec {
    pub template: String,
    pub input_mode: InputMode,
    pub execution_mode: ExecutionMode,
    pub max_payload_bytes: Option<usize>,
}

/// What a declared action holds.
pub struct ActionSpecView {
    pub template: Seq<char>,
    pub input_mode: InputMode,
    pub execution_mode: ExecutionMode,
    pub max_payload_bytes: Option<usize>,
}

impl View for ActionSpec {
    type V = ActionSpecView;

    open spec fn view(&self) -> ActionSpecView {
        ActionSpecView {
            template: self.template@,
            input_mode: self.input_mode,
            execution_mode: self.execution_mode,
            max_payload_bytes: self.max_payload_bytes,
        }
    }
}

pub open spec fn spec_views(specs: Seq<ActionSpec>) -> Seq<ActionSpecView> {
    Seq::new(specs.len(), |i: int| specs[i]@)
}

/// A node of the manifest, under its template.
#[derive(Debug)]
pub struct ManifestNode {
    pub template: String,
    pub kind: String,
    pub input_mode: Option<String>,
    pub execution_mode: Option<String>,
    pub max_payload_bytes: Option<usize>,
}

/// Whether a node of the manifest declares an action.
pub open spec fn declares_action(node: ManifestNode) -> bool {
    node.kind@ == "action"@ && text::finishes(node.template@, ".act"@)
}

pub open spec fn input_mode_of(name: Option<Seq<char>>) -> InputMode {
    if name == Some("text"@) {
        InputMode::Text
    } else if name == Some("json"@) {
        InputMode::Json
    } else {
        InputMode::TextOrJson
    }
}

pub open spec fn execution_mode_of(name: Option<Seq<char>>) -> ExecutionMode {
    if name == Some("streaming"@) {
        ExecutionMode::Streaming
    } else {
        ExecutionMode::Inline
    }
}

/// The action that a node declares.
pub open spec fn declared(node: ManifestNode) -> ActionSpecView {
    ActionSpecView {
        template: text::trim_front(node.template@, Edge::Slash),
        input_mode: input_mode_of(text::opt(node.input_mode)),
        execution_mode: execution_mode_of(text::opt(node.execution_mode)),
        max_payload_bytes: node.max_payload_bytes,
    }
}

/// The actions that the nodes declare, in order.
pub open spec fn declared_actions(nodes: Seq<ManifestNode>) -> Seq<ActionSpecView>
    decreases nodes.len(),
{
    if nodes.len() == 0 {
        Seq::<ActionSpecView>::empty()
    } else if declares_action(nodes.last()) {
        declared_actions(nodes.drop_last()).push(declared(nodes.last()))
    } else {
        declared_actions(nodes.drop_last())
    }
}

/// The first action whose template matches `rel_path`.
pub open spec fn first_match(specs: Seq<ActionSpecView>, rel_path: Seq<char>) -> Option<
    ActionSpecView,
>
    decreases specs.len(),
{
    if specs.len() == 0 {
        None
    } else if segments::template_matches(specs[0].template, rel_path) {
        Some(specs[0])
    } else {
        first_match(specs.drop_first(), rel_path)
    }
}

/// Where a submission goes.
pub enum RouteView {
    Rejected,
    FetchNext(PagingRequestView),
    Close(PagingRequestView),
    Submit(ActionSpecView),
}

/// Where a submission goes.
#[derive(Debug)]
pub enum Route {
    Rejected,
    FetchNext(PagingRequest),
    Close(PagingRequest),
    Submit(InputMode, ExecutionMode),
}

/// Where a submission goes, given what the payload and its trimmed text are as
/// JSON: nowhere where the path is unsafe or undeclared or the payload is
/// refused; to the handles at the two paging actions, where the request names a
/// handle of the right form; and else to the adapter.
pub open spec fn route(
    specs: Seq<ActionSpecView>,
    rel_path: Seq<char>,
    body: Seq<char>,
    as_json: Option<JsonView>,
    trimmed_as_json: Option<JsonView>,
) -> RouteView {
    let spec = first_match(specs, rel_path);
    let request = payload::paging_request(body, trimmed_as_json);
    if !segments::safe_rel_path(rel_path) || spec is None {
        RouteView::Rejected
    } else if payload::refusal(
        spec->0.max_payload_bytes,
        spec->0.input_mode,
        body,
        as_json is Some,
    ) is Some {
        RouteView::Rejected
    } else if rel_path == "_paging/fetch_next.act"@ || rel_path == "_paging/close.act"@ {
        if request is None || !segments::handle_format(request->0.handle_id) {
            RouteView::Rejected
        } else if rel_path == "_paging/fetch_next.act"@ {
            RouteView::FetchNext(request->0)
        } else {
            RouteView::Close(request->0)
        }
    } else {
        RouteView::Submit(spec->0)
    }
}

/// Whether a route is the one that its view describes.
pub open spec fn is_route(r: Route, v: RouteView) -> bool {
    match (r, v) {
        (Route::Rejected, RouteView::Rejected) => true,
        (Route::FetchNext(a), RouteView::FetchNext(b)) => a@ == b,
        (Route::Close(a), RouteView::Close(b)) => a@ == b,
        (Route::Submit(i, e), RouteView::Submit(spec)) => i == spec.input_mode && e
            == spec.execution_mode,
        _ => false,
    }
}

/// What became of a submission: how it was taken, and the event that tells of
/// it, if there is one yet.
#[derive(Debug)]
pub struct ActionResult {
    pub outcome: ProcessOutcome,
    pub draft: Option<EventDraft>,
    pub job_queued: bool,
}

/// The runtime of one application.
pub struct AppfsAdapter {
    pub app_id: String,
    pub session_id: String,
    pub action_specs: Vec<ActionSpec>,
    pub cursor: CursorState,
    pub next_seq: i64,
    pub gate: SubmitGate,
    pub handles: HandleTable,
    pub streaming_jobs: Vec<StreamingJob>,
}

/// What the runtime knows, but for the state of the action files.
#[verifier::ext_equal]
pub struct RuntimeView {
    pub app_id: Seq<char>,
    pub session_id: Seq<char>,
    pub specs: Seq<ActionSpecView>,
    pub cursor: CursorState,
    pub next_seq: i64,
    pub handles: TableView,
    pub jobs: Seq<JobView>,
}

impl View for AppfsAdapter {
    type V = RuntimeView;

    open spec fn view(&self) -> RuntimeView {
        RuntimeView {
            app_id: self.app_id@,
            session_id: self.session_id@,
            specs: spec_views(self.action_specs@),
            cursor: self.cursor,
            next_seq: self.next_seq,
            handles: self.handles@,
            jobs: events::job_views(self.streaming_jobs@),
        }
    }
}

pub open spec fn adapter_input_mode(mode: InputMode) -> AdapterInputModeV1 {
    match mode {
        InputMode::Text => AdapterInputModeV1::Text,
        InputMode::Json => AdapterInputModeV1::Json,
        InputMode::TextOrJson => AdapterInputModeV1::TextOrJson,
    }
}

pub open spec fn adapter_execution_mode(mode: ExecutionMode) -> AdapterExecutionModeV1 {
    match mode {
        ExecutionMode::Inline => AdapterExecutionModeV1::Inline,
        ExecutionMode::Streaming => AdapterExecutionModeV1::Streaming,
    }
}

/// The context under which a request reaches the adapter.
pub open spec fn context_of(
    runtime: RuntimeView,
    request_id: Seq<char>,
    token: Option<Seq<char>>,
) -> RequestContextView {
    RequestContextView {
        app_id: runtime.app_id,
        session_id: runtime.session_id,
        request_id,
        client_token: token,
    }
}

/// The event that tells how the adapter answered an action at once, if it did.
pub open spec fn submit_draft(
    path: Seq<char>,
    request_id: Seq<char>,
    token: Option<Seq<char>>,
    result: Result<AdapterSubmitOutcomeV1, AdapterErrorV1>,
) -> Option<DraftView> {
    match result {
        Ok(AdapterSubmitOutcomeV1::Completed { content }) => Some(
            events::completed_draft(path, request_id, content@, token),
        ),
        Ok(AdapterSubmitOutcomeV1::Streaming { .. }) => None,
        Err(e) => Some(events::adapter_error_draft(path, request_id, e@, token)),
    }
}

/// The jobs once the adapter has answered an action.
pub open spec fn submit_jobs(
    jobs: Seq<JobView>,
    path: Seq<char>,
    request_id: Seq<char>,
    token: Option<Seq<char>>,
    result: Result<AdapterSubmitOutcomeV1, AdapterErrorV1>,
) -> Seq<JobView> {
    match result {
        Ok(AdapterSubmitOutcomeV1::Streaming { plan }) => jobs.push(
            events::new_job(path, request_id, token, plan@),
        ),
        _ => jobs,
    }
}

pub open spec fn opt_draft(d: Option<EventDraft>) -> Option<DraftView> {
    match d {
        Some(draft) => Some(draft@),
        None => None,
    }
}

/// The action that asks the adapter for the next page of the handle `key`.
pub open spec fn fetch_action(handles: TableView, key: Seq<char>) -> ControlActionView {
    ControlActionView::PagingFetchNext {
        handle_id: key,
        page_no: (handles.handles[key].page_no + 1) as u64,
        has_more: handles.handles[key].page_no + 1 < PAGES_PER_HANDLE,
    }
}

/// What a request for the next page comes to: a refusal that changes nothing,
/// or a counted page and the answer of the adapter `a` to exactly one action.
pub open spec fn fetch_relation<A: AppAdapterV1 + ?Sized>(
    a: &mut A,
    before: RuntimeView,
    after: RuntimeView,
    path: Seq<char>,
    request_id: Seq<char>,
    handle_id: Seq<char>,
    requester: Option<Seq<char>>,
    token: Option<Seq<char>>,
    now: i64,
    draft: DraftView,
) -> bool {
    let key = paging::handle_key(before.handles, handle_id);
    match paging::paging_refusal(before.handles, before.session_id, handle_id, requester, now) {
        Some((code, message)) => {
            &&& after == before
            &&& draft == events::failed_draft(
                path,
                request_id,
                code,
                message,
                code == events::ERR_PAGER_HANDLE_EXPIRED@,
                token,
            )
        },
        None => {
            &&& after == (RuntimeView { handles: paging::paged(before.handles, key), ..before })
            &&& exists|result: Result<AdapterControlOutcomeV1, AdapterErrorV1>|
                #[trigger] adapter::controlled::<A>(
                    a,
                    path,
                    fetch_action(before.handles, key),
                    context_of(before, request_id, token),
                    result,
                ) && draft == events::control_draft(path, request_id, result, token)
        },
    }
}

/// What a request to close a handle comes to: a refusal that changes nothing,
/// or a closed handle and the answer of the adapter `a` to exactly one action.
pub open spec fn close_relation<A: AppAdapterV1 + ?Sized>(
    a: &mut A,
    before: RuntimeView,
    after: RuntimeView,
    path: Seq<char>,
    request_id: Seq<char>,
    handle_id: Seq<char>,
    requester: Option<Seq<char>>,
    token: Option<Seq<char>>,
    now: i64,
    draft: DraftView,
) -> bool {
    let key = paging::handle_key(before.handles, handle_id);
    match paging::paging_refusal(before.handles, before.session_id, handle_id, requester, now) {
        Some((code, message)) => {
            &&& after == before
            &&& draft == events::failed_draft(
                path,
                request_id,
                code,
                message,
                code == events::ERR_PAGER_HANDLE_EXPIRED@,
                token,
            )
        },
        None => {
            &&& after == (RuntimeView { handles: paging::closed(before.handles, key), ..before })
            &&& exists|result: Result<AdapterControlOutcomeV1, AdapterErrorV1>|
                #[trigger] adapter::controlled::<A>(
                    a,
                    path,
                    ControlActionView::PagingClose { handle_id: key },
                    context_of(before, request_id, token),
                    result,
                ) && draft == events::control_draft(path, request_id, result, token)
        },
    }
}

/// The adapter is not asked anything: the submission is rejected, or asks for a
/// page of a handle, or to close one, and is refused.
pub open spec fn untouched(before: RuntimeView, to: RouteView, now: i64) -> bool {
    match to {
        RouteView::Rejected => true,
        RouteView::FetchNext(request) => paging::paging_refusal(
            before.handles,
            before.session_id,
            request.handle_id,
            request.session_id,
            now,
        ) is Some,
        RouteView::Close(request) => paging::paging_refusal(
            before.handles,
            before.session_id,
            request.handle_id,
            request.session_id,
            now,
        ) is Some,
        RouteView::Submit(_) => false,
    }
}

/// Where a page of a handle is asked for, the handle has not run out of page numbers.
pub open spec fn pages_suffice(handles: TableView, to: RouteView) -> bool {
    to matches RouteView::FetchNext(request) ==> paging::page_left(handles, request.handle_id)
}

/// What a submission comes to on its route. Where the adapter is asked, `a` is the
/// adapter during the one call.
pub open spec fn dispatch_relation<A: AppAdapterV1 + ?Sized>(
    a: &mut A,
    before: RuntimeView,
    after: RuntimeView,
    to: RouteView,
    rel_path: Seq<char>,
    body: Seq<char>,
    request_id: Seq<char>,
    token: Option<Seq<char>>,
    now: i64,
    result: ActionResult,
) -> bool {
    let path = "/"@ + rel_path;
    match to {
        RouteView::Rejected => {
            &&& after == before
            &&& result.outcome == ProcessOutcome::Rejected
            &&& result.draft is None
            &&& !result.job_queued
        },
        RouteView::FetchNext(request) => {
            &&& result.outcome == ProcessOutcome::Submitted
            &&& !result.job_queued
            &&& result.draft is Some
            &&& fetch_relation::<A>(
                a,
                before,
                after,
                path,
                request_id,
                request.handle_id,
                request.session_id,
                token,
                now,
                result.draft->0@,
            )
        },
        RouteView::Close(request) => {
            &&& result.outcome == ProcessOutcome::Submitted
            &&& !result.job_queued
            &&& result.draft is Some
            &&& close_relation::<A>(
                a,
                before,
                after,
                path,
                request_id,
                request.handle_id,
                request.session_id,
                token,
                now,
                result.draft->0@,
            )
        },
        RouteView::Submit(spec) => {
            &&& result.outcome == ProcessOutcome::Submitted
            &&& exists|answer: Result<AdapterSubmitOutcomeV1, AdapterErrorV1>|
                #[trigger] adapter::submitted::<A>(
                    a,
                    path,
                    body,
                    adapter_input_mode(spec.input_mode),
                    adapter_execution_mode(spec.execution_mode),
                    context_of(before, request_id, token),
                    answer,
                ) && opt_draft(result.draft) == submit_draft(path, request_id, token, answer)
                    && result.job_queued == (result.draft is None) && after == (RuntimeView {
                    jobs: submit_jobs(before.jobs, path, request_id, token, answer),
                    ..before
                })
        },
    }
}

/// The route of a submission, as its text alone decides it.
pub open spec fn route_of_text(
    specs: Seq<ActionSpecView>,
    rel_path: Seq<char>,
    body: Seq<char>,
) -> RouteView {
    route(
        specs,
        rel_path,
        body,
        json::parsed(body),
        json::parsed(text::trimmed(body)),
    )
}

/// The time between two looks at the action files, in milliseconds.
pub fn poll_interval_ms(poll_ms: u64) -> (r: u64)
    ensures
        r == if poll_ms < MIN_POLL_MS {
            MIN_POLL_MS
        } else {
            poll_ms
        },
{
    if poll_ms < MIN_POLL_MS {
        MIN_POLL_MS
    } else {
        poll_ms
    }
}

/// The time that the HTTP bridge may take for an answer, in milliseconds.
pub fn bridge_timeout_ms(timeout_ms: u64) -> (r: u64)
    ensures
        r == if timeout_ms == 0 {
            1
        } else {
            timeout_ms
        },
{
    if timeout_ms == 0 {
        1
    } else {
        timeout_ms
    }
}

/// The endpoint of the HTTP bridge, where one is given.
pub fn bridge_endpoint(endpoint: &Option<String>) -> (r: Option<String>)
    ensures
        text::opt(r) == payload::nonblank(text::opt(*endpoint)),
{
    match endpoint {
        Some(e) => {
            let body = text::trim(e.as_str());
            if body.as_str().is_empty() {
                None
            } else {
                Some(body)
            }
        },
        None => None,
    }
}

/// The session that was asked for, or a fresh one.
pub fn session_or_fresh(session_id: Option<String>) -> (r: String)
    ensures
        match session_id {
            Some(s) => r@ == s@,
            None => clock::tagged("sess-"@, r@),
        },
{
    match session_id {
        Some(s) => s,
        None => clock::fresh_id("sess-"),
    }
}

/// The complaint about an adapter that serves another application.
pub fn app_id_mismatch(adapter_id: &str, app_id: &str) -> (r: Option<String>)
    ensures
        text::opt(r) == if adapter_id@ == app_id@ {
            None
        } else {
            Some("Adapter app_id mismatch: adapter="@ + adapter_id@ + " runtime="@ + app_id@)
        },
{
    if text::same(adapter_id, app_id) {
        return None;
    }
    let mut out = text::concat3("Adapter app_id mismatch: adapter=", adapter_id, " runtime=");
    out.append(app_id);
    Some(out)
}

/// Whether `rel_path` lies in the stream directory.
pub open spec fn in_stream(rel_path: Seq<char>) -> bool {
    text::split(rel_path, '/')[0] == "_stream"@
}

fn is_mode(name: &Option<String>, mode: &str) -> (r: bool)
    ensures
        r == (text::opt(*name) == Some(mode@)),
{
    match name {
        Some(n) => text::same(n.as_str(), mode),
        None => false,
    }
}

/// The actions that the nodes of a manifest declare. An input mode that is not
/// known stands for both, and an execution mode that is not known for inline.
pub fn load_action_specs(nodes: &Vec<ManifestNode>) -> (r: Vec<ActionSpec>)
    ensures
        spec_views(r@) == declared_actions(nodes@),
{
    let mut out: Vec<ActionSpec> = Vec::new();
    let mut i: usize = 0;
    assert(spec_views(out@) =~= declared_actions(nodes@.take(0)));
    while i < nodes.len()
        invariant
            i <= nodes@.len(),
            spec_views(out@) == declared_actions(nodes@.take(i as int)),
        decreases nodes@.len() - i,
    {
        let node = &nodes[i];
        assert(nodes@.take(i + 1).drop_last() =~= nodes@.take(i as int));
        assert(nodes@.take(i + 1).last() == *node);
        if text::same(node.kind.as_str(), "action") && text::ends_with(
            node.template.as_str(),
            ".act",
        ) {
            let input_mode = if is_mode(&node.input_mode, "text") {
                InputMode::Text
            } else if is_mode(&node.input_mode, "json") {
                InputMode::Json
            } else {
                InputMode::TextOrJson
            };
            let execution_mode = if is_mode(&node.execution_mode, "streaming") {
                ExecutionMode::Streaming
            } else {
                ExecutionMode::Inline
            };
            let spec = ActionSpec {
                template: text::trim_start(node.template.as_str(), Edge::Slash),
                input_mode,
                execution_mode,
                max_payload_bytes: node.max_payload_bytes,
            };
            let ghost before = spec_views(out@);
            out.push(spec);
            assert(spec_views(out@) =~= before.push(spec@));
        }
        i = i + 1;
    }
    assert(nodes@.take(i as int) =~= nodes@);
    out
}

/// Checks a payload against the action that it is submitted to.
pub fn validate_payload(spec: &ActionSpec, body: &str) -> (r: Result<(), &'static str>)
    ensures
        match r {
            Ok(()) => payload::refusal(
                spec.max_payload_bytes,
                spec.input_mode,
                body@,
                json::parsed(body@) is Some,
            ) is None,
            Err(code) => payload::refusal(
                spec.max_payload_bytes,
                spec.input_mode,
                body@,
                json::parsed(body@) is Some,
            ) == Some(code@),
        },
{
    let is_json = json::parse(body).is_some();
    payload::check_payload(spec.max_payload_bytes, spec.input_mode, body, is_json)
}

impl AppfsAdapter {
    /// The runtime that goes on where the cursor stands.
    pub fn new(
        app_id: String,
        session_id: String,
        action_specs: Vec<ActionSpec>,
        cursor: CursorState,
        streaming_jobs: Vec<StreamingJob>,
    ) -> (r: Self)
        requires
            cursor.max_seq < i64::MAX,
        ensures
            r@ == (RuntimeView {
                app_id: app_id@,
                session_id: session_id@,
                specs: spec_views(action_specs@),
                cursor: cursor.spec_loaded(),
                next_seq: (cursor.max_seq + 1) as i64,
                handles: TableView { handles: Map::empty(), aliases: Map::empty() },
                jobs: events::job_views(streaming_jobs@),
            }),
            r.gate@ == (GateView {
                last: Map::empty(),
                pending: Map::empty(),
                blocked: Map::empty(),
            }),
    {
        AppfsAdapter {
            app_id,
            session_id,
            action_specs,
            cursor: cursor.loaded(),
            next_seq: cursor.max_seq + 1,
            gate: SubmitGate::new(),
            handles: HandleTable::new(),
            streaming_jobs,
        }
    }

    /// The first declared action whose template matches `rel_path`.
    pub fn find_action_spec(&self, rel_path: &str) -> (r: Option<&ActionSpec>)
        ensures
            match r {
                Some(spec) => first_match(self@.specs, rel_path@) == Some(spec@),
                None => first_match(self@.specs, rel_path@) is None,
            },
    {
        let ghost all = self@.specs;
        let mut i: usize = 0;
        assert(all.skip(0) =~= all);
        while i < self.action_specs.len()
            invariant
                i <= self.action_specs@.len(),
                all == spec_views(self.action_specs@),
                all == self@.specs,
                first_match(all, rel_path@) == first_match(all.skip(i as int), rel_path@),
            decreases self.action_specs@.len() - i,
        {
            assert(all.skip(i as int)[0] == self.action_specs@[i as int]@);
            if segments::action_template_matches(self.action_specs[i].template.as_str(), rel_path) {
                return Some(&self.action_specs[i]);
            }
            assert(all.skip(i as int).drop_first() =~= all.skip(i + 1));
            i = i + 1;
        }
        None
    }

    /// Where a submission goes, given what the payload and its trimmed text are
    /// as JSON.
    pub fn route_submission(
        &self,
        rel_path: &str,
        body: &str,
        as_json: &Option<Json>,
        trimmed_as_json: &Option<Json>,
    ) -> (r: Route)
        ensures
            is_route(
                r,
                route(
                    self@.specs,
                    rel_path@,
                    body@,
                    json::opt(*as_json),
                    json::opt(*trimmed_as_json),
                ),
            ),
    {
        if !segments::is_safe_action_rel_path(rel_path) {
            return Route::Rejected;
        }
        let spec = match self.find_action_spec(rel_path) {
            Some(s) => s,
            None => {
                return Route::Rejected;
            },
        };
        let checked = payload::check_payload(
            spec.max_payload_bytes,
            spec.input_mode,
            body,
            as_json.is_some(),
        );
        if checked.is_err() {
            return Route::Rejected;
        }
        let fetch = text::same(rel_path, "_paging/fetch_next.act");
        let close = text::same(rel_path, "_paging/close.act");
        if fetch || close {
            return match payload::paging_request_of(body, trimmed_as_json) {
                Ok(request) => if !segments::is_handle_format_valid(request.handle_id.as_str()) {
                    Route::Rejected
                } else if fetch {
                    Route::FetchNext(request)
                } else {
                    Route::Close(request)
                },
                Err(_) => Route::Rejected,
            };
        }
        Route::Submit(spec.input_mode, spec.execution_mode)
    }

    fn request_context(&self, request_id: &str, client_token: &Option<String>) -> (r:
        RequestContextV1)
        ensures
            r@ == context_of(self@, request_id@, text::opt(*client_token)),
    {
        RequestContextV1 {
            app_id: self.app_id.clone(),
            session_id: self.session_id.clone(),
            request_id: request_id.to_owned(),
            client_token: text::copy_opt(client_token),
        }
    }

    /// Answers a request for the next page of a handle, at the time `now`.
    pub fn handle_fetch_next<A: AppAdapterV1 + ?Sized>(
        &mut self,
        business: &mut A,
        action_path: &str,
        request_id: &str,
        handle_id: &str,
        requester_session_id: Option<&str>,
        client_token: Option<String>,
        now: i64,
    ) -> (r: EventDraft)
        requires
            paging::page_left(old(self)@.handles, handle_id@),
        ensures
            exists|a: &mut A|
                #[trigger] fetch_relation::<A>(
                    a,
                    old(self)@,
                    final(self)@,
                    action_path@,
                    request_id@,
                    handle_id@,
                    text::opt_str(requester_session_id),
                    text::opt(client_token),
                    now,
                    r@,
                ) && match paging::paging_refusal(
                    old(self)@.handles,
                    old(self)@.session_id,
                    handle_id@,
                    text::opt_str(requester_session_id),
                    now,
            ) {
                    Some(_) => &*final(business) == &*old(business),
                    None => &*a == &*old(business) && &*final(a) == &*final(business),
                },
            final(self).gate == old(self).gate,
    {
        let ghost before = self@;
        let refusal = self.handles.check_request(
            self.session_id.as_str(),
            handle_id,
            requester_session_id,
            now,
        );
        if let Some((code, message)) = refusal {
            let ghost token = text::opt(client_token);
            let r = events::draft_refused(action_path, request_id, code, message, client_token);
            let ghost nobody: &mut A = arbitrary();
            assert(fetch_relation::<A>(
                nobody,
                before,
                self@,
                action_path@,
                request_id@,
                handle_id@,
                text::opt_str(requester_session_id),
                token,
                now,
                r@,
            ));
            return r;
        }
        let key = self.handles.resolve_handle_key(handle_id);
        let page_no: u64 = self.handles.next_page(key.as_str());
        let has_more = page_no < PAGES_PER_HANDLE;
        let ctx = self.request_context(request_id, &client_token);
        proof {
            adapter::lemma_calls::<A>();
        }
        let result = business.submit_control_action(
            action_path,
            AdapterControlActionV1::PagingFetchNext { handle_id: key, page_no, has_more },
            &ctx,
        );
        assert(self@ =~= RuntimeView { handles: paging::paged(before.handles, key@), ..before });
        let ghost token = text::opt(client_token);
        let ghost given = result;
        let r = events::draft_control(action_path, request_id, result, client_token);
        assert(forall|a: &mut A| #[trigger]
            adapter::controlled::<A>(
                a,
                action_path@,
                fetch_action(before.handles, key@),
                context_of(before, request_id@, token),
                given,
            ) ==> fetch_relation::<A>(
                a,
                before,
                self@,
                action_path@,
                request_id@,
                handle_id@,
                text::opt_str(requester_session_id),
                token,
                now,
                r@,
            ));
        r
    }

    /// Answers a request to close a handle, at the time `now`.
    pub fn handle_close_handle<A: AppAdapterV1 + ?Sized>(
        &mut self,
        business: &mut A,
        action_path: &str,
        request_id: &str,
        handle_id: &str,
        requester_session_id: Option<&str>,
        client_token: Option<String>,
        now: i64,
    ) -> (r: EventDraft)
        ensures
            exists|a: &mut A|
                #[trigger] close_relation::<A>(
                    a,
                    old(self)@,
                    final(self)@,
                    action_path@,
                    request_id@,
                    handle_id@,
                    text::opt_str(requester_session_id),
                    text::opt(client_token),
                    now,
                    r@,
                ) && match paging::paging_refusal(
                    old(self)@.handles,
                    old(self)@.session_id,
                    handle_id@,
                    text::opt_str(requester_session_id),
                    now,
            ) {
                    Some(_) => &*final(business) == &*old(business),
                    None => &*a == &*old(business) && &*final(a) == &*final(business),
                },
            final(self).gate == old(self).gate,
    {
        let ghost before = self@;
        let refusal = self.handles.check_request(
            self.session_id.as_str(),
            handle_id,
            requester_session_id,
            now,
        );
        if let Some((code, message)) = refusal {
            let ghost token = text::opt(client_token);
            let r = events::draft_refused(action_path, request_id, code, message, client_token);
            let ghost nobody: &mut A = arbitrary();
            assert(close_relation::<A>(
                nobody,
                before,
                self@,
                action_path@,
                request_id@,
                handle_id@,
                text::opt_str(requester_session_id),
                token,
                now,
                r@,
            ));
            return r;
        }
        let key = self.handles.resolve_handle_key(handle_id);
        self.handles.close(key.as_str());
        let ctx = self.request_context(request_id, &client_token);
        proof {
            adapter::lemma_calls::<A>();
        }
        let result = business.submit_control_action(
            action_path,
            AdapterControlActionV1::PagingClose { handle_id: key },
            &ctx,
        );
        assert(self@ =~= RuntimeView { handles: paging::closed(before.handles, key@), ..before });
        let ghost token = text::opt(client_token);
        let ghost given = result;
        let r = events::draft_control(action_path, request_id, result, client_token);
        assert(forall|a: &mut A| #[trigger]
            adapter::controlled::<A>(
                a,
                action_path@,
                ControlActionView::PagingClose { handle_id: key@ },
                context_of(before, request_id@, token),
                given,
            ) ==> close_relation::<A>(
                a,
                before,
                self@,
                action_path@,
                request_id@,
                handle_id@,
                text::opt_str(requester_session_id),
                token,
                now,
                r@,
            ));
        r
    }

    /// Queues the job of a streaming plan.
    pub fn enqueue_streaming_job(&mut self, job: StreamingJob)
        ensures
            final(self)@ == (RuntimeView { jobs: old(self)@.jobs.push(job@), ..old(self)@ }),
            final(self).gate == old(self).gate,
    {
        let ghost before = self@;
        self.streaming_jobs.push(job);
        assert(self@.jobs =~= before.jobs.push(job@));
    }

    /// Takes a submission down its route, at the time `now`.
    pub fn dispatch<A: AppAdapterV1 + ?Sized>(
        &mut self,
        business: &mut A,
        to: Route,
        rel_path: &str,
        body: &str,
        request_id: &str,
        client_token: Option<String>,
        now: i64,
    ) -> (r: ActionResult)
        requires
            to matches Route::FetchNext(request) ==> paging::page_left(
                old(self)@.handles,
                request.handle_id@,
            ),
        ensures
            forall|v: RouteView| #[trigger]
                is_route(to, v) ==> exists|a: &mut A|
                    #[trigger] dispatch_relation::<A>(
                        a,
                        old(self)@,
                        final(self)@,
                        v,
                        rel_path@,
                        body@,
                        request_id@,
                        text::opt(client_token),
                        now,
                        r,
                    ) && if untouched(old(self)@, v, now) {
                        &*final(business) == &*old(business)
                    } else {
                        &*a == &*old(business) && &*final(a) == &*final(business)
                    },
            r.outcome == ProcessOutcome::Rejected <==> to is Rejected,
            r.outcome == ProcessOutcome::Rejected ==> {
                &&& final(self)@ == old(self)@
                &&& &*final(business) == &*old(business)
                &&& r.draft is None
                &&& !r.job_queued
            },
            final(self).gate == old(self).gate,
    {
        let ghost before = self@;
        let ghost token = text::opt(client_token);
        let ghost route = to;
        let path = text::concat("/", rel_path);
        match to {
            Route::Rejected => {
                let r = ActionResult {
                    outcome: ProcessOutcome::Rejected,
                    draft: None,
                    job_queued: false,
                };
                let ghost nobody: &mut A = arbitrary();
                assert(forall|v: RouteView| #[trigger]
                    is_route(route, v) ==> dispatch_relation::<A>(
                        nobody,
                        before,
                        self@,
                        v,
                        rel_path@,
                        body@,
                        request_id@,
                        token,
                        now,
                        r,
                    ));
                r
            },
            Route::FetchNext(request) => {
                let requester = match &request.session_id {
                    Some(s) => Some(s.as_str()),
                    None => None,
                };
                let draft = self.handle_fetch_next(
                    business,
                    path.as_str(),
                    request_id,
                    request.handle_id.as_str(),
                    requester,
                    client_token,
                    now,
                );
                let ghost answer = draft@;
                let r = ActionResult {
                    outcome: ProcessOutcome::Submitted,
                    draft: Some(draft),
                    job_queued: false,
                };
                assert(forall|v: RouteView, a: &mut A|
                    #[trigger] is_route(route, v) && #[trigger] fetch_relation::<A>(
                        a,
                        before,
                        self@,
                        path@,
                        request_id@,
                        request.handle_id@,
                        text::opt(request.session_id),
                        token,
                        now,
                        answer,
                    ) ==> dispatch_relation::<A>(
                        a,
                        before,
                        self@,
                        v,
                        rel_path@,
                        body@,
                        request_id@,
                        token,
                        now,
                        r,
                    ));
                r
            },
            Route::Close(request) => {
                let requester = match &request.session_id {
                    Some(s) => Some(s.as_str()),
                    None => None,
                };
                let draft = self.handle_close_handle(
                    business,
                    path.as_str(),
                    request_id,
                    request.handle_id.as_str(),
                    requester,
                    client_token,
                    now,
                );
                let ghost answer = draft@;
                let r = ActionResult {
                    outcome: ProcessOutcome::Submitted,
                    draft: Some(draft),
                    job_queued: false,
                };
                assert(forall|v: RouteView, a: &mut A|
                    #[trigger] is_route(route, v) && #[trigger] close_relation::<A>(
                        a,
                        before,
                        self@,
                        path@,
                        request_id@,
                        request.handle_id@,
                        text::opt(request.session_id),
                        token,
                        now,
                        answer,
                    ) ==> dispatch_relation::<A>(
                        a,
                        before,
                        self@,
                        v,
                        rel_path@,
                        body@,
                        request_id@,
                        token,
                        now,
                        r,
                    ));
                r
            },
            Route::Submit(input_mode, execution_mode) => {
                let ctx = self.request_context(request_id, &client_token);
                let adapter_input = match input_mode {
                    InputMode::Text => AdapterInputModeV1::Text,
                    InputMode::Json => AdapterInputModeV1::Json,
                    InputMode::TextOrJson => AdapterInputModeV1::TextOrJson,
                };
                let adapter_execution = match execution_mode {
                    ExecutionMode::Inline => AdapterExecutionModeV1::Inline,
                    ExecutionMode::Streaming => AdapterExecutionModeV1::Streaming,
                };
                proof {
                    adapter::lemma_calls::<A>();
                }
                let answer = business.submit_action(
                    path.as_str(),
                    body,
                    adapter_input,
                    adapter_execution,
                    &ctx,
                );
                let ghost given = answer;
                let draft = match answer {
                    Ok(AdapterSubmitOutcomeV1::Completed { content }) => Some(
                        events::draft_completed(path.as_str(), request_id, content, client_token),
                    ),
                    Ok(AdapterSubmitOutcomeV1::Streaming { plan }) => {
                        let job = events::job_of_plan(
                            path.as_str(),
                            request_id,
                            client_token,
                            plan,
                        );
                        self.enqueue_streaming_job(job);
                        None
                    },
                    Err(e) => Some(
                        events::draft_adapter_error(path.as_str(), request_id, &e, client_token),
                    ),
                };
                assert(opt_draft(draft) == submit_draft(path@, request_id@, token, given));
                assert(self@ =~= RuntimeView {
                    jobs: submit_jobs(before.jobs, path@, request_id@, token, given),
                    ..before
                });
                let job_queued = draft.is_none();
                let r = ActionResult { outcome: ProcessOutcome::Submitted, draft, job_queued };
                assert(forall|v: RouteView, a: &mut A|
                    #[trigger] is_route(route, v) && #[trigger] adapter::submitted::<A>(
                        a,
                        path@,
                        body@,
                        adapter_input_mode(input_mode),
                        adapter_execution_mode(execution_mode),
                        context_of(before, request_id@, token),
                        given,
                    ) ==> dispatch_relation::<A>(
                        a,
                        before,
                        self@,
                        v,
                        rel_path@,
                        body@,
                        request_id@,
                        token,
                        now,
                        r,
                    ));
                r
            },
        }
    }

    /// Takes a submission of `body` at `rel_path` to the adapter, under a fresh
    /// request.
    pub fn process_action<A: AppAdapterV1 + ?Sized>(
        &mut self,
        business: &mut A,
        rel_path: &str,
        body: &str,
    ) -> (r: ActionResult)
        requires
            pages_suffice(
                old(self)@.handles,
                route_of_text(old(self)@.specs, rel_path@, body@),
            ),
        ensures
            exists|request_id: Seq<char>, now: i64, a: &mut A|
                clock::tagged("req-"@, request_id) && #[trigger] dispatch_relation::<A>(
                    a,
                    old(self)@,
                    final(self)@,
                    route_of_text(old(self)@.specs, rel_path@, body@),
                    rel_path@,
                    body@,
                    request_id,
                    payload::client_token(body@, json::parsed(body@)),
                    now,
                    r,
                ) && if untouched(
                    old(self)@,
                    route_of_text(old(self)@.specs, rel_path@, body@),
                    now,
                ) {
                    &*final(business) == &*old(business)
                } else {
                    &*a == &*old(business) && &*final(a) == &*final(business)
                },
            r.outcome == ProcessOutcome::Rejected <==> route_of_text(
                old(self)@.specs,
                rel_path@,
                body@,
            ) is Rejected,
            r.outcome == ProcessOutcome::Rejected ==> {
                &&& final(self)@ == old(self)@
                &&& &*final(business) == &*old(business)
                &&& r.draft is None
                &&& !r.job_queued
            },
            final(self).gate == old(self).gate,
    {
        let as_json = json::parse(body);
        let trimmed_as_json = json::parse(text::trim(body).as_str());
        let to = self.route_submission(rel_path, body, &as_json, &trimmed_as_json);
        let request_id = clock::fresh_id("req-");
        let client_token = payload::token_of(body, &as_json);
        let now: i64 = clock::now_seconds();
        let ghost v = route_of_text(self@.specs, rel_path@, body@);
        assert(is_route(to, v));
        self.dispatch(business, to, rel_path, body, request_id.as_str(), client_token, now)
    }

    /// Takes a submission of `body` at `rel_path` to the adapter, under a fresh
    /// request; nothing where it asks for a page of a handle that has run out of
    /// page numbers.
    pub fn try_process_action<A: AppAdapterV1 + ?Sized>(
        &mut self,
        business: &mut A,
        rel_path: &str,
        body: &str,
    ) -> (r: Option<ActionResult>)
        ensures
            r is Some <==> pages_suffice(
                old(self)@.handles,
                route_of_text(old(self)@.specs, rel_path@, body@),
            ),
            r is None ==> final(self)@ == old(self)@ && &*final(business) == &*old(business),
            r is Some ==> exists|request_id: Seq<char>, now: i64, a: &mut A|
                clock::tagged("req-"@, request_id) && #[trigger] dispatch_relation::<A>(
                    a,
                    old(self)@,
                    final(self)@,
                    route_of_text(old(self)@.specs, rel_path@, body@),
                    rel_path@,
                    body@,
                    request_id,
                    payload::client_token(body@, json::parsed(body@)),
                    now,
                    r->0,
                ) && if untouched(
                    old(self)@,
                    route_of_text(old(self)@.specs, rel_path@, body@),
                    now,
                ) {
                    &*final(business) == &*old(business)
                } else {
                    &*a == &*old(business) && &*final(a) == &*final(business)
                },
            r matches Some(given) ==> {
                &&& given.outcome == ProcessOutcome::Rejected <==> route_of_text(
                    old(self)@.specs,
                    rel_path@,
                    body@,
                ) is Rejected
                &&& given.outcome == ProcessOutcome::Rejected ==> final(self)@ == old(self)@
                    && &*final(business) == &*old(business) && given.draft is None
                    && !given.job_queued
            },
            final(self).gate == old(self).gate,
    {
        let as_json = json::parse(body);
        let trimmed_as_json = json::parse(text::trim(body).as_str());
        if let Route::FetchNext(request) = self.route_submission(
            rel_path,
            body,
            &as_json,
            &trimmed_as_json,
        ) {
            if !self.handles.has_page_left(request.handle_id.as_str()) {
                return None;
            }
        }
        Some(self.process_action(business, rel_path, body))
    }

    /// Gives a draft the next number and the time `ts`. An event is one line of the
    /// stream.
    pub fn emit_event_at(&mut self, draft: EventDraft, ts: &str) -> (r: Event)
        requires
            old(self)@.next_seq < i64::MAX,
        ensures
            r.seq == old(self)@.next_seq,
            r.line@ == json::rendered(
                events::event_object(
                    old(self)@.app_id,
                    old(self)@.session_id,
                    old(self)@.next_seq,
                    ts@,
                    draft@,
                ),
            ),
            !r.line@.contains('\n'),
            final(self)@ == (RuntimeView {
                next_seq: (old(self)@.next_seq + 1) as i64,
                ..old(self)@
            }),
            final(self).gate == old(self).gate,
    {
        let seq: i64 = self.next_seq;
        self.next_seq = seq + 1;
        let event = events::event_json(
            self.app_id.as_str(),
            self.session_id.as_str(),
            seq,
            ts,
            draft,
        );
        Event { seq, line: json::render(&event) }
    }

    /// Gives a draft the next number and the time of the clock.
    pub fn emit_event(&mut self, draft: EventDraft) -> (r: Event)
        requires
            old(self)@.next_seq < i64::MAX,
        ensures
            r.seq == old(self)@.next_seq,
            exists|ts: Seq<char>|
                r.line@ == json::rendered(
                    #[trigger] events::event_object(
                        old(self)@.app_id,
                        old(self)@.session_id,
                        old(self)@.next_seq,
                        ts,
                        draft@,
                    ),
                ),
            !r.line@.contains('\n'),
            final(self)@ == (RuntimeView {
                next_seq: (old(self)@.next_seq + 1) as i64,
                ..old(self)@
            }),
            final(self).gate == old(self).gate,
    {
        let ts = clock::now_rfc3339();
        self.emit_event_at(draft, ts.as_str())
    }

    /// Takes note that the event `seq` is out.
    pub fn publish_event(&mut self, seq: i64)
        ensures
            final(self)@ == (RuntimeView {
                cursor: old(self)@.cursor.spec_after(seq),
                ..old(self)@
            }),
            final(self).gate == old(self).gate,
    {
        self.cursor = self.cursor.after(seq);
    }

    /// Takes the jobs out, to tell of each of them once.
    pub fn take_jobs(&mut self) -> (r: Vec<StreamingJob>)
        ensures
            events::job_views(r@) == old(self)@.jobs,
            final(self)@ == (RuntimeView { jobs: Seq::<JobView>::empty(), ..old(self)@ }),
            final(self).gate == old(self).gate,
    {
        let mut jobs: Vec<StreamingJob> = Vec::new();
        std::mem::swap(&mut jobs, &mut self.streaming_jobs);
        assert(self@.jobs =~= Seq::<JobView>::empty());
        jobs
    }

    /// Puts the jobs that are left back.
    pub fn put_jobs(&mut self, jobs: Vec<StreamingJob>)
        ensures
            final(self)@ == (RuntimeView { jobs: events::job_views(jobs@), ..old(self)@ }),
            final(self).gate == old(self).gate,
    {
        self.streaming_jobs = jobs;
    }

    /// Takes note of a resource file: where it is JSON outside the stream
    /// directory and announces a paging handle, the handle becomes known.
    pub fn register_resource(&mut self, rel_path: &str, content: &str)
        ensures
            final(self)@ == (RuntimeView {
                handles: match json::parsed(content@) {
                    Some(resource) if !in_stream(rel_path@) => paging::registered(
                        old(self)@.handles,
                        resource,
                        old(self)@.session_id,
                    ),
                    _ => old(self)@.handles,
                },
                ..old(self)@
            }),
            final(self).gate == old(self).gate,
    {
        let parts = text::split_on(rel_path, '/');
        proof {
            text::lemma_split_nonempty(rel_path@, '/');
            assert(text::views(parts@)[0] == parts@[0]@);
        }
        if text::same(parts[0].as_str(), "_stream") {
            return;
        }
        if let Some(resource) = json::parse(content) {
            self.handles.register(&resource, self.session_id.as_str());
        }
    }
}

/// Once an event is out, the cursor ends at it and the next number follows it.
pub proof fn law_cursor_follows_stream(before: RuntimeView)
    requires
        before.next_seq < i64::MAX,
    ensures
        ({
            let seq = before.next_seq;
            let emitted = RuntimeView { next_seq: (seq + 1) as i64, ..before };
            let after = RuntimeView { cursor: emitted.cursor.spec_after(seq), ..emitted };
            after.cursor.max_seq == seq && after.next_seq == after.cursor.max_seq + 1 && (
            before.cursor.min_seq > 0 ==> after.cursor.min_seq == before.cursor.min_seq)
                && after.cursor.retention_hint_sec > 0
        }),
{
}

/// A submission at a path that leaves the tree, or that no action declares, is
/// rejected without a trace.
pub proof fn law_undeclared_submission_leaves_no_trace<A: AppAdapterV1 + ?Sized>(
    a: &mut A,
    before: RuntimeView,
    after: RuntimeView,
    rel_path: Seq<char>,
    body: Seq<char>,
    request_id: Seq<char>,
    token: Option<Seq<char>>,
    now: i64,
    result: ActionResult,
)
    requires
        !segments::safe_rel_path(rel_path) || first_match(before.specs, rel_path) is None,
        dispatch_relation::<A>(
            a,
            before,
            after,
            route_of_text(before.specs, rel_path, body),
            rel_path,
            body,
            request_id,
            token,
            now,
            result,
        ),
    ensures
        after == before,
        untouched(before, route_of_text(before.specs, rel_path, body), now),
        result.draft is None,
        result.outcome == ProcessOutcome::Rejected,
{
}

/// A refused paging request is answered by exactly one failure event, and
/// changes nothing.
pub proof fn law_refused_page_is_answered<A: AppAdapterV1 + ?Sized>(
    a: &mut A,
    before: RuntimeView,
    after: RuntimeView,
    path: Seq<char>,
    request_id: Seq<char>,
    handle_id: Seq<char>,
    requester: Option<Seq<char>>,
    token: Option<Seq<char>>,
    now: i64,
    draft: DraftView,
)
    requires
        paging::paging_refusal(before.handles, before.session_id, handle_id, requester, now) is Some,
        fetch_relation::<A>(
            a,
            before,
            after,
            path,
            request_id,
            handle_id,
            requester,
            token,
            now,
            draft,
        ),
    ensures
        after == before,
        draft.event_type == "action.failed"@,
        draft.request_id == request_id,
        draft.client_token == token,
        draft.content is None,
{
}

/// A submission whose payload is refused, or that asks for a page without a handle
/// of the right form, is rejected without a trace.
pub proof fn law_refused_payload_leaves_no_trace<A: AppAdapterV1 + ?Sized>(
    a: &mut A,
    before: RuntimeView,
    after: RuntimeView,
    rel_path: Seq<char>,
    body: Seq<char>,
    request_id: Seq<char>,
    token: Option<Seq<char>>,
    now: i64,
    result: ActionResult,
)
    requires
        ({
            let spec = first_match(before.specs, rel_path);
            let request = payload::paging_request(body, json::parsed(text::trimmed(body)));
            ||| spec is Some && payload::refusal(
                spec->0.max_payload_bytes,
                spec->0.input_mode,
                body,
                json::parsed(body) is Some,
            ) is Some
            ||| (rel_path == "_paging/fetch_next.act"@ || rel_path == "_paging/close.act"@) && (
            request is None || !segments::handle_format(request->0.handle_id))
        }),
        dispatch_relation::<A>(
            a,
            before,
            after,
            route_of_text(before.specs, rel_path, body),
            rel_path,
            body,
            request_id,
            token,
            now,
            result,
        ),
    ensures
        after == before,
        untouched(before, route_of_text(before.specs, rel_path, body), now),
        result.draft is None,
        !result.job_queued,
        result.outcome == ProcessOutcome::Rejected,
{
}

/// A submission that is taken is answered by exactly one event that ends it, or
/// starts exactly one job; either way under its own request, path and token.
pub proof fn law_submission_is_answered_once<A: AppAdapterV1 + ?Sized>(
    a: &mut A,
    before: RuntimeView,
    after: RuntimeView,
    to: RouteView,
    rel_path: Seq<char>,
    body: Seq<char>,
    request_id: Seq<char>,
    token: Option<Seq<char>>,
    now: i64,
    result: ActionResult,
)
    requires
        !(to is Rejected),
        dispatch_relation::<A>(
            a,
            before,
            after,
            to,
            rel_path,
            body,
            request_id,
            token,
            now,
            result,
        ),
    ensures
        result.outcome == ProcessOutcome::Submitted,
        result.job_queued <==> result.draft is None,
        match result.draft {
            Some(draft) => {
                &&& draft@.event_type == "action.completed"@ || draft@.event_type
                    == "action.failed"@
                &&& draft@.request_id == request_id
                &&& draft@.path == "/"@ + rel_path
                &&& draft@.client_token == token
                &&& after.jobs == before.jobs
            },
            None => {
                &&& after.jobs.len() == before.jobs.len() + 1
                &&& after.jobs.drop_last() == before.jobs
                &&& after.jobs.last().stage == 0
                &&& after.jobs.last().request_id == request_id
                &&& after.jobs.last().path == "/"@ + rel_path
                &&& after.jobs.last().client_token == token
            },
        },
        after.next_seq == before.next_seq,
{
    match to {
        RouteView::Submit(spec) => {
            let path = "/"@ + rel_path;
            let answer = choose|answer: Result<AdapterSubmitOutcomeV1, AdapterErrorV1>|
                #[trigger] adapter::submitted::<A>(
                    a,
                    path,
                    body,
                    adapter_input_mode(spec.input_mode),
                    adapter_execution_mode(spec.execution_mode),
                    context_of(before, request_id, token),
                    answer,
                ) && opt_draft(result.draft) == submit_draft(path, request_id, token, answer)
                    && result.job_queued == (result.draft is None) && after == (RuntimeView {
                    jobs: submit_jobs(before.jobs, path, request_id, token, answer),
                    ..before
                });
            match answer {
                Ok(AdapterSubmitOutcomeV1::Streaming { plan }) => {
                    let job = events::new_job(path, request_id, token, plan@);
                    assert(before.jobs.push(job).drop_last() =~= before.jobs);
                },
                _ => {},
            }
        },
        _ => {},
    }
}

/// A refused request to close a handle is answered by exactly one failure event,
/// and changes nothing.
pub proof fn law_refused_close_is_answered<A: AppAdapterV1 + ?Sized>(
    a: &mut A,
    before: RuntimeView,
    after: RuntimeView,
    path: Seq<char>,
    request_id: Seq<char>,
    handle_id: Seq<char>,
    requester: Option<Seq<char>>,
    token: Option<Seq<char>>,
    now: i64,
    draft: DraftView,
)
    requires
        paging::paging_refusal(before.handles, before.session_id, handle_id, requester, now) is Some,
        close_relation::<A>(
            a,
            before,
            after,
            path,
            request_id,
            handle_id,
            requester,
            token,
            now,
            draft,
        ),
    ensures
        after == before,
        draft.event_type == "action.failed"@,
        draft.request_id == request_id,
        draft.client_token == token,
        draft.content is None,
{
}

/// Once a handle has been closed, the owner's next request to close it, before it
/// expires, is answered by a failure that says so, and changes nothing.
pub proof fn law_second_close_is_refused<A: AppAdapterV1 + ?Sized>(
    a: &mut A,
    b: &mut A,
    before: RuntimeView,
    between: RuntimeView,
    after: RuntimeView,
    path: Seq<char>,
    first_id: Seq<char>,
    second_id: Seq<char>,
    handle_id: Seq<char>,
    requester: Option<Seq<char>>,
    token: Option<Seq<char>>,
    now: i64,
    later: i64,
    first: DraftView,
    second: DraftView,
)
    requires
        paging::paging_refusal(before.handles, before.session_id, handle_id, requester, now) is None,
        !paging::expired(
            before.handles.handles[paging::handle_key(before.handles, handle_id)],
            later,
        ),
        close_relation::<A>(
            a,
            before,
            between,
            path,
            first_id,
            handle_id,
            requester,
            token,
            now,
            first,
        ),
        close_relation::<A>(
            b,
            between,
            after,
            path,
            second_id,
            handle_id,
            requester,
            token,
            later,
            second,
        ),
    ensures
        untouched(
            between,
            RouteView::Close(PagingRequestView { handle_id, session_id: requester }),
            later,
        ),
        after == between,
        second == events::failed_draft(
            path,
            second_id,
            paging::ERR_PAGER_HANDLE_CLOSED@,
            "handle already closed"@,
            false,
            token,
        ),
{
    paging::law_closed_handle_is_refused(
        before.handles,
        before.session_id,
        handle_id,
        requester,
        now,
        later,
    );
    assert(paging::ERR_PAGER_HANDLE_CLOSED@ != events::ERR_PAGER_HANDLE_EXPIRED@) by {
        reveal_strlit("PAGER_HANDLE_CLOSED");
        reveal_strlit("PAGER_HANDLE_EXPIRED");
        assert(paging::ERR_PAGER_HANDLE_CLOSED@.len() != events::ERR_PAGER_HANDLE_EXPIRED@.len());
    }
}

} // verus!
