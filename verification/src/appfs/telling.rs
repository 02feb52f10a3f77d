//! What is told of the answers of an adapter: an event says exactly what the adapter
//! said, and a job tells exactly what its plan holds.

use crate::appfs::adapter;
use crate::appfs::adapter::{
    AdapterControlOutcomeV1, AdapterErrorV1, AdapterErrorView, AdapterExecutionModeV1,
    AdapterInputModeV1, AdapterSubmitOutcomeV1, AppAdapterV1, ControlActionView,
    RequestContextView,
};
use crate::appfs::events;
use crate::appfs::events::{DraftView, JobView};
use crate::appfs::paging;
use crate::appfs::payload;
use crate::appfs::payload::{ExecutionMode, InputMode, PagingRequestView};
use crate::appfs::runtime;
use crate::appfs::runtime::{ActionResult, ActionSpecView, RouteView, RuntimeView};
use crate::appfs::segments;
use crate::clock;
use crate::json;
use crate::json::JsonView;
use crate::text;
use vstd::prelude::*;

verus! {

/// A draft says that the action at `path` came to its end with `content`.
pub open spec fn says_done(
    draft: DraftView,
    path: Seq<char>,
    request_id: Seq<char>,
    token: Option<Seq<char>>,
    content: JsonView,
) -> bool {
    &&& draft.event_type == "action.completed"@
    &&& draft.content == Some(content)
    &&& draft.error is None
    &&& draft.path == path
    &&& draft.request_id == request_id
    &&& draft.client_token == token
}

/// A draft says that the action at `path` failed, and why: an error that the adapter
/// gives a code keeps its code, its message and whether it may be tried again; any
/// other is an internal one that may be.
pub open spec fn says_failed(
    draft: DraftView,
    path: Seq<char>,
    request_id: Seq<char>,
    token: Option<Seq<char>>,
    error: AdapterErrorView,
) -> bool {
    let (code, message, retryable) = match error {
        AdapterErrorView::Rejected { code, message, retryable } => (code, message, retryable),
        AdapterErrorView::Internal { message } => ("INTERNAL"@, message, true),
    };
    &&& draft.event_type == "action.failed"@
    &&& draft.content is None
    &&& draft.error is Some
    &&& json::string_member(draft.error->0, "code"@) == Some(code)
    &&& json::string_member(draft.error->0, "message"@) == Some(message)
    &&& json::member(draft.error->0, "retryable"@) == Some(JsonView::Bool(retryable))
    &&& draft.path == path
    &&& draft.request_id == request_id
    &&& draft.client_token == token
}

proof fn lemma_failure_says_why(
    path: Seq<char>,
    request_id: Seq<char>,
    token: Option<Seq<char>>,
    error: AdapterErrorView,
)
    ensures
        says_failed(
            events::adapter_error_draft(path, request_id, error, token),
            path,
            request_id,
            token,
            error,
        ),
{
    match error {
        AdapterErrorView::Rejected { code, message, retryable } => {
            events::law_failures_say_why(path, request_id, code, message, retryable, token);
        },
        AdapterErrorView::Internal { message } => {
            events::law_failures_say_why(path, request_id, "INTERNAL"@, message, true, token);
        },
    }
}

/// An action that reaches the adapter reaches it once, with the path, the payload and
/// the modes that it was declared with, under the application, the session, the
/// request and the token that it came with. What the adapter answers is told: where
/// it says that the action is completed, the event has exactly that content and no
/// error; where it fails, the event says why and has no content; where it answers
/// with a plan, one job is taken up that holds the three contents of the plan, and
/// nothing is told yet.
pub proof fn law_answer_is_told<A: AppAdapterV1 + ?Sized>(
    a: &mut A,
    before: RuntimeView,
    after: RuntimeView,
    spec: ActionSpecView,
    input_mode: AdapterInputModeV1,
    execution_mode: AdapterExecutionModeV1,
    rel_path: Seq<char>,
    body: Seq<char>,
    request_id: Seq<char>,
    token: Option<Seq<char>>,
    now: i64,
    result: ActionResult,
)
    requires
        input_mode == match spec.input_mode {
            InputMode::Text => AdapterInputModeV1::Text,
            InputMode::Json => AdapterInputModeV1::Json,
            InputMode::TextOrJson => AdapterInputModeV1::TextOrJson,
        },
        execution_mode == match spec.execution_mode {
            ExecutionMode::Inline => AdapterExecutionModeV1::Inline,
            ExecutionMode::Streaming => AdapterExecutionModeV1::Streaming,
        },
        runtime::dispatch_relation::<A>(
            a,
            before,
            after,
            RouteView::Submit(spec),
            rel_path,
            body,
            request_id,
            token,
            now,
            result,
        ),
    ensures
        exists|answer: Result<AdapterSubmitOutcomeV1, AdapterErrorV1>| #[trigger]
            adapter::submitted::<A>(
                a,
                "/"@ + rel_path,
                body,
                input_mode,
                execution_mode,
                (RequestContextView {
                    app_id: before.app_id,
                    session_id: before.session_id,
                    request_id,
                    client_token: token,
                }),
                answer,
            ) && match answer {
                Ok(AdapterSubmitOutcomeV1::Completed { content }) => {
                    &&& result.draft is Some
                    &&& says_done(
                        result.draft->0@,
                        "/"@ + rel_path,
                        request_id,
                        token,
                        content@,
                    )
                    &&& after == before
                },
                Ok(AdapterSubmitOutcomeV1::Streaming { plan }) => {
                    &&& result.draft is None
                    &&& after.jobs.len() == before.jobs.len() + 1
                    &&& after.jobs.drop_last() == before.jobs
                    &&& after.jobs.last().path == "/"@ + rel_path
                    &&& after.jobs.last().request_id == request_id
                    &&& after.jobs.last().client_token == token
                    &&& after.jobs.last().accepted == json::opt(plan.accepted_content)
                    &&& after.jobs.last().progress == json::opt(plan.progress_content)
                    &&& after.jobs.last().terminal == plan.terminal_content@
                    &&& after.jobs.last().stage == 0
                    &&& after.handles == before.handles
                },
                Err(e) => {
                    &&& result.draft is Some
                    &&& says_failed(
                        result.draft->0@,
                        "/"@ + rel_path,
                        request_id,
                        token,
                        e@,
                    )
                    &&& after == before
                },
            },
{
    let path = "/"@ + rel_path;
    let answer = choose|answer: Result<AdapterSubmitOutcomeV1, AdapterErrorV1>|
        #[trigger] adapter::submitted::<A>(
            a,
            path,
            body,
            runtime::adapter_input_mode(spec.input_mode),
            runtime::adapter_execution_mode(spec.execution_mode),
            runtime::context_of(before, request_id, token),
            answer,
        ) && runtime::opt_draft(result.draft) == runtime::submit_draft(
            path,
            request_id,
            token,
            answer,
        ) && result.job_queued == (result.draft is None) && after == (RuntimeView {
            jobs: runtime::submit_jobs(before.jobs, path, request_id, token, answer),
            ..before
        });
    match answer {
        Ok(AdapterSubmitOutcomeV1::Completed { content }) => {},
        Ok(AdapterSubmitOutcomeV1::Streaming { plan }) => {
            assert(after.jobs.drop_last() =~= before.jobs);
        },
        Err(e) => {
            lemma_failure_says_why(path, request_id, token, e@);
        },
    }
}

/// A page that is granted is asked of the adapter once, by the name under which the
/// handle is kept, with the number of the next page and whether there are more after
/// it; the handle has given out that page from then on, and no other handle has
/// changed. What the adapter answers is told.
pub proof fn law_page_is_told<A: AppAdapterV1 + ?Sized>(
    a: &mut A,
    before: RuntimeView,
    after: RuntimeView,
    path: Seq<char>,
    request_id: Seq<char>,
    handle_id: Seq<char>,
    requester: Option<Seq<char>>,
    token: Option<Seq<char>>,
    now: i64,
    draft: DraftView,
    action: ControlActionView,
)
    requires
        paging::page_left(before.handles, handle_id),
        paging::paging_refusal(before.handles, before.session_id, handle_id, requester, now)
            is None,
        runtime::fetch_relation::<A>(
            a,
            before,
            after,
            path,
            request_id,
            handle_id,
            requester,
            token,
            now,
            draft,
        ),
        ({
            let key = paging::handle_key(before.handles, handle_id);
            let page = before.handles.handles[key].page_no + 1;
            action == (ControlActionView::PagingFetchNext {
                handle_id: key,
                page_no: page as u64,
                has_more: page < 3,
            })
        }),
    ensures
        ({
            let key = paging::handle_key(before.handles, handle_id);
            let page = before.handles.handles[key].page_no + 1;
            &&& after.handles.handles[key].page_no == page
            &&& !after.handles.handles[key].closed
            &&& after.handles.handles[key].owner_session
                == before.handles.handles[key].owner_session
            &&& after.handles.handles[key].expires_at_ts
                == before.handles.handles[key].expires_at_ts
            &&& after.handles.handles.remove(key) =~= before.handles.handles.remove(key)
            &&& after.handles.aliases == before.handles.aliases
            &&& after.jobs == before.jobs
            &&& exists|answer: Result<AdapterControlOutcomeV1, AdapterErrorV1>| #[trigger]
                adapter::controlled::<A>(
                    a,
                    path,
                    action,
                    (RequestContextView {
                        app_id: before.app_id,
                        session_id: before.session_id,
                        request_id,
                        client_token: token,
                    }),
                    answer,
                ) && match answer {
                    Ok(AdapterControlOutcomeV1::Completed { content }) => says_done(
                        draft,
                        path,
                        request_id,
                        token,
                        content@,
                    ),
                    Err(e) => says_failed(draft, path, request_id, token, e@),
                }
        }),
{
    let key = paging::handle_key(before.handles, handle_id);
    let answer = choose|answer: Result<AdapterControlOutcomeV1, AdapterErrorV1>|
        #[trigger] adapter::controlled::<A>(
            a,
            path,
            runtime::fetch_action(before.handles, key),
            runtime::context_of(before, request_id, token),
            answer,
        ) && draft == events::control_draft(path, request_id, answer, token);
    match answer {
        Ok(_) => {},
        Err(e) => {
            lemma_failure_says_why(path, request_id, token, e@);
        },
    }
}

/// A handle that may be closed is closed, and nothing else is; the adapter is asked
/// once to close it, and what it answers is told.
pub proof fn law_close_is_told<A: AppAdapterV1 + ?Sized>(
    a: &mut A,
    before: RuntimeView,
    after: RuntimeView,
    path: Seq<char>,
    request_id: Seq<char>,
    handle_id: Seq<char>,
    requester: Option<Seq<char>>,
    token: Option<Seq<char>>,
    now: i64,
    draft: DraftView,
)
    requires
        paging::paging_refusal(before.handles, before.session_id, handle_id, requester, now)
            is None,
        runtime::close_relation::<A>(
            a,
            before,
            after,
            path,
            request_id,
            handle_id,
            requester,
            token,
            now,
            draft,
        ),
    ensures
        ({
            let key = paging::handle_key(before.handles, handle_id);
            &&& after.handles.handles[key].closed
            &&& after.handles.handles[key].page_no == before.handles.handles[key].page_no
            &&& after.handles.handles[key].owner_session
                == before.handles.handles[key].owner_session
            &&& after.handles.handles[key].expires_at_ts
                == before.handles.handles[key].expires_at_ts
            &&& after.handles.handles.remove(key) =~= before.handles.handles.remove(key)
            &&& after.handles.aliases == before.handles.aliases
            &&& after.jobs == before.jobs
            &&& exists|answer: Result<AdapterControlOutcomeV1, AdapterErrorV1>| #[trigger]
                adapter::controlled::<A>(
                    a,
                    path,
                    (ControlActionView::PagingClose { handle_id: key }),
                    (RequestContextView {
                        app_id: before.app_id,
                        session_id: before.session_id,
                        request_id,
                        client_token: token,
                    }),
                    answer,
                ) && match answer {
                    Ok(AdapterControlOutcomeV1::Completed { content }) => says_done(
                        draft,
                        path,
                        request_id,
                        token,
                        content@,
                    ),
                    Err(e) => says_failed(draft, path, request_id, token, e@),
                }
        }),
{
    let key = paging::handle_key(before.handles, handle_id);
    let answer = choose|answer: Result<AdapterControlOutcomeV1, AdapterErrorV1>|
        #[trigger] adapter::controlled::<A>(
            a,
            path,
            ControlActionView::PagingClose { handle_id: key },
            runtime::context_of(before, request_id, token),
            answer,
        ) && draft == events::control_draft(path, request_id, answer, token);
    match answer {
        Ok(_) => {},
        Err(e) => {
            lemma_failure_says_why(path, request_id, token, e@);
        },
    }
}

/// A refusal of a page or of a close says the code and the message of its reason, and
/// only a handle that has expired may be asked for again.
pub proof fn law_refusal_is_told<A: AppAdapterV1 + ?Sized>(
    a: &mut A,
    before: RuntimeView,
    after: RuntimeView,
    path: Seq<char>,
    request_id: Seq<char>,
    handle_id: Seq<char>,
    requester: Option<Seq<char>>,
    token: Option<Seq<char>>,
    now: i64,
    draft: DraftView,
)
    requires
        paging::paging_refusal(before.handles, before.session_id, handle_id, requester, now)
            is Some,
        runtime::fetch_relation::<A>(
            a,
            before,
            after,
            path,
            request_id,
            handle_id,
            requester,
            token,
            now,
            draft,
        ) || runtime::close_relation::<A>(
            a,
            before,
            after,
            path,
            request_id,
            handle_id,
            requester,
            token,
            now,
            draft,
        ),
    ensures
        after == before,
        ({
            let (code, message) = paging::paging_refusal(
                before.handles,
                before.session_id,
                handle_id,
                requester,
                now,
            )->0;
            says_failed(
                draft,
                path,
                request_id,
                token,
                AdapterErrorView::Rejected {
                    code,
                    message,
                    retryable: code == "PAGER_HANDLE_EXPIRED"@,
                },
            )
        }),
{
    let (code, message) = paging::paging_refusal(
        before.handles,
        before.session_id,
        handle_id,
        requester,
        now,
    )->0;
    events::law_failures_say_why(
        path,
        request_id,
        code,
        message,
        code == "PAGER_HANDLE_EXPIRED"@,
        token,
    );
}

/// A paging request is granted where the handle has the right form, is known, belongs
/// to the session that asks, has not expired and is not closed. Else it is refused
/// for the first of these that fails.
pub proof fn law_who_may_page(
    before: RuntimeView,
    id: Seq<char>,
    requester: Option<Seq<char>>,
    now: i64,
)
    ensures
        ({
            let r = paging::paging_refusal(before.handles, before.session_id, id, requester, now);
            let key = paging::handle_key(before.handles, id);
            let h = before.handles.handles[key];
            let code = match r {
                Some((c, _)) => c,
                None => Seq::<char>::empty(),
            };
            let formed = segments::handle_format(id);
            let known = before.handles.handles.contains_key(key);
            let asks = match requester {
                Some(s) => s,
                None => before.session_id,
            };
            let over = h.expires_at_ts matches Some(t) && t <= now;
            &&& r is None <==> formed && known && asks == h.owner_session && !over && !h.closed
            &&& !formed ==> code == "INVALID_ARGUMENT"@
            &&& formed && !known ==> code == "PAGER_HANDLE_NOT_FOUND"@
            &&& formed && known && asks != h.owner_session ==> code == "PERMISSION_DENIED"@
            &&& formed && known && asks == h.owner_session && over ==> code
                == "PAGER_HANDLE_EXPIRED"@
            &&& formed && known && asks == h.owner_session && !over && h.closed ==> code
                == "PAGER_HANDLE_CLOSED"@
        }),
{
}

/// A job tells first that it was taken up, with the content that its plan gives or the
/// word `accepted`; next how far it got, with the content that its plan gives or half
/// of the way; last how it ended, with exactly the content of its plan. No telling
/// has an error, and no telling changes what is still to be told.
pub proof fn law_job_tells_its_plan(job: JobView)
    requires
        job.stage == 0,
    ensures
        ({
            let second = events::job_rest(job);
            let third = events::job_rest(second->0);
            &&& second is Some
            &&& third is Some
            &&& events::job_rest(third->0) is None
            &&& events::job_draft(job).event_type == "action.accepted"@
            &&& events::job_draft(job).content == Some(
                match job.accepted {
                    Some(c) => c,
                    None => JsonView::Text("accepted"@),
                },
            )
            &&& events::job_draft(second->0).event_type == "action.progress"@
            &&& events::job_draft(second->0).content == Some(
                match job.progress {
                    Some(c) => c,
                    None => JsonView::Object(seq![("percent"@, JsonView::Int(50))]),
                },
            )
            &&& says_done(
                events::job_draft(third->0),
                job.path,
                job.request_id,
                job.client_token,
                job.terminal,
            )
            &&& events::job_draft(job).error is None
            &&& events::job_draft(second->0).error is None
        }),
{
}

/// In a round each job is told of once, in the order of the jobs, and what is left are
/// the jobs that have more to tell, in the same order.
pub proof fn law_round_tells_each_job_once(jobs: Seq<JobView>, job: JobView)
    ensures
        events::round_drafts(jobs).len() == jobs.len(),
        forall|i: int|
            0 <= i < jobs.len() ==> {
                &&& (#[trigger] events::round_drafts(jobs)[i]).request_id == jobs[i].request_id
                &&& events::round_drafts(jobs)[i].path == jobs[i].path
                &&& events::round_drafts(jobs)[i].client_token == jobs[i].client_token
                &&& events::round_drafts(jobs)[i].content == events::job_draft(jobs[i]).content
            },
        events::round_rest(Seq::<JobView>::empty()) == Seq::<JobView>::empty(),
        job.stage < 2 ==> events::round_rest(jobs.push(job)) == events::round_rest(jobs).push(
            JobView { stage: (job.stage + 1) as u8, ..job },
        ),
        job.stage >= 2 ==> events::round_rest(jobs.push(job)) == events::round_rest(jobs),
{
    assert(jobs.push(job).drop_last() =~= jobs);
}

/// The action that a path reaches is declared, its template matches the path, and no
/// action that is declared before it does; where none matches, none is reached.
pub proof fn law_first_declaration_counts(specs: Seq<ActionSpecView>, rel_path: Seq<char>)
    ensures
        match runtime::first_match(specs, rel_path) {
            Some(spec) => exists|i: int|
                0 <= i < specs.len() && spec == #[trigger] specs[i] && segments::template_matches(
                    spec.template,
                    rel_path,
                ) && forall|j: int|
                    0 <= j < i ==> !segments::template_matches(
                        (#[trigger] specs[j]).template,
                        rel_path,
                    ),
            None => forall|j: int|
                0 <= j < specs.len() ==> !segments::template_matches(
                    (#[trigger] specs[j]).template,
                    rel_path,
                ),
        },
    decreases specs.len(),
{
    if specs.len() > 0 {
        if segments::template_matches(specs[0].template, rel_path) {
            assert(specs[0] == runtime::first_match(specs, rel_path)->0);
        } else {
            let rest = specs.drop_first();
            law_first_declaration_counts(rest, rel_path);
            match runtime::first_match(rest, rel_path) {
                Some(spec) => {
                    let i = choose|i: int|
                        0 <= i < rest.len() && spec == #[trigger] rest[i]
                            && segments::template_matches(spec.template, rel_path) && forall|j: int|
                            0 <= j < i ==> !segments::template_matches(
                                (#[trigger] rest[j]).template,
                                rel_path,
                            );
                    assert(specs[i + 1] == rest[i]);
                    assert forall|j: int| 0 <= j < i + 1 implies !segments::template_matches(
                        (#[trigger] specs[j]).template,
                        rel_path,
                    ) by {
                        if j > 0 {
                            assert(rest[j - 1] == specs[j]);
                        }
                    }
                },
                None => {
                    assert forall|j: int| 0 <= j < specs.len() implies !segments::template_matches(
                        (#[trigger] specs[j]).template,
                        rel_path,
                    ) by {
                        if j > 0 {
                            assert(rest[j - 1] == specs[j]);
                        }
                    }
                },
            }
        }
    }
}

/// A submission at a declared path whose payload is not refused goes where its path
/// says: a page or a close to the handle that the payload names, anything else to the
/// adapter, as it was declared.
pub proof fn law_declared_submission_is_routed(
    specs: Seq<ActionSpecView>,
    rel_path: Seq<char>,
    body: Seq<char>,
    request: PagingRequestView,
)
    requires
        segments::safe_rel_path(rel_path),
        runtime::first_match(specs, rel_path) is Some,
        ({
            let spec = runtime::first_match(specs, rel_path)->0;
            payload::refusal(
                spec.max_payload_bytes,
                spec.input_mode,
                body,
                json::parsed(body) is Some,
            ) is None
        }),
        payload::paging_request(body, json::parsed(text::trimmed(body))) == Some(request),
        segments::handle_format(request.handle_id),
    ensures
        ({
            let r = runtime::route_of_text(specs, rel_path, body);
            if rel_path == "_paging/fetch_next.act"@ {
                r == RouteView::FetchNext(request)
            } else if rel_path == "_paging/close.act"@ {
                r == RouteView::Close(request)
            } else {
                r == RouteView::Submit(runtime::first_match(specs, rel_path)->0)
            }
        }),
{
    reveal_strlit("_paging/fetch_next.act");
    reveal_strlit("_paging/close.act");
    assert("_paging/fetch_next.act"@.len() != "_paging/close.act"@.len());
}

/// A handle that a resource announces has given out no page yet, is open, belongs to the
/// session that the page names, or else to the one that is running, and expires when the
/// page says, if it says when. A resource without a page, or whose page names no handle,
/// announces none.
pub proof fn law_handle_is_announced(
    table: paging::TableView,
    resource: JsonView,
    page: JsonView,
    id: Seq<char>,
    session: Seq<char>,
)
    requires
        json::member(resource, "page"@) == Some(page),
        json::string_member(page, "handle_id"@) == Some(id),
    ensures
        ({
            let after = paging::registered(table, resource, session);
            let kept = segments::shortened(id, 255);
            let h = after.handles[kept];
            &&& after.handles.contains_key(kept)
            &&& h.page_no == 0
            &&& !h.closed
            &&& h.owner_session == match json::string_member(page, "session_id"@) {
                Some(s) => if text::trimmed(s).len() > 0 {
                    text::trimmed(s)
                } else {
                    session
                },
                None => session,
            }
            &&& h.expires_at_ts == match json::string_member(page, "expires_at"@) {
                Some(t) => clock::rfc3339(t),
                None => None,
            }
            &&& after.handles.remove(kept) =~= table.handles.remove(kept)
            &&& kept != id ==> after.aliases == table.aliases.insert(id, kept)
            &&& kept == id ==> after.aliases == table.aliases
        }),
{
}

/// A resource that announces no handle leaves the handles as they are.
pub proof fn law_nothing_is_announced(
    table: paging::TableView,
    resource: JsonView,
    session: Seq<char>,
)
    requires
        json::member(resource, "page"@) matches Some(page) ==> json::string_member(
            page,
            "handle_id"@,
        ) is None,
    ensures
        paging::registered(table, resource, session) == table,
{
}

} // verus!
