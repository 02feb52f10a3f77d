//! Matrices of cases that every adapter is expected to pass.

use crate::appfs::adapter;
use crate::appfs::adapter::{
    AdapterControlActionV1, AdapterControlOutcomeV1, AdapterErrorV1, AdapterErrorView,
    AdapterExecutionModeV1, AdapterInputModeV1, AdapterSubmitOutcomeV1, AppAdapterV1,
    ControlActionView, RequestContextV1, RequestContextView,
};
use crate::text;
use vstd::prelude::*;
use vstd::string::*;

verus! {

/// The cases that an adapter must answer with success.
#[derive(Debug, Clone, PartialEq, Eq)]
pub struct RequiredCaseMatrixV1 {
    pub inline_path: String,
    pub inline_payload: String,
    pub inline_input_mode: AdapterInputModeV1,
    pub streaming_path: String,
    pub streaming_payload: String,
    pub streaming_input_mode: AdapterInputModeV1,
    pub fetch_next_path: String,
    pub close_path: String,
    pub fetch_handle_id: String,
}

impl Default for RequiredCaseMatrixV1 {
    fn default() -> (r: Self)
        ensures
            r.inline_path@ == "/contacts/zhangsan/send_message.act"@,
            r.inline_payload@ == "hello\n"@,
            r.inline_input_mode == AdapterInputModeV1::Text,
            r.streaming_path@ == "/files/file-001/download.act"@,
            r.streaming_payload@ == "{\"target\":\"/tmp/a.bin\"}"@,
            r.streaming_input_mode == AdapterInputModeV1::Json,
            r.fetch_next_path@ == "/_paging/fetch_next.act"@,
            r.close_path@ == "/_paging/close.act"@,
            r.fetch_handle_id@ == "ph_abc"@,
    {
        RequiredCaseMatrixV1 {
            inline_path: "/contacts/zhangsan/send_message.act".to_owned(),
            inline_payload: "hello\n".to_owned(),
            inline_input_mode: AdapterInputModeV1::Text,
            streaming_path: "/files/file-001/download.act".to_owned(),
            streaming_payload: "{\"target\":\"/tmp/a.bin\"}".to_owned(),
            streaming_input_mode: AdapterInputModeV1::Json,
            fetch_next_path: "/_paging/fetch_next.act".to_owned(),
            close_path: "/_paging/close.act".to_owned(),
            fetch_handle_id: "ph_abc".to_owned(),
        }
    }
}

/// The cases that an adapter must answer with an error.
#[derive(Debug, Clone, PartialEq, Eq)]
pub struct ErrorCaseMatrixV1 {
    pub rejected_path: String,
    pub rejected_payload: String,
    pub rejected_input_mode: AdapterInputModeV1,
    pub expected_rejected_code: String,
    pub internal_path: String,
    pub internal_payload: String,
    pub internal_input_mode: AdapterInputModeV1,
}

impl Default for ErrorCaseMatrixV1 {
    fn default() -> (r: Self)
        ensures
            r.rejected_path@ == "/actions/reject.act"@,
            r.rejected_payload@ == "{}"@,
            r.rejected_input_mode == AdapterInputModeV1::Json,
            r.expected_rejected_code@ == "INVALID_ARGUMENT"@,
            r.internal_path@ == "/actions/internal.act"@,
            r.internal_payload@ == "{}"@,
            r.internal_input_mode == AdapterInputModeV1::Json,
    {
        ErrorCaseMatrixV1 {
            rejected_path: "/actions/reject.act".to_owned(),
            rejected_payload: "{}".to_owned(),
            rejected_input_mode: AdapterInputModeV1::Json,
            expected_rejected_code: "INVALID_ARGUMENT".to_owned(),
            internal_path: "/actions/internal.act".to_owned(),
            internal_payload: "{}".to_owned(),
            internal_input_mode: AdapterInputModeV1::Json,
        }
    }
}

/// The case that an adapter failed, and how.
#[derive(Debug, Clone, PartialEq, Eq)]
pub struct AdapterCaseErrorV1 {
    pub case: &'static str,
    pub message: String,
}

/// What a failed case holds.
pub struct CaseErrorView {
    pub case: Seq<char>,
    pub message: Seq<char>,
}

impl View for AdapterCaseErrorV1 {
    type V = CaseErrorView;

    open spec fn view(&self) -> CaseErrorView {
        CaseErrorView { case: self.case@, message: self.message@ }
    }
}

impl AdapterCaseErrorV1 {
    /// The message that this error shows.
    pub fn to_string(&self) -> (r: String)
        ensures
            r@ == "adapter case '"@ + self.case@ + "': "@ + self.message@,
    {
        let mut out = text::concat3("adapter case '", self.case, "': ");
        out.append(self.message.as_str());
        out
    }
}

pub open spec fn verdict(r: Result<(), AdapterCaseErrorV1>) -> Option<CaseErrorView> {
    match r {
        Ok(()) => None,
        Err(e) => Some(e@),
    }
}

pub open spec fn failure(case: Seq<char>, message: Seq<char>) -> Option<CaseErrorView> {
    Some(CaseErrorView { case, message })
}

/// The complaint about the application that an adapter serves.
pub open spec fn app_verdict(app_id: Seq<char>, expected: Seq<char>, shown: Seq<char>) -> Option<
    CaseErrorView,
> {
    if app_id == expected {
        None
    } else {
        failure(
            "context.app_id"@,
            "adapter app_id '"@ + shown + "' does not match context app_id '"@ + expected + "'"@,
        )
    }
}

/// The complaint about the answer to the inline case.
pub open spec fn inline_verdict(
    result: Result<AdapterSubmitOutcomeV1, AdapterErrorV1>,
) -> Option<CaseErrorView> {
    match result {
        Err(e) => failure(
            "inline.submit"@,
            "unexpected error: "@ + adapter::error_message(e@),
        ),
        Ok(AdapterSubmitOutcomeV1::Completed { .. }) => None,
        Ok(_) => failure("inline.submit"@, "expected AdapterSubmitOutcomeV1::Completed"@),
    }
}

/// The complaint about the answer to the streaming case.
pub open spec fn streaming_verdict(
    result: Result<AdapterSubmitOutcomeV1, AdapterErrorV1>,
) -> Option<CaseErrorView> {
    match result {
        Err(e) => failure(
            "streaming.submit"@,
            "unexpected error: "@ + adapter::error_message(e@),
        ),
        Ok(AdapterSubmitOutcomeV1::Streaming { plan }) => if plan.terminal_content@ is Null {
            failure("streaming.submit"@, "terminal_content must not be null"@)
        } else {
            None
        },
        Ok(_) => failure("streaming.submit"@, "expected AdapterSubmitOutcomeV1::Streaming"@),
    }
}

/// The complaint about the answer to a control case.
pub open spec fn control_verdict(
    case: Seq<char>,
    result: Result<AdapterControlOutcomeV1, AdapterErrorV1>,
) -> Option<CaseErrorView> {
    match result {
        Err(e) => failure(case, "unexpected error: "@ + adapter::error_message(e@)),
        Ok(_) => None,
    }
}

/// The complaint about the answer to the case that is to be rejected.
pub open spec fn rejected_verdict(
    expected: Seq<char>,
    result: Result<AdapterSubmitOutcomeV1, AdapterErrorV1>,
) -> Option<CaseErrorView> {
    match result {
        Ok(_) => failure(
            "error.rejected"@,
            "expected rejected error, got successful outcome"@,
        ),
        Err(e) => match e@ {
            AdapterErrorView::Rejected { code, .. } => if code == expected {
                None
            } else {
                failure(
                    "error.rejected"@,
                    "expected rejected code '"@ + expected + "' got '"@ + code + "'"@,
                )
            },
            AdapterErrorView::Internal { .. } => failure(
                "error.rejected"@,
                "expected rejected error, got '"@ + adapter::error_message(e@) + "'"@,
            ),
        },
    }
}

/// The complaint about the answer to the case that is to fail internally.
pub open spec fn internal_verdict(
    result: Result<AdapterSubmitOutcomeV1, AdapterErrorV1>,
) -> Option<CaseErrorView> {
    match result {
        Ok(_) => failure(
            "error.internal"@,
            "expected internal error, got successful outcome"@,
        ),
        Err(e) => match e@ {
            AdapterErrorView::Internal { .. } => None,
            AdapterErrorView::Rejected { .. } => failure(
                "error.internal"@,
                "expected internal error, got '"@ + adapter::error_message(e@) + "'"@,
            ),
        },
    }
}

fn case_error(case: &'static str, message: String) -> (r: AdapterCaseErrorV1)
    ensures
        r@ == (CaseErrorView { case: case@, message: message@ }),
{
    AdapterCaseErrorV1 { case, message }
}

/// A context with fixed values, for the matrices.
pub fn default_request_context_v1(app_id: &str) -> (r: RequestContextV1)
    ensures
        r@ == (RequestContextView {
            app_id: app_id@,
            session_id: "sess-test"@,
            request_id: "req-test"@,
            client_token: Some("tok-1"@),
        }),
{
    RequestContextV1 {
        app_id: app_id.to_owned(),
        session_id: "sess-test".to_owned(),
        request_id: "req-test".to_owned(),
        client_token: Some("tok-1".to_owned()),
    }
}

fn unexpected(case: &'static str, e: &AdapterErrorV1) -> (r: AdapterCaseErrorV1)
    ensures
        r@ == (CaseErrorView {
            case: case@,
            message: "unexpected error: "@ + adapter::error_message(e@),
        }),
{
    case_error(case, text::concat("unexpected error: ", e.to_string().as_str()))
}

/// Judges which application an adapter serves.
pub fn judge_app(app_id: &str, expected: &str, shown: &str) -> (r: Result<(), AdapterCaseErrorV1>)
    ensures
        verdict(r) == app_verdict(app_id@, expected@, shown@),
{
    if text::same(app_id, expected) {
        return Ok(());
    }
    let mut message = text::concat3(
        "adapter app_id '",
        shown,
        "' does not match context app_id '",
    );
    message.append(expected);
    message.append("'");
    Err(case_error("context.app_id", message))
}

/// Judges the answer to the inline case.
pub fn judge_inline(result: &Result<AdapterSubmitOutcomeV1, AdapterErrorV1>) -> (r: Result<
    (),
    AdapterCaseErrorV1,
>)
    ensures
        verdict(r) == inline_verdict(*result),
{
    match result {
        Err(e) => Err(unexpected("inline.submit", e)),
        Ok(AdapterSubmitOutcomeV1::Completed { .. }) => Ok(()),
        Ok(_) => Err(
            case_error("inline.submit", "expected AdapterSubmitOutcomeV1::Completed".to_owned()),
        ),
    }
}

/// Judges the answer to the streaming case.
pub fn judge_streaming(result: &Result<AdapterSubmitOutcomeV1, AdapterErrorV1>) -> (r: Result<
    (),
    AdapterCaseErrorV1,
>)
    ensures
        verdict(r) == streaming_verdict(*result),
{
    match result {
        Err(e) => Err(unexpected("streaming.submit", e)),
        Ok(AdapterSubmitOutcomeV1::Streaming { plan }) => if plan.terminal_content.is_null() {
            Err(case_error("streaming.submit", "terminal_content must not be null".to_owned()))
        } else {
            Ok(())
        },
        Ok(_) => Err(
            case_error(
                "streaming.submit",
                "expected AdapterSubmitOutcomeV1::Streaming".to_owned(),
            ),
        ),
    }
}

/// Judges the answer to a control case.
pub fn judge_control(
    case: &'static str,
    result: &Result<AdapterControlOutcomeV1, AdapterErrorV1>,
) -> (r: Result<(), AdapterCaseErrorV1>)
    ensures
        verdict(r) == control_verdict(case@, *result),
{
    match result {
        Err(e) => Err(unexpected(case, e)),
        Ok(_) => Ok(()),
    }
}

/// Judges the answer to the case that is to be rejected.
pub fn judge_rejected(
    expected: &str,
    result: &Result<AdapterSubmitOutcomeV1, AdapterErrorV1>,
) -> (r: Result<(), AdapterCaseErrorV1>)
    ensures
        verdict(r) == rejected_verdict(expected@, *result),
{
    match result {
        Ok(_) => Err(
            case_error(
                "error.rejected",
                "expected rejected error, got successful outcome".to_owned(),
            ),
        ),
        Err(e) => match e {
            AdapterErrorV1::Rejected { code, .. } => if text::same(code.as_str(), expected) {
                Ok(())
            } else {
                let mut message = text::concat3("expected rejected code '", expected, "' got '");
                message.append(code.as_str());
                message.append("'");
                Err(case_error("error.rejected", message))
            },
            AdapterErrorV1::Internal { .. } => Err(
                case_error(
                    "error.rejected",
                    text::concat3(
                        "expected rejected error, got '",
                        e.to_string().as_str(),
                        "'",
                    ),
                ),
            ),
        },
    }
}

/// Judges the answer to the case that is to fail internally.
pub fn judge_internal(result: &Result<AdapterSubmitOutcomeV1, AdapterErrorV1>) -> (r: Result<
    (),
    AdapterCaseErrorV1,
>)
    ensures
        verdict(r) == internal_verdict(*result),
{
    match result {
        Ok(_) => Err(
            case_error(
                "error.internal",
                "expected internal error, got successful outcome".to_owned(),
            ),
        ),
        Err(e) => match e {
            AdapterErrorV1::Internal { .. } => Ok(()),
            AdapterErrorV1::Rejected { .. } => Err(
                case_error(
                    "error.internal",
                    text::concat3(
                        "expected internal error, got '",
                        e.to_string().as_str(),
                        "'",
                    ),
                ),
            ),
        },
    }
}

/// What is asked of an adapter for the first page of the handle in the cases.
pub open spec fn first_page_of(cases: RequiredCaseMatrixV1) -> ControlActionView {
    ControlActionView::PagingFetchNext {
        handle_id: cases.fetch_handle_id@,
        page_no: 1,
        has_more: true,
    }
}

/// What is asked of an adapter to close the handle in the cases.
pub open spec fn closing_of(cases: RequiredCaseMatrixV1) -> ControlActionView {
    ControlActionView::PagingClose { handle_id: cases.fetch_handle_id@ }
}

/// Runs the required cases against `adapter`, up to the first failure. An adapter of
/// another application is asked nothing. Else it is asked up to four times, each
/// time as the call before has left it, and not beyond the first answer that fails.
pub fn run_required_case_matrix_v1<A: AppAdapterV1 + ?Sized>(
    adapter: &mut A,
    ctx: &RequestContextV1,
    cases: &RequiredCaseMatrixV1,
) -> (r: Result<(), AdapterCaseErrorV1>)
    ensures
        exists|app_id: Seq<char>, shown: Seq<char>|
            #[trigger] adapter::names_app::<A>(&*old(adapter), app_id)
                && #[trigger] adapter::names_app::<A>(&*old(adapter), shown) && match app_verdict(
                app_id,
                ctx@.app_id,
                shown,
            ) {
                Some(e) => verdict(r) == Some(e) && &*final(adapter) == &*old(adapter),
                None => exists|
                    first: &mut A,
                    inline: Result<AdapterSubmitOutcomeV1, AdapterErrorV1>,
                |
                    #[trigger] adapter::submitted::<A>(
                        first,
                        cases.inline_path@,
                        cases.inline_payload@,
                        cases.inline_input_mode,
                        AdapterExecutionModeV1::Inline,
                        ctx@,
                        inline,
                    ) && &*first == &*old(adapter) && match inline_verdict(inline) {
                        Some(e) => verdict(r) == Some(e) && &*final(adapter) == &*final(first),
                        None => exists|
                            second: &mut A,
                            streaming: Result<AdapterSubmitOutcomeV1, AdapterErrorV1>,
                        |
                            #[trigger] adapter::submitted::<A>(
                                second,
                                cases.streaming_path@,
                                cases.streaming_payload@,
                                cases.streaming_input_mode,
                                AdapterExecutionModeV1::Streaming,
                                ctx@,
                                streaming,
                            ) && &*second == &*final(first) && match streaming_verdict(streaming) {
                                Some(e) => verdict(r) == Some(e) && &*final(adapter) == &*final(second),
                                None => exists|
                                    third: &mut A,
                                    fetch: Result<AdapterControlOutcomeV1, AdapterErrorV1>,
                                |
                                    #[trigger] adapter::controlled::<A>(
                                        third,
                                        cases.fetch_next_path@,
                                        first_page_of(*cases),
                                        ctx@,
                                        fetch,
                                    ) && &*third == &*final(second) && match control_verdict(
                                        "paging.fetch_next"@,
                                        fetch,
                                    ) {
                                        Some(e) => verdict(r) == Some(e) && &*final(adapter)
                                            == &*final(third),
                                        None => exists|
                                            fourth: &mut A,
                                            close: Result<AdapterControlOutcomeV1, AdapterErrorV1>,
                                        |
                                            #[trigger] adapter::controlled::<A>(
                                                fourth,
                                                cases.close_path@,
                                                closing_of(*cases),
                                                ctx@,
                                                close,
                                            ) && &*fourth == &*final(third) && verdict(r)
                                                == control_verdict("paging.close"@, close)
                                                && &*final(adapter) == &*final(fourth),
                                    },
                            },
                    },
            },
{
    proof {
        adapter::lemma_calls::<A>();
    }
    let app_id = adapter.app_id().to_owned();
    let shown = adapter.app_id().to_owned();
    assert(adapter::names_app::<A>(&*adapter, app_id@));
    assert(adapter::names_app::<A>(&*adapter, shown@));
    if let Err(e) = judge_app(app_id.as_str(), ctx.app_id.as_str(), shown.as_str()) {
        return Err(e);
    }
    let inline = adapter.submit_action(
        cases.inline_path.as_str(),
        cases.inline_payload.as_str(),
        cases.inline_input_mode,
        AdapterExecutionModeV1::Inline,
        ctx,
    );
    if let Err(e) = judge_inline(&inline) {
        return Err(e);
    }
    let streaming = adapter.submit_action(
        cases.streaming_path.as_str(),
        cases.streaming_payload.as_str(),
        cases.streaming_input_mode,
        AdapterExecutionModeV1::Streaming,
        ctx,
    );
    if let Err(e) = judge_streaming(&streaming) {
        return Err(e);
    }
    let fetch = adapter.submit_control_action(
        cases.fetch_next_path.as_str(),
        AdapterControlActionV1::PagingFetchNext {
            handle_id: cases.fetch_handle_id.clone(),
            page_no: 1,
            has_more: true,
        },
        ctx,
    );
    if let Err(e) = judge_control("paging.fetch_next", &fetch) {
        return Err(e);
    }
    let close = adapter.submit_control_action(
        cases.close_path.as_str(),
        AdapterControlActionV1::PagingClose { handle_id: cases.fetch_handle_id.clone() },
        ctx,
    );
    judge_control("paging.close", &close)
}

/// Runs the error cases against `adapter`, up to the first failure. It is asked once
/// or twice, the second time as the first call has left it, and only where the first
/// answer has passed.
pub fn run_error_case_matrix_v1<A: AppAdapterV1 + ?Sized>(
    adapter: &mut A,
    ctx: &RequestContextV1,
    cases: &ErrorCaseMatrixV1,
) -> (r: Result<(), AdapterCaseErrorV1>)
    ensures
        exists|first: &mut A, rejected: Result<AdapterSubmitOutcomeV1, AdapterErrorV1>|
            #[trigger] adapter::submitted::<A>(
                first,
                cases.rejected_path@,
                cases.rejected_payload@,
                cases.rejected_input_mode,
                AdapterExecutionModeV1::Inline,
                ctx@,
                rejected,
            ) && &*first == &*old(adapter) && match rejected_verdict(
                cases.expected_rejected_code@,
                rejected,
            ) {
                Some(e) => verdict(r) == Some(e) && &*final(adapter) == &*final(first),
                None => exists|
                    second: &mut A,
                    internal: Result<AdapterSubmitOutcomeV1, AdapterErrorV1>,
                |
                    #[trigger] adapter::submitted::<A>(
                        second,
                        cases.internal_path@,
                        cases.internal_payload@,
                        cases.internal_input_mode,
                        AdapterExecutionModeV1::Inline,
                        ctx@,
                        internal,
                    ) && &*second == &*final(first) && verdict(r) == internal_verdict(internal)
                        && &*final(adapter) == &*final(second),
            },
{
    proof {
        adapter::lemma_calls::<A>();
    }
    let rejected = adapter.submit_action(
        cases.rejected_path.as_str(),
        cases.rejected_payload.as_str(),
        cases.rejected_input_mode,
        AdapterExecutionModeV1::Inline,
        ctx,
    );
    if let Err(e) = judge_rejected(cases.expected_rejected_code.as_str(), &rejected) {
        return Err(e);
    }
    let internal = adapter.submit_action(
        cases.internal_path.as_str(),
        cases.internal_payload.as_str(),
        cases.internal_input_mode,
        AdapterExecutionModeV1::Inline,
        ctx,
    );
    judge_internal(&internal)
}

} // verus!
