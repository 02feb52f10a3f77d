//! The surface between the runtime and the adapter of one application.

use crate::json;
use crate::json::{Json, JsonView};
use crate::text;
use vstd::prelude::*;

verus! {

/// The version of the adapter surface.
pub const APPFS_ADAPTER_SDK_VERSION: &'static str = "0.1.0";

/// The payload mode under which an action is dispatched.
#[derive(Debug, Clone, Copy, PartialEq, Eq, Structural)]
pub enum AdapterInputModeV1 {
    Text,
    Json,
    TextOrJson,
}

/// The execution mode under which an action is dispatched.
#[derive(Debug, Clone, Copy, PartialEq, Eq, Structural)]
pub enum AdapterExecutionModeV1 {
    Inline,
    Streaming,
}

/// Who asks, and under which request.
#[derive(Debug, PartialEq, Eq)]
pub struct RequestContextV1 {
    pub app_id: String,
    pub session_id: String,
    pub request_id: String,
    pub client_token: Option<String>,
}

/// What a request context holds.
pub struct RequestContextView {
    pub app_id: Seq<char>,
    pub session_id: Seq<char>,
    pub request_id: Seq<char>,
    pub client_token: Option<Seq<char>>,
}

impl View for RequestContextV1 {
    type V = RequestContextView;

    open spec fn view(&self) -> RequestContextView {
        RequestContextView {
            app_id: self.app_id@,
            session_id: self.session_id@,
            request_id: self.request_id@,
            client_token: text::opt(self.client_token),
        }
    }
}

impl Clone for RequestContextV1 {
    fn clone(&self) -> (r: Self)
        ensures
            r@ == self@,
    {
        RequestContextV1 {
            app_id: self.app_id.clone(),
            session_id: self.session_id.clone(),
            request_id: self.request_id.clone(),
            client_token: text::copy_opt(&self.client_token),
        }
    }
}

/// The contents of the events that a streaming action emits.
#[derive(Debug)]
pub struct AdapterStreamingPlanV1 {
    pub accepted_content: Option<Json>,
    pub progress_content: Option<Json>,
    pub terminal_content: Json,
}

/// What a streaming plan holds.
pub struct StreamingPlanView {
    pub accepted_content: Option<JsonView>,
    pub progress_content: Option<JsonView>,
    pub terminal_content: JsonView,
}

impl View for AdapterStreamingPlanV1 {
    type V = StreamingPlanView;

    open spec fn view(&self) -> StreamingPlanView {
        StreamingPlanView {
            accepted_content: json::opt(self.accepted_content),
            progress_content: json::opt(self.progress_content),
            terminal_content: self.terminal_content@,
        }
    }
}

/// An action of the runtime itself, such as paging.
#[derive(Debug, PartialEq, Eq)]
pub enum AdapterControlActionV1 {
    PagingFetchNext { handle_id: String, page_no: u64, has_more: bool },
    PagingClose { handle_id: String },
}

/// What a control action holds.
pub enum ControlActionView {
    PagingFetchNext { handle_id: Seq<char>, page_no: u64, has_more: bool },
    PagingClose { handle_id: Seq<char> },
}

impl View for AdapterControlActionV1 {
    type V = ControlActionView;

    open spec fn view(&self) -> ControlActionView {
        match self {
            AdapterControlActionV1::PagingFetchNext { handle_id, page_no, has_more } => {
                ControlActionView::PagingFetchNext {
                    handle_id: handle_id@,
                    page_no: *page_no,
                    has_more: *has_more,
                }
            },
            AdapterControlActionV1::PagingClose { handle_id } => ControlActionView::PagingClose {
                handle_id: handle_id@,
            },
        }
    }
}

/// How an adapter answers an action.
#[derive(Debug)]
pub enum AdapterSubmitOutcomeV1 {
    Completed { content: Json },
    Streaming { plan: AdapterStreamingPlanV1 },
}

/// How an adapter answers a control action.
#[derive(Debug)]
pub enum AdapterControlOutcomeV1 {
    Completed { content: Json },
}

/// How an adapter fails.
#[derive(Debug, PartialEq, Eq)]
pub enum AdapterErrorV1 {
    Rejected { code: String, message: String, retryable: bool },
    Internal { message: String },
}

/// What an adapter error holds.
pub enum AdapterErrorView {
    Rejected { code: Seq<char>, message: Seq<char>, retryable: bool },
    Internal { message: Seq<char> },
}

impl View for AdapterErrorV1 {
    type V = AdapterErrorView;

    open spec fn view(&self) -> AdapterErrorView {
        match self {
            AdapterErrorV1::Rejected { code, message, retryable } => AdapterErrorView::Rejected {
                code: code@,
                message: message@,
                retryable: *retryable,
            },
            AdapterErrorV1::Internal { message } => AdapterErrorView::Internal {
                message: message@,
            },
        }
    }
}

/// The message that an adapter error shows.
pub open spec fn error_message(error: AdapterErrorView) -> Seq<char> {
    match error {
        AdapterErrorView::Rejected { code, message, .. } => code + ": "@ + message,
        AdapterErrorView::Internal { message } => "adapter internal error: "@ + message,
    }
}

impl AdapterErrorV1 {
    /// The message that this error shows.
    pub fn to_string(&self) -> (r: String)
        ensures
            r@ == error_message(self@),
    {
        match self {
            AdapterErrorV1::Rejected { code, message, .. } => text::concat3(
                code.as_str(),
                ": ",
                message.as_str(),
            ),
            AdapterErrorV1::Internal { message } => text::concat(
                "adapter internal error: ",
                message.as_str(),
            ),
        }
    }
}

/// The error with which an adapter answers a control action that it does not
/// know.
pub open spec fn not_supported() -> AdapterErrorView {
    AdapterErrorView::Rejected {
        code: "NOT_SUPPORTED"@,
        message: "control action is not supported by this adapter"@,
        retryable: false,
    }
}

/// The release part of a version: what stands before the first hyphen.
pub open spec fn version_core(version: Seq<char>) -> Seq<char> {
    text::trimmed(text::split(text::trimmed(version), '-')[0])
}

/// Any `0.1.x` is compatible.
pub open spec fn compatible_v01(version: Seq<char>) -> bool {
    let parts = text::split(version_core(version), '.');
    parts.len() >= 2 && text::parsed_u64(parts[0]) == Some(0nat) && text::parsed_u64(parts[1])
        == Some(1nat)
}

/// Whether `version` is compatible with this surface.
pub fn is_appfs_adapter_sdk_v01_compatible(version: &str) -> (r: bool)
    ensures
        r == compatible_v01(version@),
{
    let pieces = text::split_on(text::trim(version).as_str(), '-');
    proof {
        text::lemma_split_nonempty(text::trimmed(version@), '-');
        assert(text::views(pieces@)[0] == pieces@[0]@);
    }
    let core = text::trim(pieces[0].as_str());
    let parts = text::split_on(core.as_str(), '.');
    if parts.len() < 2 {
        return false;
    }
    assert(text::views(parts@)[0] == parts@[0]@);
    assert(text::views(parts@)[1] == parts@[1]@);
    let major = text::parse_u64(parts[0].as_str());
    let minor = text::parse_u64(parts[1].as_str());
    match (major, minor) {
        (Some(a), Some(b)) => a == 0 && b == 1,
        _ => false,
    }
}

/// The adapter of one application.
pub trait AppAdapterV1: Send {
    fn app_id(&self) -> &str;

    fn submit_action(
        &mut self,
        path: &str,
        payload: &str,
        input_mode: AdapterInputModeV1,
        execution_mode: AdapterExecutionModeV1,
        ctx: &RequestContextV1,
    ) -> Result<AdapterSubmitOutcomeV1, AdapterErrorV1>;

    fn submit_control_action(
        &mut self,
        path: &str,
        action: AdapterControlActionV1,
        ctx: &RequestContextV1,
    ) -> (r: Result<AdapterControlOutcomeV1, AdapterErrorV1>)
        default_ensures
            r is Err && r->Err_0@ == not_supported(),
    {
        Err(
            AdapterErrorV1::Rejected {
                code: "NOT_SUPPORTED".to_owned(),
                message: "control action is not supported by this adapter".to_owned(),
                retryable: false,
            },
        )
    }
}

/// `id` is an answer of the adapter `a` to the question which application it serves.
pub open spec fn names_app<A: AppAdapterV1 + ?Sized>(a: &A, id: Seq<char>) -> bool {
    exists|s: &str| #[trigger] call_ensures(A::app_id, (a,), s) && s@ == id
}

/// `result` is the answer of the adapter `a` to one action with these arguments.
/// The call leaves the adapter as `a` ends.
pub open spec fn submitted<A: AppAdapterV1 + ?Sized>(
    a: &mut A,
    path: Seq<char>,
    payload: Seq<char>,
    input_mode: AdapterInputModeV1,
    execution_mode: AdapterExecutionModeV1,
    ctx: RequestContextView,
    result: Result<AdapterSubmitOutcomeV1, AdapterErrorV1>,
) -> bool {
    exists|p: &str, q: &str, c: &RequestContextV1|
        #[trigger] call_ensures(
            A::submit_action,
            (a, p, q, input_mode, execution_mode, c),
            result,
        ) && p@ == path && q@ == payload && c@ == ctx
}

/// `result` is the answer of the adapter `a` to one control action with these
/// arguments. The call leaves the adapter as `a` ends.
pub open spec fn controlled<A: AppAdapterV1 + ?Sized>(
    a: &mut A,
    path: Seq<char>,
    action: ControlActionView,
    ctx: RequestContextView,
    result: Result<AdapterControlOutcomeV1, AdapterErrorV1>,
) -> bool {
    exists|p: &str, act: AdapterControlActionV1, c: &RequestContextV1|
        #[trigger] call_ensures(A::submit_control_action, (a, p, act, c), result) && p@ == path
            && act@ == action && c@ == ctx
}

/// A call of an adapter is one on the views of its arguments.
pub proof fn lemma_calls<A: AppAdapterV1 + ?Sized>()
    ensures
        forall|
            a: &mut A,
            p: &str,
            q: &str,
            input_mode: AdapterInputModeV1,
            execution_mode: AdapterExecutionModeV1,
            c: &RequestContextV1,
            result: Result<AdapterSubmitOutcomeV1, AdapterErrorV1>,
        |
            #[trigger] call_ensures(
                A::submit_action,
                (a, p, q, input_mode, execution_mode, c),
                result,
            ) ==> submitted::<A>(a, p@, q@, input_mode, execution_mode, c@, result),
        forall|
            a: &mut A,
            p: &str,
            act: AdapterControlActionV1,
            c: &RequestContextV1,
            result: Result<AdapterControlOutcomeV1, AdapterErrorV1>,
        |
            #[trigger] call_ensures(A::submit_control_action, (a, p, act, c), result)
                ==> controlled::<A>(a, p@, act@, c@, result),
{
}

} // verus!
