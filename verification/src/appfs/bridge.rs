//! The adapter behind an HTTP bridge: where requests go, and what an error
//! answer means.

use crate::appfs::adapter::{AdapterErrorV1, AdapterErrorView};
use crate::text;
use crate::text::Edge;
use vstd::prelude::*;
use vstd::string::*;

verus! {

/// An adapter that forwards every action to an HTTP endpoint.
#[derive(Debug)]
pub struct HttpBridgeAdapterV1 {
    pub app_id: String,
    pub endpoint: String,
    pub timeout_ms: u64,
}

/// The short form of an error answer.
#[derive(Debug)]
pub struct BridgeErrorPayload {
    pub code: String,
    pub message: String,
    pub retryable: bool,
}

impl HttpBridgeAdapterV1 {
    /// An adapter for `endpoint`, slashes at its end aside.
    pub fn new(app_id: String, endpoint: String, timeout_ms: u64) -> (r: Self)
        ensures
            r.app_id@ == app_id@,
            r.endpoint@ == text::trim_back(endpoint@, Edge::Slash),
            r.timeout_ms == timeout_ms,
    {
        HttpBridgeAdapterV1 {
            app_id,
            endpoint: text::trim_end(endpoint.as_str(), Edge::Slash),
            timeout_ms,
        }
    }

    /// The URL of `route` at this endpoint.
    pub fn url(&self, route: &str) -> (r: String)
        ensures
            r@ == self.endpoint@ + "/"@ + text::trim_front(route@, Edge::Slash),
    {
        text::concat3(
            self.endpoint.as_str(),
            "/",
            text::trim_start(route, Edge::Slash).as_str(),
        )
    }
}

/// What an answer with an error status means, given how its body reads.
pub open spec fn status_error(
    status: u16,
    body: Seq<char>,
    adapter_error: Option<AdapterErrorV1>,
    payload: Option<BridgeErrorPayload>,
) -> AdapterErrorView {
    match (adapter_error, payload) {
        (Some(e), _) => e@,
        (None, Some(p)) => AdapterErrorView::Rejected {
            code: p.code@,
            message: p.message@,
            retryable: p.retryable,
        },
        (None, None) => {
            let head = "bridge http status "@ + text::decimal(status as nat);
            AdapterErrorView::Internal {
                message: if text::trimmed(body).len() == 0 {
                    head
                } else {
                    head + ": "@ + body
                },
            }
        },
    }
}

/// Turns an answer with an error status into an error: the body as an adapter
/// error, else the body in short form, else the status itself.
pub fn map_status_error(
    status: u16,
    body: &str,
    adapter_error: Option<AdapterErrorV1>,
    payload: Option<BridgeErrorPayload>,
) -> (r: AdapterErrorV1)
    ensures
        r@ == status_error(status, body@, adapter_error, payload),
{
    if let Some(e) = adapter_error {
        return e;
    }
    if let Some(p) = payload {
        return AdapterErrorV1::Rejected {
            code: p.code,
            message: p.message,
            retryable: p.retryable,
        };
    }
    let mut message = text::concat(
        "bridge http status ",
        text::decimal_u64(status as u64).as_str(),
    );
    if !text::trim(body).as_str().is_empty() {
        message.append(": ");
        message.append(body);
    }
    AdapterErrorV1::Internal { message }
}

/// The message about an answer that could not be decoded.
pub fn decode_error(url: &str, reason: &str) -> (r: AdapterErrorV1)
    ensures
        r@ == (AdapterErrorView::Internal {
            message: "bridge decode error for "@ + url@ + ": "@ + reason@,
        }),
{
    let mut message = text::concat3("bridge decode error for ", url, ": ");
    message.append(reason);
    AdapterErrorV1::Internal { message }
}

/// The message about a request that got no answer.
pub fn transport_error(url: &str, reason: &str) -> (r: AdapterErrorV1)
    ensures
        r@ == (AdapterErrorView::Internal {
            message: "bridge transport error for "@ + url@ + ": "@ + reason@,
        }),
{
    let mut message = text::concat3("bridge transport error for ", url, ": ");
    message.append(reason);
    AdapterErrorV1::Internal { message }
}

} // verus!
