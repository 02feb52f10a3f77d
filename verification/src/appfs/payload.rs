//! What an agent writes to an action file: the checks on it, the client token
//! in it, and the paging request that it may be.

use crate::json;
use crate::json::{Json, JsonView};
use crate::text;
use crate::text::Edge;
use vstd::prelude::*;

verus! {

pub const ERR_INVALID_ARGUMENT: &'static str = "INVALID_ARGUMENT";

pub const ERR_INVALID_PAYLOAD: &'static str = "INVALID_PAYLOAD";

pub const ERR_MESSAGE_SIZE: &'static str = "EMSGSIZE";

/// The payloads that an action takes.
#[derive(Debug, Clone, Copy, PartialEq, Eq, Structural)]
pub enum InputMode {
    Text,
    Json,
    TextOrJson,
}

/// How an action answers: at once, or with a stream of events.
#[derive(Debug, Clone, Copy, PartialEq, Eq, Structural)]
pub enum ExecutionMode {
    Inline,
    Streaming,
}

/// A request at one of the paging actions.
#[derive(Debug)]
pub struct PagingRequest {
    pub handle_id: String,
    pub session_id: Option<String>,
}

/// What a paging request holds.
pub struct PagingRequestView {
    pub handle_id: Seq<char>,
    pub session_id: Option<Seq<char>>,
}

impl View for PagingRequest {
    type V = PagingRequestView;

    open spec fn view(&self) -> PagingRequestView {
        PagingRequestView { handle_id: self.handle_id@, session_id: text::opt(self.session_id) }
    }
}

/// A text payload is complete once its last line has ended.
pub open spec fn text_complete(payload: Seq<char>) -> bool {
    payload.len() > 0 && payload.last() == '\n'
}

/// Whether a payload that may be either is read as JSON.
pub open spec fn looks_like_json(payload: Seq<char>) -> bool {
    let body = text::trim_front(payload, Edge::Whitespace);
    body.len() > 0 && (body[0] == '{' || body[0] == '[')
}

/// Why a payload is refused, given whether it is JSON; nothing where it is
/// accepted.
pub open spec fn refusal(
    max_bytes: Option<usize>,
    mode: InputMode,
    payload: Seq<char>,
    is_json: bool,
) -> Option<Seq<char>> {
    if max_bytes is Some && text::utf8_len(payload) > max_bytes->0 {
        Some(ERR_MESSAGE_SIZE@)
    } else if text::trimmed(payload).len() == 0 {
        Some(ERR_INVALID_ARGUMENT@)
    } else if mode == InputMode::Json || (mode == InputMode::TextOrJson && looks_like_json(
        payload,
    )) {
        if is_json {
            None
        } else {
            Some(ERR_INVALID_PAYLOAD@)
        }
    } else if text_complete(payload) {
        None
    } else {
        Some(ERR_INVALID_PAYLOAD@)
    }
}

/// The text behind `token:` on the first line, where there is any.
pub open spec fn token_line(payload: Seq<char>) -> Option<Seq<char>> {
    let line = text::trimmed(text::first_line(payload));
    if text::begins(line, "token:"@) {
        let token = text::trimmed(line.skip(6));
        if token.len() > 0 {
            Some(token)
        } else {
            None
        }
    } else {
        None
    }
}

/// The client token of a payload, given what it is as JSON.
pub open spec fn client_token(payload: Seq<char>, json: Option<JsonView>) -> Option<Seq<char>> {
    match json {
        Some(j) => json::string_member(j, "client_token"@),
        None => token_line(payload),
    }
}

/// The text without the whitespace around it, where anything is left.
pub open spec fn nonblank(t: Option<Seq<char>>) -> Option<Seq<char>> {
    match t {
        Some(s) => if text::trimmed(s).len() > 0 {
            Some(text::trimmed(s))
        } else {
            None
        },
        None => None,
    }
}

/// The paging request in a payload, given what its trimmed text is as JSON.
pub open spec fn paging_request(payload: Seq<char>, json: Option<JsonView>) -> Option<
    PagingRequestView,
> {
    let body = text::trimmed(payload);
    if body.len() == 0 {
        None
    } else if body[0] == '{' {
        match json {
            Some(j) => match json::string_member(j, "handle_id"@) {
                Some(handle) => Some(
                    PagingRequestView {
                        handle_id: text::trimmed(handle),
                        session_id: nonblank(json::string_member(j, "session_id"@)),
                    },
                ),
                None => None,
            },
            None => None,
        }
    } else {
        Some(
            PagingRequestView {
                handle_id: text::trimmed(text::first_line(body)),
                session_id: None,
            },
        )
    }
}

/// Checks that the last line of a text payload has ended.
pub fn validate_text_payload_complete(payload: &str) -> (r: Result<(), &'static str>)
    ensures
        match r {
            Ok(()) => text_complete(payload@),
            Err(code) => !text_complete(payload@) && code@ == ERR_INVALID_PAYLOAD@,
        },
{
    let chars = text::chars_of(payload);
    if chars.len() > 0 && chars[chars.len() - 1] == '\n' {
        Ok(())
    } else {
        Err(ERR_INVALID_PAYLOAD)
    }
}

/// Checks a payload, given whether it is JSON.
pub fn check_payload(
    max_bytes: Option<usize>,
    mode: InputMode,
    payload: &str,
    is_json: bool,
) -> (r: Result<(), &'static str>)
    ensures
        match r {
            Ok(()) => refusal(max_bytes, mode, payload@, is_json) is None,
            Err(code) => refusal(max_bytes, mode, payload@, is_json) == Some(code@),
        },
{
    if let Some(max) = max_bytes {
        if text::byte_len(payload) > max {
            return Err(ERR_MESSAGE_SIZE);
        }
    }
    if text::trim(payload).as_str().is_empty() {
        return Err(ERR_INVALID_ARGUMENT);
    }
    let as_json = match mode {
        InputMode::Text => false,
        InputMode::Json => true,
        InputMode::TextOrJson => {
            let body = text::chars_of(text::trim_start(payload, Edge::Whitespace).as_str());
            body.len() > 0 && (body[0] == '{' || body[0] == '[')
        },
    };
    if as_json {
        if is_json {
            Ok(())
        } else {
            Err(ERR_INVALID_PAYLOAD)
        }
    } else {
        validate_text_payload_complete(payload)
    }
}

/// The client token of a payload, given what it is as JSON.
pub fn token_of(payload: &str, json: &Option<Json>) -> (r: Option<String>)
    ensures
        text::opt(r) == client_token(payload@, json::opt(*json)),
{
    if let Some(j) = json {
        return j.text_member("client_token");
    }
    let line = text::trim(text::take_first_line(payload).as_str());
    match text::strip_prefix(line.as_str(), "token:") {
        Some(rest) => {
            proof {
                reveal_strlit("token:");
            }
            let token = text::trim(rest.as_str());
            if token.as_str().is_empty() {
                None
            } else {
                Some(token)
            }
        },
        None => None,
    }
}

/// The client token that a payload carries: the `client_token` of a JSON
/// object, or the text behind `token:` on the first line.
pub fn extract_client_token(payload: &str) -> (r: Option<String>)
    ensures
        text::opt(r) == client_token(payload@, json::parsed(payload@)),
{
    let parsed = json::parse(payload);
    token_of(payload, &parsed)
}

fn nonblank_text(t: Option<String>) -> (r: Option<String>)
    ensures
        text::opt(r) == nonblank(text::opt(t)),
{
    match t {
        Some(s) => {
            let body = text::trim(s.as_str());
            if body.as_str().is_empty() {
                None
            } else {
                Some(body)
            }
        },
        None => None,
    }
}

/// The paging request in a payload, given what its trimmed text is as JSON.
pub fn paging_request_of(payload: &str, json: &Option<Json>) -> (r: Result<
    PagingRequest,
    &'static str,
>)
    ensures
        match r {
            Ok(request) => paging_request(payload@, json::opt(*json)) == Some(request@),
            Err(code) => paging_request(payload@, json::opt(*json)) is None && code@
                == ERR_INVALID_ARGUMENT@,
        },
{
    let body = text::trim(payload);
    let chars = text::chars_of(body.as_str());
    if chars.len() == 0 {
        return Err(ERR_INVALID_ARGUMENT);
    }
    if chars[0] == '{' {
        let j = match json {
            Some(j) => j,
            None => {
                return Err(ERR_INVALID_ARGUMENT);
            },
        };
        return match j.text_member("handle_id") {
            Some(handle) => Ok(
                PagingRequest {
                    handle_id: text::trim(handle.as_str()),
                    session_id: nonblank_text(j.text_member("session_id")),
                },
            ),
            None => Err(ERR_INVALID_ARGUMENT),
        };
    }
    Ok(
        PagingRequest {
            handle_id: text::trim(text::take_first_line(body.as_str()).as_str()),
            session_id: None,
        },
    )
}

/// Reads a paging request: a JSON object with a `handle_id` and perhaps a
/// `session_id`, or a handle on the first line.
pub fn parse_paging_request(payload: &str) -> (r: Result<PagingRequest, &'static str>)
    ensures
        match r {
            Ok(request) => paging_request(payload@, json::parsed(text::trimmed(payload@))) == Some(
                request@,
            ),
            Err(code) => paging_request(payload@, json::parsed(text::trimmed(payload@))) is None
                && code@ == ERR_INVALID_ARGUMENT@,
        },
{
    let body = text::trim(payload);
    let parsed = json::parse(body.as_str());
    paging_request_of(payload, &parsed)
}

} // verus!
