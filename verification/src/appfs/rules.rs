//! What the rules for submissions come to: which payloads are taken, what is read from
//! them, which paths match, and when a file is looked at again.

use crate::appfs::adapter::{AdapterErrorV1, AdapterErrorView};
use crate::appfs::bridge;
use crate::appfs::bridge::BridgeErrorPayload;
use crate::appfs::gate;
use crate::appfs::gate::{ActionFingerprint, GateView, Observation, PendingSubmit};
use crate::appfs::payload;
use crate::appfs::payload::{ExecutionMode, InputMode, PagingRequestView};
use crate::appfs::runtime;
use crate::appfs::runtime::ManifestNode;
use crate::appfs::segments;
use crate::json;
use crate::json::JsonView;
use crate::text;
use crate::text::Edge;
use vstd::prelude::*;
use vstd::utf8::*;

verus! {

/// A text of whitespace alone.
pub open spec fn blank(s: Seq<char>) -> bool {
    forall|i: int| 0 <= i < s.len() ==> text::is_space(#[trigger] s[i])
}

/// A text that neither starts nor ends with whitespace, and has only one line.
pub open spec fn neat(s: Seq<char>) -> bool {
    s.len() > 0 && !text::is_space(s[0]) && !text::is_space(s.last()) && !s.contains('\n')
}

proof fn lemma_trim_front(s: Seq<char>, k: int)
    requires
        0 <= k <= s.len(),
        forall|i: int| 0 <= i < k ==> text::is_space(#[trigger] s[i]),
        k < s.len() ==> !text::is_space(s[k]),
    ensures
        text::trim_front(s, Edge::Whitespace) == s.skip(k),
    decreases k,
{
    if k == 0 {
        assert(s.skip(0) =~= s);
    } else {
        assert(text::is_space(s[0]));
        lemma_trim_front(s.drop_first(), k - 1);
        assert(s.drop_first().skip(k - 1) =~= s.skip(k));
    }
}

/// Where the first character stands that is no whitespace; the length where there is
/// none.
proof fn lemma_first_solid(s: Seq<char>) -> (k: int)
    ensures
        0 <= k <= s.len(),
        forall|i: int| 0 <= i < k ==> text::is_space(#[trigger] s[i]),
        k < s.len() ==> !text::is_space(s[k]),
    decreases s.len(),
{
    if s.len() == 0 || !text::is_space(s[0]) {
        0
    } else {
        let rest = s.drop_first();
        let k = lemma_first_solid(rest);
        assert forall|i: int| 0 <= i < k + 1 implies text::is_space(#[trigger] s[i]) by {
            if i > 0 {
                assert(s[i] == rest[i - 1]);
            }
        }
        k + 1
    }
}

proof fn lemma_trim_back_keeps_solid(s: Seq<char>)
    requires
        s.len() > 0,
        !text::is_space(s[0]),
    ensures
        text::trim_back(s, Edge::Whitespace).len() > 0,
    decreases s.len(),
{
    if text::is_space(s.last()) {
        assert(s.len() > 1);
        lemma_trim_back_keeps_solid(s.drop_last());
    }
}

proof fn lemma_trimmed_blank(s: Seq<char>)
    ensures
        text::trimmed(s).len() == 0 <==> blank(s),
{
    let k = lemma_first_solid(s);
    lemma_trim_front(s, k);
    if k < s.len() {
        lemma_trim_back_keeps_solid(s.skip(k));
        assert(!text::is_space(s[k]));
    }
}

proof fn lemma_trimmed_neat(s: Seq<char>)
    requires
        s.len() > 0,
        !text::is_space(s[0]),
        !text::is_space(s.last()),
    ensures
        text::trimmed(s) == s,
{
    lemma_trim_front(s, 0);
    assert(s.skip(0) =~= s);
}

proof fn lemma_first_line(line: Seq<char>, rest: Seq<char>)
    requires
        !line.contains('\n'),
        rest.len() > 0 ==> rest[0] == '\n',
    ensures
        text::first_line(line + rest) == line,
    decreases line.len(),
{
    if line.len() == 0 {
        assert(line + rest =~= rest);
        assert(line =~= Seq::<char>::empty());
    } else {
        assert(line.contains(line[0]));
        let less = line.drop_first();
        assert forall|c: char| less.contains(c) implies line.contains(c) by {
            let i = choose|i: int| 0 <= i < less.len() && less[i] == c;
            assert(line[i + 1] == c);
        }
        lemma_first_line(less, rest);
        assert((line + rest).drop_first() =~= less + rest);
        assert(seq![line[0]] + less =~= line);
    }
}

/// A payload that is longer than allowed is refused as too long; of the others, one that
/// holds nothing but whitespace as no argument. What is left is taken where it is JSON,
/// if JSON is asked for, or if either is and the first character that counts opens an
/// object or a list; and else where its last line has ended. `k` is where the first
/// character that counts stands.
pub proof fn law_payload_is_judged(
    max_bytes: Option<usize>,
    mode: InputMode,
    body: Seq<char>,
    is_json: bool,
    k: int,
)
    ensures
        ({
            let r = payload::refusal(max_bytes, mode, body, is_json);
            let long = max_bytes matches Some(m) && text::utf8_len(body) > m;
            let counts = 0 <= k < body.len() && !text::is_space(body[k]) && blank(body.take(k));
            let structured = mode == InputMode::Json || mode == InputMode::TextOrJson && (body[k]
                == '{' || body[k] == '[');
            &&& long ==> r == Some("EMSGSIZE"@)
            &&& !long && blank(body) ==> r == Some("INVALID_ARGUMENT"@)
            &&& !long && counts && structured ==> r == if is_json {
                None
            } else {
                Some("INVALID_PAYLOAD"@)
            }
            &&& !long && counts && !structured ==> r == if body.last() == '\n' {
                None
            } else {
                Some("INVALID_PAYLOAD"@)
            }
        }),
{
    lemma_trimmed_blank(body);
    if 0 <= k < body.len() && !text::is_space(body[k]) && blank(body.take(k)) {
        assert forall|i: int| 0 <= i < k implies text::is_space(#[trigger] body[i]) by {
            assert(body.take(k)[i] == body[i]);
        }
        lemma_trim_front(body, k);
    }
}

/// The token that a text names on its first line, behind `token:`, is its client token,
/// whatever stands on the lines below; a text whose first line does not start so has
/// none. What is JSON has the token that its member says.
pub proof fn law_token_is_found(token: Seq<char>, rest: Seq<char>, line: Seq<char>, j: JsonView)
    requires
        neat(token),
        rest.len() > 0 ==> rest[0] == '\n',
        neat(line),
        !text::begins(line, "token:"@),
    ensures
        payload::client_token("token:"@ + token + rest, None) == Some(token),
        payload::client_token("token: "@ + token + rest, None) == Some(token),
        payload::client_token(line + rest, None) is None,
        payload::client_token(line + rest, Some(j)) == json::string_member(j, "client_token"@),
{
    reveal_strlit("token:");
    reveal_strlit("token: ");
    let first = "token:"@ + token;
    let second = "token: "@ + token;
    lemma_no_break("token:"@, token);
    lemma_no_break("token: "@, token);
    lemma_first_line(first, rest);
    lemma_first_line(second, rest);
    lemma_first_line(line, rest);
    lemma_trimmed_neat(first);
    lemma_trimmed_neat(second);
    lemma_trimmed_neat(line);
    assert(first.take(6) =~= "token:"@);
    assert(second.take(6) =~= "token:"@);
    assert(first.skip(6) =~= token);
    assert(second.skip(6) =~= seq![' '] + token);
    lemma_trimmed_neat(token);
    let spaced = seq![' '] + token;
    assert(text::is_space(spaced[0]));
    lemma_trim_front(spaced, 1);
    assert(spaced.skip(1) =~= token);
}

proof fn lemma_no_break(a: Seq<char>, b: Seq<char>)
    requires
        a == "token:"@ || a == "token: "@,
        !b.contains('\n'),
    ensures
        !(a + b).contains('\n'),
{
    reveal_strlit("token:");
    reveal_strlit("token: ");
    if (a + b).contains('\n') {
        let i = choose|i: int| 0 <= i < (a + b).len() && (a + b)[i] == '\n';
        if i >= a.len() {
            assert(b[i - a.len()] == '\n');
            assert(b.contains('\n'));
        }
    }
}

/// A paging request in plain text asks with its first line for a handle, in no session of
/// its own. One that is an object asks for the handle that its member names, in the
/// session that its member names, if that is not blank; an object that names no handle
/// asks for nothing, and neither does whitespace.
pub proof fn law_paging_request_is_read(
    line: Seq<char>,
    rest: Seq<char>,
    object: Seq<char>,
    parsed: Option<JsonView>,
    j: JsonView,
    id: Seq<char>,
    session: Seq<char>,
)
    requires
        neat(line),
        line[0] != '{',
        rest.len() > 0 ==> rest[0] == '\n',
        blank(rest),
        object.len() > 0,
        object[0] == '{',
        neat(id),
        neat(session),
    ensures
        payload::paging_request(line + rest, parsed) == Some(
            PagingRequestView { handle_id: line, session_id: None },
        ),
        json::string_member(j, "handle_id"@) == Some(id) && json::string_member(j, "session_id"@)
            == Some(session) ==> payload::paging_request(object, Some(j)) == Some(
            PagingRequestView { handle_id: id, session_id: Some(session) },
        ),
        json::string_member(j, "handle_id"@) == Some(id) && json::string_member(j, "session_id"@)
            is None ==> payload::paging_request(object, Some(j)) == Some(
            PagingRequestView { handle_id: id, session_id: None },
        ),
        json::string_member(j, "handle_id"@) is None ==> payload::paging_request(object, Some(j))
            is None,
        payload::paging_request(object, None) is None,
        payload::paging_request(rest, parsed) is None,
{
    let whole = line + rest;
    lemma_trim_front(whole, 0);
    assert(whole.skip(0) =~= whole);
    lemma_trim_back_tail(line, rest);
    assert(text::trimmed(whole) == line);
    lemma_first_line(line, Seq::empty());
    assert(line + Seq::<char>::empty() =~= line);
    lemma_trimmed_neat(line);
    lemma_trimmed_neat(id);
    lemma_trimmed_neat(session);
    lemma_trimmed_blank(rest);
    lemma_trim_front(object, 0);
    assert(object.skip(0) =~= object);
    lemma_trim_back_keeps_solid(object);
    lemma_trim_back_front(object);
}

proof fn lemma_trim_back_tail(line: Seq<char>, rest: Seq<char>)
    requires
        line.len() > 0,
        !text::is_space(line.last()),
        blank(rest),
    ensures
        text::trim_back(line + rest, Edge::Whitespace) == line,
    decreases rest.len(),
{
    if rest.len() == 0 {
        assert(line + rest =~= line);
    } else {
        assert(text::is_space(rest[rest.len() - 1]));
        assert((line + rest).drop_last() =~= line + rest.drop_last());
        lemma_trim_back_tail(line, rest.drop_last());
    }
}

proof fn lemma_trim_back_front(s: Seq<char>)
    ensures
        text::trim_back(s, Edge::Whitespace).len() > 0 ==> text::trim_back(s, Edge::Whitespace)[0]
            == s[0],
    decreases s.len(),
{
    if s.len() > 0 && text::is_space(s.last()) {
        lemma_trim_back_front(s.drop_last());
    }
}

/// A segment of a template that is in braces, with something between them, matches every
/// segment that is not empty; any other matches itself alone.
pub proof fn law_braces_match_any_segment(inner: Seq<char>, template: Seq<char>, segment: Seq<char>)
    requires
        inner.len() > 0,
    ensures
        segments::segment_matches(seq!['{'] + inner + seq!['}'], segment) <==> segment.len() > 0,
        !(template.len() > 0 && template[0] == '{' && template.last() == '}') ==> (
        segments::segment_matches(template, segment) <==> template == segment),
        segments::segment_matches(seq!['{', '}'], segment) <==> segment == seq!['{', '}'],
{
    let t = seq!['{'] + inner + seq!['}'];
    text::lemma_utf8_concat(seq!['{'] + inner, seq!['}']);
    text::lemma_utf8_concat(seq!['{'], inner);
    text::lemma_utf8_concat(seq!['{'], seq!['}']);
    text::lemma_char_width('{');
    text::lemma_char_width('}');
    assert(seq!['{', '}'] =~= seq!['{'] + seq!['}']);
    text::lemma_utf8_concat(seq![inner[0]], inner.drop_first());
    text::lemma_char_width(inner[0]);
    assert(seq![inner[0]] + inner.drop_first() =~= inner);
}

/// A segment of letters, digits, `.`, `_`, `-` and `~` may stand in an action path, where
/// it is neither too long nor one of the names that mean something else; no other may.
pub proof fn law_which_segments_are_safe(segment: Seq<char>)
    ensures
        segments::safe_segment(segment) ==> forall|i: int|
            0 <= i < segment.len() ==> {
                let c = #[trigger] segment[i];
                'a' <= c <= 'z' || 'A' <= c <= 'Z' || '0' <= c <= '9' || c == '.' || c == '_' || c
                    == '-' || c == '~'
            },
        segment.len() > 4 && text::utf8_len(segment) <= 255 && (forall|i: int|
            0 <= i < segment.len() ==> {
                let c = #[trigger] segment[i];
                'a' <= c <= 'z' || 'A' <= c <= 'Z' || '0' <= c <= '9' || c == '.' || c == '_' || c
                    == '-' || c == '~'
            }) ==> segments::safe_segment(segment),
        segments::safe_segment(segment) ==> segment != "."@ && segment != ".."@ && segment.len()
            > 0,
        segment == "con"@ || segment == "CON"@ || segment == "nul"@ || segment == "Aux"@ || segment
            == "prn"@ || segment == "COM1"@ || segment == "lpt9"@ ==> !segments::safe_segment(
            segment,
        ),
{
    reveal_strlit(".");
    reveal_strlit("..");
    reveal_strlit("CON");
    reveal_strlit("PRN");
    reveal_strlit("AUX");
    reveal_strlit("NUL");
    reveal_strlit("COM");
    reveal_strlit("LPT");
    reveal_strlit("con");
    reveal_strlit("nul");
    reveal_strlit("Aux");
    reveal_strlit("prn");
    reveal_strlit("COM1");
    reveal_strlit("lpt9");
    let u = segments::upper(segment);
    if segment == "con"@ || segment == "CON"@ {
        assert(u =~= "CON"@);
    }
    if segment == "nul"@ {
        assert(u =~= "NUL"@);
    }
    if segment == "Aux"@ {
        assert(u =~= "AUX"@);
    }
    if segment == "prn"@ {
        assert(u =~= "PRN"@);
    }
    if segment == "COM1"@ {
        assert(u.take(3) =~= "COM"@);
    }
    if segment == "lpt9"@ {
        assert(u.take(3) =~= "LPT"@);
    }
    if segments::safe_segment(segment) {
        assert forall|i: int| 0 <= i < segment.len() implies {
            let c = #[trigger] segment[i];
            'a' <= c <= 'z' || 'A' <= c <= 'Z' || '0' <= c <= '9' || c == '.' || c == '_' || c
                == '-' || c == '~'
        } by {
            assert(segments::allowed_char(segment[i]));
        }
    }
    if segment.len() > 4 && text::utf8_len(segment) <= 255 && (forall|i: int|
        0 <= i < segment.len() ==> {
            let c = #[trigger] segment[i];
            'a' <= c <= 'z' || 'A' <= c <= 'Z' || '0' <= c <= '9' || c == '.' || c == '_' || c
                == '-' || c == '~'
        }) {
        assert(segment[1] != ':');
        assert(u.len() > 4);
        assert("CON"@.len() == 3 && "PRN"@.len() == 3 && "AUX"@.len() == 3 && "NUL"@.len() == 3);
        assert("."@.len() == 1 && ".."@.len() == 2);
        assert(!segments::reserved_name(segment));
        assert forall|i: int| 0 <= i < segment.len() implies segments::allowed_char(
            #[trigger] segment[i],
        ) by {}
        assert(!segment.contains('\\')) by {
            if segment.contains('\\') {
                let i = choose|i: int| 0 <= i < segment.len() && segment[i] == '\\';
                assert(segment[i] == '\\');
            }
        }
        assert(!segment.contains('\0')) by {
            if segment.contains('\0') {
                let i = choose|i: int| 0 <= i < segment.len() && segment[i] == '\0';
                assert(segment[i] == '\0');
            }
        }
    }
}

/// The handle of a listing is `ph_` and letters, digits, `_`, `-` and `.`, and nothing
/// else is one.
pub proof fn law_which_handles_are_formed(tail: Seq<char>, id: Seq<char>)
    ensures
        segments::handle_format("ph_"@ + tail) <==> forall|i: int|
            0 <= i < tail.len() ==> {
                let c = #[trigger] tail[i];
                'a' <= c <= 'z' || 'A' <= c <= 'Z' || '0' <= c <= '9' || c == '_' || c == '-' || c
                    == '.'
            },
        segments::handle_format(id) ==> id.len() >= 3 && id == "ph_"@ + id.skip(3),
{
    reveal_strlit("ph_");
    let whole = "ph_"@ + tail;
    assert(whole.take(3) =~= "ph_"@);
    assert forall|i: int| 0 <= i < tail.len() implies #[trigger] tail[i] == whole[i + 3] by {}
    if segments::handle_format(whole) {
        assert forall|i: int| 0 <= i < tail.len() implies {
            let c = #[trigger] tail[i];
            'a' <= c <= 'z' || 'A' <= c <= 'Z' || '0' <= c <= '9' || c == '_' || c == '-' || c
                == '.'
        } by {
            assert(segments::handle_char(whole[i + 3]));
        }
    } else if forall|i: int|
        0 <= i < tail.len() ==> {
            let c = #[trigger] tail[i];
            'a' <= c <= 'z' || 'A' <= c <= 'Z' || '0' <= c <= '9' || c == '_' || c == '-' || c
                == '.'
        } {
        assert forall|i: int| 0 <= i < whole.len() implies segments::handle_char(
            #[trigger] whole[i],
        ) by {
            if i >= 3 {
                assert(whole[i] == tail[i - 3]);
            }
        }
    }
    if segments::handle_format(id) {
        assert(id =~= id.take(3) + id.skip(3));
    }
}

/// Looking at one file leaves what is known of all others alone, and never changes what
/// has been dealt with or which files are closed.
pub proof fn law_looking_touches_one_file(
    g: GateView,
    path: Seq<char>,
    fp: ActionFingerprint,
    now: u64,
    other: Seq<char>,
)
    requires
        other != path,
    ensures
        ({
            let after = gate::observed(g, path, fp, now);
            &&& after.last == g.last
            &&& after.blocked == g.blocked
            &&& after.pending.contains_key(other) == g.pending.contains_key(other)
            &&& after.pending[other] == g.pending[other]
        }),
{
}

/// A file that keeps still is taken from when it was first seen so: looking at it in
/// between does not make it wait longer.
pub proof fn law_looking_does_not_delay(
    g: GateView,
    path: Seq<char>,
    fp: ActionFingerprint,
    seen: u64,
    between: u64,
    now: u64,
)
    requires
        g.pending.contains_key(path),
        g.pending[path] == (PendingSubmit { fingerprint: fp, first_seen_ns: seen }),
        !g.last.contains_pair(path, fp),
        seen <= between <= now,
        between - seen < 1_100_000_000,
    ensures
        gate::observed(g, path, fp, between) == g,
        gate::standing(g, path, fp, now) == if now - seen >= 1_100_000_000 {
            Observation::Ready
        } else {
            Observation::Waiting
        },
{
}

/// Files that are not there any more are not remembered; what is known of the others, and
/// which files are closed, stays.
pub proof fn law_only_files_that_are_there_are_remembered(
    g: GateView,
    seen: Set<Seq<char>>,
    path: Seq<char>,
)
    ensures
        ({
            let after = gate::only_seen(g, seen);
            &&& seen.contains(path) ==> after.last.contains_key(path) == g.last.contains_key(path)
                && after.pending.contains_key(path) == g.pending.contains_key(path)
            &&& seen.contains(path) && g.last.contains_key(path) ==> after.last[path]
                == g.last[path]
            &&& seen.contains(path) && g.pending.contains_key(path) ==> after.pending[path]
                == g.pending[path]
            &&& !seen.contains(path) ==> !after.last.contains_key(path)
                && !after.pending.contains_key(path)
            &&& after.blocked == g.blocked
        }),
{
}

/// An action is declared by a node of that kind whose template ends in `.act`, and by no
/// other: under its template without the slashes in front, with the limit that it sets.
/// Its payload is text, JSON or either, as it says; it runs at once unless it says
/// otherwise. Declarations keep their order.
pub proof fn law_actions_are_declared(nodes: Seq<ManifestNode>, node: ManifestNode)
    ensures
        ({
            let all = runtime::declared_actions(nodes.push(node));
            let before = runtime::declared_actions(nodes);
            let acts = node.kind@ == "action"@ && text::finishes(node.template@, ".act"@);
            &&& !acts ==> all == before
            &&& acts ==> {
                &&& all.len() == before.len() + 1
                &&& all.drop_last() == before
                &&& all.last().template == text::trim_front(node.template@, Edge::Slash)
                &&& all.last().max_payload_bytes == node.max_payload_bytes
                &&& text::opt(node.input_mode) == Some("text"@) ==> all.last().input_mode
                    == InputMode::Text
                &&& text::opt(node.input_mode) == Some("json"@) ==> all.last().input_mode
                    == InputMode::Json
                &&& text::opt(node.input_mode) != Some("text"@) && text::opt(node.input_mode)
                    != Some("json"@) ==> all.last().input_mode == InputMode::TextOrJson
                &&& all.last().execution_mode == ExecutionMode::Streaming <==> text::opt(
                    node.execution_mode,
                ) == Some("streaming"@)
            }
        }),
        runtime::declared_actions(Seq::<ManifestNode>::empty()).len() == 0,
{
    assert(nodes.push(node).drop_last() =~= nodes);
    let before = runtime::declared_actions(nodes);
    assert(before.push(runtime::declared(node)).drop_last() =~= before);
    reveal_strlit("text");
    reveal_strlit("json");
    assert("text"@[0] != "json"@[0]);
}

/// An answer with an error status is the error that its body tells, if it tells one; else
/// it is an internal error that names the status, and the body where there is one.
pub proof fn law_error_answers_are_read(
    status: u16,
    body: Seq<char>,
    e: AdapterErrorV1,
    p: Option<BridgeErrorPayload>,
    q: BridgeErrorPayload,
)
    ensures
        bridge::status_error(status, body, Some(e), p) == e@,
        bridge::status_error(status, body, None, Some(q)) == (AdapterErrorView::Rejected {
            code: q.code@,
            message: q.message@,
            retryable: q.retryable,
        }),
        bridge::status_error(status, body, None, None) == (AdapterErrorView::Internal {
            message: if blank(body) {
                "bridge http status "@ + text::decimal(status as nat)
            } else {
                "bridge http status "@ + text::decimal(status as nat) + ": "@ + body
            },
        }),
{
    lemma_trimmed_blank(body);
}

} // verus!
