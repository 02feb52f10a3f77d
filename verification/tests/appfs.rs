//! Payloads, names and paths of the application file system.

use agentfs::appfs::payload::{
    check_payload, extract_client_token, parse_paging_request, validate_text_payload_complete,
    InputMode,
};
use agentfs::appfs::segments::{
    action_template_matches, deterministic_shorten_segment, fnv1a_64, is_drive_letter_segment,
    is_handle_format_valid, is_safe_action_rel_path, is_safe_segment, is_template_placeholder,
    is_windows_reserved_name, normalize_runtime_handle_id, MAX_SEGMENT_BYTES,
};

#[test]
fn parse_handle_text_mode() {
    let req = parse_paging_request("ph_7f2c\n").expect("expected handle");
    assert_eq!(req.handle_id, "ph_7f2c");
    assert_eq!(req.session_id, None);
}

#[test]
fn parse_handle_json_mode() {
    let req = parse_paging_request(r#"{"handle_id":"ph_abc"}"#).expect("expected handle");
    assert_eq!(req.handle_id, "ph_abc");
    assert_eq!(req.session_id, None);
}

#[test]
fn parse_handle_json_with_session_mode() {
    let req = parse_paging_request(r#"{"handle_id":"ph_abc","session_id":"sess-other"}"#)
        .expect("expected handle");
    assert_eq!(req.handle_id, "ph_abc");
    assert_eq!(req.session_id.as_deref(), Some("sess-other"));
}

#[test]
fn extract_token_from_text() {
    let token = extract_client_token("token:msg-001\nhello").expect("token missing");
    assert_eq!(token, "msg-001");
}

#[test]
fn extract_token_from_json() {
    let token = extract_client_token(r#"{"client_token":"x-1"}"#).expect("token missing");
    assert_eq!(token, "x-1");
}

#[test]
fn handle_format_validation() {
    assert!(is_handle_format_valid("ph_7f2c"));
    assert!(!is_handle_format_valid("bad/handle"));
}

#[test]
fn normalize_runtime_handle_id_keeps_short_value() {
    let handle = "ph_short_handle";
    assert_eq!(normalize_runtime_handle_id(handle), handle);
}

#[test]
fn deterministic_shorten_is_bounded_and_stable() {
    let long_handle = format!("ph_{}", "a".repeat(500));
    let shortened_a = deterministic_shorten_segment(&long_handle, MAX_SEGMENT_BYTES);
    let shortened_b = deterministic_shorten_segment(&long_handle, MAX_SEGMENT_BYTES);

    assert_eq!(shortened_a, shortened_b);
    assert!(shortened_a.starts_with("ph_"));
    assert!(shortened_a.as_bytes().len() <= MAX_SEGMENT_BYTES);
}

#[test]
fn shortening_twice_changes_nothing() {
    let once = deterministic_shorten_segment(&"b".repeat(300), MAX_SEGMENT_BYTES);
    assert_eq!(once.len(), MAX_SEGMENT_BYTES);
    assert_eq!(deterministic_shorten_segment(&once, MAX_SEGMENT_BYTES), once);
}

#[test]
fn shortening_does_not_cut_characters() {
    let long = "é".repeat(200);
    let short = deterministic_shorten_segment(&long, MAX_SEGMENT_BYTES);
    assert!(short.len() <= MAX_SEGMENT_BYTES);
    assert!(short.starts_with('é'));
}

#[test]
fn hash_of_known_inputs() {
    assert_eq!(fnv1a_64(b""), 0xcbf29ce484222325);
    assert_eq!(fnv1a_64(b"a"), 0xaf63dc4c8601ec8c);
    assert_eq!(fnv1a_64(b"foobar"), 0x85944171f73967e8);
}

#[test]
fn text_payload_has_to_end() {
    assert!(validate_text_payload_complete("hello\n").is_ok());
    assert!(validate_text_payload_complete("hello").is_err());
}

#[test]
fn payload_is_checked_against_its_mode() {
    assert_eq!(check_payload(Some(3), InputMode::Text, "long\n", false), Err("EMSGSIZE"));
    assert_eq!(check_payload(None, InputMode::Json, "nope", false), Err("INVALID_PAYLOAD"));
    assert_eq!(check_payload(None, InputMode::Json, "{}", true), Ok(()));
    assert_eq!(check_payload(None, InputMode::TextOrJson, "[1]", true), Ok(()));
}

#[test]
fn paging_request_without_a_handle_is_refused() {
    assert!(parse_paging_request("").is_err());
    assert!(parse_paging_request("{}").is_err());
}

#[test]
fn tokens_are_trimmed_and_optional() {
    assert_eq!(extract_client_token("no token"), None);
    assert_eq!(extract_client_token("{\"client_token\":1}"), None);
}

#[test]
fn safe_paths_stay_inside() {
    assert!(is_safe_action_rel_path("contacts/send.act"));
    assert!(!is_safe_action_rel_path("../send.act"));
    assert!(is_safe_action_rel_path("/contacts/send.act"));
    assert!(!is_safe_action_rel_path("/"));
    assert!(!is_safe_segment(".."));
    assert!(!is_safe_segment("a\\b"));
    assert!(is_drive_letter_segment("C:"));
    assert!(is_windows_reserved_name("con"));
    assert!(is_windows_reserved_name("COM1"));
    assert!(!is_windows_reserved_name("COM1.txt"));
    assert!(!is_windows_reserved_name("console"));
}

#[test]
fn templates_match_segment_by_segment() {
    assert!(is_template_placeholder("{id}"));
    assert!(!is_template_placeholder("id"));
    assert!(action_template_matches("chats/{id}/send.act", "chats/42/send.act"));
    assert!(!action_template_matches("chats/{id}/send.act", "chats/send.act"));
    assert!(!action_template_matches("chats/{id}/send.act", "chats/42/other.act"));
}
