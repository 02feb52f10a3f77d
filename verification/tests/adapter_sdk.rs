//! Adapters that users write, and the cases they have to pass.

use agentfs::appfs::adapter::{
    is_appfs_adapter_sdk_v01_compatible, AdapterControlActionV1, AdapterControlOutcomeV1,
    AdapterErrorV1, AdapterExecutionModeV1, AdapterInputModeV1, AdapterStreamingPlanV1,
    AdapterSubmitOutcomeV1, AppAdapterV1, RequestContextV1, APPFS_ADAPTER_SDK_VERSION,
};
use agentfs::appfs::bridge::{
    decode_error, map_status_error, transport_error, BridgeErrorPayload, HttpBridgeAdapterV1,
};
use agentfs::appfs::testkit::{
    default_request_context_v1, run_error_case_matrix_v1, run_required_case_matrix_v1,
    ErrorCaseMatrixV1, RequiredCaseMatrixV1,
};
use agentfs::json::Json;

fn text(s: &str) -> Json {
    Json::Text(s.to_string())
}

fn object(members: Vec<(&str, Json)>) -> Json {
    Json::Object(members.into_iter().map(|(k, v)| (k.to_string(), v)).collect())
}

struct RequiredMatrixAdapterA;

impl AppAdapterV1 for RequiredMatrixAdapterA {
    fn app_id(&self) -> &str {
        "aiim"
    }

    fn submit_action(
        &mut self,
        path: &str,
        _payload: &str,
        _input_mode: AdapterInputModeV1,
        execution_mode: AdapterExecutionModeV1,
        _ctx: &RequestContextV1,
    ) -> Result<AdapterSubmitOutcomeV1, AdapterErrorV1> {
        if execution_mode == AdapterExecutionModeV1::Inline {
            return Ok(AdapterSubmitOutcomeV1::Completed {
                content: object(vec![
                    ("path", text(path)),
                    ("status", text("ok")),
                    ("adapter", text("a")),
                ]),
            });
        }
        Ok(AdapterSubmitOutcomeV1::Streaming {
            plan: AdapterStreamingPlanV1 {
                accepted_content: Some(object(vec![("state", text("accepted"))])),
                progress_content: Some(object(vec![("percent", Json::Int(50))])),
                terminal_content: object(vec![("ok", Json::Bool(true))]),
            },
        })
    }

    fn submit_control_action(
        &mut self,
        _path: &str,
        action: AdapterControlActionV1,
        _ctx: &RequestContextV1,
    ) -> Result<AdapterControlOutcomeV1, AdapterErrorV1> {
        match action {
            AdapterControlActionV1::PagingFetchNext { handle_id, page_no, has_more } => {
                Ok(AdapterControlOutcomeV1::Completed {
                    content: object(vec![(
                        "page",
                        object(vec![
                            ("handle_id", text(&handle_id)),
                            ("page_no", Json::Int(page_no as i64)),
                            ("has_more", Json::Bool(has_more)),
                        ]),
                    )]),
                })
            }
            AdapterControlActionV1::PagingClose { handle_id } => {
                Ok(AdapterControlOutcomeV1::Completed {
                    content: object(vec![
                        ("closed", Json::Bool(true)),
                        ("handle_id", text(&handle_id)),
                    ]),
                })
            }
        }
    }
}

struct RequiredMatrixAdapterB;

impl AppAdapterV1 for RequiredMatrixAdapterB {
    fn app_id(&self) -> &str {
        "aiim"
    }

    fn submit_action(
        &mut self,
        path: &str,
        _payload: &str,
        _input_mode: AdapterInputModeV1,
        execution_mode: AdapterExecutionModeV1,
        _ctx: &RequestContextV1,
    ) -> Result<AdapterSubmitOutcomeV1, AdapterErrorV1> {
        if execution_mode == AdapterExecutionModeV1::Inline {
            return Ok(AdapterSubmitOutcomeV1::Completed {
                content: object(vec![
                    ("path", text(path)),
                    ("status", text("ok")),
                    ("adapter", text("b")),
                    ("ts", Json::Int(1)),
                ]),
            });
        }
        Ok(AdapterSubmitOutcomeV1::Streaming {
            plan: AdapterStreamingPlanV1 {
                accepted_content: Some(object(vec![
                    ("state", text("accepted")),
                    ("queue", text("default")),
                ])),
                progress_content: Some(object(vec![
                    ("percent", Json::Int(50)),
                    ("phase", text("download")),
                ])),
                terminal_content: object(vec![
                    ("ok", Json::Bool(true)),
                    ("saved_to", text("/tmp/out.bin")),
                ]),
            },
        })
    }

    fn submit_control_action(
        &mut self,
        _path: &str,
        action: AdapterControlActionV1,
        _ctx: &RequestContextV1,
    ) -> Result<AdapterControlOutcomeV1, AdapterErrorV1> {
        match action {
            AdapterControlActionV1::PagingFetchNext { handle_id, page_no, has_more } => {
                Ok(AdapterControlOutcomeV1::Completed {
                    content: object(vec![
                        ("items", Json::Array(vec![object(vec![("id", text("m-1"))])])),
                        (
                            "page",
                            object(vec![
                                ("handle_id", text(&handle_id)),
                                ("page_no", Json::Int(page_no as i64)),
                                ("has_more", Json::Bool(has_more)),
                                ("mode", text("snapshot")),
                            ]),
                        ),
                    ]),
                })
            }
            AdapterControlActionV1::PagingClose { handle_id } => {
                Ok(AdapterControlOutcomeV1::Completed {
                    content: object(vec![
                        ("closed", Json::Bool(true)),
                        ("handle_id", text(&handle_id)),
                    ]),
                })
            }
        }
    }
}

struct ErrorMatrixAdapter;

impl AppAdapterV1 for ErrorMatrixAdapter {
    fn app_id(&self) -> &str {
        "aiim"
    }

    fn submit_action(
        &mut self,
        path: &str,
        _payload: &str,
        _input_mode: AdapterInputModeV1,
        _execution_mode: AdapterExecutionModeV1,
        _ctx: &RequestContextV1,
    ) -> Result<AdapterSubmitOutcomeV1, AdapterErrorV1> {
        if path.ends_with("/reject.act") {
            return Err(AdapterErrorV1::Rejected {
                code: "INVALID_ARGUMENT".to_string(),
                message: "bad payload".to_string(),
                retryable: false,
            });
        }
        Err(AdapterErrorV1::Internal { message: "backend unavailable".to_string() })
    }
}

#[test]
fn sdk_trait_smoke_submit_and_control() {
    let mut adapter = RequiredMatrixAdapterA;
    run_required_case_matrix_v1(
        &mut adapter,
        &default_request_context_v1("aiim"),
        &RequiredCaseMatrixV1::default(),
    )
    .expect("required matrix should pass");
}

#[test]
fn sdk_trait_required_case_matrix_is_adapter_pluggable() {
    let cases = RequiredCaseMatrixV1::default();
    let ctx = default_request_context_v1("aiim");

    let mut adapter_a = RequiredMatrixAdapterA;
    run_required_case_matrix_v1(&mut adapter_a, &ctx, &cases)
        .expect("adapter A should pass required matrix");

    let mut adapter_b = RequiredMatrixAdapterB;
    run_required_case_matrix_v1(&mut adapter_b, &ctx, &cases)
        .expect("adapter B should pass required matrix");
}

#[test]
fn sdk_trait_error_case_matrix() {
    let mut adapter = ErrorMatrixAdapter;
    run_error_case_matrix_v1(
        &mut adapter,
        &default_request_context_v1("aiim"),
        &ErrorCaseMatrixV1::default(),
    )
    .expect("error matrix should pass");
}

#[test]
fn sdk_trait_default_control_action_not_supported() {
    let mut adapter = ErrorMatrixAdapter;
    let err = adapter
        .submit_control_action(
            "/_paging/fetch_next.act",
            AdapterControlActionV1::PagingFetchNext {
                handle_id: "ph_abc".to_string(),
                page_no: 1,
                has_more: true,
            },
            &default_request_context_v1("aiim"),
        )
        .expect_err("default control path should be unsupported");
    match err {
        AdapterErrorV1::Rejected { code, message, retryable } => {
            assert_eq!(code, "NOT_SUPPORTED");
            assert!(message.contains("control action"), "unexpected message: {}", message);
            assert!(!retryable);
        }
        _ => panic!("expected rejected not-supported error"),
    }
}

#[test]
fn sdk_version_reports_v01_compatibility() {
    assert!(is_appfs_adapter_sdk_v01_compatible(APPFS_ADAPTER_SDK_VERSION));
    assert!(is_appfs_adapter_sdk_v01_compatible("0.1.9"));
    assert!(!is_appfs_adapter_sdk_v01_compatible("0.2.0"));
    assert!(!is_appfs_adapter_sdk_v01_compatible("1.0.0"));
    assert!(!is_appfs_adapter_sdk_v01_compatible("invalid"));
}

#[test]
fn wrong_adapters_fail_their_cases() {
    let ctx = default_request_context_v1("aiim");
    let mut broken = ErrorMatrixAdapter;
    assert!(run_required_case_matrix_v1(&mut broken, &ctx, &RequiredCaseMatrixV1::default())
        .is_err());
    let mut fine = RequiredMatrixAdapterA;
    assert!(run_error_case_matrix_v1(&mut fine, &ctx, &ErrorCaseMatrixV1::default()).is_err());
    let other = default_request_context_v1("other");
    assert!(run_required_case_matrix_v1(&mut fine, &other, &RequiredCaseMatrixV1::default())
        .is_err());
}

/// An adapter that counts its calls, and gives its answers up to one of them.
struct Counting {
    app: &'static str,
    inner: RequiredMatrixAdapterA,
    calls: Vec<String>,
    fails_at: usize,
}

impl Counting {
    fn new(app: &'static str, fails_at: usize) -> Counting {
        Counting { app, inner: RequiredMatrixAdapterA, calls: Vec::new(), fails_at }
    }

    fn note(&mut self, path: &str) -> Result<(), AdapterErrorV1> {
        self.calls.push(path.to_string());
        if self.calls.len() == self.fails_at {
            return Err(AdapterErrorV1::Internal { message: "no".to_string() });
        }
        Ok(())
    }
}

impl AppAdapterV1 for Counting {
    fn app_id(&self) -> &str {
        self.app
    }

    fn submit_action(
        &mut self,
        path: &str,
        payload: &str,
        input_mode: AdapterInputModeV1,
        execution_mode: AdapterExecutionModeV1,
        ctx: &RequestContextV1,
    ) -> Result<AdapterSubmitOutcomeV1, AdapterErrorV1> {
        self.note(path)?;
        self.inner.submit_action(path, payload, input_mode, execution_mode, ctx)
    }

    fn submit_control_action(
        &mut self,
        path: &str,
        action: AdapterControlActionV1,
        ctx: &RequestContextV1,
    ) -> Result<AdapterControlOutcomeV1, AdapterErrorV1> {
        self.note(path)?;
        self.inner.submit_control_action(path, action, ctx)
    }
}

#[test]
fn cases_end_with_the_first_answer_that_fails() {
    let ctx = default_request_context_v1("aiim");
    let cases = RequiredCaseMatrixV1::default();
    let mut other = Counting::new("else", 0);
    assert!(run_required_case_matrix_v1(&mut other, &ctx, &cases).is_err());
    assert!(other.calls.is_empty());
    let mut good = Counting::new("aiim", 0);
    assert!(run_required_case_matrix_v1(&mut good, &ctx, &cases).is_ok());
    assert_eq!(
        good.calls,
        vec![
            cases.inline_path.clone(),
            cases.streaming_path.clone(),
            cases.fetch_next_path.clone(),
            cases.close_path.clone(),
        ]
    );
    for n in 1..5 {
        let mut bad = Counting::new("aiim", n);
        assert!(run_required_case_matrix_v1(&mut bad, &ctx, &cases).is_err());
        assert_eq!(bad.calls, good.calls[..n]);
    }
    let errors = ErrorCaseMatrixV1::default();
    let mut good = Counting::new("aiim", 0);
    assert!(run_error_case_matrix_v1(&mut good, &ctx, &errors).is_err());
    assert_eq!(good.calls, vec![errors.rejected_path.clone()]);
}

fn as_adapter_error(body: &str) -> Option<AdapterErrorV1> {
    let v: serde_json::Value = serde_json::from_str(body).ok()?;
    match v.get("kind")?.as_str()? {
        "rejected" => Some(AdapterErrorV1::Rejected {
            code: v.get("code")?.as_str()?.to_string(),
            message: v.get("message")?.as_str()?.to_string(),
            retryable: v.get("retryable")?.as_bool()?,
        }),
        "internal" => {
            Some(AdapterErrorV1::Internal { message: v.get("message")?.as_str()?.to_string() })
        }
        _ => None,
    }
}

fn as_payload(body: &str) -> Option<BridgeErrorPayload> {
    let v: serde_json::Value = serde_json::from_str(body).ok()?;
    Some(BridgeErrorPayload {
        code: v.get("code")?.as_str()?.to_string(),
        message: v.get("message")?.as_str()?.to_string(),
        retryable: v.get("retryable")?.as_bool()?,
    })
}

#[test]
fn map_status_error_accepts_adapter_error_shape() {
    let body =
        r#"{"kind":"rejected","code":"INVALID_ARGUMENT","message":"bad payload","retryable":false}"#;
    let err = map_status_error(400, body, as_adapter_error(body), as_payload(body));
    match err {
        AdapterErrorV1::Rejected { code, message, retryable } => {
            assert_eq!(code, "INVALID_ARGUMENT");
            assert_eq!(message, "bad payload");
            assert!(!retryable);
        }
        _ => panic!("expected rejected error"),
    }
}

#[test]
fn map_status_error_accepts_simple_error_shape() {
    let body = r#"{"code":"PERMISSION_DENIED","message":"forbidden","retryable":false}"#;
    let err = map_status_error(403, body, as_adapter_error(body), as_payload(body));
    match err {
        AdapterErrorV1::Rejected { code, message, retryable } => {
            assert_eq!(code, "PERMISSION_DENIED");
            assert_eq!(message, "forbidden");
            assert!(!retryable);
        }
        _ => panic!("expected rejected error"),
    }
}

#[test]
fn status_without_a_known_body_is_reported() {
    let message = |e: AdapterErrorV1| match e {
        AdapterErrorV1::Internal { message } => message,
        _ => panic!("expected internal error"),
    };
    assert_eq!(message(map_status_error(502, "  ", None, None)), "bridge http status 502");
    assert_eq!(
        message(map_status_error(500, "oops", None, None)),
        "bridge http status 500: oops"
    );
    assert!(message(decode_error("http://h/x", "bad")).contains("bad"));
    assert!(message(transport_error("http://h/x", "down")).contains("down"));
}

#[test]
fn bridge_urls_have_one_slash() {
    let bridge =
        HttpBridgeAdapterV1::new("aiim".to_string(), "http://localhost:1/".to_string(), 5);
    assert_eq!(bridge.url("/v1/submit-action"), "http://localhost:1/v1/submit-action");
}
