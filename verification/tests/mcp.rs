use grok_core::mcp::{
    classify_retry, deterministic_retry_delay, jittered_delay, map_final_failure,
    protocol_code_is_transient, translate_mcp_result, AttemptFailure, AttemptOutcome, CallAction,
    McpBlock, McpCallLoop, McpCallResult, McpContent, McpError, McpToolDefinition,
    RetryDecision, ToolFailureKind, ToolOutputWire, MCP_TOOL_CALL_MAX_ATTEMPTS,
};

#[test]
fn translate_mcp_result_single_text() {
    let result = McpCallResult {
        content: vec![McpContent::Text {
            text: "hello".into(),
        }],
        is_error: false,
    };
    assert_eq!(
        translate_mcp_result(&result),
        ToolOutputWire::Text("hello".into())
    );
}

#[test]
fn translate_mcp_result_error_concatenates_text() {
    let result = McpCallResult {
        content: vec![
            McpContent::Text {
                text: "line 1".into(),
            },
            McpContent::Text {
                text: "line 2".into(),
            },
        ],
        is_error: true,
    };
    assert_eq!(
        translate_mcp_result(&result),
        ToolOutputWire::Text("line 1\nline 2".into())
    );
}

#[test]
fn translate_mcp_result_mixed_content_uses_blocks() {
    let result = McpCallResult {
        content: vec![
            McpContent::Text {
                text: "hello".into(),
            },
            McpContent::Resource {
                uri: "file:///test".into(),
                mime_type: Some("text/plain".into()),
                text: Some("content".into()),
            },
        ],
        is_error: false,
    };
    match translate_mcp_result(&result) {
        ToolOutputWire::Mcp { blocks } => assert_eq!(blocks.len(), 2),
        other => panic!("expected Mcp, got {other:?}"),
    }
}

#[test]
fn translate_mcp_result_empty_content_returns_empty_text() {
    let result = McpCallResult {
        content: vec![],
        is_error: false,
    };
    assert_eq!(
        translate_mcp_result(&result),
        ToolOutputWire::Text(String::new())
    );
}

#[test]
fn translate_mcp_result_empty_error_content_returns_empty_text() {
    let result = McpCallResult {
        content: vec![],
        is_error: true,
    };
    assert_eq!(
        translate_mcp_result(&result),
        ToolOutputWire::Text(String::new())
    );
}

#[test]
fn translate_mcp_result_error_with_only_image_drops_content() {
    let result = McpCallResult {
        content: vec![McpContent::Image {
            mime_type: "image/png".into(),
            data: "base64data".into(),
        }],
        is_error: true,
    };
    assert_eq!(
        translate_mcp_result(&result),
        ToolOutputWire::Text(String::new())
    );
}

#[test]
fn translate_keeps_every_block_in_order() {
    let result = McpCallResult {
        content: vec![
            McpContent::Text {
                text: "result text".into(),
            },
            McpContent::Image {
                mime_type: "image/png".into(),
                data: "base64data".into(),
            },
            McpContent::Resource {
                uri: "file:///x".into(),
                mime_type: None,
                text: None,
            },
        ],
        is_error: false,
    };
    assert_eq!(
        translate_mcp_result(&result),
        ToolOutputWire::Mcp {
            blocks: vec![
                McpBlock::Text {
                    text: "result text".into()
                },
                McpBlock::Image {
                    mime_type: "image/png".into(),
                    data: "base64data".into()
                },
                McpBlock::Resource {
                    uri: "file:///x".into(),
                    mime_type: None,
                    text: None
                },
            ]
        }
    );
}

#[test]
fn translate_error_skips_non_text_between_lines() {
    let result = McpCallResult {
        content: vec![
            McpContent::Text { text: "a".into() },
            McpContent::Image {
                mime_type: "image/png".into(),
                data: "zz".into(),
            },
            McpContent::Text { text: "b".into() },
            McpContent::Text { text: "c".into() },
        ],
        is_error: true,
    };
    assert_eq!(
        translate_mcp_result(&result),
        ToolOutputWire::Text("a\nb\nc".into())
    );
}

#[test]
fn single_image_is_not_flattened() {
    let result = McpCallResult {
        content: vec![McpContent::Image {
            mime_type: "image/png".into(),
            data: "d".into(),
        }],
        is_error: false,
    };
    match translate_mcp_result(&result) {
        ToolOutputWire::Mcp { blocks } => assert_eq!(blocks.len(), 1),
        other => panic!("expected Mcp, got {other:?}"),
    }
}

#[test]
fn transient_protocol_codes() {
    for code in [408i64, 409, 425, 429, 500, 503, 599] {
        assert!(protocol_code_is_transient(code), "{code}");
    }
    for code in [400i64, 401, 404, 499, 600, -32600] {
        assert!(!protocol_code_is_transient(code), "{code}");
    }
}

#[test]
fn mcp_error_classification() {
    assert!(McpError::Transport("x".into()).is_transient());
    assert!(McpError::TransportPreCall("x".into()).is_transient());
    assert!(McpError::Timeout("x".into()).is_transient());
    assert!(!McpError::Decode("x".into()).is_transient());
    assert!(McpError::Protocol {
        code: 503,
        message: "busy".into()
    }
    .is_transient());
    assert!(McpError::TransportPreCall("x".into()).happened_before_remote_execution());
    assert!(!McpError::Transport("x".into()).happened_before_remote_execution());
}

#[test]
fn mcp_error_messages() {
    assert_eq!(
        McpError::Transport("connection reset".into()).message(),
        "transport error: connection reset"
    );
    assert_eq!(
        McpError::TransportPreCall("connect failed".into()).message(),
        "pre-call transport error: connect failed"
    );
    assert_eq!(
        McpError::Protocol {
            code: 400,
            message: "bad request".into()
        }
        .message(),
        "protocol error (code 400): bad request"
    );
    assert_eq!(
        McpError::Protocol {
            code: -32600,
            message: "invalid".into()
        }
        .message(),
        "protocol error (code -32600): invalid"
    );
    assert_eq!(McpError::Timeout("t".into()).message(), "timeout: t");
    assert_eq!(McpError::Decode("d".into()).message(), "decode error: d");
}

#[test]
fn attempt_failure_reasons() {
    assert_eq!(AttemptFailure::BackstopTimeout.retry_reason(), "backstop_timeout");
    assert_eq!(
        AttemptFailure::Mcp(McpError::TransportPreCall("x".into())).retry_reason(),
        "transport_pre_call"
    );
    assert_eq!(
        AttemptFailure::Mcp(McpError::Transport("x".into())).retry_reason(),
        "transport"
    );
    assert_eq!(
        AttemptFailure::Mcp(McpError::Timeout("x".into())).retry_reason(),
        "transport_timeout"
    );
    assert_eq!(
        AttemptFailure::Mcp(McpError::Protocol {
            code: 500,
            message: "x".into()
        })
        .retry_reason(),
        "transient_protocol"
    );
    assert_eq!(
        AttemptFailure::Mcp(McpError::Decode("x".into())).retry_reason(),
        "decode"
    );
    assert!(AttemptFailure::BackstopTimeout.is_transient());
    assert!(!AttemptFailure::BackstopTimeout.happened_before_remote_execution());
}

#[test]
fn classify_retry_decisions() {
    let decode = AttemptFailure::Mcp(McpError::Decode("bad".into()));
    assert_eq!(
        classify_retry(&decode, true),
        RetryDecision::NoRetry {
            reason: "deterministic_failure"
        }
    );
    let reset = AttemptFailure::Mcp(McpError::Transport("reset".into()));
    assert_eq!(
        classify_retry(&reset, false),
        RetryDecision::NoRetry {
            reason: "unsafe_non_idempotent"
        }
    );
    assert_eq!(
        classify_retry(&reset, true),
        RetryDecision::Retry { reason: "transport" }
    );
    let pre = AttemptFailure::Mcp(McpError::TransportPreCall("connect".into()));
    assert_eq!(
        classify_retry(&pre, false),
        RetryDecision::Retry {
            reason: "transport_pre_call"
        }
    );
    assert_eq!(
        classify_retry(&AttemptFailure::BackstopTimeout, false),
        RetryDecision::NoRetry {
            reason: "unsafe_non_idempotent"
        }
    );
    let bad_request = AttemptFailure::Mcp(McpError::Protocol {
        code: 400,
        message: "bad request".into(),
    });
    assert_eq!(
        classify_retry(&bad_request, true),
        RetryDecision::NoRetry {
            reason: "deterministic_failure"
        }
    );
}

fn schema_tool(schema: Option<&str>) -> McpToolDefinition {
    McpToolDefinition {
        name: "search".into(),
        description: Some("Search for items".into()),
        input_schema: schema.map(|s| s.to_string()),
    }
}

#[test]
fn retry_safe_marker_is_explicit_and_opt_in() {
    assert!(schema_tool(Some(
        r#"{"type":"object","properties":{"query":{"type":"string"}},"x-retry-safe":true}"#
    ))
    .is_retry_safe());
    assert!(!schema_tool(Some(r#"{"type":"object","x-retry-safe":false}"#)).is_retry_safe());
    assert!(!schema_tool(Some(r#"{"type":"object"}"#)).is_retry_safe());
    assert!(!schema_tool(Some(r#"{"x-retry-safe":"true"}"#)).is_retry_safe());
    assert!(!schema_tool(Some(r#"{"properties":{"x-retry-safe":true}}"#)).is_retry_safe());
    assert!(!schema_tool(Some("not json")).is_retry_safe());
    assert!(!schema_tool(None).is_retry_safe());
}

#[test]
fn retry_delay_is_deterministic_and_bounded() {
    for attempt in 2..=6u32 {
        let a = deterministic_retry_delay("search", attempt);
        let b = deterministic_retry_delay("search", attempt);
        assert_eq!(a, b);
        let capped: u64 = match attempt {
            2 => 100,
            3 => 200,
            4 => 400,
            _ => 800,
        };
        assert!(a >= capped - capped / 5 && a <= capped + capped / 5, "{attempt}: {a}");
    }
}

#[test]
fn jittered_delay_exact_values() {
    // attempt 2: capped 100, span 20, window 41 values.
    assert_eq!(jittered_delay(2, 0), 80);
    assert_eq!(jittered_delay(2, 20), 100);
    assert_eq!(jittered_delay(2, 40), 120);
    assert_eq!(jittered_delay(2, 41), 80);
    // attempt 3: capped 200, span 40.
    assert_eq!(jittered_delay(3, 0), 160);
    assert_eq!(jittered_delay(3, 80), 240);
    // attempt 9 and beyond: capped at 800, span 160.
    assert_eq!(jittered_delay(9, 160), 800);
    assert_eq!(jittered_delay(u32::MAX, 0), 640);
    // attempt 1 is treated like attempt 2.
    assert_eq!(jittered_delay(1, 20), 100);
}

fn text_result(text: &str) -> McpCallResult {
    McpCallResult {
        content: vec![McpContent::Text { text: text.into() }],
        is_error: false,
    }
}

#[test]
fn call_loop_retries_then_succeeds() {
    let mut call = McpCallLoop::new();
    let first = AttemptOutcome::Failed(AttemptFailure::Mcp(McpError::Transport(
        "connection reset".into(),
    )));
    match call.on_attempt("search", true, &first) {
        CallAction::Backoff {
            delay_ms,
            next_attempt,
        } => {
            assert_eq!(next_attempt, 2);
            assert_eq!(delay_ms, deterministic_retry_delay("search", 2));
        }
        other => panic!("expected backoff, got {other:?}"),
    }
    assert!(call.after_backoff("search", true).is_none());
    assert_eq!(call.attempt, 2);
    let second = AttemptOutcome::Completed(text_result("ok after retry"));
    match call.on_attempt("search", true, &second) {
        CallAction::Finish(Ok(out)) => {
            assert_eq!(out, ToolOutputWire::Text("ok after retry".into()))
        }
        other => panic!("expected success, got {other:?}"),
    }
}

#[test]
fn call_loop_respects_attempt_cap() {
    let mut call = McpCallLoop::new();
    let mut attempts = 0;
    let final_error = loop {
        attempts += 1;
        let outcome = AttemptOutcome::Failed(AttemptFailure::Mcp(McpError::Transport(format!(
            "connection reset #{attempts}"
        ))));
        match call.on_attempt("search", true, &outcome) {
            CallAction::Backoff { .. } => {
                assert!(call.after_backoff("search", true).is_none());
            }
            CallAction::Finish(Err(e)) => break e,
            CallAction::Finish(Ok(out)) => panic!("unexpected success {out:?}"),
        }
    };
    assert_eq!(attempts, MCP_TOOL_CALL_MAX_ATTEMPTS);
    assert_eq!(final_error.kind, ToolFailureKind::Execution);
    assert!(final_error.detail.contains("connection reset #3"));
    assert_eq!(final_error.tool_id, "search");
}

#[test]
fn call_loop_does_not_retry_deterministic_protocol_errors() {
    let call = McpCallLoop::new();
    let outcome = AttemptOutcome::Failed(AttemptFailure::Mcp(McpError::Protocol {
        code: 400,
        message: "bad request".into(),
    }));
    match call.on_attempt("search", true, &outcome) {
        CallAction::Finish(Err(e)) => {
            assert_eq!(e.kind, ToolFailureKind::Execution);
            assert!(e.detail.contains("bad request"));
        }
        other => panic!("expected failure, got {other:?}"),
    }
}

#[test]
fn call_loop_gates_ambiguous_failures_on_retry_safety() {
    let call = McpCallLoop::new();
    let outcome = AttemptOutcome::Failed(AttemptFailure::Mcp(McpError::Transport(
        "connection reset".into(),
    )));
    match call.on_attempt("create", false, &outcome) {
        CallAction::Finish(Err(e)) => {
            assert_eq!(e.kind, ToolFailureKind::Execution);
            assert_eq!(e.detail, "transport error: connection reset");
        }
        other => panic!("expected failure, got {other:?}"),
    }
    let pre_call = AttemptOutcome::Failed(AttemptFailure::Mcp(McpError::TransportPreCall(
        "connect failed".into(),
    )));
    assert!(matches!(
        call.on_attempt("create", false, &pre_call),
        CallAction::Backoff { next_attempt: 2, .. }
    ));
}

#[test]
fn call_loop_cancelled_during_backoff() {
    let mut call = McpCallLoop::new();
    let before = call;
    let e = call.after_backoff("search", false).expect("cancelled");
    assert_eq!(e.kind, ToolFailureKind::Cancelled);
    assert_eq!(e.detail, "MCP tool call cancelled during retry backoff");
    assert_eq!(call, before);
}

#[test]
fn call_loop_timeout_message_and_class() {
    let call = McpCallLoop::new();
    match call.on_attempt(
        "search",
        false,
        &AttemptOutcome::Failed(AttemptFailure::BackstopTimeout),
    ) {
        CallAction::Finish(Err(e)) => {
            assert_eq!(e.kind, ToolFailureKind::Timeout);
            assert_eq!(e.detail, "MCP tool call timed out after 30s");
            assert!(!e.detail.contains("test-token"));
        }
        other => panic!("expected timeout, got {other:?}"),
    }
    let retried = call.on_attempt(
        "search",
        true,
        &AttemptOutcome::Failed(AttemptFailure::BackstopTimeout),
    );
    assert!(matches!(retried, CallAction::Backoff { next_attempt: 2, .. }));
}

#[test]
fn final_failure_mapping() {
    let e = map_final_failure("search", &AttemptFailure::Mcp(McpError::Decode("x".into())));
    assert_eq!(e.kind, ToolFailureKind::Execution);
    assert_eq!(e.detail, "decode error: x");
    let t = map_final_failure("search", &AttemptFailure::BackstopTimeout);
    assert_eq!(t.kind, ToolFailureKind::Timeout);
}

#[test]
fn only_validly_named_tools_are_bridged() {
    assert_eq!(grok_core::mcp::bridged_tools(&vec![true, false, true]), vec![0, 2]);
    assert_eq!(grok_core::mcp::bridged_tools(&vec![false]), Vec::<usize>::new());
}
