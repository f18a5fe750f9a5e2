use savvagent::json::JsonValue;
use savvagent::permissions::{PermissionDecision, Verdict};
use savvagent::protocol::{BlockDelta, ContentBlock, StopReason, StreamEvent};
use savvagent::session::{after_response, check_schema_version, check_transcript_root, decimal_string,
    gate_on_prompt, gate_on_verdict, next_iteration, settle_ran, settle_refused, summarize_response,
    AfterResponse, GateStep, HostError, PromptOutcome, ToolCallStatus, TranscriptError,
    TranscriptRoot, TRANSCRIPT_SCHEMA_VERSION};
use savvagent::session::{bash_network_step, text_delta_of, BashNetworkPolicy, BashNetworkStep};
use savvagent::subhost::SubHostError;
use savvagent::tools::ToolCallOutcome;

#[test]
fn sub_host_error_variants_compile() {
    let _ = SubHostError::Unimplemented;
    let _ = SubHostError::Cancelled;
    let _ = SubHostError::DepthExceeded;
    let _ = SubHostError::EmptyOutput;
    let _ = SubHostError::Provider("p".into());
    let _ = SubHostError::Tool("t".into());
}

#[test]
fn sub_host_error_messages() {
    assert_eq!(SubHostError::Cancelled.message(), "subagent cancelled");
    assert_eq!(SubHostError::Tool("t".into()).message(), "tool error: t");
}

#[test]
fn iteration_cap() {
    assert_eq!(next_iteration(0, 20), Ok(1));
    assert_eq!(next_iteration(19, 20), Ok(20));
    assert_eq!(next_iteration(20, 20), Err(HostError::LoopLimit(20)));
    assert_eq!(next_iteration(0, 0), Err(HostError::LoopLimit(0)));
}

#[test]
fn response_text_joins_text_blocks() {
    let content = vec![
        ContentBlock::Text { text: "a".into() },
        ContentBlock::ToolUse { id: "1".into(), name: "ls".into(), input: JsonValue::Null },
        ContentBlock::Text { text: "b".into() },
    ];
    let s = summarize_response(&content);
    assert_eq!(s.text, "a\nb");
    assert_eq!(s.tool_uses, vec![1]);
    let s = summarize_response(&[ContentBlock::Text { text: String::new() }, ContentBlock::Text { text: "x".into() }]);
    assert_eq!(s.text, "x");
}

#[test]
fn after_response_decisions() {
    assert_eq!(after_response(0, StopReason::ToolUse), Ok(AfterResponse::Finish));
    assert_eq!(after_response(2, StopReason::ToolUse), Ok(AfterResponse::RunTools));
    assert_eq!(
        after_response(2, StopReason::EndTurn),
        Err(HostError::MalformedResponse("stop_reason=end_turn but 2 tool_use block(s) present".into()))
    );
}

#[test]
fn gate_decisions() {
    assert_eq!(gate_on_verdict(Verdict::Allow, false), GateStep::Proceed);
    assert_eq!(gate_on_verdict(Verdict::Deny { reason: "r".into() }, true), GateStep::Refuse("r".into()));
    assert_eq!(gate_on_verdict(Verdict::Ask { summary: "s".into() }, true), GateStep::AskUser("s".into()));
    assert_eq!(
        gate_on_verdict(Verdict::Ask { summary: "s".into() }, false),
        GateStep::Refuse("non-interactive turn".into())
    );
    assert_eq!(gate_on_prompt(PromptOutcome::Answered(PermissionDecision::Allow)), Ok(()));
    assert_eq!(gate_on_prompt(PromptOutcome::Answered(PermissionDecision::Deny)), Err("denied by user".into()));
    assert_eq!(gate_on_prompt(PromptOutcome::Dropped), Err("permission channel dropped".into()));
    assert_eq!(
        gate_on_prompt(PromptOutcome::SendFailed),
        Err("event channel closed before permission could be requested".into())
    );
}

#[test]
fn settled_calls() {
    let s = settle_ran(ToolCallOutcome { is_error: true, payload: "boom".into() });
    assert_eq!(s.status, ToolCallStatus::Errored);
    assert!(s.is_error);
    let s = settle_ran(ToolCallOutcome { is_error: false, payload: "ok".into() });
    assert_eq!(s.status, ToolCallStatus::Succeeded);
    let s = settle_refused("path is protected");
    assert_eq!(s.payload, "denied by policy: path is protected");
    assert_eq!(s.status, ToolCallStatus::Errored);
}

#[test]
fn transcript_checks() {
    assert_eq!(check_schema_version(TRANSCRIPT_SCHEMA_VERSION), Ok(()));
    assert_eq!(
        check_schema_version(9),
        Err(TranscriptError::SchemaMismatch { found: 9, expected: TRANSCRIPT_SCHEMA_VERSION })
    );
    assert_eq!(check_transcript_root(TranscriptRoot::LegacyArray), Ok(()));
    assert_eq!(
        check_transcript_root(TranscriptRoot::Other),
        Err(TranscriptError::Malformed("expected a JSON object or array at the root".into()))
    );
}

#[test]
fn decimal_strings() {
    assert_eq!(decimal_string(0), "0");
    assert_eq!(decimal_string(7), "7");
    assert_eq!(decimal_string(1234567890), "1234567890");
    assert_eq!(decimal_string(u64::MAX), u64::MAX.to_string());
}

#[test]
fn bash_network_step_follows_policy_cache_and_interactivity() {
    assert_eq!(bash_network_step(BashNetworkPolicy::Always, Some(false), false), BashNetworkStep::Decided(true));
    assert_eq!(bash_network_step(BashNetworkPolicy::Never, Some(true), true), BashNetworkStep::Decided(false));
    assert_eq!(bash_network_step(BashNetworkPolicy::Ask, Some(true), false), BashNetworkStep::Decided(true));
    assert_eq!(bash_network_step(BashNetworkPolicy::Ask, None, true), BashNetworkStep::Prompt);
    assert_eq!(bash_network_step(BashNetworkPolicy::Ask, None, false), BashNetworkStep::Decided(false));
}

#[test]
fn only_text_deltas_are_forwarded() {
    let ev = StreamEvent::ContentBlockDelta { index: 0, delta: BlockDelta::TextDelta { text: "hi".to_string() } };
    assert_eq!(text_delta_of(ev).as_deref(), Some("hi"));
    let ev = StreamEvent::ContentBlockDelta { index: 0, delta: BlockDelta::ThinkingDelta { text: "x".to_string() } };
    assert_eq!(text_delta_of(ev), None);
    assert_eq!(text_delta_of(StreamEvent::MessageStop), None);
}
