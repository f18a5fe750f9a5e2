use savvagent::json::JsonValue;
use savvagent::protocol::{
    CompleteResponse, ContentBlock, ErrorKind, Message, ProviderError, Role, StopReason, Usage,
};
use savvagent::session::{HostError, ToolCallStatus};
use savvagent::tools::ToolCallOutcome;
use savvagent::turn::{turn_step, TurnAction, TurnInput, TurnPhase, TurnState};

fn text_msg(role: Role, text: &str) -> Message {
    Message { role, content: vec![ContentBlock::Text { text: text.to_string() }] }
}

fn response(content: Vec<ContentBlock>, stop_reason: StopReason) -> CompleteResponse {
    CompleteResponse {
        id: "m".to_string(),
        model: "x".to_string(),
        content,
        stop_reason,
        stop_sequence: None,
        usage: Usage::zero(),
    }
}

fn tool_use(id: &str, name: &str) -> ContentBlock {
    ContentBlock::ToolUse { id: id.to_string(), name: name.to_string(), input: JsonValue::Object(Vec::new()) }
}

fn texts(m: &Message) -> Vec<String> {
    m.content
        .iter()
        .map(|b| match b {
            ContentBlock::Text { text } => text.clone(),
            other => format!("{other:?}"),
        })
        .collect()
}

fn provider_error() -> ProviderError {
    ProviderError { kind: ErrorKind::Internal, message: "boom".to_string(), retry_after_ms: None, provider_code: None }
}

#[test]
fn turn_without_tools_commits_user_and_assistant_messages() {
    let mut st = TurnState::new(vec![text_msg(Role::User, "earlier")], 5);
    let a = turn_step(&mut st, TurnInput::Start("hi".to_string()));
    assert!(matches!(a, TurnAction::CallProvider { iteration: 1 }));
    assert_eq!(st.phase(), TurnPhase::AwaitingResponse);
    assert_eq!(st.history().len(), 1);
    assert_eq!(st.turn_messages().len(), 1);
    let a = turn_step(
        &mut st,
        TurnInput::Response(Ok(response(vec![ContentBlock::Text { text: "hello".to_string() }], StopReason::EndTurn))),
    );
    match a {
        TurnAction::Finish(o) => {
            assert_eq!(o.text, "hello");
            assert_eq!(o.iterations, 1);
            assert!(o.tool_calls.is_empty());
        }
        other => panic!("unexpected {other:?}"),
    }
    assert_eq!(st.phase(), TurnPhase::Idle);
    let h = st.history();
    assert_eq!(h.len(), 3);
    assert_eq!(texts(&h[1]), vec!["hi".to_string()]);
    assert_eq!(h[1].role, Role::User);
    assert_eq!(texts(&h[2]), vec!["hello".to_string()]);
    assert_eq!(h[2].role, Role::Assistant);
    assert!(st.turn_messages().is_empty());
}

#[test]
fn tool_round_gates_runs_and_answers_every_call_in_one_message() {
    let mut st = TurnState::new(Vec::new(), 5);
    let _ = turn_step(&mut st, TurnInput::Start("list".to_string()));
    let a = turn_step(
        &mut st,
        TurnInput::Response(Ok(response(vec![tool_use("c1", "ls"), tool_use("c2", "rm")], StopReason::ToolUse))),
    );
    assert!(matches!(&a, TurnAction::Gate { name, .. } if name == "ls"));
    let a = turn_step(&mut st, TurnInput::Gated(Ok(())));
    assert!(matches!(&a, TurnAction::RunTool { name, .. } if name == "ls"));
    let a = turn_step(&mut st, TurnInput::ToolFinished(ToolCallOutcome { is_error: false, payload: "a b".to_string() }));
    assert!(matches!(&a, TurnAction::Gate { name, .. } if name == "rm"));
    let a = turn_step(&mut st, TurnInput::Gated(Err("denied by user".to_string())));
    assert!(matches!(a, TurnAction::CallProvider { iteration: 2 }));
    let turn = st.turn_messages();
    assert_eq!(turn.len(), 3);
    assert_eq!(turn[2].role, Role::User);
    assert_eq!(turn[2].content.len(), 2);
    match &turn[2].content[0] {
        ContentBlock::ToolResult { tool_use_id, content, is_error } => {
            assert_eq!(tool_use_id, "c1");
            assert!(!is_error);
            assert!(matches!(&content[..], [ContentBlock::Text { text }] if text == "a b"));
        }
        other => panic!("unexpected {other:?}"),
    }
    match &turn[2].content[1] {
        ContentBlock::ToolResult { tool_use_id, content, is_error } => {
            assert_eq!(tool_use_id, "c2");
            assert!(is_error);
            assert!(matches!(&content[..], [ContentBlock::Text { text }] if text == "denied by policy: denied by user"));
        }
        other => panic!("unexpected {other:?}"),
    }
    let a = turn_step(
        &mut st,
        TurnInput::Response(Ok(response(vec![ContentBlock::Text { text: "done".to_string() }], StopReason::EndTurn))),
    );
    match a {
        TurnAction::Finish(o) => {
            assert_eq!(o.text, "done");
            assert_eq!(o.iterations, 2);
            assert_eq!(o.tool_calls.len(), 2);
            assert_eq!(o.tool_calls[0].name, "ls");
            assert_eq!(o.tool_calls[0].status, ToolCallStatus::Succeeded);
            assert_eq!(o.tool_calls[0].result, "a b");
            assert_eq!(o.tool_calls[1].name, "rm");
            assert_eq!(o.tool_calls[1].status, ToolCallStatus::Errored);
            assert_eq!(o.tool_calls[1].result, "denied by policy: denied by user");
        }
        other => panic!("unexpected {other:?}"),
    }
    assert_eq!(st.history().len(), 4);
}

#[test]
fn provider_failure_leaves_history_untouched() {
    let mut st = TurnState::new(vec![text_msg(Role::User, "earlier")], 5);
    let _ = turn_step(&mut st, TurnInput::Start("hi".to_string()));
    let a = turn_step(&mut st, TurnInput::Response(Err(provider_error())));
    assert!(matches!(a, TurnAction::Fail(HostError::Provider(ref e)) if e.message == "boom"));
    assert_eq!(st.phase(), TurnPhase::Idle);
    assert_eq!(st.history().len(), 1);
    assert_eq!(texts(&st.history()[0]), vec!["earlier".to_string()]);
    assert!(st.turn_messages().is_empty());
}

#[test]
fn end_turn_with_tool_uses_is_malformed_and_keeps_history() {
    let mut st = TurnState::new(Vec::new(), 5);
    let _ = turn_step(&mut st, TurnInput::Start("hi".to_string()));
    let a = turn_step(&mut st, TurnInput::Response(Ok(response(vec![tool_use("c1", "ls")], StopReason::EndTurn))));
    match a {
        TurnAction::Fail(HostError::MalformedResponse(m)) => {
            assert_eq!(m, "stop_reason=end_turn but 1 tool_use block(s) present")
        }
        other => panic!("unexpected {other:?}"),
    }
    assert!(st.history().is_empty());
}

#[test]
fn iteration_cap_fails_the_turn() {
    let mut st = TurnState::new(Vec::new(), 1);
    let _ = turn_step(&mut st, TurnInput::Start("hi".to_string()));
    let _ = turn_step(&mut st, TurnInput::Response(Ok(response(vec![tool_use("c1", "ls")], StopReason::ToolUse))));
    let _ = turn_step(&mut st, TurnInput::Gated(Ok(())));
    let a = turn_step(&mut st, TurnInput::ToolFinished(ToolCallOutcome { is_error: true, payload: "x".to_string() }));
    assert!(matches!(a, TurnAction::Fail(HostError::LoopLimit(1))));
    assert!(st.history().is_empty());
    assert_eq!(st.phase(), TurnPhase::Idle);
    let mut zero = TurnState::new(Vec::new(), 0);
    assert!(matches!(turn_step(&mut zero, TurnInput::Start("hi".to_string())), TurnAction::Fail(HostError::LoopLimit(0))));
}
