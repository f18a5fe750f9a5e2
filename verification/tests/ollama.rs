use savvagent::json::JsonValue;
use savvagent::ollama::{error_from_response, BuildError, OllamaProviderBuilder, DEFAULT_BASE_URL};
use savvagent::ollama_chat::{message_text, request_to_ollama, response_from_ollama,
    stop_reason_from_ollama, ChatResponse, OllamaContent, OllamaToolCall, ResponseContent,
    ResponseMessage};
use savvagent::protocol::{CompleteRequest, ContentBlock, ErrorKind, Message, Role, StopReason, ToolDef};

fn req(messages: Vec<Message>, system: Option<&str>, tools: Vec<ToolDef>, max_tokens: u32) -> CompleteRequest {
    CompleteRequest {
        model: "llama3.2".into(),
        messages,
        system: system.map(String::from),
        tools,
        max_tokens,
        stop_sequences: vec![],
        stream: false,
    }
}

fn user_text(t: &str) -> Message {
    Message { role: Role::User, content: vec![ContentBlock::Text { text: t.into() }] }
}

fn schema() -> JsonValue {
    JsonValue::Object(Vec::new())
}

#[test]
fn text_message_translates_to_user_role() {
    let body = request_to_ollama(&req(vec![user_text("hello")], None, vec![], 64), false, false, false);
    assert_eq!(body.model, "llama3.2");
    assert!(!body.stream);
    assert_eq!(body.messages.len(), 1);
    assert_eq!(body.messages[0].role, "user");
    assert_eq!(body.messages[0].content, Some(OllamaContent::Text("hello".into())));
}

#[test]
fn system_prompt_becomes_first_message() {
    let body = request_to_ollama(&req(vec![user_text("hi")], Some("You are helpful."), vec![], 32), false, false, false);
    assert_eq!(body.messages[0].role, "system");
    assert_eq!(body.messages[1].role, "user");
}

#[test]
fn assistant_turn_preserves_text() {
    let m = Message { role: Role::Assistant, content: vec![ContentBlock::Text { text: "sure".into() }] };
    let mut r = req(vec![m], None, vec![], 16);
    r.model = "x".into();
    let body = request_to_ollama(&r, false, false, false);
    assert_eq!(body.messages[0].role, "assistant");
    assert_eq!(body.messages[0].content, Some(OllamaContent::Text("sure".into())));
}

#[test]
fn tool_def_becomes_function_tool() {
    let tool = ToolDef { name: "ls".into(), description: "list dir".into(), input_schema: schema() };
    let body = request_to_ollama(&req(vec![user_text("call ls")], None, vec![tool], 32), false, false, false);
    assert_eq!(body.tools.len(), 1);
    assert_eq!(body.tools[0].kind, "function");
    assert_eq!(body.tools[0].name, "ls");
}

#[test]
fn tool_result_with_tool_support_uses_tool_role() {
    let args = vec![("path".to_string(), JsonValue::Str("/tmp".to_string()))];
    let messages = vec![
        Message {
            role: Role::Assistant,
            content: vec![ContentBlock::ToolUse { id: "call-1".into(), name: "ls".into(), input: JsonValue::Object(args) }],
        },
        Message {
            role: Role::User,
            content: vec![ContentBlock::ToolResult {
                tool_use_id: "call-1".into(),
                content: vec![ContentBlock::Text { text: "a\nb".into() }],
                is_error: false,
            }],
        },
    ];
    let tool = ToolDef { name: "ls".into(), description: "list".into(), input_schema: schema() };
    let body = request_to_ollama(&req(messages, None, vec![tool], 32), false, false, false);
    let tool_msg = body.messages.iter().find(|m| m.role == "tool").unwrap();
    assert_eq!(
        tool_msg.content,
        Some(OllamaContent::ToolResult { tool_call_id: "call-1".into(), content: "a\nb".into() })
    );
    assert_eq!(body.messages[0].tool_calls[0].name, "ls");
    assert_eq!(body.messages[0].tool_calls[0].id.as_deref(), Some("call-1"));
}

#[test]
fn tool_result_without_tool_support_uses_user_role() {
    let m = Message {
        role: Role::User,
        content: vec![ContentBlock::ToolResult {
            tool_use_id: "call-1".into(),
            content: vec![ContentBlock::Text { text: "result".into() }],
            is_error: false,
        }],
    };
    let body = request_to_ollama(&req(vec![m], None, vec![], 32), false, false, false);
    assert!(body.messages.iter().any(|m| m.role == "user"));
    assert!(!body.messages.iter().any(|m| m.role == "tool"));
    assert_eq!(body.messages[0].content, Some(OllamaContent::Text("[tool result for call-1]: result".into())));
}

#[test]
fn failed_tool_result_is_marked() {
    let m = Message {
        role: Role::User,
        content: vec![
            ContentBlock::ToolResult {
                tool_use_id: "c".into(),
                content: vec![ContentBlock::Text { text: "x".into() }, ContentBlock::Text { text: "y".into() }],
                is_error: true,
            },
            ContentBlock::Text { text: "t1".into() },
            ContentBlock::Text { text: "t2".into() },
        ],
    };
    let tool = ToolDef { name: "ls".into(), description: "".into(), input_schema: schema() };
    let body = request_to_ollama(&req(vec![m], None, vec![tool], 32), false, false, false);
    assert_eq!(body.messages.len(), 2);
    assert_eq!(
        body.messages[0].content,
        Some(OllamaContent::ToolResult { tool_call_id: "c".into(), content: "[error] x\ny".into() })
    );
    assert_eq!(body.messages[1].content, Some(OllamaContent::Text("t1\nt2".into())));
}

fn response(message: Option<ResponseMessage>, reason: Option<&str>) -> ChatResponse {
    ChatResponse {
        model: Some("llama3.2".into()),
        message,
        done: true,
        done_reason: reason.map(String::from),
        prompt_eval_count: Some(5),
        eval_count: Some(2),
    }
}

#[test]
fn response_from_ollama_parses_text() {
    let raw = response(
        Some(ResponseMessage { content: ResponseContent::Text("hello back".into()), tool_calls: vec![] }),
        Some("stop"),
    );
    let resp = response_from_ollama(raw, "1-0");
    assert_eq!(resp.model, "llama3.2");
    assert_eq!(resp.stop_reason, StopReason::EndTurn);
    assert_eq!(resp.usage.input_tokens, 5);
    assert_eq!(resp.usage.output_tokens, 2);
    assert_eq!(resp.id, "ollama-1-0");
    match &resp.content[0] {
        ContentBlock::Text { text } => assert_eq!(text, "hello back"),
        _ => panic!("expected text"),
    }
}

#[test]
fn response_from_ollama_parses_tool_call() {
    let a = vec![("path".to_string(), JsonValue::Str("/tmp".to_string()))];
    let raw = response(
        Some(ResponseMessage {
            content: ResponseContent::Null,
            tool_calls: vec![OllamaToolCall { id: Some("tc-1".into()), name: "ls".into(), arguments: JsonValue::Object(a) }],
        }),
        Some("tool_calls"),
    );
    let resp = response_from_ollama(raw, "x");
    match &resp.content[0] {
        ContentBlock::ToolUse { id, name, input } => {
            assert_eq!(id, "tc-1");
            assert_eq!(name, "ls");
            assert_eq!(input.get("path"), Some(&JsonValue::Str("/tmp".to_string())));
        }
        _ => panic!("expected tool_use"),
    }
    assert_eq!(resp.stop_reason, StopReason::ToolUse);
}

#[test]
fn tool_call_without_id_gets_a_positional_id() {
    let raw = response(
        Some(ResponseMessage {
            content: ResponseContent::Missing,
            tool_calls: vec![
                OllamaToolCall { id: Some("a".into()), name: "f".into(), arguments: schema() },
                OllamaToolCall { id: None, name: "grep".into(), arguments: schema() },
            ],
        }),
        None,
    );
    let resp = response_from_ollama(raw, "x");
    match &resp.content[1] {
        ContentBlock::ToolUse { id, .. } => assert_eq!(id, "ollama-grep-1"),
        _ => panic!("expected tool_use"),
    }
}

#[test]
fn options_include_max_tokens() {
    let body = request_to_ollama(&req(vec![user_text("hi")], None, vec![], 256), false, true, false);
    let opts = body.options.unwrap();
    assert_eq!(opts.num_predict, Some(256));
}

#[test]
fn options_omitted_when_all_default() {
    let body = request_to_ollama(&req(vec![user_text("hi")], None, vec![], 0), false, false, false);
    assert!(body.options.is_none());
}

#[test]
fn message_text_shapes() {
    assert_eq!(message_text(&ResponseContent::Text("a".into())).as_deref(), Some("a"));
    assert_eq!(
        message_text(&ResponseContent::Parts(vec![Some("a".into()), None, Some("b".into())])).as_deref(),
        Some("ab")
    );
    assert!(message_text(&ResponseContent::Parts(vec![None])).is_none());
    assert!(message_text(&ResponseContent::Null).is_none());
    assert_eq!(message_text(&ResponseContent::Other("42".into())).as_deref(), Some("42"));
}

#[test]
fn done_reasons_map() {
    assert_eq!(stop_reason_from_ollama(Some("length")), StopReason::MaxTokens);
    assert_eq!(stop_reason_from_ollama(Some("tool_calls")), StopReason::ToolUse);
    assert_eq!(stop_reason_from_ollama(Some("stop")), StopReason::EndTurn);
    assert_eq!(stop_reason_from_ollama(None), StopReason::EndTurn);
}

#[test]
fn ollama_builder_and_host_override() {
    let b = OllamaProviderBuilder::new();
    assert_eq!(b.base_url, DEFAULT_BASE_URL);
    assert_eq!(b.resolved_base_url(Some("http://gpu:11434")), "http://gpu:11434");
    assert_eq!(b.resolved_base_url(Some("")), DEFAULT_BASE_URL);
    let b = b.base_url("http://explicit").timeout(std::time::Duration::from_secs(5));
    assert_eq!(b.resolved_base_url(Some("http://gpu:11434")), "http://explicit");
    assert_eq!(b.timeout, std::time::Duration::from_secs(5));
    let b = OllamaProviderBuilder::new().base_url(DEFAULT_BASE_URL);
    assert_eq!(b.resolved_base_url(Some("http://remote:11434")), DEFAULT_BASE_URL);
    let _ = BuildError::HttpClient("x".into());
}

#[test]
fn ollama_error_body_and_status() {
    let e = error_from_response(404, "{\"error\":\"model not found\"}".into());
    assert_eq!(e.kind, ErrorKind::ModelNotFound);
    assert_eq!(e.message, "model not found");
    let e = error_from_response(503, "plain text".into());
    assert_eq!(e.kind, ErrorKind::Overloaded);
    assert_eq!(e.message, "plain text");
    assert_eq!(error_from_response(418, String::new()).kind, ErrorKind::Internal);
}
