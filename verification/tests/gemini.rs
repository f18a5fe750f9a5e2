use savvagent::json::JsonValue;
use savvagent::sse::SseDecoder;
use savvagent::gemini::{
    media_type_from_mime, stop_reason_from_gemini, synthesize_tool_use_id, Accumulator, Candidate,
    Content, FunctionCall, GenerateContentResponse, InlineData, Part, UsageMetadata,
};
use savvagent::protocol::{
    BlockDelta, ContentBlock, ImageSource, MediaType, StopReason, StreamEvent,
};

fn usage(prompt: u32, candidates: Option<u32>) -> UsageMetadata {
    UsageMetadata {
        prompt_token_count: prompt,
        candidates_token_count: candidates,
        total_token_count: None,
        cached_content_token_count: None,
        thoughts_token_count: None,
    }
}

fn chunk(
    parts: Vec<Part>,
    finish: Option<&str>,
    response_id: Option<&str>,
    model_version: Option<&str>,
    usage_metadata: Option<UsageMetadata>,
) -> GenerateContentResponse {
    GenerateContentResponse {
        candidates: vec![Candidate {
            content: Some(Content { role: Some("model".to_string()), parts }),
            finish_reason: finish.map(str::to_string),
            index: 0,
        }],
        usage_metadata,
        model_version: model_version.map(str::to_string),
        response_id: response_id.map(str::to_string),
        prompt_feedback: None,
    }
}

fn thought(text: &str) -> Part {
    let mut p = Part::text(text);
    p.thought = Some(true);
    p
}

#[test]
fn accumulator_assembles_text_across_chunks() {
    let mut acc = Accumulator::default();
    let _ = acc.consume_chunk(chunk(
        vec![Part::text("hello")],
        None,
        Some("r1"),
        Some("gemini-x"),
        Some(usage(5, Some(1))),
    ));
    let _ = acc.consume_chunk(chunk(vec![Part::text(" world")], Some("STOP"), None, None, Some(usage(5, Some(4)))));
    let _ = acc.flush();
    let out = acc.finish().unwrap();
    assert_eq!(out.id, "r1");
    assert_eq!(out.usage.output_tokens, 4);
    assert_eq!(out.stop_reason, StopReason::EndTurn);
    match &out.content[0] {
        ContentBlock::Text { text } => assert_eq!(text, "hello world"),
        _ => panic!("expected text"),
    }
}

#[test]
fn accumulator_emits_function_call_atomically() {
    let mut acc = Accumulator::default();
    let args = vec![("path".to_string(), JsonValue::Str("/tmp".to_string()))];
    let mut part = Part::default();
    part.function_call = Some(FunctionCall { name: "ls".to_string(), args: JsonValue::Object(args) });
    let evs = acc.consume_chunk(chunk(vec![part], Some("STOP"), Some("r2"), None, Some(usage(7, Some(3)))));
    let has_tool_use_start = evs.iter().any(|e| {
        matches!(
            e,
            StreamEvent::ContentBlockStart {
                block: ContentBlock::ToolUse { name, .. },
                ..
            } if name == "ls"
        )
    });
    assert!(has_tool_use_start, "missing tool_use start: {evs:#?}");
    let _ = acc.flush();
    let out = acc.finish().unwrap();
    assert_eq!(out.stop_reason, StopReason::ToolUse);
    match &out.content[0] {
        ContentBlock::ToolUse { name, input, .. } => {
            assert_eq!(name, "ls");
            assert_eq!(input.get("path"), Some(&JsonValue::Str("/tmp".to_string())));
        }
        _ => panic!("expected tool_use"),
    }
}

#[test]
fn accumulator_handles_thinking_then_text() {
    let mut acc = Accumulator::default();
    let _ = acc.consume_chunk(chunk(vec![thought("let me think")], None, Some("r3"), None, None));
    let _ = acc.consume_chunk(chunk(vec![Part::text("answer is 42")], Some("STOP"), None, None, Some(usage(1, Some(5)))));
    let _ = acc.flush();
    let out = acc.finish().unwrap();
    assert_eq!(out.content.len(), 2);
    assert!(matches!(&out.content[0], ContentBlock::Thinking { text, .. } if text == "let me think"));
    assert!(matches!(&out.content[1], ContentBlock::Text { text } if text == "answer is 42"));
}

#[test]
fn gemini_first_chunk_starts_the_message_with_default_id() {
    let mut acc = Accumulator::new();
    let evs = acc.consume_chunk(chunk(vec![Part::text("hi")], None, None, None, Some(usage(9, None))));
    match &evs[0] {
        StreamEvent::MessageStart { id, model, usage } => {
            assert_eq!(id, "gemini-response");
            assert_eq!(model, "");
            assert_eq!(usage.input_tokens, 9);
        }
        other => panic!("expected message start, got {other:?}"),
    }
    assert!(matches!(&evs[1], StreamEvent::ContentBlockStart { index: 0, block: ContentBlock::Text { text } } if text.is_empty()));
    assert!(matches!(&evs[2], StreamEvent::ContentBlockDelta { index: 0, delta: BlockDelta::TextDelta { text } } if text == "hi"));
    assert_eq!(evs.len(), 3);
}

#[test]
fn gemini_second_text_part_is_a_delta_on_the_same_block() {
    let mut acc = Accumulator::new();
    let _ = acc.consume_chunk(chunk(vec![Part::text("a")], None, Some("r"), None, None));
    let evs = acc.consume_chunk(chunk(vec![Part::text("b")], None, None, None, None));
    assert_eq!(evs.len(), 1);
    assert!(matches!(&evs[0], StreamEvent::ContentBlockDelta { index: 0, delta: BlockDelta::TextDelta { text } } if text == "b"));
}

#[test]
fn gemini_thinking_signature_is_flushed_before_the_text() {
    let mut acc = Accumulator::new();
    let _ = acc.consume_chunk(chunk(vec![thought("x")], None, Some("r"), None, None));
    let mut p = thought("y");
    p.thought_signature = Some("sig".to_string());
    let evs = acc.consume_chunk(chunk(vec![p], None, None, None, None));
    assert_eq!(evs.len(), 2);
    assert!(matches!(&evs[0], StreamEvent::ContentBlockDelta { index: 0, delta: BlockDelta::SignatureDelta { signature } } if signature == "sig"));
    assert!(matches!(&evs[1], StreamEvent::ContentBlockDelta { index: 0, delta: BlockDelta::ThinkingDelta { text } } if text == "y"));
    let _ = acc.flush();
    let out = acc.finish().unwrap();
    assert!(matches!(&out.content[0], ContentBlock::Thinking { text, signature: Some(s) } if text == "xy" && s == "sig"));
}

#[test]
fn gemini_inline_image_is_opened_and_closed_whole() {
    let mut acc = Accumulator::new();
    let mut p = Part::default();
    p.inline_data = Some(InlineData { mime_type: "image/webp".to_string(), data: "AAAA".to_string() });
    let evs = acc.consume_chunk(chunk(vec![p], None, Some("r"), None, None));
    assert_eq!(evs.len(), 3);
    assert!(matches!(&evs[1], StreamEvent::ContentBlockStart { index: 0, block: ContentBlock::Image { source: ImageSource::Base64 { media_type: MediaType::Webp, data } } } if data == "AAAA"));
    assert!(matches!(&evs[2], StreamEvent::ContentBlockStop { index: 0 }));
    let _ = acc.flush();
    let out = acc.finish().unwrap();
    assert_eq!(out.content.len(), 1);
    assert_eq!(out.stop_reason, StopReason::EndTurn);
}

#[test]
fn gemini_flush_closes_the_open_block_and_ends_the_message() {
    let mut acc = Accumulator::new();
    let _ = acc.consume_chunk(chunk(vec![Part::text("a")], None, Some("r"), None, None));
    let evs = acc.flush();
    assert_eq!(evs.len(), 2);
    assert!(matches!(&evs[0], StreamEvent::ContentBlockStop { index: 0 }));
    assert!(matches!(&evs[1], StreamEvent::MessageStop));
    let out = acc.finish().unwrap();
    assert_eq!(out.content.len(), 1);
}

#[test]
fn gemini_finish_without_chunks_is_a_decode_error() {
    let acc = Accumulator::new();
    let err = acc.finish().unwrap_err();
    assert_eq!(err.message, "stream decode error: stream produced no chunks");
}

#[test]
fn gemini_usage_delta_reports_growth() {
    let mut acc = Accumulator::new();
    let _ = acc.consume_chunk(chunk(vec![], None, Some("r"), None, Some(usage(2, Some(3)))));
    let evs = acc.consume_chunk(chunk(vec![], Some("MAX_TOKENS"), None, None, Some(usage(2, Some(10)))));
    match evs.last().unwrap() {
        StreamEvent::MessageDelta { stop_reason, usage_delta, .. } => {
            assert_eq!(*stop_reason, Some(StopReason::MaxTokens));
            assert_eq!(usage_delta.output_tokens, Some(7));
        }
        other => panic!("expected message delta, got {other:?}"),
    }
}

#[test]
fn gemini_mappings() {
    assert_eq!(stop_reason_from_gemini(Some("MAX_TOKENS")), StopReason::MaxTokens);
    assert_eq!(stop_reason_from_gemini(Some("STOP")), StopReason::EndTurn);
    assert_eq!(stop_reason_from_gemini(None), StopReason::EndTurn);
    assert_eq!(synthesize_tool_use_id("ls", 12), "gemini-ls-12");
    assert_eq!(media_type_from_mime("image/jpeg"), MediaType::Jpeg);
    assert_eq!(media_type_from_mime("image/gif"), MediaType::Gif);
    assert_eq!(media_type_from_mime("application/x"), MediaType::Png);
}

#[test]
fn sse_frames_do_not_depend_on_chunking() {
    let bytes = b"event: a\ndata: x\n\n: comment\n\ndata: y\r\ndata: z\r\n\r\n";
    let mut whole = SseDecoder::new();
    whole.push_bytes(bytes);
    let mut frames_whole = Vec::new();
    while let Some(f) = whole.try_pop_frame() {
        frames_whole.push(f);
    }
    let mut split = SseDecoder::new();
    let mut frames_split = Vec::new();
    for b in bytes.iter() {
        split.push_bytes(&[*b]);
        while let Some(f) = split.try_pop_frame() {
            frames_split.push(f);
        }
    }
    assert_eq!(frames_whole, frames_split);
    assert_eq!(frames_whole.len(), 2);
    assert_eq!(frames_whole[0].event.as_deref(), Some("a"));
    assert_eq!(frames_whole[1].data, "y\nz");
}

#[test]
fn sse_data_frames_skip_frames_without_data() {
    let mut d = SseDecoder::new();
    d.push_bytes(b"event: ping\n\ndata: {\"a\":1}\n\n");
    assert_eq!(d.try_pop_data().as_deref(), Some("{\"a\":1}"));
    assert_eq!(d.try_pop_data(), None);
}

#[test]
fn function_call_closes_the_open_text_block_first() {
    let mut acc = Accumulator::default();
    let evs = acc.consume_chunk(chunk(vec![Part::text("a")], None, Some("r"), None, None));
    assert!(!evs.iter().any(|e| matches!(e, StreamEvent::ContentBlockStop { .. })));
    let mut part = Part::default();
    part.function_call = Some(FunctionCall { name: "ls".to_string(), args: JsonValue::Object(Vec::new()) });
    let mut out = Vec::new();
    acc.consume_part(part, &mut out);
    assert_eq!(out.len(), 3, "{out:#?}");
    assert!(matches!(out[0], StreamEvent::ContentBlockStop { index: 0 }));
    assert!(matches!(
        &out[1],
        StreamEvent::ContentBlockStart { index: 1, block: ContentBlock::ToolUse { name, .. } } if name == "ls"
    ));
    assert!(matches!(out[2], StreamEvent::ContentBlockStop { index: 1 }));
    let _ = acc.flush();
    let done = acc.finish().unwrap();
    assert_eq!(done.content.len(), 2);
    assert!(matches!(&done.content[0], ContentBlock::Text { text } if text == "a"));
    assert!(matches!(&done.content[1], ContentBlock::ToolUse { name, .. } if name == "ls"));
}
