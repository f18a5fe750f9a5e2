use savvagent::sse::{invalid_payload_warning, is_ping};
use savvagent::json::JsonValue;
use savvagent::anthropic::{stop_reason_from_str, Accumulator, AnthropicEvent, BlockState,
    SseContentBlock, SseDelta, SseError, SseInitialUsage, SseMessage, SseMessageDelta, SseUsageDelta};
use savvagent::protocol::{BlockDelta, ContentBlock, ErrorKind, StopReason, StreamEvent};
use savvagent::sse::{SseDecoder, SseFrame};

fn start(acc: &mut Accumulator, id: &str, input_tokens: u32) {
    acc.consume(AnthropicEvent::MessageStart {
        message: SseMessage {
            id: id.into(),
            model: "model-x".into(),
            usage: SseInitialUsage {
                input_tokens,
                cache_creation_input_tokens: None,
                cache_read_input_tokens: None,
            },
        },
    });
}

#[test]
fn accumulator_assembles_text() {
    let mut acc = Accumulator::new();
    start(&mut acc, "m1", 5);
    acc.consume(AnthropicEvent::ContentBlockStart {
        index: 0,
        content_block: SseContentBlock::Text { text: String::new() },
    });
    acc.consume(AnthropicEvent::ContentBlockDelta { index: 0, delta: SseDelta::TextDelta { text: "hi".into() } });
    acc.consume(AnthropicEvent::ContentBlockDelta { index: 0, delta: SseDelta::TextDelta { text: " there".into() } });
    acc.consume(AnthropicEvent::ContentBlockStop { index: 0 });
    acc.consume(AnthropicEvent::MessageDelta {
        delta: SseMessageDelta { stop_reason: Some("end_turn".into()), stop_sequence: None },
        usage: SseUsageDelta { output_tokens: Some(2), cache_read_input_tokens: None },
    });
    acc.consume(AnthropicEvent::MessageStop);

    let out = acc.finish().unwrap();
    assert_eq!(out.id, "m1");
    assert_eq!(out.usage.output_tokens, 2);
    assert_eq!(out.stop_reason, StopReason::EndTurn);
    match &out.content[0] {
        ContentBlock::Text { text } => assert_eq!(text, "hi there"),
        _ => panic!("expected text"),
    }
}

#[test]
fn accumulator_assembles_tool_use_input() {
    let mut acc = Accumulator::new();
    start(&mut acc, "m2", 0);
    acc.consume(AnthropicEvent::ContentBlockStart {
        index: 0,
        content_block: SseContentBlock::ToolUse { id: "toolu_1".into(), name: "ls".into(), input: None },
    });
    acc.consume(AnthropicEvent::ContentBlockDelta {
        index: 0,
        delta: SseDelta::InputJsonDelta { partial_json: "{\"path\":\"".into() },
    });
    acc.consume(AnthropicEvent::ContentBlockDelta {
        index: 0,
        delta: SseDelta::InputJsonDelta { partial_json: "/tmp\"}".into() },
    });
    acc.consume(AnthropicEvent::ContentBlockStop { index: 0 });
    acc.consume(AnthropicEvent::MessageDelta {
        delta: SseMessageDelta { stop_reason: Some("tool_use".into()), stop_sequence: None },
        usage: SseUsageDelta { output_tokens: Some(7), cache_read_input_tokens: None },
    });
    acc.consume(AnthropicEvent::MessageStop);

    let out = acc.finish().unwrap();
    assert_eq!(out.stop_reason, StopReason::ToolUse);
    match &out.content[0] {
        ContentBlock::ToolUse { name, input, .. } => {
            assert_eq!(name, "ls");
            assert_eq!(input.get("path"), Some(&JsonValue::Str("/tmp".to_string())));
        }
        _ => panic!("expected tool_use"),
    }
}

#[test]
fn finish_without_message_start_is_an_error() {
    let acc = Accumulator::new();
    let err = acc.finish().unwrap_err();
    assert_eq!(err.kind, ErrorKind::Internal);
    assert_eq!(err.message, "stream decode error: missing message_start");
}

#[test]
fn invalid_tool_json_is_a_decode_error() {
    let mut acc = Accumulator::new();
    start(&mut acc, "m3", 0);
    acc.consume(AnthropicEvent::ContentBlockStart {
        index: 0,
        content_block: SseContentBlock::ToolUse { id: "t".into(), name: "ls".into(), input: None },
    });
    acc.consume(AnthropicEvent::ContentBlockDelta {
        index: 0,
        delta: SseDelta::InputJsonDelta { partial_json: "{oops".into() },
    });
    let err = acc.finish().unwrap_err();
    assert!(err.message.starts_with("stream decode error: tool_use partial_json invalid: "), "{}", err.message);
}

#[test]
fn block_start_past_the_end_pads_with_empty_text() {
    let mut acc = Accumulator::new();
    start(&mut acc, "m4", 0);
    acc.consume(AnthropicEvent::ContentBlockStart { index: 2, content_block: SseContentBlock::Image });
    assert_eq!(acc.blocks.len(), 3);
    assert_eq!(acc.blocks[0], BlockState::Text(String::new()));
    assert_eq!(acc.blocks[2], BlockState::Image);
    let out = acc.finish().unwrap();
    // Images are dropped; the padding text blocks stay.
    assert_eq!(out.content.len(), 2);
}

#[test]
fn thinking_and_signature_accumulate() {
    let mut acc = Accumulator::new();
    start(&mut acc, "m5", 0);
    acc.consume(AnthropicEvent::ContentBlockStart {
        index: 0,
        content_block: SseContentBlock::Thinking { thinking: "a".into(), signature: None },
    });
    let ev = acc.consume(AnthropicEvent::ContentBlockDelta { index: 0, delta: SseDelta::ThinkingDelta { thinking: "b".into() } });
    match &ev[0] {
        StreamEvent::ContentBlockDelta { delta: BlockDelta::ThinkingDelta { text }, .. } => assert_eq!(text, "b"),
        other => panic!("{other:?}"),
    }
    acc.consume(AnthropicEvent::ContentBlockDelta { index: 0, delta: SseDelta::SignatureDelta { signature: "sig".into() } });
    let out = acc.finish().unwrap();
    match &out.content[0] {
        ContentBlock::Thinking { text, signature } => {
            assert_eq!(text, "ab");
            assert_eq!(signature.as_deref(), Some("sig"));
        }
        _ => panic!("expected thinking"),
    }
}

#[test]
fn output_tokens_saturate_and_errors_become_warnings() {
    let mut acc = Accumulator::new();
    start(&mut acc, "m6", 0);
    for _ in 0..2 {
        acc.consume(AnthropicEvent::MessageDelta {
            delta: SseMessageDelta { stop_reason: None, stop_sequence: None },
            usage: SseUsageDelta { output_tokens: Some(u32::MAX), cache_read_input_tokens: None },
        });
    }
    assert_eq!(acc.usage.output_tokens, u32::MAX);
    let ev = acc.consume(AnthropicEvent::Error { error: SseError { kind: "overloaded_error".into(), message: "busy".into() } });
    match &ev[0] {
        StreamEvent::Warning { message } => assert_eq!(message, "overloaded_error: busy"),
        other => panic!("{other:?}"),
    }
}

#[test]
fn stop_reason_names_map() {
    assert_eq!(stop_reason_from_str("end_turn"), StopReason::EndTurn);
    assert_eq!(stop_reason_from_str("tool_use"), StopReason::ToolUse);
    assert_eq!(stop_reason_from_str("max_tokens"), StopReason::MaxTokens);
    assert_eq!(stop_reason_from_str("stop_sequence"), StopReason::StopSequence);
    assert_eq!(stop_reason_from_str("whatever"), StopReason::EndTurn);
}

#[test]
fn sse_frames_split_across_chunks() {
    let mut d = SseDecoder::new();
    d.push_bytes(b"event: message_start\ndata: {\"a\"");
    assert!(d.try_pop_frame().is_none());
    d.push_bytes(b":1}\n\n: comment\n\ndata: x\ndata:  y\n\n");
    assert_eq!(
        d.try_pop_frame(),
        Some(SseFrame { event: Some("message_start".into()), data: "{\"a\":1}".into() })
    );
    // The comment-only frame is skipped; the next frame joins its data lines.
    assert_eq!(d.try_pop_frame(), Some(SseFrame { event: None, data: "x\n y".into() }));
    assert!(d.try_pop_frame().is_none());
}

#[test]
fn sse_crlf_separators_and_invalid_utf8() {
    let mut d = SseDecoder::new();
    d.push_bytes(b"event: ping\r\n\r\n");
    assert_eq!(d.try_pop_frame(), Some(SseFrame { event: Some("ping".into()), data: String::new() }));
    let mut bad = SseDecoder::new();
    bad.push_bytes(&[0xff, 0xfe, b'\n', b'\n', b'd', b'a', b't', b'a', b':', b'1', b'\n', b'\n']);
    // The invalid frame is consumed and yields nothing; the next pop sees the valid one.
    assert!(bad.try_pop_frame().is_none());
    assert_eq!(bad.try_pop_frame(), Some(SseFrame { event: None, data: "1".into() }));
}

#[test]
fn ping_frames_are_recognised_and_bad_payloads_warn() {
    let ping = SseFrame { event: Some("ping".to_string()), data: "{}".to_string() };
    let other = SseFrame { event: Some("message_start".to_string()), data: "{}".to_string() };
    let bare = SseFrame { event: None, data: "ping".to_string() };
    assert!(is_ping(&ping));
    assert!(!is_ping(&other));
    assert!(!is_ping(&bare));
    match invalid_payload_warning("expected value at line 1") {
        savvagent::protocol::StreamEvent::Warning { message } => {
            assert_eq!(message, "invalid SSE payload: expected value at line 1")
        }
        other => panic!("unexpected {other:?}"),
    }
}

#[test]
fn sse_decodes_multibyte_text_and_rejects_overlong_forms() {
    let mut d = SseDecoder::new();
    d.push_bytes("data: é€😀\n\n".as_bytes());
    assert_eq!(d.try_pop_frame(), Some(SseFrame { event: None, data: "é€😀".into() }));
    let mut overlong = SseDecoder::new();
    overlong.push_bytes(&[b'd', b'a', b't', b'a', b':', 0xc0, 0xaf, b'\n', b'\n']);
    assert!(overlong.try_pop_frame().is_none());
    let mut surrogate = SseDecoder::new();
    surrogate.push_bytes(&[b'd', b'a', b't', b'a', b':', 0xed, 0xa0, 0x80, b'\n', b'\n']);
    assert!(surrogate.try_pop_frame().is_none());
}
