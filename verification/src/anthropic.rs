//! Anthropic's streamed Messages API: the wire events, their translation
//! into the protocol's stream events, and the accumulator that assembles
//! the final response.
use vstd::prelude::*;

use crate::json::{JsonValue, JsonView, json_parse, json_view, lemma_json_view, members_view, parse_json};
use crate::protocol::{BlockDelta, CompleteResponse, ContentBlock, ErrorKind, ProviderError,
    StopReason, StreamEvent, Usage, UsageDelta};
use crate::text::{chars_of, concat2, concat3, seq_eq};

verus! {

// ---------------------------------------------------------------------------
// Wire events
// ---------------------------------------------------------------------------
/// Usage reported when a message starts.
#[derive(Debug, Clone, Copy, PartialEq, Eq, Structural)]
pub struct SseInitialUsage {
    /// Input tokens billed.
    pub input_tokens: u32,
    /// Input tokens written to the prompt cache.
    pub cache_creation_input_tokens: Option<u32>,
    /// Input tokens served from the prompt cache.
    pub cache_read_input_tokens: Option<u32>,
}

/// The message header of a `message_start` event.
#[derive(Debug, Clone, PartialEq, Eq)]
pub struct SseMessage {
    /// Message id.
    pub id: String,
    /// Model that answers.
    pub model: String,
    /// Initial usage.
    pub usage: SseInitialUsage,
}

/// The block announced by a `content_block_start` event.
#[derive(Debug)]
pub enum SseContentBlock {
    /// A text block with its initial text.
    Text {
        /// Initial text.
        text: String,
    },
    /// A tool call.
    ToolUse {
        /// Call id.
        id: String,
        /// Tool name.
        name: String,
        /// Initial input, when sent.
        input: Option<JsonValue>,
    },
    /// A reasoning block.
    Thinking {
        /// Initial reasoning text.
        thinking: String,
        /// Signature, when sent.
        signature: Option<String>,
    },
    /// An image or any other block kind.
    Image,
}

/// The increment carried by a `content_block_delta` event.
#[derive(Debug, Clone, PartialEq, Eq)]
pub enum SseDelta {
    /// More text.
    TextDelta {
        /// Text fragment.
        text: String,
    },
    /// More tool-call JSON.
    InputJsonDelta {
        /// JSON fragment.
        partial_json: String,
    },
    /// More reasoning text.
    ThinkingDelta {
        /// Reasoning fragment.
        thinking: String,
    },
    /// The reasoning signature.
    SignatureDelta {
        /// Signature.
        signature: String,
    },
}

/// Message-level fields of a `message_delta` event.
#[derive(Debug, Clone, PartialEq, Eq)]
pub struct SseMessageDelta {
    /// Stop reason, when reported.
    pub stop_reason: Option<String>,
    /// Stop sequence, when reported.
    pub stop_sequence: Option<String>,
}

/// Usage fields of a `message_delta` event.
#[derive(Debug, Clone, Copy, PartialEq, Eq, Structural)]
pub struct SseUsageDelta {
    /// Output tokens produced since the last report.
    pub output_tokens: Option<u32>,
    /// Input tokens served from the prompt cache.
    pub cache_read_input_tokens: Option<u32>,
}

/// The body of an `error` event.
#[derive(Debug, Clone, PartialEq, Eq)]
pub struct SseError {
    /// Error type.
    pub kind: String,
    /// Error message.
    pub message: String,
}

/// One event of an Anthropic message stream.
#[derive(Debug)]
pub enum AnthropicEvent {
    /// The message began.
    MessageStart {
        /// Message header.
        message: SseMessage,
    },
    /// A content block opened.
    ContentBlockStart {
        /// Block index.
        index: u32,
        /// The block.
        content_block: SseContentBlock,
    },
    /// A content block grew.
    ContentBlockDelta {
        /// Block index.
        index: u32,
        /// The increment.
        delta: SseDelta,
    },
    /// A content block closed.
    ContentBlockStop {
        /// Block index.
        index: u32,
    },
    /// Message-level fields changed.
    MessageDelta {
        /// Stop fields.
        delta: SseMessageDelta,
        /// Usage increment.
        usage: SseUsageDelta,
    },
    /// The message ended.
    MessageStop,
    /// Keep-alive.
    Ping,
    /// The stream reported an error.
    Error {
        /// The error.
        error: SseError,
    },
}

// ---------------------------------------------------------------------------
// Outside calls
// ---------------------------------------------------------------------------
/// The empty JSON object.
pub open spec fn empty_object() -> JsonView {
    JsonView::Object(Seq::empty())
}

/// An empty JSON object.
fn empty_object_value() -> (v: JsonValue)
    ensures
        json_view(v) == empty_object(),
{
    let v = JsonValue::Object(Vec::new());
    proof {
        lemma_json_view(v);
        assert(members_view(Seq::<(String, JsonValue)>::empty()) =~= Seq::<(Seq<char>, JsonView)>::empty());
    }
    v
}

/// The parse error of a tool call's JSON text, if it does not parse.
pub open spec fn json_parse_error(text: Seq<char>) -> Option<Seq<char>> {
    match json_parse(text) {
        Ok(_) => None,
        Err(m) => Some(m),
    }
}

// ---------------------------------------------------------------------------
// Stop reasons
// ---------------------------------------------------------------------------
/// The stop reason named by Anthropic's `stop_reason` field; an unknown
/// name counts as the end of the turn.
pub open spec fn stop_reason_of(s: Seq<char>) -> StopReason {
    if s == "tool_use"@ {
        StopReason::ToolUse
    } else if s == "max_tokens"@ {
        StopReason::MaxTokens
    } else if s == "stop_sequence"@ {
        StopReason::StopSequence
    } else {
        StopReason::EndTurn
    }
}

/// Map Anthropic's `stop_reason` name to a stop reason.
pub fn stop_reason_from_str(s: &str) -> (r: StopReason)
    ensures
        r == stop_reason_of(s@),
{
    let cs = chars_of(s);
    let tool = chars_of("tool_use");
    let max = chars_of("max_tokens");
    let seq_name = chars_of("stop_sequence");
    if seq_eq(cs.as_slice(), tool.as_slice()) {
        StopReason::ToolUse
    } else if seq_eq(cs.as_slice(), max.as_slice()) {
        StopReason::MaxTokens
    } else if seq_eq(cs.as_slice(), seq_name.as_slice()) {
        StopReason::StopSequence
    } else {
        StopReason::EndTurn
    }
}

// ---------------------------------------------------------------------------
// Accumulator
// ---------------------------------------------------------------------------
/// The partial state of one content block.
#[derive(Debug, Clone, PartialEq, Eq)]
pub enum BlockState {
    /// Text so far.
    Text(String),
    /// A tool call and its JSON arguments so far.
    ToolUse {
        /// Call id.
        id: String,
        /// Tool name.
        name: String,
        /// Concatenated JSON fragments.
        partial_json: String,
    },
    /// Reasoning so far.
    Thinking {
        /// Reasoning text.
        text: String,
        /// Signature, once sent.
        signature: Option<String>,
    },
    /// An image block (dropped from the final content).
    Image,
}

/// Everything needed to assemble the final response of a stream.
#[derive(Debug)]
pub struct Accumulator {
    /// Message id, once the message started.
    pub id: Option<String>,
    /// Model, once the message started.
    pub model: Option<String>,
    /// Block partial state, by index.
    pub blocks: Vec<BlockState>,
    /// Stop reason so far.
    pub stop_reason: Option<StopReason>,
    /// Stop sequence so far.
    pub stop_sequence: Option<String>,
    /// Usage so far.
    pub usage: Usage,
}

/// An empty text block.
pub open spec fn is_empty_text(b: BlockState) -> bool {
    b matches BlockState::Text(t) && t@.len() == 0
}

/// The block state a `content_block_start` opens.
pub open spec fn opened_state(b: BlockState, cb: SseContentBlock) -> bool {
    match cb {
        SseContentBlock::Text { text } => b == BlockState::Text(text),
        SseContentBlock::ToolUse { id, name, .. } => b matches BlockState::ToolUse { id: i, name: n, partial_json: p }
            && i == id && n == name && p@.len() == 0,
        SseContentBlock::Thinking { thinking, signature } => b == (BlockState::Thinking { text: thinking, signature }),
        SseContentBlock::Image => b == BlockState::Image,
    }
}

/// The content block a `content_block_start` announces.
pub open spec fn announced_block(c: ContentBlock, cb: SseContentBlock) -> bool {
    match cb {
        SseContentBlock::Text { text } => c == (ContentBlock::Text { text }),
        SseContentBlock::ToolUse { id, name, input } => c matches ContentBlock::ToolUse { id: i, name: n, input: v }
            && i == id && n == name && json_view(v) == match input {
                Some(given) => json_view(given),
                None => empty_object(),
            },
        SseContentBlock::Thinking { thinking, signature } => c == (ContentBlock::Thinking { text: thinking, signature }),
        SseContentBlock::Image => c matches ContentBlock::Text { text } && text@.len() == 0,
    }
}

/// `next` is `prev` after applying `d`: the matching block kind grows, any
/// other block is left as it was.
pub open spec fn delta_applied(prev: BlockState, next: BlockState, d: SseDelta) -> bool {
    match (d, prev) {
        (SseDelta::TextDelta { text }, BlockState::Text(buf)) => next matches BlockState::Text(nb) && nb@ == buf@ + text@,
        (SseDelta::InputJsonDelta { partial_json }, BlockState::ToolUse { id, name, partial_json: buf }) =>
            next matches BlockState::ToolUse { id: i, name: n, partial_json: nb } && i == id && n == name && nb@
                == buf@ + partial_json@,
        (SseDelta::ThinkingDelta { thinking }, BlockState::Thinking { text, signature }) =>
            next matches BlockState::Thinking { text: nt, signature: ns } && nt@ == text@ + thinking@ && ns == signature,
        (SseDelta::SignatureDelta { signature }, BlockState::Thinking { text, .. }) =>
            next == (BlockState::Thinking { text, signature: Some(signature) }),
        _ => next == prev,
    }
}

/// The protocol delta for a wire delta.
pub open spec fn translated_delta(d: SseDelta) -> BlockDelta {
    match d {
        SseDelta::TextDelta { text } => BlockDelta::TextDelta { text },
        SseDelta::InputJsonDelta { partial_json } => BlockDelta::InputJsonDelta { partial_json },
        SseDelta::ThinkingDelta { thinking } => BlockDelta::ThinkingDelta { text: thinking },
        SseDelta::SignatureDelta { signature } => BlockDelta::SignatureDelta { signature },
    }
}

/// Output tokens after a usage delta (saturating).
pub open spec fn output_after(old: u32, add: Option<u32>) -> u32 {
    match add {
        Some(o) => if old + o > u32::MAX {
            u32::MAX
        } else {
            (old + o) as u32
        },
        None => old,
    }
}

impl Accumulator {
    /// Nothing received yet.
    pub fn new() -> (a: Accumulator)
        ensures
            a.id is None,
            a.model is None,
            a.blocks@.len() == 0,
            a.stop_reason is None,
            a.stop_sequence is None,
            a.usage == (Usage {
                input_tokens: 0,
                output_tokens: 0,
                cache_creation_input_tokens: None,
                cache_read_input_tokens: None,
            }),
    {
        Accumulator {
            id: None,
            model: None,
            blocks: Vec::new(),
            stop_reason: None,
            stop_sequence: None,
            usage: Usage::zero(),
        }
    }

    /// Put `init` at `idx`, first padding with empty text blocks.
    fn ensure_block(&mut self, idx: usize, init: BlockState)
        requires
            idx < usize::MAX,
        ensures
            final(self).blocks@.len() == if idx < old(self).blocks@.len() {
                old(self).blocks@.len() as int
            } else {
                idx + 1
            },
            forall|j: int| 0 <= j < old(self).blocks@.len() && j != idx ==> #[trigger] final(self).blocks@[j] == old(self).blocks@[j],
            forall|j: int| old(self).blocks@.len() <= j < idx ==> is_empty_text(#[trigger] final(self).blocks@[j]),
            final(self).blocks@[idx as int] == init,
            final(self).id == old(self).id,
            final(self).model == old(self).model,
            final(self).stop_reason == old(self).stop_reason,
            final(self).stop_sequence == old(self).stop_sequence,
            final(self).usage == old(self).usage,
    {
        while self.blocks.len() <= idx
            invariant
                idx < usize::MAX,
                self.blocks@.len() >= old(self).blocks@.len(),
                forall|j: int| 0 <= j < old(self).blocks@.len() ==> #[trigger] self.blocks@[j] == old(self).blocks@[j],
                forall|j: int| old(self).blocks@.len() <= j < self.blocks@.len() ==> is_empty_text(#[trigger] self.blocks@[j]),
                self.blocks@.len() <= if idx < old(self).blocks@.len() { old(self).blocks@.len() as int } else { idx + 1 },
                self.id == old(self).id,
                self.model == old(self).model,
                self.stop_reason == old(self).stop_reason,
                self.stop_sequence == old(self).stop_sequence,
                self.usage == old(self).usage,
            decreases idx + 1 - self.blocks@.len(),
        {
            self.blocks.push(BlockState::Text(String::new()));
        }
        self.blocks.set(idx, init);
    }

    /// Nothing but the block list may have changed.
    pub open spec fn same_header(&self, other: &Accumulator) -> bool {
        &&& self.id == other.id
        &&& self.model == other.model
        &&& self.stop_reason == other.stop_reason
        &&& self.stop_sequence == other.stop_sequence
        &&& self.usage == other.usage
    }

    /// Fold one wire event into the accumulator and return the protocol
    /// events it translates to.
    pub fn consume(&mut self, ev: AnthropicEvent) -> (out: Vec<StreamEvent>)
        requires
            ev matches AnthropicEvent::ContentBlockStart { index, .. } ==> (index as int) < usize::MAX,
        ensures
            match ev {
                AnthropicEvent::MessageStart { message } => {
                    &&& final(self).id == Some(message.id)
                    &&& final(self).model == Some(message.model)
                    &&& final(self).usage == (Usage {
                        input_tokens: message.usage.input_tokens,
                        cache_creation_input_tokens: message.usage.cache_creation_input_tokens,
                        cache_read_input_tokens: message.usage.cache_read_input_tokens,
                        ..old(self).usage
                    })
                    &&& final(self).blocks == old(self).blocks
                    &&& final(self).stop_reason == old(self).stop_reason
                    &&& final(self).stop_sequence == old(self).stop_sequence
                    &&& out@.len() == 1
                    &&& out@[0] == (StreamEvent::MessageStart {
                        id: message.id,
                        model: message.model,
                        usage: final(self).usage,
                    })
                },
                AnthropicEvent::ContentBlockStart { index, content_block } => {
                    let idx = index as int;
                    &&& final(self).same_header(old(self))
                    &&& final(self).blocks@.len() == if idx < old(self).blocks@.len() {
                        old(self).blocks@.len() as int
                    } else {
                        idx + 1
                    }
                    &&& forall|j: int| 0 <= j < old(self).blocks@.len() && j != idx ==> #[trigger] final(self).blocks@[j] == old(self).blocks@[j]
                    &&& forall|j: int| old(self).blocks@.len() <= j < idx ==> is_empty_text(#[trigger] final(self).blocks@[j])
                    &&& opened_state(final(self).blocks@[idx], content_block)
                    &&& out@.len() == 1
                    &&& out@[0] matches StreamEvent::ContentBlockStart { index: i, block } && i == index && announced_block(block, content_block)
                },
                AnthropicEvent::ContentBlockDelta { index, delta } => {
                    let idx = index as int;
                    &&& final(self).same_header(old(self))
                    &&& final(self).blocks@.len() == old(self).blocks@.len()
                    &&& forall|j: int| 0 <= j < old(self).blocks@.len() && j != idx ==> #[trigger] final(self).blocks@[j] == old(self).blocks@[j]
                    &&& idx < old(self).blocks@.len() ==> delta_applied(old(self).blocks@[idx], final(self).blocks@[idx], delta)
                    &&& out@ == seq![StreamEvent::ContentBlockDelta { index, delta: translated_delta(delta) }]
                },
                AnthropicEvent::ContentBlockStop { index } => {
                    &&& *final(self) == *old(self)
                    &&& out@ == seq![StreamEvent::ContentBlockStop { index }]
                },
                AnthropicEvent::MessageDelta { delta, usage } => {
                    &&& final(self).stop_reason == match delta.stop_reason {
                        Some(r) => Some(stop_reason_of(r@)),
                        None => old(self).stop_reason,
                    }
                    &&& final(self).stop_sequence == if delta.stop_sequence is Some {
                        delta.stop_sequence
                    } else {
                        old(self).stop_sequence
                    }
                    &&& final(self).usage == (Usage {
                        output_tokens: output_after(old(self).usage.output_tokens, usage.output_tokens),
                        ..old(self).usage
                    })
                    &&& final(self).id == old(self).id
                    &&& final(self).model == old(self).model
                    &&& final(self).blocks == old(self).blocks
                    &&& out@ == seq![StreamEvent::MessageDelta {
                        stop_reason: final(self).stop_reason,
                        stop_sequence: final(self).stop_sequence,
                        usage_delta: UsageDelta {
                            output_tokens: usage.output_tokens,
                            cache_read_input_tokens: usage.cache_read_input_tokens,
                        },
                    }]
                },
                AnthropicEvent::MessageStop => {
                    &&& *final(self) == *old(self)
                    &&& out@ == seq![StreamEvent::MessageStop]
                },
                AnthropicEvent::Ping => {
                    &&& *final(self) == *old(self)
                    &&& out@ == seq![StreamEvent::Ping]
                },
                AnthropicEvent::Error { error } => {
                    &&& *final(self) == *old(self)
                    &&& out@.len() == 1
                    &&& out@[0] matches StreamEvent::Warning { message } && message@ == error.kind@ + ": "@ + error.message@
                },
            },
    {
        let mut out: Vec<StreamEvent> = Vec::new();
        match ev {
            AnthropicEvent::MessageStart { message } => {
                self.id = Some(message.id.clone());
                self.model = Some(message.model.clone());
                self.usage.input_tokens = message.usage.input_tokens;
                self.usage.cache_creation_input_tokens = message.usage.cache_creation_input_tokens;
                self.usage.cache_read_input_tokens = message.usage.cache_read_input_tokens;
                out.push(StreamEvent::MessageStart { id: message.id, model: message.model, usage: self.usage });
            },
            AnthropicEvent::ContentBlockStart { index, content_block } => {
                let (state, emitted) = match content_block {
                    SseContentBlock::Text { text } => (BlockState::Text(text.clone()), ContentBlock::Text { text }),
                    SseContentBlock::ToolUse { id, name, input } => {
                        let state = BlockState::ToolUse {
                            id: id.clone(),
                            name: name.clone(),
                            partial_json: String::new(),
                        };
                        let value = match input {
                            Some(v) => v,
                            None => empty_object_value(),
                        };
                        (state, ContentBlock::ToolUse { id, name, input: value })
                    },
                    SseContentBlock::Thinking { thinking, signature } => (
                        BlockState::Thinking { text: thinking.clone(), signature: signature.clone() },
                        ContentBlock::Thinking { text: thinking, signature },
                    ),
                    SseContentBlock::Image => (BlockState::Image, ContentBlock::Text { text: String::new() }),
                };
                self.ensure_block(index as usize, state);
                out.push(StreamEvent::ContentBlockStart { index, block: emitted });
            },
            AnthropicEvent::ContentBlockDelta { index, delta } => {
                let idx = index as usize;
                if idx < self.blocks.len() {
                    let next = grow_block(&self.blocks[idx], &delta);
                    self.blocks.set(idx, next);
                }
                let translated = match delta {
                    SseDelta::TextDelta { text } => BlockDelta::TextDelta { text },
                    SseDelta::InputJsonDelta { partial_json } => BlockDelta::InputJsonDelta { partial_json },
                    SseDelta::ThinkingDelta { thinking } => BlockDelta::ThinkingDelta { text: thinking },
                    SseDelta::SignatureDelta { signature } => BlockDelta::SignatureDelta { signature },
                };
                out.push(StreamEvent::ContentBlockDelta { index, delta: translated });
            },
            AnthropicEvent::ContentBlockStop { index } => {
                out.push(StreamEvent::ContentBlockStop { index });
            },
            AnthropicEvent::MessageDelta { delta, usage } => {
                if let Some(reason) = &delta.stop_reason {
                    self.stop_reason = Some(stop_reason_from_str(reason.as_str()));
                }
                if delta.stop_sequence.is_some() {
                    self.stop_sequence = delta.stop_sequence.clone();
                }
                if let Some(o) = usage.output_tokens {
                    self.usage.output_tokens = self.usage.output_tokens.saturating_add(o);
                }
                out.push(StreamEvent::MessageDelta {
                    stop_reason: self.stop_reason,
                    stop_sequence: self.stop_sequence.clone(),
                    usage_delta: UsageDelta {
                        output_tokens: usage.output_tokens,
                        cache_read_input_tokens: usage.cache_read_input_tokens,
                    },
                });
            },
            AnthropicEvent::MessageStop => {
                out.push(StreamEvent::MessageStop);
            },
            AnthropicEvent::Ping => {
                out.push(StreamEvent::Ping);
            },
            AnthropicEvent::Error { error } => {
                let message = concat3(error.kind.as_str(), ": ", error.message.as_str());
                out.push(StreamEvent::Warning { message });
            },
        }
        out
    }
}

/// A block after one increment (see `delta_applied`).
fn grow_block(prev: &BlockState, d: &SseDelta) -> (next: BlockState)
    ensures
        delta_applied(*prev, next, *d),
{
    match (d, prev) {
        (SseDelta::TextDelta { text }, BlockState::Text(buf)) => BlockState::Text(
            concat2(buf.as_str(), text.as_str()),
        ),
        (SseDelta::InputJsonDelta { partial_json }, BlockState::ToolUse { id, name, partial_json: buf }) =>
            BlockState::ToolUse {
            id: id.clone(),
            name: name.clone(),
            partial_json: concat2(buf.as_str(), partial_json.as_str()),
        },
        (SseDelta::ThinkingDelta { thinking }, BlockState::Thinking { text, signature }) =>
            BlockState::Thinking {
            text: concat2(text.as_str(), thinking.as_str()),
            signature: copy_opt(signature),
        },
        (SseDelta::SignatureDelta { signature }, BlockState::Thinking { text, .. }) =>
            BlockState::Thinking { text: text.clone(), signature: Some(signature.clone()) },
        _ => duplicate_block(prev),
    }
}

/// An equal copy of an optional string.
fn copy_opt(s: &Option<String>) -> (r: Option<String>)
    ensures
        r == *s,
{
    match s {
        Some(v) => Some(v.clone()),
        None => None,
    }
}

/// An equal copy of a block state.
fn duplicate_block(b: &BlockState) -> (r: BlockState)
    ensures
        r == *b,
{
    match b {
        BlockState::Text(t) => BlockState::Text(t.clone()),
        BlockState::ToolUse { id, name, partial_json } => BlockState::ToolUse {
            id: id.clone(),
            name: name.clone(),
            partial_json: partial_json.clone(),
        },
        BlockState::Thinking { text, signature } => BlockState::Thinking {
            text: text.clone(),
            signature: copy_opt(signature),
        },
        BlockState::Image => BlockState::Image,
    }
}

/// The parse error of the first tool-call block whose (non-empty) JSON does
/// not parse.
pub open spec fn first_bad_json(blocks: Seq<BlockState>) -> Option<Seq<char>>
    decreases blocks.len(),
{
    if blocks.len() == 0 {
        None
    } else {
        match first_bad_json(blocks.drop_last()) {
            Some(m) => Some(m),
            None => match blocks.last() {
                BlockState::ToolUse { partial_json, .. } => if partial_json@.len() == 0 {
                    None
                } else {
                    json_parse_error(partial_json@)
                },
                _ => None,
            },
        }
    }
}

/// The input a tool call's accumulated JSON text stands for: the empty
/// object when no text came, otherwise the parsed text.
pub open spec fn tool_input(partial_json: Seq<char>) -> JsonView {
    if partial_json.len() == 0 {
        empty_object()
    } else {
        match json_parse(partial_json) {
            Ok(v) => v,
            Err(_) => empty_object(),
        }
    }
}

/// `c` is the final form of block `b`.
pub open spec fn finished_block(b: BlockState, c: ContentBlock) -> bool {
    match b {
        BlockState::Text(t) => c == (ContentBlock::Text { text: t }),
        BlockState::ToolUse { id, name, partial_json } => c matches ContentBlock::ToolUse { id: i, name: n, input: v }
            && i == id && n == name && json_view(v) == tool_input(partial_json@),
        BlockState::Thinking { text, signature } => c == (ContentBlock::Thinking { text, signature }),
        BlockState::Image => false,
    }
}

/// `content` is `blocks` in order, each finished, image blocks dropped.
pub open spec fn content_matches(blocks: Seq<BlockState>, content: Seq<ContentBlock>) -> bool
    decreases blocks.len(),
{
    if blocks.len() == 0 {
        content.len() == 0
    } else if blocks.last() is Image {
        content_matches(blocks.drop_last(), content)
    } else {
        &&& content.len() > 0
        &&& content_matches(blocks.drop_last(), content.drop_last())
        &&& finished_block(blocks.last(), content.last())
    }
}

/// A stream decode error with message `msg`.
pub open spec fn is_decode_error(e: ProviderError, msg: Seq<char>) -> bool {
    &&& e.kind == ErrorKind::Internal
    &&& e.message@ == "stream decode error: "@ + msg
    &&& e.retry_after_ms is None
    &&& e.provider_code is None
}

/// A stream decode error.
pub(crate) fn stream_decode_error(msg: &str) -> (e: ProviderError)
    ensures
        is_decode_error(e, msg@),
{
    ProviderError {
        kind: ErrorKind::Internal,
        message: concat2("stream decode error: ", msg),
        retry_after_ms: None,
        provider_code: None,
    }
}

impl Accumulator {
    /// Assemble the final response. It fails when the message never
    /// started, or when a tool call's JSON arguments do not parse.
    pub fn finish(self) -> (r: Result<CompleteResponse, ProviderError>)
        ensures
            self.id is None ==> (r matches Err(e) && is_decode_error(e, "missing message_start"@)),
            self.id matches Some(id) ==> match first_bad_json(self.blocks@) {
                Some(m) => r matches Err(e) && is_decode_error(e, "tool_use partial_json invalid: "@ + m),
                None => r matches Ok(resp) && {
                    &&& resp.id == id
                    &&& resp.model@ == match self.model {
                        Some(m) => m@,
                        None => Seq::<char>::empty(),
                    }
                    &&& content_matches(self.blocks@, resp.content@)
                    &&& resp.stop_reason == match self.stop_reason {
                        Some(s) => s,
                        None => StopReason::EndTurn,
                    }
                    &&& resp.stop_sequence == self.stop_sequence
                    &&& resp.usage == self.usage
                },
            },
    {
        let id = match self.id {
            Some(id) => id,
            None => {
                return Err(stream_decode_error("missing message_start"));
            },
        };
        let model = match self.model {
            Some(m) => m,
            None => String::new(),
        };
        let content = match finish_blocks(&self.blocks) {
            Ok(c) => c,
            Err(e) => {
                let msg = concat2("tool_use partial_json invalid: ", e.as_str());
                return Err(stream_decode_error(msg.as_str()));
            },
        };
        Ok(CompleteResponse {
            id,
            model,
            content,
            stop_reason: match self.stop_reason {
                Some(s) => s,
                None => StopReason::EndTurn,
            },
            stop_sequence: self.stop_sequence,
            usage: self.usage,
        })
    }
}

/// The final content of `blocks`, or the parse error of the first tool
/// call whose JSON arguments do not parse.
fn finish_blocks(blocks: &Vec<BlockState>) -> (r: Result<Vec<ContentBlock>, String>)
    ensures
        match first_bad_json(blocks@) {
            Some(m) => r matches Err(e) && e@ == m,
            None => r matches Ok(content) && content_matches(blocks@, content@),
        },
{
    let mut content: Vec<ContentBlock> = Vec::new();
    let n = blocks.len();
    for i in 0..n
        invariant
            n == blocks@.len(),
            content_matches(blocks@.take(i as int), content@),
            first_bad_json(blocks@.take(i as int)) is None,
    {
        proof {
            assert(blocks@.take(i + 1).drop_last() =~= blocks@.take(i as int));
            assert(blocks@.take(i + 1).last() == blocks@[i as int]);
        }
        let ghost prev = content@;
        match &blocks[i] {
            BlockState::Text(t) => {
                content.push(ContentBlock::Text { text: t.clone() });
            },
            BlockState::ToolUse { id, name, partial_json } => {
                let input = if partial_json.as_str().is_empty() {
                    empty_object_value()
                } else {
                    match parse_json(partial_json.as_str()) {
                        Ok(v) => v,
                        Err(e) => {
                            proof {
                                lemma_bad_json_prefix(blocks@, i as int + 1);
                            }
                            return Err(e);
                        },
                    }
                };
                content.push(ContentBlock::ToolUse { id: id.clone(), name: name.clone(), input });
            },
            BlockState::Thinking { text, signature } => {
                content.push(ContentBlock::Thinking { text: text.clone(), signature: copy_opt(signature) });
            },
            BlockState::Image => {},
        }
        proof {
            if !(blocks@[i as int] is Image) {
                assert(content@.drop_last() =~= prev);
            }
        }
    }
    proof {
        assert(blocks@.take(n as int) =~= blocks@);
    }
    Ok(content)
}

/// Once a prefix has a bad tool-call JSON, the whole list has the same one.
proof fn lemma_bad_json_prefix(blocks: Seq<BlockState>, k: int)
    requires
        0 <= k <= blocks.len(),
        first_bad_json(blocks.take(k)) is Some,
    ensures
        first_bad_json(blocks) == first_bad_json(blocks.take(k)),
    decreases blocks.len() - k,
{
    if k < blocks.len() {
        assert(blocks.take(k + 1).drop_last() =~= blocks.take(k));
        lemma_bad_json_prefix(blocks, k + 1);
    } else {
        assert(blocks.take(k) =~= blocks);
    }
}

} // verus!
