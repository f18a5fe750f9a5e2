//! Shared protocol records exchanged between the host, providers and tool
//! servers: tool definitions and the model listing.
use vstd::prelude::*;

use crate::json::{JsonValue, JsonView, json_view};

verus! {

/// A tool as advertised by a tool server.
#[derive(Debug)]
pub struct ToolDef {
    /// Tool name used to route calls.
    pub name: String,
    /// Human-readable description, delivered to the model as typed data.
    pub description: String,
    /// JSON schema of the tool's arguments.
    pub input_schema: JsonValue,
}

/// Request for the provider's model list (carries no filters yet).
#[derive(Debug, Clone, Default)]
pub struct ListModelsRequest {}

/// The provider's model list.
#[derive(Debug, Clone, Default)]
pub struct ListModelsResponse {
    /// Available models, in display order.
    pub models: Vec<ModelInfo>,
}

/// One model offered by a provider.
#[derive(Debug, Clone)]
pub struct ModelInfo {
    /// Stable id passed back when requesting a completion.
    pub id: String,
    /// Optional human-readable name.
    pub display_name: Option<String>,
    /// Optional context-window size in tokens.
    pub context_window: Option<u32>,
    /// True when this model is the provider's default.
    pub default: bool,
}

/// A completion request, as far as it holds no floating-point sampling
/// parameters (those travel beside it).
#[derive(Debug)]
pub struct CompleteRequest {
    /// Model id.
    pub model: String,
    /// Conversation so far.
    pub messages: Vec<Message>,
    /// System prompt.
    pub system: Option<String>,
    /// Tools the model may call.
    pub tools: Vec<ToolDef>,
    /// Cap on output tokens.
    pub max_tokens: u32,
    /// Stop sequences.
    pub stop_sequences: Vec<String>,
    /// Whether the caller wants a streamed answer.
    pub stream: bool,
}

/// Token-count request handed to a provider plugin.
#[derive(Debug)]
pub struct CountTokensRequest {
    /// Model id the count is computed against.
    pub model: String,
    /// Messages whose token count is wanted.
    pub messages: Vec<Message>,
}

/// Token-count answer of a provider plugin.
#[derive(Debug, Clone, Copy, PartialEq, Eq, Structural)]
pub struct CountTokensResponse {
    /// Total input-side token count.
    pub input_tokens: u32,
}

/// Why the model stopped producing output.
#[derive(Debug, Clone, Copy, PartialEq, Eq, Structural)]
pub enum StopReason {
    /// The model finished its turn.
    EndTurn,
    /// The model asked for one or more tool calls.
    ToolUse,
    /// The output-token cap was reached.
    MaxTokens,
    /// A configured stop sequence was produced.
    StopSequence,
}

/// Token accounting for one completion.
#[derive(Debug, Clone, Copy, PartialEq, Eq, Structural)]
pub struct Usage {
    /// Input tokens billed.
    pub input_tokens: u32,
    /// Output tokens produced.
    pub output_tokens: u32,
    /// Input tokens written to the prompt cache, when reported.
    pub cache_creation_input_tokens: Option<u32>,
    /// Input tokens served from the prompt cache, when reported.
    pub cache_read_input_tokens: Option<u32>,
}

impl Usage {
    /// All counts zero, nothing reported.
    pub fn zero() -> (u: Usage)
        ensures
            u == (Usage {
                input_tokens: 0,
                output_tokens: 0,
                cache_creation_input_tokens: None,
                cache_read_input_tokens: None,
            }),
    {
        Usage {
            input_tokens: 0,
            output_tokens: 0,
            cache_creation_input_tokens: None,
            cache_read_input_tokens: None,
        }
    }
}

/// Incremental token accounting carried by a message delta.
#[derive(Debug, Clone, Copy, PartialEq, Eq, Structural)]
pub struct UsageDelta {
    /// Output tokens produced since the last report.
    pub output_tokens: Option<u32>,
    /// Input tokens served from the prompt cache.
    pub cache_read_input_tokens: Option<u32>,
}

/// Encoding of an inline image.
#[derive(Debug, Clone, Copy, PartialEq, Eq, Structural)]
pub enum MediaType {
    /// `image/png`.
    Png,
    /// `image/jpeg`.
    Jpeg,
    /// `image/gif`.
    Gif,
    /// `image/webp`.
    Webp,
}

/// Where an image's bytes come from.
#[derive(Debug, Clone, PartialEq, Eq)]
pub enum ImageSource {
    /// Base64-encoded bytes carried inline.
    Base64 {
        /// Encoding of the bytes.
        media_type: MediaType,
        /// The base64 text.
        data: String,
    },
}

/// One block of message content.
#[derive(Debug)]
pub enum ContentBlock {
    /// Plain text.
    Text {
        /// The text.
        text: String,
    },
    /// A tool invocation requested by the model.
    ToolUse {
        /// Call id, echoed back in the matching result.
        id: String,
        /// Tool name.
        name: String,
        /// JSON arguments.
        input: JsonValue,
    },
    /// The result of a tool invocation.
    ToolResult {
        /// Id of the call this answers.
        tool_use_id: String,
        /// Result content.
        content: Vec<ContentBlock>,
        /// True when the tool failed.
        is_error: bool,
    },
    /// Model reasoning text.
    Thinking {
        /// The reasoning text.
        text: String,
        /// Provider signature over the reasoning, when given.
        signature: Option<String>,
    },    /// An image.
    Image {
        /// Its bytes.
        source: ImageSource,
    },
}

/// Who wrote a message.
#[derive(Debug, Clone, Copy, PartialEq, Eq, Structural)]
pub enum Role {
    /// The user (and tool results).
    User,
    /// The model.
    Assistant,
}

/// One message of a conversation.
#[derive(Debug)]
pub struct Message {
    /// Who wrote it.
    pub role: Role,
    /// Its content blocks, in order.
    pub content: Vec<ContentBlock>,
}

/// An increment to an open content block.
#[derive(Debug, Clone, PartialEq, Eq)]
pub enum BlockDelta {
    /// More text.
    TextDelta {
        /// The text fragment.
        text: String,
    },
    /// More of a tool call's JSON arguments.
    InputJsonDelta {
        /// The JSON fragment.
        partial_json: String,
    },
    /// More reasoning text.
    ThinkingDelta {
        /// The reasoning fragment.
        text: String,
    },
    /// The reasoning block's signature.
    SignatureDelta {
        /// The signature.
        signature: String,
    },
}

/// One event of a streamed completion.
#[derive(Debug)]
pub enum StreamEvent {
    /// The message began.
    MessageStart {
        /// Message id.
        id: String,
        /// Model that answers.
        model: String,
        /// Usage known at the start.
        usage: Usage,
    },
    /// A content block opened.
    ContentBlockStart {
        /// Block index.
        index: u32,
        /// The block's initial content.
        block: ContentBlock,
    },
    /// An open block grew.
    ContentBlockDelta {
        /// Block index.
        index: u32,
        /// The increment.
        delta: BlockDelta,
    },
    /// A block closed.
    ContentBlockStop {
        /// Block index.
        index: u32,
    },
    /// Message-level metadata changed.
    MessageDelta {
        /// Stop reason known so far.
        stop_reason: Option<StopReason>,
        /// Stop sequence known so far.
        stop_sequence: Option<String>,
        /// Usage increment.
        usage_delta: UsageDelta,
    },
    /// The message ended.
    MessageStop,
    /// Keep-alive.
    Ping,
    /// A non-fatal problem in the stream.
    Warning {
        /// What went wrong.
        message: String,
    },
}

/// A completed model response.
#[derive(Debug)]
pub struct CompleteResponse {
    /// Message id.
    pub id: String,
    /// Model that answered.
    pub model: String,
    /// Content blocks in order.
    pub content: Vec<ContentBlock>,
    /// Why the model stopped.
    pub stop_reason: StopReason,
    /// The stop sequence produced, if any.
    pub stop_sequence: Option<String>,
    /// Token accounting.
    pub usage: Usage,
}

/// Category of a provider failure.
#[derive(Debug, Clone, Copy, PartialEq, Eq, Structural)]
pub enum ErrorKind {
    /// Credentials were missing or rejected.
    Authentication,
    /// The prompt is longer than the model accepts.
    ContextLengthExceeded,
    /// A failure inside the provider adapter.
    Internal,
    /// The provider sent data that could not be understood.
    InvalidData,
    /// The request was malformed.
    InvalidRequest,
    /// The requested model does not exist.
    ModelNotFound,
    /// A transport failure.
    Network,
    /// A resource was not found.
    NotFound,
    /// The operation is not offered.
    NotImplemented,
    /// The provider is overloaded.
    Overloaded,
    /// The caller may not do this.
    PermissionDenied,
    /// Too many requests.
    RateLimited,
}

/// A provider failure.
#[derive(Debug, Clone, PartialEq, Eq)]
pub struct ProviderError {
    /// Failure category.
    pub kind: ErrorKind,
    /// Human-readable message.
    pub message: String,
    /// Suggested wait before retrying, in milliseconds.
    pub retry_after_ms: Option<u64>,
    /// Provider-specific error code.
    pub provider_code: Option<String>,
}

// ---------------------------------------------------------------------------
// Abstract views of blocks and events, with text as character sequences
// ---------------------------------------------------------------------------
/// A content block seen abstractly. A tool result is seen by its call id and
/// error flag; its nested content is not part of this view.
pub enum BlockView {
    /// Text.
    Text(Seq<char>),
    /// A tool call: id, name, arguments.
    ToolUse(Seq<char>, Seq<char>, JsonView),
    /// A tool result: call id, error flag.
    ToolResult(Seq<char>, bool),
    /// Reasoning text and its signature.
    Thinking(Seq<char>, Option<Seq<char>>),
    /// An inline image: encoding and base64 text.
    Image(MediaType, Seq<char>),
}

/// The view of an optional string.
pub open spec fn opt_chars(o: Option<String>) -> Option<Seq<char>> {
    match o {
        Some(s) => Some(s@),
        None => None,
    }
}

/// The view of a content block.
pub open spec fn block_view(c: ContentBlock) -> BlockView {
    match c {
        ContentBlock::Text { text } => BlockView::Text(text@),
        ContentBlock::ToolUse { id, name, input } => BlockView::ToolUse(id@, name@, json_view(input)),
        ContentBlock::ToolResult { tool_use_id, is_error, .. } => BlockView::ToolResult(tool_use_id@, is_error),
        ContentBlock::Thinking { text, signature } => BlockView::Thinking(text@, opt_chars(signature)),
        ContentBlock::Image { source } => match source {
            ImageSource::Base64 { media_type, data } => BlockView::Image(media_type, data@),
        },
    }
}

/// The views of a list of content blocks.
pub open spec fn blocks_view(s: Seq<ContentBlock>) -> Seq<BlockView> {
    s.map_values(|c: ContentBlock| block_view(c))
}

/// A block delta seen abstractly.
pub enum DeltaView {
    /// More text.
    Text(Seq<char>),
    /// More JSON arguments.
    Json(Seq<char>),
    /// More reasoning.
    Thinking(Seq<char>),
    /// The reasoning signature.
    Signature(Seq<char>),
}

/// The view of a block delta.
pub open spec fn delta_view(d: BlockDelta) -> DeltaView {
    match d {
        BlockDelta::TextDelta { text } => DeltaView::Text(text@),
        BlockDelta::InputJsonDelta { partial_json } => DeltaView::Json(partial_json@),
        BlockDelta::ThinkingDelta { text } => DeltaView::Thinking(text@),
        BlockDelta::SignatureDelta { signature } => DeltaView::Signature(signature@),
    }
}

/// A stream event seen abstractly.
pub enum EventView {
    /// Message start: id, model, usage.
    MessageStart(Seq<char>, Seq<char>, Usage),
    /// A block opened at an index.
    BlockStart(u32, BlockView),
    /// A block grew.
    BlockDelta(u32, DeltaView),
    /// A block closed.
    BlockStop(u32),
    /// Message metadata: stop reason, stop sequence, usage increment.
    MessageDelta(Option<StopReason>, Option<Seq<char>>, UsageDelta),
    /// Message end.
    MessageStop,
    /// Keep-alive.
    Ping,
    /// A warning.
    Warning(Seq<char>),
}

/// The view of a stream event.
pub open spec fn event_view(e: StreamEvent) -> EventView {
    match e {
        StreamEvent::MessageStart { id, model, usage } => EventView::MessageStart(id@, model@, usage),
        StreamEvent::ContentBlockStart { index, block } => EventView::BlockStart(index, block_view(block)),
        StreamEvent::ContentBlockDelta { index, delta } => EventView::BlockDelta(index, delta_view(delta)),
        StreamEvent::ContentBlockStop { index } => EventView::BlockStop(index),
        StreamEvent::MessageDelta { stop_reason, stop_sequence, usage_delta } => EventView::MessageDelta(
            stop_reason,
            opt_chars(stop_sequence),
            usage_delta,
        ),
        StreamEvent::MessageStop => EventView::MessageStop,
        StreamEvent::Ping => EventView::Ping,
        StreamEvent::Warning { message } => EventView::Warning(message@),
    }
}

/// The views of a list of stream events.
pub open spec fn events_view(s: Seq<StreamEvent>) -> Seq<EventView> {
    s.map_values(|e: StreamEvent| event_view(e))
}

} // verus!
