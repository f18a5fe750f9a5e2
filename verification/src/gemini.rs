//! Records of Gemini's `generateContent` API and the accumulator that
//! turns its incremental stream chunks into protocol events.
//!
//! Each chunk carries a fresh list of parts. Text and reasoning parts grow
//! the block that is open, or close it and open a new one when the kind
//! changes; function calls and inline images arrive whole: they close the
//! open block, then are opened and closed at once. `finishReason` and `usageMetadata` feed message
//! deltas, and the final flush closes whatever is still open.
use vstd::prelude::*;

use crate::json::{JsonValue, copy_json, json_view};
use crate::anthropic::{is_decode_error, stream_decode_error};
use crate::protocol::{BlockDelta, BlockView, CompleteResponse, ContentBlock, DeltaView,
    EventView, ImageSource, MediaType, ProviderError, StopReason, StreamEvent, Usage, UsageDelta,
    block_view, blocks_view, events_view, opt_chars};
use crate::session::{decimal, decimal_string};
use crate::text::{TextLike, chars_of, concat2, concat3, seq_eq};

verus! {

/// Inline binary data of a part.
#[derive(Debug, Clone, PartialEq, Eq)]
pub struct InlineData {
    /// MIME type of the data.
    pub mime_type: String,
    /// Base64-encoded bytes (no `data:` URI prefix).
    pub data: String,
}

/// Thinking options of a generation request.
#[derive(Debug, Clone, Copy, Default, PartialEq, Eq)]
pub struct ThinkingConfig {
    /// Token budget for thinking.
    pub thinking_budget: Option<i32>,
    /// Whether thoughts are returned.
    pub include_thoughts: Option<bool>,
}

/// Token accounting of a response.
#[derive(Debug, Clone, Copy, Default, PartialEq, Eq)]
pub struct UsageMetadata {
    /// Prompt tokens.
    pub prompt_token_count: u32,
    /// Candidate tokens so far.
    pub candidates_token_count: Option<u32>,
    /// Total tokens.
    pub total_token_count: Option<u32>,
    /// Prompt tokens served from the cache.
    pub cached_content_token_count: Option<u32>,
    /// Thinking tokens.
    pub thoughts_token_count: Option<u32>,
}

/// Prompt feedback of a response (set when the prompt was blocked).
#[derive(Debug, Clone, Default, PartialEq, Eq)]
pub struct PromptFeedback {
    /// Why the prompt was blocked.
    pub block_reason: Option<String>,
}

/// A function call requested by the model.
#[derive(Debug)]
pub struct FunctionCall {
    /// Function name.
    pub name: String,
    /// JSON arguments (an empty object when the wire omits them).
    pub args: JsonValue,
}

/// A function result handed back to the model.
#[derive(Debug)]
pub struct FunctionResponse {
    /// Function name.
    pub name: String,
    /// JSON result.
    pub response: JsonValue,
}

/// One part of a message.
#[derive(Debug)]
pub struct Part {
    /// Text of the part.
    pub text: Option<String>,
    /// `true` when the text is the model's internal reasoning.
    pub thought: Option<bool>,
    /// Opaque signature accompanying a reasoning part.
    pub thought_signature: Option<String>,
    /// Inline binary data.
    pub inline_data: Option<InlineData>,
    /// A function call.
    pub function_call: Option<FunctionCall>,
    /// A function result.
    pub function_response: Option<FunctionResponse>,
}

impl Part {
    /// A part holding only `text`.
    pub fn text<T: TextLike>(text: T) -> (p: Part)
        ensures
            p.text matches Some(t) && t@ == text.text(),
            p.thought is None,
            p.thought_signature is None,
            p.inline_data is None,
            p.function_call is None,
            p.function_response is None,
    {
        Part {
            text: Some(text.into_text()),
            thought: None,
            thought_signature: None,
            inline_data: None,
            function_call: None,
            function_response: None,
        }
    }
}

impl Default for Part {
    fn default() -> (p: Part)
        ensures
            p.text is None,
            p.thought is None,
            p.thought_signature is None,
            p.inline_data is None,
            p.function_call is None,
            p.function_response is None,
    {
        Part {
            text: None,
            thought: None,
            thought_signature: None,
            inline_data: None,
            function_call: None,
            function_response: None,
        }
    }
}

/// A message: its role (absent on a system instruction) and parts.
#[derive(Debug)]
pub struct Content {
    /// `"user"` or `"model"`.
    pub role: Option<String>,
    /// Parts in order.
    pub parts: Vec<Part>,
}

/// One candidate answer of a response.
#[derive(Debug)]
pub struct Candidate {
    /// The candidate's content.
    pub content: Option<Content>,
    /// Why generation stopped, once it has.
    pub finish_reason: Option<String>,
    /// Candidate index.
    pub index: u32,
}

/// A `generateContent` response, or one chunk of a streamed one.
#[derive(Debug)]
pub struct GenerateContentResponse {
    /// Candidate answers; only the first is read.
    pub candidates: Vec<Candidate>,
    /// Token accounting.
    pub usage_metadata: Option<UsageMetadata>,
    /// Model version that answered.
    pub model_version: Option<String>,
    /// Response id.
    pub response_id: Option<String>,
    /// Prompt feedback.
    pub prompt_feedback: Option<PromptFeedback>,
}

// ---------------------------------------------------------------------------
// Small mappings
// ---------------------------------------------------------------------------
/// The stop reason for a `finishReason` name: `MAX_TOKENS` is the token
/// cap, every other reason ends the turn.
pub open spec fn gemini_stop_reason(r: Seq<char>) -> StopReason {
    if r == "MAX_TOKENS"@ {
        StopReason::MaxTokens
    } else {
        StopReason::EndTurn
    }
}

/// Map an optional `finishReason` name to a stop reason.
pub fn stop_reason_from_gemini(reason: Option<&str>) -> (r: StopReason)
    ensures
        r == match reason {
            Some(s) => gemini_stop_reason(s@),
            None => StopReason::EndTurn,
        },
{
    match reason {
        Some(s) => {
            let cs = chars_of(s);
            let max = chars_of("MAX_TOKENS");
            if seq_eq(cs.as_slice(), max.as_slice()) {
                StopReason::MaxTokens
            } else {
                StopReason::EndTurn
            }
        },
        None => StopReason::EndTurn,
    }
}

/// The id given to the `n`-th function call of a stream (Gemini sends
/// none): `gemini-<name>-<n>`.
pub open spec fn tool_use_id_of(name: Seq<char>, n: u32) -> Seq<char> {
    "gemini-"@ + name + "-"@ + decimal(n as nat)
}

/// The id of the `n`-th function call, named `name`.
pub fn synthesize_tool_use_id(name: &str, n: u32) -> (r: String)
    ensures
        r@ == tool_use_id_of(name@, n),
{
    let d = decimal_string(n as u64);
    let head = concat3("gemini-", name, "-");
    concat2(head.as_str(), d.as_str())
}

/// The media type named by a MIME type (PNG when it is none of the others).
pub open spec fn media_type_of(mime: Seq<char>) -> MediaType {
    if mime == "image/jpeg"@ {
        MediaType::Jpeg
    } else if mime == "image/gif"@ {
        MediaType::Gif
    } else if mime == "image/webp"@ {
        MediaType::Webp
    } else {
        MediaType::Png
    }
}

/// The media type of a MIME type.
pub fn media_type_from_mime(mime: &str) -> (r: MediaType)
    ensures
        r == media_type_of(mime@),
{
    let cs = chars_of(mime);
    let jpeg = chars_of("image/jpeg");
    let gif = chars_of("image/gif");
    let webp = chars_of("image/webp");
    if seq_eq(cs.as_slice(), jpeg.as_slice()) {
        MediaType::Jpeg
    } else if seq_eq(cs.as_slice(), gif.as_slice()) {
        MediaType::Gif
    } else if seq_eq(cs.as_slice(), webp.as_slice()) {
        MediaType::Webp
    } else {
        MediaType::Png
    }
}

// ---------------------------------------------------------------------------
// The accumulator's abstract state and its steps
// ---------------------------------------------------------------------------
/// The accumulator seen abstractly.
pub struct GeminiView {
    /// Whether a chunk has been seen.
    pub started: bool,
    /// Response id.
    pub id: Option<Seq<char>>,
    /// Model version.
    pub model: Option<Seq<char>>,
    /// Usage so far.
    pub usage: Usage,
    /// Stop reason so far.
    pub stop_reason: Option<StopReason>,
    /// Whether a function call was seen.
    pub saw_function_call: bool,
    /// One slot per block index: the open block, or `None` once closed.
    pub slots: Seq<Option<BlockView>>,
    /// Function calls seen.
    pub tool_use_counter: u32,
    /// Closed blocks, in the order they closed.
    pub finals: Seq<BlockView>,
}

/// The last occupied slot.
pub open spec fn last_occupied(slots: Seq<Option<BlockView>>) -> Option<int>
    decreases slots.len(),
{
    if slots.len() == 0 {
        None
    } else if slots.last() is Some {
        Some(slots.len() - 1)
    } else {
        last_occupied(slots.drop_last())
    }
}

/// The accumulator's invariant: at most one block is open, and it is a
/// text or reasoning block; every other index has closed into `finals`;
/// the function-call count and the indices stay within `u32`.
pub open spec fn view_wf(v: GeminiView) -> bool {
    &&& forall|i: int, j: int|
        0 <= i < v.slots.len() && 0 <= j < v.slots.len() && v.slots[i] is Some && v.slots[j] is Some ==> i == j
    &&& forall|i: int| 0 <= i < v.slots.len() && v.slots[i] is Some ==> (v.slots[i]->0 is Text || v.slots[i]->0 is Thinking)
    &&& v.slots.len() == v.finals.len() + if last_occupied(v.slots) is Some { 1int } else { 0int }
    &&& v.tool_use_counter <= v.slots.len()
    &&& v.slots.len() <= u32::MAX
}

/// Close the last open block, if any.
pub open spec fn close_last(v: GeminiView) -> (GeminiView, Seq<EventView>) {
    match last_occupied(v.slots) {
        Some(k) => (
            GeminiView { slots: v.slots.update(k, None), finals: v.finals.push(v.slots[k]->0), ..v },
            seq![EventView::BlockStop(k as u32)],
        ),
        None => (v, Seq::empty()),
    }
}

/// A block that arrives whole: opened at the next index and closed at once.
pub open spec fn whole_block_step(v: GeminiView, b: BlockView) -> (GeminiView, Seq<EventView>) {
    let n = v.slots.len() as u32;
    (
        GeminiView { slots: v.slots.push(None), finals: v.finals.push(b), ..v },
        seq![EventView::BlockStart(n, b), EventView::BlockStop(n)],
    )
}

/// Open a new text or reasoning block holding `t` at the next index.
pub open spec fn open_step(v: GeminiView, t: Seq<char>, thinking: bool, sig: Option<Seq<char>>) -> (
    GeminiView,
    Seq<EventView>,
) {
    let n = v.slots.len() as u32;
    let first = if thinking {
        BlockView::Thinking(Seq::empty(), sig)
    } else {
        BlockView::Text(Seq::empty())
    };
    let held = if thinking {
        BlockView::Thinking(t, sig)
    } else {
        BlockView::Text(t)
    };
    let grow = if thinking {
        DeltaView::Thinking(t)
    } else {
        DeltaView::Text(t)
    };
    (
        GeminiView { slots: v.slots.push(Some(held)), ..v },
        seq![EventView::BlockStart(n, first)] + if t.len() > 0 {
            seq![EventView::BlockDelta(n, grow)]
        } else {
            Seq::empty()
        },
    )
}

/// A text part (`thinking` for reasoning): it grows the open block of the
/// same kind, or closes the open block and opens a new one.
pub open spec fn text_step(v: GeminiView, t: Seq<char>, thinking: bool, sig: Option<Seq<char>>) -> (
    GeminiView,
    Seq<EventView>,
) {
    let cur = last_occupied(v.slots);
    let i = cur->0;
    let open = if cur is Some {
        v.slots[i]
    } else {
        None
    };
    match open {
        Some(BlockView::Text(buf)) if !thinking => (
            GeminiView { slots: v.slots.update(i, Some(BlockView::Text(buf + t))), ..v },
            seq![EventView::BlockDelta(i as u32, DeltaView::Text(t))],
        ),
        Some(BlockView::Thinking(buf, old_sig)) if thinking => (
            GeminiView {
                slots: v.slots.update(i, Some(BlockView::Thinking(buf + t, if sig is Some { sig } else { old_sig }))),
                ..v
            },
            match sig {
                Some(ns) => seq![
                    EventView::BlockDelta(i as u32, DeltaView::Signature(ns)),
                    EventView::BlockDelta(i as u32, DeltaView::Thinking(t)),
                ],
                None => seq![EventView::BlockDelta(i as u32, DeltaView::Thinking(t))],
            },
        ),
        _ => {
            let (c, closed) = close_last(v);
            let (o, opened) = open_step(c, t, thinking, sig);
            (o, closed + opened)
        },
    }
}

/// One part: a function call, an inline image, a text part, or nothing.
/// A call or an image moves past the open block, so that block is closed
/// before the whole block is started.
pub open spec fn part_step(v: GeminiView, p: Part) -> (GeminiView, Seq<EventView>) {
    match p.function_call {
        Some(fc) => {
            let (c, closed) = close_last(v);
            let b = BlockView::ToolUse(tool_use_id_of(fc.name@, v.tool_use_counter), fc.name@, json_view(fc.args));
            let (w, ev) = whole_block_step(c, b);
            (
                GeminiView { saw_function_call: true, tool_use_counter: (v.tool_use_counter + 1) as u32, ..w },
                closed + ev,
            )
        },
        None => match p.inline_data {
            Some(d) => {
                let (c, closed) = close_last(v);
                let (w, ev) = whole_block_step(c, BlockView::Image(media_type_of(d.mime_type@), d.data@));
                (w, closed + ev)
            },
            None => match p.text {
                Some(t) => text_step(v, t@, p.thought == Some(true), opt_chars(p.thought_signature)),
                None => (v, Seq::empty()),
            },
        },
    }
}

/// Parts in order.
pub open spec fn parts_step(v: GeminiView, parts: Seq<Part>) -> (GeminiView, Seq<EventView>)
    decreases parts.len(),
{
    if parts.len() == 0 {
        (v, Seq::empty())
    } else {
        let (a, ea) = parts_step(v, parts.drop_last());
        let (b, eb) = part_step(a, parts.last());
        (b, ea + eb)
    }
}

/// The first chunk starts the message (id defaulting to
/// `gemini-response`); later chunks may raise the prompt count and restate
/// the cached count.
pub open spec fn header_step(v: GeminiView, c: GenerateContentResponse) -> (GeminiView, Seq<EventView>) {
    if !v.started {
        let id = match c.response_id {
            Some(r) => r@,
            None => "gemini-response"@,
        };
        let usage = match c.usage_metadata {
            Some(u) => Usage {
                input_tokens: u.prompt_token_count,
                cache_read_input_tokens: u.cached_content_token_count,
                ..v.usage
            },
            None => v.usage,
        };
        let model = opt_chars(c.model_version);
        (
            GeminiView { started: true, id: Some(id), model, usage, ..v },
            seq![EventView::MessageStart(id, match model { Some(m) => m, None => Seq::empty() }, usage)],
        )
    } else {
        match c.usage_metadata {
            Some(u) => (
                GeminiView {
                    usage: Usage {
                        input_tokens: if u.prompt_token_count > v.usage.input_tokens {
                            u.prompt_token_count
                        } else {
                            v.usage.input_tokens
                        },
                        cache_read_input_tokens: if u.cached_content_token_count is Some {
                            u.cached_content_token_count
                        } else {
                            v.usage.cache_read_input_tokens
                        },
                        ..v.usage
                    },
                    ..v
                },
                Seq::empty(),
            ),
            None => (v, Seq::empty()),
        }
    }
}

/// The parts of the first candidate (none when it has no content).
pub open spec fn chunk_parts(c: GenerateContentResponse) -> Seq<Part> {
    if c.candidates.len() > 0 {
        match c.candidates@[0].content {
            Some(ct) => ct.parts@,
            None => Seq::empty(),
        }
    } else {
        Seq::empty()
    }
}

/// The finish reason of the first candidate.
pub open spec fn chunk_finish(c: GenerateContentResponse) -> Option<String> {
    if c.candidates.len() > 0 {
        c.candidates@[0].finish_reason
    } else {
        None
    }
}

/// A finish reason sets the stop reason: a function call seen so far makes
/// it a tool-use stop whatever the reason says.
pub open spec fn finish_step(v: GeminiView, finish: Option<String>) -> GeminiView {
    match finish {
        Some(r) => GeminiView {
            stop_reason: Some(
                if v.saw_function_call {
                    StopReason::ToolUse
                } else {
                    gemini_stop_reason(r@)
                },
            ),
            ..v
        },
        None => v,
    }
}

/// Usage metadata sets the output count and reports what it grew by, with
/// the stop reason; without metadata a finish reason alone is reported.
pub open spec fn usage_step(v: GeminiView, um: Option<UsageMetadata>, finished: bool) -> (
    GeminiView,
    Seq<EventView>,
) {
    match um {
        Some(u) => {
            let new_out = match u.candidates_token_count {
                Some(c) => c,
                None => 0u32,
            };
            let grown = if new_out > v.usage.output_tokens {
                (new_out - v.usage.output_tokens) as u32
            } else {
                0u32
            };
            let w = GeminiView { usage: Usage { output_tokens: new_out, ..v.usage }, ..v };
            if grown > 0 || v.stop_reason is Some {
                (
                    w,
                    seq![
                        EventView::MessageDelta(
                            v.stop_reason,
                            None,
                            UsageDelta {
                                output_tokens: if grown > 0 { Some(grown) } else { None },
                                cache_read_input_tokens: u.cached_content_token_count,
                            },
                        ),
                    ],
                )
            } else {
                (w, Seq::empty())
            }
        },
        None => if v.stop_reason is Some && finished {
            (
                v,
                seq![
                    EventView::MessageDelta(
                        v.stop_reason,
                        None,
                        UsageDelta { output_tokens: None, cache_read_input_tokens: None },
                    ),
                ],
            )
        } else {
            (v, Seq::empty())
        },
    }
}

/// One chunk: header, the first candidate's parts, its finish reason, and
/// its usage.
pub open spec fn chunk_step(v: GeminiView, c: GenerateContentResponse) -> (GeminiView, Seq<EventView>) {
    let (h, eh) = header_step(v, c);
    let (p, ep) = parts_step(h, chunk_parts(c));
    let f = finish_step(p, chunk_finish(c));
    let (u, eu) = usage_step(f, c.usage_metadata, chunk_finish(c) is Some);
    (u, eh + ep + eu)
}

/// The stop reason when none was reported.
pub open spec fn default_stop(saw_function_call: bool) -> StopReason {
    if saw_function_call {
        StopReason::ToolUse
    } else {
        StopReason::EndTurn
    }
}

/// End of stream: close what is open, settle the stop reason, and end the
/// message.
pub open spec fn flush_step(v: GeminiView) -> (GeminiView, Seq<EventView>) {
    let (c, closed) = close_last(v);
    let s = if c.stop_reason is Some {
        c
    } else {
        GeminiView { stop_reason: Some(default_stop(c.saw_function_call)), ..c }
    };
    (s, closed.push(EventView::MessageStop))
}

// ---------------------------------------------------------------------------
// The steps keep the invariant
// ---------------------------------------------------------------------------
/// `last_occupied` finds the last occupied slot, and `None` means every
/// slot is empty.
pub proof fn lemma_last_occupied(s: Seq<Option<BlockView>>)
    ensures
        match last_occupied(s) {
            Some(k) => 0 <= k < s.len() && s[k] is Some && forall|i: int| k < i < s.len() ==> #[trigger] s[i] is None,
            None => forall|i: int| 0 <= i < s.len() ==> #[trigger] s[i] is None,
        },
    decreases s.len(),
{
    if s.len() > 0 && s.last() is None {
        let d = s.drop_last();
        lemma_last_occupied(d);
        assert(s[s.len() - 1] is None);
        match last_occupied(d) {
            Some(k) => {
                assert(d[k] == s[k]);
                assert forall|i: int| k < i < s.len() implies #[trigger] s[i] is None by {
                    if i < d.len() {
                        assert(d[i] == s[i]);
                    }
                }
            },
            None => {
                assert forall|i: int| 0 <= i < s.len() implies #[trigger] s[i] is None by {
                    if i < d.len() {
                        assert(d[i] == s[i]);
                    }
                }
            },
        }
    }
}

/// Closing leaves nothing open and every index closed.
proof fn lemma_close_last(v: GeminiView)
    requires
        view_wf(v),
    ensures
        view_wf(close_last(v).0),
        last_occupied(close_last(v).0.slots) is None,
        close_last(v).0.slots.len() == v.slots.len(),
        close_last(v).0.finals.len() == v.slots.len(),
        close_last(v).0.tool_use_counter == v.tool_use_counter,
{
    lemma_last_occupied(v.slots);
    let c = close_last(v).0;
    match last_occupied(v.slots) {
        Some(k) => {
            assert forall|i: int| 0 <= i < c.slots.len() implies #[trigger] c.slots[i] is None by {
                if i != k {
                    assert(v.slots[i] is None);
                }
            }
        },
        None => {},
    }
    lemma_last_occupied(c.slots);
}

/// Opening a block after a close keeps the invariant.
proof fn lemma_open_step(c: GeminiView, t: Seq<char>, thinking: bool, sig: Option<Seq<char>>)
    requires
        view_wf(c),
        last_occupied(c.slots) is None,
        c.slots.len() < u32::MAX,
    ensures
        view_wf(open_step(c, t, thinking, sig).0),
        open_step(c, t, thinking, sig).0.slots.len() == c.slots.len() + 1,
{
    lemma_last_occupied(c.slots);
    let o = open_step(c, t, thinking, sig).0;
    assert(o.slots.last() is Some);
    assert forall|i: int| 0 <= i < c.slots.len() implies #[trigger] o.slots[i] is None by {
        assert(o.slots[i] == c.slots[i]);
    }
}

/// Growing the open block in place keeps the invariant.
proof fn lemma_grow_in_place(v: GeminiView, i: int, b: BlockView)
    requires
        view_wf(v),
        last_occupied(v.slots) == Some(i),
        b is Text || b is Thinking,
    ensures
        view_wf(GeminiView { slots: v.slots.update(i, Some(b)), ..v }),
        last_occupied(v.slots.update(i, Some(b))) == Some(i),
{
    lemma_last_occupied(v.slots);
    let s2 = v.slots.update(i, Some(b));
    assert(s2[i] == Some(b));
    assert forall|j: int| 0 <= j < s2.len() && j != i implies #[trigger] s2[j] is None by {
        assert(s2[j] == v.slots[j]);
    }
    lemma_last_occupied(s2);
    assert(last_occupied(s2) == Some(i));
}

/// A block that arrives whole keeps the invariant.
proof fn lemma_whole_block(v: GeminiView, b: BlockView)
    requires
        view_wf(v),
        v.slots.len() < u32::MAX,
    ensures
        view_wf(whole_block_step(v, b).0),
        whole_block_step(v, b).0.slots.len() == v.slots.len() + 1,
        last_occupied(whole_block_step(v, b).0.slots) == last_occupied(v.slots),
{
    let w = whole_block_step(v, b).0;
    assert(w.slots.drop_last() =~= v.slots);
}

/// Every part keeps the invariant and adds at most one index.
pub proof fn lemma_part_step(v: GeminiView, p: Part)
    requires
        view_wf(v),
        v.slots.len() < u32::MAX,
    ensures
        view_wf(part_step(v, p).0),
        part_step(v, p).0.slots.len() <= v.slots.len() + 1,
{
    match p.function_call {
        Some(fc) => {
            let b = BlockView::ToolUse(tool_use_id_of(fc.name@, v.tool_use_counter), fc.name@, json_view(fc.args));
            lemma_close_last(v);
            lemma_whole_block(close_last(v).0, b);
        },
        None => match p.inline_data {
            Some(d) => {
                lemma_close_last(v);
                lemma_whole_block(close_last(v).0, BlockView::Image(media_type_of(d.mime_type@), d.data@));
            },
            None => match p.text {
                Some(t) => {
                    let thinking = p.thought == Some(true);
                    let sig = opt_chars(p.thought_signature);
                    let cur = last_occupied(v.slots);
                    lemma_last_occupied(v.slots);
                    let i = cur->0;
                    let open = if cur is Some {
                        v.slots[i]
                    } else {
                        None
                    };
                    match open {
                        Some(BlockView::Text(buf)) if !thinking => {
                            lemma_grow_in_place(v, i, BlockView::Text(buf + t@));
                        },
                        Some(BlockView::Thinking(buf, old_sig)) if thinking => {
                            lemma_grow_in_place(
                                v,
                                i,
                                BlockView::Thinking(buf + t@, if sig is Some { sig } else { old_sig }),
                            );
                        },
                        _ => {
                            lemma_close_last(v);
                            lemma_open_step(close_last(v).0, t@, thinking, sig);
                        },
                    }
                },
                None => {},
            },
        },
    }
}

// ---------------------------------------------------------------------------
// The accumulator
// ---------------------------------------------------------------------------
/// A block still open in the stream.
#[derive(Debug)]
pub enum OpenBlock {
    /// Text so far.
    Text(String),
    /// Reasoning so far.
    Thinking {
        /// Reasoning text.
        text: String,
        /// Signature, once sent.
        signature: Option<String>,
    },
}

/// The view of an open block.
pub open spec fn open_view(b: OpenBlock) -> BlockView {
    match b {
        OpenBlock::Text(t) => BlockView::Text(t@),
        OpenBlock::Thinking { text, signature } => BlockView::Thinking(text@, opt_chars(signature)),
    }
}

/// The view of a slot.
pub open spec fn slot_view(o: Option<OpenBlock>) -> Option<BlockView> {
    match o {
        Some(b) => Some(open_view(b)),
        None => None,
    }
}

/// The views of the slots.
pub open spec fn slots_view(s: Seq<Option<OpenBlock>>) -> Seq<Option<BlockView>> {
    s.map_values(|o: Option<OpenBlock>| slot_view(o))
}

/// The state of a Gemini stream being assembled.
#[derive(Debug)]
pub struct Accumulator {
    /// Whether a chunk has been seen.
    pub started: bool,
    /// Response id.
    pub id: Option<String>,
    /// Model version.
    pub model: Option<String>,
    /// Usage so far.
    pub usage: Usage,
    /// Stop reason so far.
    pub stop_reason: Option<StopReason>,
    /// Whether a function call was seen (Gemini reports `STOP` for
    /// tool-call turns too).
    pub saw_function_call: bool,
    /// One slot per block index: the open block, or `None` once closed.
    pub blocks: Vec<Option<OpenBlock>>,
    /// Function calls seen.
    pub tool_use_counter: u32,
    /// Closed blocks, in the order they closed.
    pub final_blocks: Vec<ContentBlock>,
}

impl View for Accumulator {
    type V = GeminiView;

    open spec fn view(&self) -> GeminiView {
        GeminiView {
            started: self.started,
            id: opt_chars(self.id),
            model: opt_chars(self.model),
            usage: self.usage,
            stop_reason: self.stop_reason,
            saw_function_call: self.saw_function_call,
            slots: slots_view(self.blocks@),
            tool_use_counter: self.tool_use_counter,
            finals: blocks_view(self.final_blocks@),
        }
    }
}

/// An equal copy of an optional string.
fn copy_opt(s: &Option<String>) -> (r: Option<String>)
    ensures
        r == *s,
{
    match s {
        Some(v) => Some(v.clone()),
        None => None,
    }
}

/// The index of the last open block.
fn last_open_index(blocks: &Vec<Option<OpenBlock>>) -> (r: Option<usize>)
    ensures
        match r {
            Some(k) => last_occupied(slots_view(blocks@)) == Some(k as int),
            None => last_occupied(slots_view(blocks@)) is None,
        },
{
    let ghost sv = slots_view(blocks@);
    let mut i = blocks.len();
    proof {
        assert(sv.take(i as int) =~= sv);
    }
    while i > 0
        invariant
            i <= blocks@.len(),
            sv == slots_view(blocks@),
            last_occupied(sv) == last_occupied(sv.take(i as int)),
        decreases i,
    {
        let ghost t = sv.take(i as int);
        assert(t.last() == slot_view(blocks@[i - 1]));
        if blocks[i - 1].is_some() {
            return Some(i - 1);
        }
        assert(t.drop_last() =~= sv.take(i - 1));
        i = i - 1;
    }
    None
}

impl Accumulator {
    /// Nothing received yet.
    pub fn new() -> (a: Accumulator)
        ensures
            !a@.started,
            a@.id is None,
            a@.model is None,
            a@.usage == (Usage {
                input_tokens: 0,
                output_tokens: 0,
                cache_creation_input_tokens: None,
                cache_read_input_tokens: None,
            }),
            a@.stop_reason is None,
            !a@.saw_function_call,
            a@.slots.len() == 0,
            a@.tool_use_counter == 0,
            a@.finals.len() == 0,
            view_wf(a@),
    {
        let a = Accumulator {
            started: false,
            id: None,
            model: None,
            usage: Usage::zero(),
            stop_reason: None,
            saw_function_call: false,
            blocks: Vec::new(),
            tool_use_counter: 0,
            final_blocks: Vec::new(),
        };
        assert(a@.slots =~= Seq::<Option<BlockView>>::empty());
        a
    }

    /// Close the open block at `k`.
    fn close_open(&mut self, k: usize, out: &mut Vec<StreamEvent>)
        requires
            k < old(self).blocks@.len(),
            old(self).blocks@[k as int] is Some,
            k <= u32::MAX,
        ensures
            final(self)@ == (GeminiView {
                slots: old(self)@.slots.update(k as int, None),
                finals: old(self)@.finals.push(old(self)@.slots[k as int]->0),
                ..old(self)@
            }),
            events_view(final(out)@) == events_view(old(out)@).push(EventView::BlockStop(k as u32)),
    {
        let block = match &self.blocks[k] {
            Some(OpenBlock::Text(t)) => ContentBlock::Text { text: t.clone() },
            Some(OpenBlock::Thinking { text, signature }) => ContentBlock::Thinking {
                text: text.clone(),
                signature: copy_opt(signature),
            },
            None => ContentBlock::Text { text: String::new() },
        };
        assert(block_view(block) == slot_view(self.blocks@[k as int])->0);
        self.blocks.set(k, None);
        self.final_blocks.push(block);
        out.push(StreamEvent::ContentBlockStop { index: k as u32 });
        assert(slots_view(self.blocks@) =~= old(self)@.slots.update(k as int, None));
        assert(blocks_view(self.final_blocks@) =~= old(self)@.finals.push(old(self)@.slots[k as int]->0));
        assert(events_view(out@) =~= events_view(old(out)@).push(EventView::BlockStop(k as u32)));
    }

    /// Close the last open block, if any.
    fn close_last_open(&mut self, out: &mut Vec<StreamEvent>)
        requires
            old(self)@.slots.len() <= u32::MAX,
        ensures
            final(self)@ == close_last(old(self)@).0,
            events_view(final(out)@) == events_view(old(out)@) + close_last(old(self)@).1,
    {
        proof {
            lemma_last_occupied(self@.slots);
        }
        match last_open_index(&self.blocks) {
            Some(k) => {
                assert(slot_view(self.blocks@[k as int]) is Some);
                self.close_open(k, out);
                assert(events_view(out@) =~= events_view(old(out)@) + close_last(old(self)@).1);
            },
            None => {
                assert(events_view(out@) =~= events_view(out@) + Seq::<EventView>::empty());
            },
        }
    }

    /// A text or reasoning part (see `text_step`).
    fn text_part(&mut self, t: String, thinking: bool, sig: Option<String>, out: &mut Vec<StreamEvent>)
        requires
            view_wf(old(self)@),
            old(self)@.slots.len() < u32::MAX,
        ensures
            final(self)@ == text_step(old(self)@, t@, thinking, opt_chars(sig)).0,
            events_view(final(out)@) == events_view(old(out)@) + text_step(old(self)@, t@, thinking, opt_chars(sig)).1,
    {
        let ghost v = self@;
        proof {
            lemma_last_occupied(v.slots);
        }
        let cur = last_open_index(&self.blocks);
        let kind: u8 = match cur {
            Some(i) => match &self.blocks[i] {
                Some(OpenBlock::Text(_)) => 1,
                Some(OpenBlock::Thinking { .. }) => 2,
                None => 0,
            },
            None => 0,
        };
        if kind == 1 && !thinking {
            let i = cur.unwrap();
            assert(v.slots[i as int] == slot_view(self.blocks@[i as int]));
            let grown = match &self.blocks[i] {
                Some(OpenBlock::Text(buf)) => concat2(buf.as_str(), t.as_str()),
                _ => String::new(),
            };
            self.blocks.set(i, Some(OpenBlock::Text(grown)));
            out.push(StreamEvent::ContentBlockDelta { index: i as u32, delta: BlockDelta::TextDelta { text: t } });
            assert(slots_view(self.blocks@) =~= v.slots.update(i as int, Some(BlockView::Text(grown@))));
            assert(events_view(out@) =~= events_view(old(out)@) + text_step(v, t@, thinking, opt_chars(sig)).1);
        } else if kind == 2 && thinking {
            let i = cur.unwrap();
            assert(v.slots[i as int] == slot_view(self.blocks@[i as int]));
            let (grown, old_sig) = match &self.blocks[i] {
                Some(OpenBlock::Thinking { text, signature }) => (concat2(text.as_str(), t.as_str()), copy_opt(signature)),
                _ => (String::new(), None),
            };
            match sig {
                Some(ns) => {
                    let ns2 = ns.clone();
                    self.blocks.set(i, Some(OpenBlock::Thinking { text: grown, signature: Some(ns2) }));
                    out.push(
                        StreamEvent::ContentBlockDelta { index: i as u32, delta: BlockDelta::SignatureDelta { signature: ns } },
                    );
                },
                None => {
                    self.blocks.set(i, Some(OpenBlock::Thinking { text: grown, signature: old_sig }));
                },
            }
            out.push(StreamEvent::ContentBlockDelta { index: i as u32, delta: BlockDelta::ThinkingDelta { text: t } });
            assert(slots_view(self.blocks@) =~= text_step(v, t@, thinking, opt_chars(sig)).0.slots);
            assert(events_view(out@) =~= events_view(old(out)@) + text_step(v, t@, thinking, opt_chars(sig)).1);
        } else {
            proof {
                if cur is Some {
                    assert(v.slots[cur->0 as int] == slot_view(self.blocks@[cur->0 as int]));
                }
            }
            self.close_last_open(out);
            let ghost c = self@;
            let ghost mid = out@;
            let n = self.blocks.len();
            let nonempty = !t.as_str().is_empty();
            if thinking {
                out.push(
                    StreamEvent::ContentBlockStart {
                        index: n as u32,
                        block: ContentBlock::Thinking { text: String::new(), signature: copy_opt(&sig) },
                    },
                );
                if nonempty {
                    out.push(
                        StreamEvent::ContentBlockDelta { index: n as u32, delta: BlockDelta::ThinkingDelta { text: t.clone() } },
                    );
                }
                self.blocks.push(Some(OpenBlock::Thinking { text: t, signature: sig }));
            } else {
                out.push(StreamEvent::ContentBlockStart { index: n as u32, block: ContentBlock::Text { text: String::new() } });
                if nonempty {
                    out.push(
                        StreamEvent::ContentBlockDelta { index: n as u32, delta: BlockDelta::TextDelta { text: t.clone() } },
                    );
                }
                self.blocks.push(Some(OpenBlock::Text(t)));
            }
            assert(slots_view(self.blocks@) =~= open_step(c, t@, thinking, opt_chars(sig)).0.slots);
            assert(events_view(out@) =~= events_view(mid) + open_step(c, t@, thinking, opt_chars(sig)).1);
            assert(events_view(out@) =~= events_view(old(out)@) + text_step(v, t@, thinking, opt_chars(sig)).1);
        }
    }

    /// Fold one part into the state, appending its events to `out` (see
    /// `part_step`).
    pub fn consume_part(&mut self, part: Part, out: &mut Vec<StreamEvent>)
        requires
            view_wf(old(self)@),
            old(self)@.slots.len() < u32::MAX,
        ensures
            final(self)@ == part_step(old(self)@, part).0,
            events_view(final(out)@) == events_view(old(out)@) + part_step(old(self)@, part).1,
            view_wf(final(self)@),
            final(self)@.slots.len() <= old(self)@.slots.len() + 1,
    {
        proof {
            lemma_part_step(self@, part);
        }
        let ghost v = self@;
        let ghost p = part;
        let Part { text, thought, thought_signature, inline_data, function_call, function_response: _ } = part;
        match function_call {
            Some(fc) => {
                self.close_last_open(out);
                let ghost c = self@;
                let ghost mid = out@;
                let idx = self.blocks.len();
                let id = synthesize_tool_use_id(fc.name.as_str(), self.tool_use_counter);
                let id2 = id.clone();
                let name2 = fc.name.clone();
                let args2 = copy_json(&fc.args);
                out.push(
                    StreamEvent::ContentBlockStart {
                        index: idx as u32,
                        block: ContentBlock::ToolUse { id, name: fc.name, input: fc.args },
                    },
                );
                out.push(StreamEvent::ContentBlockStop { index: idx as u32 });
                self.saw_function_call = true;
                self.tool_use_counter = self.tool_use_counter + 1;
                self.blocks.push(None);
                self.final_blocks.push(ContentBlock::ToolUse { id: id2, name: name2, input: args2 });
                assert(slots_view(self.blocks@) =~= c.slots.push(None));
                assert(blocks_view(self.final_blocks@) =~= part_step(v, p).0.finals);
                assert(events_view(out@) =~= events_view(mid) + whole_block_step(c, part_step(v, p).0.finals.last()).1);
                assert(events_view(out@) =~= events_view(old(out)@) + part_step(v, p).1);
            },
            None => match inline_data {
                Some(d) => {
                    self.close_last_open(out);
                    let ghost c = self@;
                    let ghost mid = out@;
                    let mt = media_type_from_mime(d.mime_type.as_str());
                    let idx = self.blocks.len();
                    let data2 = d.data.clone();
                    out.push(
                        StreamEvent::ContentBlockStart {
                            index: idx as u32,
                            block: ContentBlock::Image { source: ImageSource::Base64 { media_type: mt, data: d.data } },
                        },
                    );
                    out.push(StreamEvent::ContentBlockStop { index: idx as u32 });
                    self.blocks.push(None);
                    self.final_blocks.push(
                        ContentBlock::Image { source: ImageSource::Base64 { media_type: mt, data: data2 } },
                    );
                    assert(slots_view(self.blocks@) =~= c.slots.push(None));
                    assert(blocks_view(self.final_blocks@) =~= part_step(v, p).0.finals);
                    assert(events_view(out@) =~= events_view(mid) + whole_block_step(c, part_step(v, p).0.finals.last()).1);
                    assert(events_view(out@) =~= events_view(old(out)@) + part_step(v, p).1);
                },
                None => match text {
                    Some(t) => {
                        let thinking = match thought {
                            Some(b) => b,
                            None => false,
                        };
                        self.text_part(t, thinking, thought_signature, out);
                    },
                    None => {
                        assert(events_view(out@) =~= events_view(out@) + Seq::<EventView>::empty());
                    },
                },
            },
        }
    }
}

impl Accumulator {
    /// The header of a chunk (see `header_step`).
    fn consume_header(&mut self, chunk: &GenerateContentResponse, events: &mut Vec<StreamEvent>)
        ensures
            final(self)@ == header_step(old(self)@, *chunk).0,
            events_view(final(events)@) == events_view(old(events)@) + header_step(old(self)@, *chunk).1,
    {
        let um = chunk.usage_metadata;
        if !self.started {
            self.started = true;
            let id = match &chunk.response_id {
                Some(r) => r.clone(),
                None => String::from_str("gemini-response"),
            };
            self.model = copy_opt(&chunk.model_version);
            match um {
                Some(u) => {
                    self.usage.input_tokens = u.prompt_token_count;
                    self.usage.cache_read_input_tokens = u.cached_content_token_count;
                },
                None => {},
            }
            let model_text = match &self.model {
                Some(m) => m.clone(),
                None => String::new(),
            };
            events.push(StreamEvent::MessageStart { id: id.clone(), model: model_text, usage: self.usage });
            self.id = Some(id);
            assert(events_view(events@) =~= events_view(old(events)@) + header_step(old(self)@, *chunk).1);
        } else {
            match um {
                Some(u) => {
                    if u.prompt_token_count > self.usage.input_tokens {
                        self.usage.input_tokens = u.prompt_token_count;
                    }
                    if u.cached_content_token_count.is_some() {
                        self.usage.cache_read_input_tokens = u.cached_content_token_count;
                    }
                },
                None => {},
            }
            assert(events_view(events@) =~= events_view(old(events)@) + header_step(old(self)@, *chunk).1);
        }
    }

    /// Parts in order (see `parts_step`).
    fn consume_parts(&mut self, parts: Vec<Part>, events: &mut Vec<StreamEvent>)
        requires
            view_wf(old(self)@),
            old(self)@.slots.len() + parts@.len() <= u32::MAX,
        ensures
            final(self)@ == parts_step(old(self)@, parts@).0,
            events_view(final(events)@) == events_view(old(events)@) + parts_step(old(self)@, parts@).1,
            view_wf(final(self)@),
            final(self)@.slots.len() <= old(self)@.slots.len() + parts@.len(),
    {
        let ghost h = self@;
        let ghost all = parts@;
        let ghost eh = events_view(events@);
        let mut parts = parts;
        let ghost mut k: int = 0;
        assert(all.take(0) =~= Seq::<Part>::empty());
        assert(eh + Seq::<EventView>::empty() =~= eh);
        assert(all.skip(0) =~= all);
        while parts.len() > 0
            invariant
                0 <= k <= all.len(),
                parts@ == all.skip(k),
                view_wf(self@),
                self@ == parts_step(h, all.take(k)).0,
                events_view(events@) == eh + parts_step(h, all.take(k)).1,
                self@.slots.len() <= h.slots.len() + k,
                h.slots.len() + all.len() <= u32::MAX,
            decreases parts@.len(),
        {
            let p = parts.remove(0);
            proof {
                assert(p == all[k]);
                assert(all.take(k + 1).drop_last() =~= all.take(k));
                assert(all.take(k + 1).last() == all[k]);
            }
            self.consume_part(p, events);
            proof {
                let pre = parts_step(h, all.take(k));
                assert(events_view(events@) =~= eh + (pre.1 + part_step(pre.0, all[k]).1));
                k = k + 1;
                assert(parts@ =~= all.skip(k));
            }
        }
        assert(all.take(k) =~= all);
    }

    /// Usage metadata and the message delta it reports (see `usage_step`).
    fn consume_usage(&mut self, um: Option<UsageMetadata>, finished: bool, events: &mut Vec<StreamEvent>)
        ensures
            final(self)@ == usage_step(old(self)@, um, finished).0,
            events_view(final(events)@) == events_view(old(events)@) + usage_step(old(self)@, um, finished).1,
    {
        match um {
            Some(u) => {
                let new_out = match u.candidates_token_count {
                    Some(n) => n,
                    None => 0,
                };
                let grown = new_out.saturating_sub(self.usage.output_tokens);
                let reason = self.stop_reason;
                self.usage.output_tokens = new_out;
                if grown > 0 || reason.is_some() {
                    let out_delta = if grown > 0 {
                        Some(grown)
                    } else {
                        None
                    };
                    events.push(
                        StreamEvent::MessageDelta {
                            stop_reason: reason,
                            stop_sequence: None,
                            usage_delta: UsageDelta {
                                output_tokens: out_delta,
                                cache_read_input_tokens: u.cached_content_token_count,
                            },
                        },
                    );
                }
            },
            None => {
                if self.stop_reason.is_some() && finished {
                    events.push(
                        StreamEvent::MessageDelta {
                            stop_reason: self.stop_reason,
                            stop_sequence: None,
                            usage_delta: UsageDelta { output_tokens: None, cache_read_input_tokens: None },
                        },
                    );
                }
            },
        }
        assert(events_view(events@) =~= events_view(old(events)@) + usage_step(old(self)@, um, finished).1);
    }

    /// Fold one stream chunk into the state and return the protocol events
    /// it translates to (see `chunk_step`). Block indices must fit in
    /// `u32`.
    pub fn consume_chunk(&mut self, chunk: GenerateContentResponse) -> (events: Vec<StreamEvent>)
        requires
            view_wf(old(self)@),
            old(self)@.slots.len() + chunk_parts(chunk).len() <= u32::MAX,
        ensures
            final(self)@ == chunk_step(old(self)@, chunk).0,
            events_view(events@) == chunk_step(old(self)@, chunk).1,
            view_wf(final(self)@),
            final(self)@.slots.len() <= old(self)@.slots.len() + chunk_parts(chunk).len(),
    {
        let ghost v = self@;
        let ghost c = chunk;
        let mut events: Vec<StreamEvent> = Vec::new();
        self.consume_header(&chunk, &mut events);
        let ghost h = self@;
        let um = chunk.usage_metadata;
        let mut cands = chunk.candidates;
        let (parts, finish_reason) = if cands.len() > 0 {
            let first = cands.remove(0);
            let ps = match first.content {
                Some(ct) => ct.parts,
                None => Vec::new(),
            };
            (ps, first.finish_reason)
        } else {
            (Vec::new(), None)
        };
        assert(parts@ == chunk_parts(c));
        assert(finish_reason == chunk_finish(c));
        self.consume_parts(parts, &mut events);
        match &finish_reason {
            Some(reason) => {
                let mapped = stop_reason_from_gemini(Some(reason.as_str()));
                self.stop_reason = Some(
                    if self.saw_function_call {
                        StopReason::ToolUse
                    } else {
                        mapped
                    },
                );
            },
            None => {},
        }
        assert(self@ == finish_step(parts_step(h, chunk_parts(c)).0, chunk_finish(c)));
        self.consume_usage(um, finish_reason.is_some(), &mut events);
        assert(events_view(events@) =~= chunk_step(v, c).1);
        events
    }

    /// End of stream: close what is still open, settle the stop reason, and
    /// end the message (see `flush_step`). At most one block is ever open
    /// (`view_wf`), so closing the last open one closes them all.
    pub fn flush(&mut self) -> (events: Vec<StreamEvent>)
        requires
            view_wf(old(self)@),
        ensures
            final(self)@ == flush_step(old(self)@).0,
            events_view(events@) == flush_step(old(self)@).1,
            view_wf(final(self)@),
    {
        proof {
            lemma_close_last(self@);
        }
        let mut events: Vec<StreamEvent> = Vec::new();
        self.close_last_open(&mut events);
        if self.stop_reason.is_none() {
            self.stop_reason = Some(
                if self.saw_function_call {
                    StopReason::ToolUse
                } else {
                    StopReason::EndTurn
                },
            );
        }
        let ghost before = events@;
        events.push(StreamEvent::MessageStop);
        assert(events_view(events@) =~= events_view(before).push(EventView::MessageStop));
        assert(events_view(before) =~= Seq::<EventView>::empty() + close_last(old(self)@).1);
        events
    }

    /// The final response: the closed blocks in the order they closed. It
    /// fails when no chunk was ever seen.
    pub fn finish(self) -> (r: Result<CompleteResponse, ProviderError>)
        ensures
            match r {
                Ok(resp) => {
                    &&& self@.started
                    &&& resp.id@ == match self@.id {
                        Some(i) => i,
                        None => Seq::empty(),
                    }
                    &&& resp.model@ == match self@.model {
                        Some(m) => m,
                        None => Seq::empty(),
                    }
                    &&& blocks_view(resp.content@) == self@.finals
                    &&& resp.stop_reason == match self@.stop_reason {
                        Some(sr) => sr,
                        None => default_stop(self@.saw_function_call),
                    }
                    &&& resp.stop_sequence is None
                    &&& resp.usage == self@.usage
                },
                Err(e) => !self@.started && is_decode_error(e, "stream produced no chunks"@),
            },
    {
        if !self.started {
            return Err(stream_decode_error("stream produced no chunks"));
        }
        let default_reason = if self.saw_function_call {
            StopReason::ToolUse
        } else {
            StopReason::EndTurn
        };
        let id = match self.id {
            Some(i) => i,
            None => String::new(),
        };
        let model = match self.model {
            Some(m) => m,
            None => String::new(),
        };
        Ok(
            CompleteResponse {
                id,
                model,
                content: self.final_blocks,
                stop_reason: match self.stop_reason {
                    Some(sr) => sr,
                    None => default_reason,
                },
                stop_sequence: None,
                usage: self.usage,
            },
        )
    }
}

impl Default for Accumulator {
    fn default() -> (a: Accumulator)
        ensures
            !a@.started,
            a@.id is None,
            a@.model is None,
            a@.usage == (Usage {
                input_tokens: 0,
                output_tokens: 0,
                cache_creation_input_tokens: None,
                cache_read_input_tokens: None,
            }),
            a@.stop_reason is None,
            !a@.saw_function_call,
            a@.slots.len() == 0,
            a@.tool_use_counter == 0,
            a@.finals.len() == 0,
            view_wf(a@),
    {
        Accumulator::new()
    }
}

// ---------------------------------------------------------------------------
// Laws
// ---------------------------------------------------------------------------
/// Gemini reports `STOP` for tool-call turns: once a function call has been
/// seen, a finish reason always sets the tool-use stop.
pub proof fn law_function_call_finishes_as_tool_use(v: GeminiView, c: GenerateContentResponse)
    requires
        chunk_finish(c) is Some,
        chunk_step(v, c).0.saw_function_call,
    ensures
        chunk_step(v, c).0.stop_reason == Some(StopReason::ToolUse),
{
}

/// After the final flush the stop reason is settled: the reported one, or
/// tool use when a function call was seen, or end of turn.
pub proof fn law_flush_settles_stop_reason(v: GeminiView)
    ensures
        flush_step(v).0.stop_reason == match v.stop_reason {
            Some(r) => Some(r),
            None => Some(default_stop(v.saw_function_call)),
        },
        flush_step(v).1.last() == EventView::MessageStop,
{
}

/// The final flush closes every block: no slot stays open, and every block
/// index that was started is in the final content exactly once.
pub proof fn law_flush_closes_every_block(v: GeminiView)
    requires
        view_wf(v),
    ensures
        forall|i: int| 0 <= i < flush_step(v).0.slots.len() ==> #[trigger] flush_step(v).0.slots[i] is None,
        flush_step(v).0.finals.len() == v.slots.len(),
        view_wf(flush_step(v).0),
{
    lemma_close_last(v);
    lemma_last_occupied(close_last(v).0.slots);
}

/// A plain text part: text, not reasoning, no call and no image.
pub open spec fn plain_text_part(p: Part) -> bool {
    &&& p.function_call is None
    &&& p.inline_data is None
    &&& p.text is Some
    &&& p.thought != Some(true)
}

/// A text part that follows a text part grows the same block: no new index
/// is opened, the block's text is extended by exactly the new text, and the
/// only event is that delta.
pub proof fn law_text_after_text_grows_the_same_block(v: GeminiView, p1: Part, p2: Part)
    requires
        view_wf(v),
        v.slots.len() < u32::MAX,
        plain_text_part(p1),
        plain_text_part(p2),
    ensures
        ({
            let a = part_step(v, p1).0;
            let (b, ev) = part_step(a, p2);
            &&& b.slots.len() == a.slots.len()
            &&& last_occupied(a.slots) is Some
            &&& last_occupied(b.slots) == last_occupied(a.slots)
            &&& a.slots[last_occupied(a.slots)->0] matches Some(BlockView::Text(x))
                && b.slots[last_occupied(a.slots)->0] == Some(BlockView::Text(x + p2.text->0@))
            &&& ev == seq![EventView::BlockDelta(last_occupied(a.slots)->0 as u32, DeltaView::Text(p2.text->0@))]
        }),
{
    let t1 = p1.text->0@;
    lemma_part_step(v, p1);
    lemma_last_occupied(v.slots);
    let cur = last_occupied(v.slots);
    let open = if cur is Some {
        v.slots[cur->0]
    } else {
        None
    };
    let a = part_step(v, p1).0;
    match open {
        Some(BlockView::Text(buf)) => {
            lemma_grow_in_place(v, cur->0, BlockView::Text(buf + t1));
        },
        _ => {
            lemma_close_last(v);
            let c = close_last(v).0;
            lemma_open_step(c, t1, false, opt_chars(p1.thought_signature));
            lemma_last_occupied(c.slots);
            let o = open_step(c, t1, false, opt_chars(p1.thought_signature)).0;
            assert(o.slots.last() is Some);
            assert(last_occupied(o.slots) == Some(c.slots.len() as int));
        },
    }
    lemma_last_occupied(a.slots);
    let i = last_occupied(a.slots)->0;
    assert(a.slots[i] is Some);
    assert(a.slots[i]->0 is Text);
    lemma_grow_in_place(a, i, BlockView::Text(a.slots[i]->0->Text_0 + p2.text->0@));
}

} // verus!
