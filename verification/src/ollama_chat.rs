//! Translation between the protocol and Ollama's `/api/chat` shapes.
//!
//! Tool results go back as `tool` role messages when the request offers
//! tools, and as user text otherwise, so conversations stay valid for
//! models without tool calling.
use vstd::prelude::*;

use crate::json::{JsonValue, JsonView, copy_json, json_view};
use crate::protocol::{CompleteRequest, CompleteResponse, ContentBlock, Message, Role, StopReason,
    ToolDef, Usage};
use crate::session::{decimal, decimal_string, response_text};
use crate::sse::{join_lines, join_nl, views};
use crate::text::{chars_of, concat2, concat3, push_char, seq_eq};

verus! {

// ---------------------------------------------------------------------------
// Shapes
// ---------------------------------------------------------------------------
/// The `content` of a request message.
#[derive(Debug, Clone, PartialEq, Eq)]
pub enum OllamaContent {
    /// A JSON string.
    Text(String),
    /// The object `{"tool_call_id": .., "content": ..}` of a tool result.
    ToolResult {
        /// Id of the call answered.
        tool_call_id: String,
        /// Result text.
        content: String,
    },
}

/// A tool call carried by a message.
#[derive(Debug)]
pub struct OllamaToolCall {
    /// Call id, when the model gives one.
    pub id: Option<String>,
    /// Function name.
    pub name: String,
    /// Arguments as a JSON object.
    pub arguments: JsonValue,
}

/// A request message.
#[derive(Debug)]
pub struct OllamaMessage {
    /// `system`, `user`, `assistant` or `tool`.
    pub role: String,
    /// Its content, when it has any.
    pub content: Option<OllamaContent>,
    /// Tool calls made by the assistant.
    pub tool_calls: Vec<OllamaToolCall>,
}

/// A function tool offered to the model.
#[derive(Debug)]
pub struct OllamaTool {
    /// Always `function`.
    pub kind: String,
    /// Function name.
    pub name: String,
    /// Function description.
    pub description: String,
    /// JSON schema of the parameters.
    pub parameters: JsonValue,
}

/// The integer and list generation options (sampling parameters travel
/// beside the request).
#[derive(Debug, Clone, PartialEq, Eq)]
pub struct OptionsPlan {
    /// Cap on generated tokens.
    pub num_predict: Option<u32>,
    /// Stop sequences.
    pub stop: Vec<String>,
}

/// A `/api/chat` request body.
#[derive(Debug)]
pub struct ChatRequest {
    /// Model id.
    pub model: String,
    /// Messages in order.
    pub messages: Vec<OllamaMessage>,
    /// Whether to stream NDJSON.
    pub stream: bool,
    /// Offered tools.
    pub tools: Vec<OllamaTool>,
    /// Generation options, when any differs from the defaults.
    pub options: Option<OptionsPlan>,
}

/// The `content` of a response message, as read from its JSON.
#[derive(Debug, Clone, PartialEq, Eq)]
pub enum ResponseContent {
    /// No `content` field.
    Missing,
    /// `null`.
    Null,
    /// A string.
    Text(String),
    /// An array of parts: the `text` string of each, when it has one.
    Parts(Vec<Option<String>>),
    /// Any other JSON value, as its JSON text.
    Other(String),
}

/// A response message.
#[derive(Debug)]
pub struct ResponseMessage {
    /// Its content.
    pub content: ResponseContent,
    /// Tool calls made by the model.
    pub tool_calls: Vec<OllamaToolCall>,
}

/// A `/api/chat` response (or the last streamed chunk).
#[derive(Debug)]
pub struct ChatResponse {
    /// Model id.
    pub model: Option<String>,
    /// The answer.
    pub message: Option<ResponseMessage>,
    /// Whether this is the final chunk.
    pub done: bool,
    /// Why generation stopped.
    pub done_reason: Option<String>,
    /// Prompt tokens.
    pub prompt_eval_count: Option<u32>,
    /// Generated tokens.
    pub eval_count: Option<u32>,
}

// ---------------------------------------------------------------------------
// Models
// ---------------------------------------------------------------------------
/// The model of a message content.
pub enum ContentModel {
    /// A string.
    Text(Seq<char>),
    /// A tool result: call id and text.
    ToolResult(Seq<char>, Seq<char>),
}

/// The model of a tool call.
pub struct CallModel {
    /// Call id.
    pub id: Option<Seq<char>>,
    /// Function name.
    pub name: Seq<char>,
    /// Arguments.
    pub arguments: JsonView,
}

/// The model of a message.
pub struct MsgModel {
    /// Role.
    pub role: Seq<char>,
    /// Content.
    pub content: Option<ContentModel>,
    /// Tool calls.
    pub calls: Seq<CallModel>,
}

/// The model of a content.
pub open spec fn content_model(c: OllamaContent) -> ContentModel {
    match c {
        OllamaContent::Text(t) => ContentModel::Text(t@),
        OllamaContent::ToolResult { tool_call_id, content } => ContentModel::ToolResult(tool_call_id@, content@),
    }
}

/// The model of a tool call.
pub open spec fn call_model(c: OllamaToolCall) -> CallModel {
    CallModel {
        id: match c.id {
            Some(i) => Some(i@),
            None => None,
        },
        name: c.name@,
        arguments: json_view(c.arguments),
    }
}

/// The model of a message.
pub open spec fn msg_model(m: OllamaMessage) -> MsgModel {
    MsgModel {
        role: m.role@,
        content: match m.content {
            Some(c) => Some(content_model(c)),
            None => None,
        },
        calls: m.tool_calls@.map_values(|c: OllamaToolCall| call_model(c)),
    }
}

/// The models of a message list.
pub open spec fn msgs_model(v: Seq<OllamaMessage>) -> Seq<MsgModel> {
    v.map_values(|m: OllamaMessage| msg_model(m))
}

/// A message with text content and no tool calls.
pub open spec fn text_msg(role: Seq<char>, text: Seq<char>) -> MsgModel {
    MsgModel { role, content: Some(ContentModel::Text(text)), calls: Seq::empty() }
}

// ---------------------------------------------------------------------------
// Specification
// ---------------------------------------------------------------------------
/// The texts of the text blocks, in order.
pub open spec fn texts_of(blocks: Seq<ContentBlock>) -> Seq<Seq<char>>
    decreases blocks.len(),
{
    if blocks.len() == 0 {
        Seq::empty()
    } else {
        let init = texts_of(blocks.drop_last());
        match blocks.last() {
            ContentBlock::Text { text } => init.push(text@),
            _ => init,
        }
    }
}

/// The text of a tool result's content: its text blocks joined by newlines.
pub open spec fn flatten_spec(blocks: Seq<ContentBlock>) -> Seq<char> {
    join_nl(texts_of(blocks))
}

/// The (call id, result text) of each tool-result block, in order; a
/// failed result's text is prefixed with `[error] `.
pub open spec fn tool_results_of(blocks: Seq<ContentBlock>) -> Seq<(Seq<char>, Seq<char>)>
    decreases blocks.len(),
{
    if blocks.len() == 0 {
        Seq::empty()
    } else {
        let init = tool_results_of(blocks.drop_last());
        match blocks.last() {
            ContentBlock::ToolResult { tool_use_id, content, is_error } => init.push(
                (
                    tool_use_id@,
                    if is_error {
                        "[error] "@ + flatten_spec(content@)
                    } else {
                        flatten_spec(content@)
                    },
                ),
            ),
            _ => init,
        }
    }
}

/// The message carrying one tool result.
pub open spec fn result_msg(r: (Seq<char>, Seq<char>), tool_support: bool) -> MsgModel {
    if tool_support {
        MsgModel { role: "tool"@, content: Some(ContentModel::ToolResult(r.0, r.1)), calls: Seq::empty() }
    } else {
        text_msg("user"@, "[tool result for "@ + r.0 + "]: "@ + r.1)
    }
}

/// The messages for a user message: one per tool result, then its text
/// blocks joined by newlines, if it has any.
pub open spec fn user_msgs(blocks: Seq<ContentBlock>, tool_support: bool) -> Seq<MsgModel> {
    let results = tool_results_of(blocks).map_values(|r: (Seq<char>, Seq<char>)| result_msg(r, tool_support));
    let texts = texts_of(blocks);
    if texts.len() > 0 {
        results.push(text_msg("user"@, join_nl(texts)))
    } else {
        results
    }
}

/// The tool calls of an assistant message, in order.
pub open spec fn calls_of(blocks: Seq<ContentBlock>) -> Seq<CallModel>
    decreases blocks.len(),
{
    if blocks.len() == 0 {
        Seq::empty()
    } else {
        let init = calls_of(blocks.drop_last());
        match blocks.last() {
            ContentBlock::ToolUse { id, name, input } => init.push(
                CallModel { id: Some(id@), name: name@, arguments: json_view(input) },
            ),
            _ => init,
        }
    }
}

/// The message for an assistant message: its text (when non-empty) and
/// its tool calls.
pub open spec fn assistant_msg(blocks: Seq<ContentBlock>) -> MsgModel {
    let text = response_text(blocks);
    MsgModel {
        role: "assistant"@,
        content: if text.len() == 0 {
            None
        } else {
            Some(ContentModel::Text(text))
        },
        calls: calls_of(blocks),
    }
}

/// The messages for one protocol message.
pub open spec fn msgs_for(m: Message, tool_support: bool) -> Seq<MsgModel> {
    match m.role {
        Role::User => user_msgs(m.content@, tool_support),
        Role::Assistant => seq![assistant_msg(m.content@)],
    }
}

/// The messages for a conversation, in order.
pub open spec fn all_msgs(ms: Seq<Message>, tool_support: bool) -> Seq<MsgModel>
    decreases ms.len(),
{
    if ms.len() == 0 {
        Seq::empty()
    } else {
        all_msgs(ms.drop_last(), tool_support) + msgs_for(ms.last(), tool_support)
    }
}

/// `t` offers `d` as a function tool.
pub open spec fn tool_matches(t: OllamaTool, d: ToolDef) -> bool {
    &&& t.kind@ == "function"@
    &&& t.name == d.name
    &&& t.description == d.description
    &&& json_view(t.parameters) == json_view(d.input_schema)
}

// ---------------------------------------------------------------------------
// Requests
// ---------------------------------------------------------------------------
/// The texts of the text blocks.
fn collect_texts(blocks: &Vec<ContentBlock>) -> (r: Vec<String>)
    ensures
        views(r@) == texts_of(blocks@),
{
    let mut r: Vec<String> = Vec::new();
    let n = blocks.len();
    for i in 0..n
        invariant
            n == blocks@.len(),
            views(r@) == texts_of(blocks@.take(i as int)),
    {
        proof {
            assert(blocks@.take(i + 1).drop_last() =~= blocks@.take(i as int));
        }
        let ghost prev = r@;
        match &blocks[i] {
            ContentBlock::Text { text } => {
                r.push(text.clone());
                proof {
                    assert(views(r@) =~= views(prev).push(text@));
                }
            },
            _ => {},
        }
    }
    proof {
        assert(blocks@.take(n as int) =~= blocks@);
    }
    r
}

/// A tool result's content as text: its text blocks joined by newlines.
pub fn flatten_tool_result_text(blocks: &Vec<ContentBlock>) -> (r: String)
    ensures
        r@ == flatten_spec(blocks@),
{
    let texts = collect_texts(blocks);
    join_lines(&texts)
}

/// A message with text content and no tool calls.
fn text_message(role: &str, text: String) -> (m: OllamaMessage)
    ensures
        msg_model(m) == text_msg(role@, text@),
{
    let m = OllamaMessage { role: String::from_str(role), content: Some(OllamaContent::Text(text)), tool_calls: Vec::new() };
    assert(msg_model(m).calls =~= Seq::<CallModel>::empty());
    m
}

/// The views of a list of string pairs.
pub open spec fn pair_views(v: Seq<(String, String)>) -> Seq<(Seq<char>, Seq<char>)> {
    v.map_values(|r: (String, String)| (r.0@, r.1@))
}

/// The (call id, result text) pairs of the tool-result blocks.
fn collect_results(blocks: &Vec<ContentBlock>) -> (r: Vec<(String, String)>)
    ensures
        pair_views(r@) == tool_results_of(blocks@),
{
    let mut results: Vec<(String, String)> = Vec::new();
    let n = blocks.len();
    for i in 0..n
        invariant
            n == blocks@.len(),
            pair_views(results@) == tool_results_of(blocks@.take(i as int)),
    {
        proof {
            assert(blocks@.take(i + 1).drop_last() =~= blocks@.take(i as int));
        }
        let ghost prev = results@;
        match &blocks[i] {
            ContentBlock::ToolResult { tool_use_id, content, is_error } => {
                let flat = flatten_tool_result_text(content);
                let text = if *is_error {
                    concat2("[error] ", flat.as_str())
                } else {
                    flat
                };
                let ghost tv = text@;
                results.push((tool_use_id.clone(), text));
                proof {
                    assert(pair_views(results@) =~= pair_views(prev).push((tool_use_id@, tv)));
                }
            },
            _ => {},
        }
    }
    proof {
        assert(blocks@.take(n as int) =~= blocks@);
    }
    results
}

/// Append the messages for a user message's blocks.
fn push_user_messages(blocks: &Vec<ContentBlock>, out: &mut Vec<OllamaMessage>, tool_support: bool)
    ensures
        msgs_model(final(out)@) == msgs_model(old(out)@) + user_msgs(blocks@, tool_support),
{
    let results = collect_results(blocks);
    let texts = collect_texts(blocks);
    let ghost rs = tool_results_of(blocks@);
    let ghost start = msgs_model(out@);
    let n = results.len();
    for j in 0..n
        invariant
            n == results@.len(),
            pair_views(results@) == rs,
            msgs_model(out@) == start + rs.take(j as int).map_values(
                |r: (Seq<char>, Seq<char>)| result_msg(r, tool_support),
            ),
    {
        let ghost prev = out@;
        let (id, res) = (&results[j].0, &results[j].1);
        let m = if tool_support {
            let m = OllamaMessage {
                role: String::from_str("tool"),
                content: Some(OllamaContent::ToolResult { tool_call_id: id.clone(), content: res.clone() }),
                tool_calls: Vec::new(),
            };
            assert(msg_model(m).calls =~= Seq::<CallModel>::empty());
            m
        } else {
            let mut t = concat3("[tool result for ", id.as_str(), "]: ");
            t.append(res.as_str());
            text_message("user", t)
        };
        out.push(m);
        proof {
            assert(rs[j as int] == (id@, res@));
            assert(rs.take(j + 1) =~= rs.take(j as int).push(rs[j as int]));
            assert(msgs_model(out@) =~= msgs_model(prev).push(msg_model(m)));
            assert(rs.take(j + 1).map_values(|r: (Seq<char>, Seq<char>)| result_msg(r, tool_support)) =~= rs.take(
                j as int,
            ).map_values(|r: (Seq<char>, Seq<char>)| result_msg(r, tool_support)).push(result_msg(rs[j as int], tool_support)));
        }
    }
    proof {
        assert(rs.take(n as int) =~= rs);
    }
    if texts.len() > 0 {
        let ghost prev = out@;
        let joined = join_lines(&texts);
        let m = text_message("user", joined);
        out.push(m);
        proof {
            assert(msgs_model(out@) =~= msgs_model(prev).push(msg_model(m)));
        }
    }
}

/// The Ollama message for an assistant message's blocks.
fn assistant_message(blocks: &Vec<ContentBlock>) -> (m: OllamaMessage)
    ensures
        msg_model(m) == assistant_msg(blocks@),
{
    let mut text = String::new();
    let mut nonempty = false;
    let mut calls: Vec<OllamaToolCall> = Vec::new();
    let n = blocks.len();
    for i in 0..n
        invariant
            n == blocks@.len(),
            text@ == response_text(blocks@.take(i as int)),
            nonempty == (text@.len() > 0),
            calls@.map_values(|c: OllamaToolCall| call_model(c)) == calls_of(blocks@.take(i as int)),
    {
        proof {
            assert(blocks@.take(i + 1).drop_last() =~= blocks@.take(i as int));
        }
        let ghost prev = calls@;
        match &blocks[i] {
            ContentBlock::Text { text: t } => {
                if nonempty {
                    push_char(&mut text, '\n');
                }
                text.append(t.as_str());
                nonempty = nonempty || !t.as_str().is_empty();
            },
            ContentBlock::ToolUse { id, name, input } => {
                let c = OllamaToolCall { id: Some(id.clone()), name: name.clone(), arguments: copy_json(input) };
                calls.push(c);
                proof {
                    assert(calls@.map_values(|c: OllamaToolCall| call_model(c)) =~= prev.map_values(
                        |c: OllamaToolCall| call_model(c),
                    ).push(call_model(c)));
                }
            },
            _ => {},
        }
    }
    proof {
        assert(blocks@.take(n as int) =~= blocks@);
    }
    let content = if nonempty {
        Some(OllamaContent::Text(text))
    } else {
        None
    };
    OllamaMessage { role: String::from_str("assistant"), content, tool_calls: calls }
}

/// Append the Ollama messages for one protocol message.
pub fn push_messages_for_spp(m: &Message, out: &mut Vec<OllamaMessage>, tool_support: bool)
    ensures
        msgs_model(final(out)@) == msgs_model(old(out)@) + msgs_for(*m, tool_support),
{
    match m.role {
        Role::User => push_user_messages(&m.content, out, tool_support),
        Role::Assistant => {
            let ghost prev = out@;
            let a = assistant_message(&m.content);
            out.push(a);
            proof {
                assert(msgs_model(out@) =~= msgs_model(prev) + seq![msg_model(a)]);
            }
        },
    }
}

/// The generation options: the token cap and stop sequences, or `None`
/// when nothing differs from the defaults (no sampling parameter, a zero
/// cap and no stop sequence).
pub open spec fn options_spec(max_tokens: u32, stop: Seq<String>, has_sampling: bool) -> Option<(Option<u32>, Seq<String>)> {
    if !has_sampling && max_tokens == 0 && stop.len() == 0 {
        None
    } else {
        Some((Some(max_tokens), stop))
    }
}

/// An equal copy of a list of strings.
fn copy_strings(v: &Vec<String>) -> (r: Vec<String>)
    ensures
        r@ == v@,
{
    let mut r: Vec<String> = Vec::new();
    let n = v.len();
    for i in 0..n
        invariant
            n == v@.len(),
            r@ == v@.take(i as int),
    {
        r.push(v[i].clone());
        assert(v@.take(i + 1) =~= v@.take(i as int).push(v@[i as int]));
    }
    assert(v@.take(n as int) =~= v@);
    r
}

/// Translate a completion request into an Ollama `/api/chat` body. Tool
/// support is assumed exactly when the request offers tools; a system
/// prompt becomes the first message; `has_temperature` / `has_top_p` tell
/// whether sampling parameters travel beside the request.
pub fn request_to_ollama(req: &CompleteRequest, stream: bool, has_temperature: bool, has_top_p: bool) -> (r: ChatRequest)
    ensures
        r.model == req.model,
        r.stream == stream,
        msgs_model(r.messages@) == match req.system {
            Some(s) => seq![text_msg("system"@, s@)],
            None => Seq::<MsgModel>::empty(),
        } + all_msgs(req.messages@, req.tools@.len() > 0),
        r.tools@.len() == req.tools@.len(),
        forall|i: int| 0 <= i < req.tools@.len() ==> tool_matches(#[trigger] r.tools@[i], req.tools@[i]),
        match options_spec(req.max_tokens, req.stop_sequences@, has_temperature || has_top_p) {
            Some((np, stop)) => r.options matches Some(o) && o.num_predict == np && o.stop@ == stop,
            None => r.options is None,
        },
{
    let tool_support = req.tools.len() > 0;
    let mut messages: Vec<OllamaMessage> = Vec::new();
    match &req.system {
        Some(sys) => {
            let m = text_message("system", sys.clone());
            messages.push(m);
            assert(msgs_model(messages@) =~= seq![text_msg("system"@, sys@)]);
        },
        None => {
            assert(msgs_model(messages@) =~= Seq::<MsgModel>::empty());
        },
    }
    let ghost head = msgs_model(messages@);
    let n = req.messages.len();
    for i in 0..n
        invariant
            n == req.messages@.len(),
            tool_support == (req.tools@.len() > 0),
            msgs_model(messages@) == head + all_msgs(req.messages@.take(i as int), tool_support),
    {
        push_messages_for_spp(&req.messages[i], &mut messages, tool_support);
        proof {
            assert(req.messages@.take(i + 1).drop_last() =~= req.messages@.take(i as int));
            assert(msgs_model(messages@) =~= head + all_msgs(req.messages@.take(i + 1), tool_support));
        }
    }
    proof {
        assert(req.messages@.take(n as int) =~= req.messages@);
    }
    let mut tools: Vec<OllamaTool> = Vec::new();
    let k = req.tools.len();
    for i in 0..k
        invariant
            k == req.tools@.len(),
            tools@.len() == i,
            forall|j: int| 0 <= j < i ==> tool_matches(#[trigger] tools@[j], req.tools@[j]),
    {
        let d = &req.tools[i];
        tools.push(OllamaTool {
            kind: String::from_str("function"),
            name: d.name.clone(),
            description: d.description.clone(),
            parameters: copy_json(&d.input_schema),
        });
    }
    let options = if !(has_temperature || has_top_p) && req.max_tokens == 0 && req.stop_sequences.len() == 0 {
        None
    } else {
        Some(OptionsPlan { num_predict: Some(req.max_tokens), stop: copy_strings(&req.stop_sequences) })
    };
    ChatRequest { model: req.model.clone(), messages, stream, tools, options }
}

// ---------------------------------------------------------------------------
// Responses
// ---------------------------------------------------------------------------
/// The concatenated `text` strings of content parts.
pub open spec fn parts_text(parts: Seq<Option<String>>) -> Seq<char>
    decreases parts.len(),
{
    if parts.len() == 0 {
        Seq::empty()
    } else {
        parts_text(parts.drop_last()) + match parts.last() {
            Some(t) => t@,
            None => Seq::empty(),
        }
    }
}

/// The text of a response message's content: a string as is; the parts'
/// texts concatenated (none when that is empty); nothing for `null` or a
/// missing field; any other value as its JSON text.
pub open spec fn message_text_spec(c: ResponseContent) -> Option<Seq<char>> {
    match c {
        ResponseContent::Text(s) => Some(s@),
        ResponseContent::Parts(ps) => if parts_text(ps@).len() == 0 {
            None
        } else {
            Some(parts_text(ps@))
        },
        ResponseContent::Null => None,
        ResponseContent::Missing => None,
        ResponseContent::Other(json) => Some(json@),
    }
}

/// Extract the text of a response message's content.
pub fn message_text(c: &ResponseContent) -> (r: Option<String>)
    ensures
        match r {
            Some(s) => message_text_spec(*c) == Some(s@),
            None => message_text_spec(*c) is None,
        },
{
    match c {
        ResponseContent::Text(s) => Some(s.clone()),
        ResponseContent::Parts(ps) => {
            let mut out = String::new();
            let mut nonempty = false;
            let n = ps.len();
            for i in 0..n
                invariant
                    n == ps@.len(),
                    out@ == parts_text(ps@.take(i as int)),
                    nonempty == (out@.len() > 0),
            {
                proof {
                    assert(ps@.take(i + 1).drop_last() =~= ps@.take(i as int));
                }
                match &ps[i] {
                    Some(t) => {
                        out.append(t.as_str());
                        nonempty = nonempty || !t.as_str().is_empty();
                    },
                    None => {
                        assert(out@ =~= out@ + Seq::<char>::empty());
                    },
                }
            }
            proof {
                assert(ps@.take(n as int) =~= ps@);
            }
            if nonempty {
                Some(out)
            } else {
                None
            }
        },
        ResponseContent::Null => None,
        ResponseContent::Missing => None,
        ResponseContent::Other(json) => Some(json.clone()),
    }
}

/// The stop reason named by Ollama's `done_reason`.
pub open spec fn stop_reason_of(reason: Option<Seq<char>>) -> StopReason {
    match reason {
        Some(r) => if r == "length"@ {
            StopReason::MaxTokens
        } else if r == "tool_calls"@ {
            StopReason::ToolUse
        } else {
            StopReason::EndTurn
        },
        None => StopReason::EndTurn,
    }
}

/// Map Ollama's `done_reason` to a stop reason.
pub fn stop_reason_from_ollama(reason: Option<&str>) -> (r: StopReason)
    ensures
        r == stop_reason_of(match reason {
            Some(s) => Some(s@),
            None => None,
        }),
{
    match reason {
        Some(s) => {
            let cs = chars_of(s);
            let len = chars_of("length");
            let tc = chars_of("tool_calls");
            if seq_eq(cs.as_slice(), len.as_slice()) {
                StopReason::MaxTokens
            } else if seq_eq(cs.as_slice(), tc.as_slice()) {
                StopReason::ToolUse
            } else {
                StopReason::EndTurn
            }
        },
        None => StopReason::EndTurn,
    }
}

/// The id given to the `idx`-th tool call of a response that carries none.
pub open spec fn fallback_call_id(name: Seq<char>, idx: nat) -> Seq<char> {
    "ollama-"@ + name + "-"@ + decimal(idx)
}

/// `c` is the content block for tool call `tc`, the `idx`-th of its
/// message.
pub open spec fn call_block(c: ContentBlock, tc: OllamaToolCall, idx: nat) -> bool {
    c matches ContentBlock::ToolUse { id, name, input } && id@ == match tc.id {
        Some(i) => i@,
        None => fallback_call_id(tc.name@, idx),
    } && name == tc.name && json_view(input) == json_view(tc.arguments)
}

/// `blocks` are the content of a response message: its non-empty text
/// first, then one tool-use block per tool call.
pub open spec fn response_blocks(m: ResponseMessage, blocks: Seq<ContentBlock>) -> bool {
    let head = match message_text_spec(m.content) {
        Some(t) => if t.len() > 0 { 1int } else { 0int },
        None => 0int,
    };
    &&& blocks.len() == head + m.tool_calls@.len()
    &&& head == 1 ==> blocks[0] == (ContentBlock::Text { text: blocks[0]->Text_text }) && blocks[0]->Text_text@ == message_text_spec(m.content)->0
    &&& forall|i: int| 0 <= i < m.tool_calls@.len() ==> call_block(#[trigger] blocks[head + i], m.tool_calls@[i], i as nat)
}

/// The content blocks of a response message.
pub fn message_content_to_spp(m: &ResponseMessage) -> (r: Vec<ContentBlock>)
    ensures
        response_blocks(*m, r@),
{
    let mut blocks: Vec<ContentBlock> = Vec::new();
    match message_text(&m.content) {
        Some(text) => {
            if !text.as_str().is_empty() {
                blocks.push(ContentBlock::Text { text });
            }
        },
        None => {},
    }
    let ghost head = blocks@.len() as int;
    let n = m.tool_calls.len();
    for idx in 0..n
        invariant
            n == m.tool_calls@.len(),
            blocks@.len() == head + idx,
            head == match message_text_spec(m.content) {
                Some(t) => if t.len() > 0 { 1int } else { 0int },
                None => 0int,
            },
            head == 1 ==> blocks@[0] == (ContentBlock::Text { text: blocks@[0]->Text_text }) && blocks@[0]->Text_text@ == message_text_spec(m.content)->0,
            forall|i: int| 0 <= i < idx ==> call_block(#[trigger] blocks@[head + i], m.tool_calls@[i], i as nat),
    {
        let tc = &m.tool_calls[idx];
        let id = match &tc.id {
            Some(i) => i.clone(),
            None => {
                let mut s = concat3("ollama-", tc.name.as_str(), "-");
                let d = decimal_string(idx as u64);
                s.append(d.as_str());
                s
            },
        };
        blocks.push(ContentBlock::ToolUse { id, name: tc.name.clone(), input: copy_json(&tc.arguments) });
    }
    blocks
}

/// Translate a final Ollama response. Its id is `ollama-` followed by
/// `id_suffix` (the caller makes it unique, from the clock and a counter).
pub fn response_from_ollama(r: ChatResponse, id_suffix: &str) -> (out: CompleteResponse)
    ensures
        out.id@ == "ollama-"@ + id_suffix@,
        out.model@ == match r.model {
            Some(m) => m@,
            None => Seq::<char>::empty(),
        },
        out.usage == (Usage {
            input_tokens: match r.prompt_eval_count {
                Some(n) => n,
                None => 0,
            },
            output_tokens: match r.eval_count {
                Some(n) => n,
                None => 0,
            },
            cache_creation_input_tokens: None,
            cache_read_input_tokens: None,
        }),
        out.stop_reason == stop_reason_of(match r.done_reason {
            Some(s) => Some(s@),
            None => None,
        }),
        out.stop_sequence is None,
        match r.message {
            Some(m) => response_blocks(m, out.content@),
            None => out.content@.len() == 0,
        },
{
    let model = match r.model {
        Some(m) => m,
        None => String::new(),
    };
    let usage = Usage {
        input_tokens: match r.prompt_eval_count {
            Some(n) => n,
            None => 0,
        },
        output_tokens: match r.eval_count {
            Some(n) => n,
            None => 0,
        },
        cache_creation_input_tokens: None,
        cache_read_input_tokens: None,
    };
    let stop_reason = match &r.done_reason {
        Some(s) => stop_reason_from_ollama(Some(s.as_str())),
        None => stop_reason_from_ollama(None),
    };
    let content = match &r.message {
        Some(m) => message_content_to_spp(m),
        None => Vec::new(),
    };
    let id = concat2("ollama-", id_suffix);
    CompleteResponse { id, model, content, stop_reason, stop_sequence: None, usage }
}

} // verus!
