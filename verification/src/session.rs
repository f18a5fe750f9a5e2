//! The single decisions of a conversation turn: whether another iteration
//! may start, what a response asks for, how a permission verdict gates a
//! tool call, what is recorded for each call, and whether a saved
//! transcript can be loaded. The loop that strings them together is the
//! state machine in `turn`.
use vstd::prelude::*;

use crate::json::{JsonValue, JsonView, json_parse, json_view, lemma_json_view, member_value, parse_json};
use crate::permissions::{PermissionDecision, Verdict};
use crate::protocol::{BlockDelta, ContentBlock, Message, ProviderError, StopReason, StreamEvent};
use crate::text::push_char;
use crate::tools::ToolCallOutcome;

verus! {

/// The transcript format version this build reads and writes.
pub const TRANSCRIPT_SCHEMA_VERSION: u32 = 1;

/// Errors produced by transcript load / save operations.
#[derive(Debug, Clone, PartialEq, Eq)]
pub enum TranscriptError {
    /// The file could not be read; the I/O error's message.
    Io(String),
    /// JSON was malformed or didn't match the expected shape.
    Malformed(String),
    /// The on-disk schema version differs from the version this build
    /// expects.
    SchemaMismatch {
        /// Version found in the file.
        found: u32,
        /// Version this build expects.
        expected: u32,
    },
}

/// Top-level error surfaced from host operations.
#[derive(Debug, Clone, PartialEq, Eq)]
pub enum HostError {
    /// Connecting to a provider or tool server failed at startup.
    Startup(String),
    /// The provider returned an error.
    Provider(ProviderError),
    /// The tool-use loop ran past the iteration cap.
    LoopLimit(u32),
    /// The provider's response cannot be acted on.
    MalformedResponse(String),
}

/// Status of one tool call inside a turn.
#[derive(Debug, Clone, Copy, PartialEq, Eq, Structural)]
pub enum ToolCallStatus {
    /// The tool returned successfully.
    Succeeded,
    /// The tool reported an error, the transport failed, or the call was
    /// refused.
    Errored,
}

/// The decimal digits of `n`.
pub open spec fn decimal(n: nat) -> Seq<char>
    decreases n,
{
    if n < 10 {
        seq![digit_char(n)]
    } else {
        decimal(n / 10).push(digit_char(n % 10))
    }
}

/// The character of a digit.
pub open spec fn digit_char(d: nat) -> char {
    ((48 + d) as u8) as char
}

/// `n` in decimal.
pub fn decimal_string(n: u64) -> (r: String)
    ensures
        r@ == decimal(n as nat),
    decreases n,
{
    let d = (n % 10) as u8;
    let c = (48u8 + d) as char;
    if n < 10 {
        let mut s = String::new();
        push_char(&mut s, c);
        s
    } else {
        let mut s = decimal_string(n / 10);
        push_char(&mut s, c);
        s
    }
}

/// Start the next iteration after `iterations` completed ones, unless the
/// cap is reached.
pub fn next_iteration(iterations: u32, max_iterations: u32) -> (r: Result<u32, HostError>)
    ensures
        iterations >= max_iterations ==> r == Err::<u32, HostError>(HostError::LoopLimit(max_iterations)),
        iterations < max_iterations ==> r == Ok::<u32, HostError>((iterations + 1) as u32),
{
    if iterations >= max_iterations {
        Err(HostError::LoopLimit(max_iterations))
    } else {
        Ok(iterations + 1)
    }
}

/// The assistant text of a response: its text blocks joined by newlines, a
/// newline being written only after something was written.
pub open spec fn response_text(blocks: Seq<ContentBlock>) -> Seq<char>
    decreases blocks.len(),
{
    if blocks.len() == 0 {
        Seq::empty()
    } else {
        let acc = response_text(blocks.drop_last());
        match blocks.last() {
            ContentBlock::Text { text } => if acc.len() == 0 {
                text@
            } else {
                acc.push('\n') + text@
            },
            _ => acc,
        }
    }
}

/// Indices of the tool-use blocks of a response, in order.
pub open spec fn tool_use_indices(blocks: Seq<ContentBlock>) -> Seq<usize>
    decreases blocks.len(),
{
    if blocks.len() == 0 {
        Seq::empty()
    } else {
        let acc = tool_use_indices(blocks.drop_last());
        if blocks.last() is ToolUse {
            acc.push((blocks.len() - 1) as usize)
        } else {
            acc
        }
    }
}

/// What a response holds for the turn loop.
#[derive(Debug, Clone, PartialEq, Eq)]
pub struct ResponseSummary {
    /// The assistant text.
    pub text: String,
    /// Indices of the tool-use blocks.
    pub tool_uses: Vec<usize>,
}

/// Read a response's text and tool-use blocks.
pub fn summarize_response(content: &[ContentBlock]) -> (r: ResponseSummary)
    ensures
        r.text@ == response_text(content@),
        r.tool_uses@ == tool_use_indices(content@),
{
    let mut text = String::new();
    let mut nonempty = false;
    let mut tool_uses: Vec<usize> = Vec::new();
    let n = content.len();
    for i in 0..n
        invariant
            n == content@.len(),
            text@ == response_text(content@.take(i as int)),
            nonempty == (text@.len() > 0),
            tool_uses@ == tool_use_indices(content@.take(i as int)),
    {
        proof {
            assert(content@.take(i + 1).drop_last() =~= content@.take(i as int));
        }
        match &content[i] {
            ContentBlock::Text { text: t } => {
                if nonempty {
                    push_char(&mut text, '\n');
                }
                text.append(t.as_str());
                nonempty = nonempty || !t.as_str().is_empty();
            },
            ContentBlock::ToolUse { .. } => {
                tool_uses.push(i);
            },
            _ => {},
        }
    }
    proof {
        assert(content@.take(n as int) =~= content@);
    }
    ResponseSummary { text, tool_uses }
}

/// What the loop does after a response.
#[derive(Debug, Clone, Copy, PartialEq, Eq, Structural)]
pub enum AfterResponse {
    /// The turn is complete.
    Finish,
    /// Run the requested tools, then call the provider again.
    RunTools,
}

/// The message for a response that ends the turn while asking for tools.
pub open spec fn end_turn_with_tools_message(count: nat) -> Seq<char> {
    "stop_reason=end_turn but "@ + decimal(count) + " tool_use block(s) present"@
}

/// Decide what follows a response with `tool_use_count` tool-use blocks:
/// no tool use finishes the turn; tool uses alongside an end-of-turn stop
/// reason are malformed; otherwise the tools run.
pub fn after_response(tool_use_count: usize, stop_reason: StopReason) -> (r: Result<AfterResponse, HostError>)
    ensures
        tool_use_count == 0 ==> r == Ok::<AfterResponse, HostError>(AfterResponse::Finish),
        tool_use_count > 0 && stop_reason == StopReason::EndTurn ==> (r matches Err(HostError::MalformedResponse(m))
            && m@ == end_turn_with_tools_message(tool_use_count as nat)),
        tool_use_count > 0 && stop_reason != StopReason::EndTurn ==> r == Ok::<AfterResponse, HostError>(AfterResponse::RunTools),
{
    if tool_use_count == 0 {
        Ok(AfterResponse::Finish)
    } else if stop_reason == StopReason::EndTurn {
        let mut m = String::from_str("stop_reason=end_turn but ");
        let d = decimal_string(tool_use_count as u64);
        m.append(d.as_str());
        m.append(" tool_use block(s) present");
        Err(HostError::MalformedResponse(m))
    } else {
        Ok(AfterResponse::RunTools)
    }
}

/// The first step of gating a tool call on the policy's verdict.
#[derive(Debug, Clone, PartialEq, Eq)]
pub enum GateStep {
    /// Run the tool.
    Proceed,
    /// Refuse the call with this reason.
    Refuse(String),
    /// Ask the user, showing this summary.
    AskUser(String),
}

/// Gate a call on `verdict`. With no interactive surface an `Ask` is
/// refused rather than left waiting.
pub fn gate_on_verdict(verdict: Verdict, interactive: bool) -> (g: GateStep)
    ensures
        match verdict {
            Verdict::Allow => g == GateStep::Proceed,
            Verdict::Deny { reason } => g == GateStep::Refuse(reason),
            Verdict::Ask { summary } => if interactive {
                g == GateStep::AskUser(summary)
            } else {
                g matches GateStep::Refuse(r) && r@ == "non-interactive turn"@
            },
        },
{
    match verdict {
        Verdict::Allow => GateStep::Proceed,
        Verdict::Deny { reason } => GateStep::Refuse(reason),
        Verdict::Ask { summary } => if interactive {
            GateStep::AskUser(summary)
        } else {
            GateStep::Refuse(String::from_str("non-interactive turn"))
        },
    }
}

/// How a permission prompt ended.
#[derive(Debug, Clone, Copy, PartialEq, Eq)]
pub enum PromptOutcome {
    /// The user decided.
    Answered(PermissionDecision),
    /// The prompt could not be sent.
    SendFailed,
    /// The answer channel closed without an answer.
    Dropped,
}

/// Gate a call on how the permission prompt ended: proceed on Allow,
/// otherwise refuse with the reason.
pub fn gate_on_prompt(outcome: PromptOutcome) -> (r: Result<(), String>)
    ensures
        match outcome {
            PromptOutcome::Answered(PermissionDecision::Allow) => r is Ok,
            PromptOutcome::Answered(PermissionDecision::Deny) => r matches Err(m) && m@ == "denied by user"@,
            PromptOutcome::SendFailed => r matches Err(m) && m@
                == "event channel closed before permission could be requested"@,
            PromptOutcome::Dropped => r matches Err(m) && m@ == "permission channel dropped"@,
        },
{
    match outcome {
        PromptOutcome::Answered(PermissionDecision::Allow) => Ok(()),
        PromptOutcome::Answered(PermissionDecision::Deny) => Err(String::from_str("denied by user")),
        PromptOutcome::SendFailed => Err(
            String::from_str("event channel closed before permission could be requested"),
        ),
        PromptOutcome::Dropped => Err(String::from_str("permission channel dropped")),
    }
}

/// How the shell tool's network access is decided.
#[derive(Debug, Clone, Copy, PartialEq, Eq, Structural)]
pub enum BashNetworkPolicy {
    /// Always granted.
    Always,
    /// Never granted.
    Never,
    /// Asked once, then remembered.
    Ask,
}

/// Where resolving the shell's network access stands.
#[derive(Debug, Clone, Copy, PartialEq, Eq, Structural)]
pub enum BashNetworkStep {
    /// Decided: grant or not.
    Decided(bool),
    /// The user must be asked.
    Prompt,
}

/// Resolve the shell's network access from the policy, the remembered
/// answer and whether anyone can be asked: with no one to ask, an open
/// question is denied rather than left waiting.
pub fn bash_network_step(policy: BashNetworkPolicy, cached: Option<bool>, interactive: bool) -> (r:
    BashNetworkStep)
    ensures
        r == match policy {
            BashNetworkPolicy::Always => BashNetworkStep::Decided(true),
            BashNetworkPolicy::Never => BashNetworkStep::Decided(false),
            BashNetworkPolicy::Ask => match cached {
                Some(c) => BashNetworkStep::Decided(c),
                None => if interactive {
                    BashNetworkStep::Prompt
                } else {
                    BashNetworkStep::Decided(false)
                },
            },
        },
{
    match policy {
        BashNetworkPolicy::Always => BashNetworkStep::Decided(true),
        BashNetworkPolicy::Never => BashNetworkStep::Decided(false),
        BashNetworkPolicy::Ask => match cached {
            Some(c) => BashNetworkStep::Decided(c),
            None => if interactive {
                BashNetworkStep::Prompt
            } else {
                BashNetworkStep::Decided(false)
            },
        },
    }
}

/// The text a stream event carries to the caller: only text deltas are
/// forwarded.
pub fn text_delta_of(ev: StreamEvent) -> (r: Option<String>)
    ensures
        match ev {
            StreamEvent::ContentBlockDelta { delta: BlockDelta::TextDelta { text }, .. } => r == Some(text),
            _ => r is None,
        },
{
    match ev {
        StreamEvent::ContentBlockDelta { delta: BlockDelta::TextDelta { text }, .. } => Some(text),
        _ => None,
    }
}

/// What is recorded for one tool call: its status, the payload returned to
/// the model, and the result block's error flag.
#[derive(Debug, Clone, PartialEq, Eq)]
pub struct SettledCall {
    /// Status for the turn trace.
    pub status: ToolCallStatus,
    /// Payload returned to the model.
    pub payload: String,
    /// Error flag of the `tool_result` block.
    pub is_error: bool,
}

/// Settle a run call from its outcome: errored exactly when the outcome is
/// an error.
pub fn settle_ran(outcome: ToolCallOutcome) -> (s: SettledCall)
    ensures
        s.is_error == outcome.is_error,
        s.status == (if outcome.is_error { ToolCallStatus::Errored } else { ToolCallStatus::Succeeded }),
        s.payload == outcome.payload,
{
    let status = if outcome.is_error {
        ToolCallStatus::Errored
    } else {
        ToolCallStatus::Succeeded
    };
    SettledCall { status, payload: outcome.payload, is_error: outcome.is_error }
}

/// Settle a refused call: always errored, with the refusal reason.
pub fn settle_refused(reason: &str) -> (s: SettledCall)
    ensures
        s.is_error,
        s.status == ToolCallStatus::Errored,
        s.payload@ == "denied by policy: "@ + reason@,
{
    let mut p = String::from_str("denied by policy: ");
    p.append(reason);
    SettledCall { status: ToolCallStatus::Errored, payload: p, is_error: true }
}

/// Check a versioned transcript's schema version.
pub fn check_schema_version(found: u32) -> (r: Result<(), TranscriptError>)
    ensures
        found == TRANSCRIPT_SCHEMA_VERSION ==> r is Ok,
        found != TRANSCRIPT_SCHEMA_VERSION ==> r == Err::<(), TranscriptError>(
            TranscriptError::SchemaMismatch { found, expected: TRANSCRIPT_SCHEMA_VERSION },
        ),
{
    if found == TRANSCRIPT_SCHEMA_VERSION {
        Ok(())
    } else {
        Err(TranscriptError::SchemaMismatch { found, expected: TRANSCRIPT_SCHEMA_VERSION })
    }
}

/// The shape of a transcript file's JSON root.
#[derive(Debug, Clone, Copy, PartialEq, Eq, Structural)]
pub enum TranscriptRoot {
    /// An object with a `schema_version` field.
    Versioned,
    /// A bare array of messages (older files).
    LegacyArray,
    /// Anything else.
    Other,
}

/// Reject a root that is neither a versioned object nor a legacy array.
pub fn check_transcript_root(root: TranscriptRoot) -> (r: Result<(), TranscriptError>)
    ensures
        root != TranscriptRoot::Other ==> r is Ok,
        root == TranscriptRoot::Other ==> (r matches Err(TranscriptError::Malformed(m)) && m@
            == "expected a JSON object or array at the root"@),
{
    match root {
        TranscriptRoot::Other => Err(
            TranscriptError::Malformed(String::from_str("expected a JSON object or array at the root")),
        ),
        _ => Ok(()),
    }
}

/// The shape of a transcript's parsed root: an object with a
/// `schema_version` member, a bare array (older files), or anything else.
pub open spec fn transcript_root_of(v: JsonView) -> TranscriptRoot {
    match v {
        JsonView::Object(m) => if member_value(m, "schema_version"@) is Some {
            TranscriptRoot::Versioned
        } else {
            TranscriptRoot::Other
        },
        JsonView::Array(_) => TranscriptRoot::LegacyArray,
        _ => TranscriptRoot::Other,
    }
}

/// Parse a transcript file's text and tell the shape of its root; text
/// that is not JSON is malformed, with the parser's message.
pub fn transcript_root(text: &str) -> (r: Result<TranscriptRoot, TranscriptError>)
    ensures
        match json_parse(text@) {
            Ok(v) => r == Ok::<TranscriptRoot, TranscriptError>(transcript_root_of(v)),
            Err(e) => r matches Err(TranscriptError::Malformed(m)) && m@ == e,
        },
{
    match parse_json(text) {
        Ok(v) => {
            proof {
                lemma_json_view(v);
            }
            let root = match &v {
                JsonValue::Object(_) => if v.get("schema_version").is_some() {
                    TranscriptRoot::Versioned
                } else {
                    TranscriptRoot::Other
                },
                JsonValue::Array(_) => TranscriptRoot::LegacyArray,
                _ => TranscriptRoot::Other,
            };
            Ok(root)
        },
        Err(e) => Err(TranscriptError::Malformed(e)),
    }
}

/// A saved conversation: the format version, the model it was held with,
/// when it was saved (Unix seconds) and its messages in order.
#[derive(Debug)]
pub struct TranscriptFile {
    /// Format version.
    pub schema_version: u32,
    /// Model identifier recorded at save time.
    pub model: String,
    /// Unix timestamp, in seconds, of the save.
    pub saved_at: u64,
    /// Messages in chronological order.
    pub messages: Vec<Message>,
}

impl TranscriptFile {
    /// A record in the current format.
    pub fn current(model: String, saved_at: u64, messages: Vec<Message>) -> (t: TranscriptFile)
        ensures
            t.schema_version == TRANSCRIPT_SCHEMA_VERSION,
            t.model == model,
            t.saved_at == saved_at,
            t.messages == messages,
    {
        TranscriptFile { schema_version: TRANSCRIPT_SCHEMA_VERSION, model, saved_at, messages }
    }

    /// The record for an older file, a bare array of messages: read as the
    /// current format, with the configured model and no save time.
    pub fn legacy(model: String, messages: Vec<Message>) -> (t: TranscriptFile)
        ensures
            t.schema_version == TRANSCRIPT_SCHEMA_VERSION,
            t.model == model,
            t.saved_at == 0,
            t.messages == messages,
    {
        TranscriptFile { schema_version: TRANSCRIPT_SCHEMA_VERSION, model, saved_at: 0, messages }
    }
}

} // verus!
