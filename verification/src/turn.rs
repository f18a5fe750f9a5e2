//! The tool-use loop of a conversation turn, as a state machine.
//!
//! The embedder performs each action (a provider round-trip, the gating of
//! a tool call, running a tool) and hands back what came of it; this module
//! decides the next step. A turn adds the user's message, then per
//! iteration the assistant's response and, when it asks for tools, one user
//! message holding a result for every requested call, in order; a call the
//! gate refused is answered with an error result. The turn's messages are
//! kept apart from the committed history and are appended to it only when
//! the turn completes, so a failed turn leaves the conversation as it was.
use vstd::prelude::*;

use crate::json::{JsonValue, JsonView, copy_json, json_view};
use crate::protocol::{BlockView, CompleteResponse, ContentBlock, Message, ProviderError, Role, StopReason,
    block_view, blocks_view};
use crate::session::{AfterResponse, HostError, ToolCallStatus, after_response, end_turn_with_tools_message,
    next_iteration, response_text, settle_ran, settle_refused, summarize_response};
use crate::tools::ToolCallOutcome;

verus! {

// ---------------------------------------------------------------------------
// Models
// ---------------------------------------------------------------------------
/// A content block seen abstractly; a tool result is seen together with
/// its nested blocks.
pub enum BlockModel {
    /// Any block but a tool result.
    Plain(BlockView),
    /// A tool result: call id, nested blocks, error flag.
    Result(Seq<char>, Seq<BlockView>, bool),
}

/// The model of a content block.
pub open spec fn block_model(b: ContentBlock) -> BlockModel {
    match b {
        ContentBlock::ToolResult { tool_use_id, content, is_error } => BlockModel::Result(
            tool_use_id@,
            blocks_view(content@),
            is_error,
        ),
        _ => BlockModel::Plain(block_view(b)),
    }
}

/// The models of a list of content blocks.
pub open spec fn blocks_model(s: Seq<ContentBlock>) -> Seq<BlockModel> {
    s.map_values(|b: ContentBlock| block_model(b))
}

/// A message seen abstractly: its role and its blocks.
pub type MessageModel = (Role, Seq<BlockModel>);

/// The model of a message.
pub open spec fn message_model(m: Message) -> MessageModel {
    (m.role, blocks_model(m.content@))
}

/// The models of a list of messages.
pub open spec fn messages_model(s: Seq<Message>) -> Seq<MessageModel> {
    s.map_values(|m: Message| message_model(m))
}

/// A tool call a response asks for: call id, tool name, arguments.
pub type UseModel = (Seq<char>, Seq<char>, JsonView);

/// The tool calls a response asks for, in order.
pub open spec fn tool_uses_of(blocks: Seq<ContentBlock>) -> Seq<UseModel>
    decreases blocks.len(),
{
    if blocks.len() == 0 {
        Seq::empty()
    } else {
        let acc = tool_uses_of(blocks.drop_last());
        match blocks.last() {
            ContentBlock::ToolUse { id, name, input } => acc.push((id@, name@, json_view(input))),
            _ => acc,
        }
    }
}

/// The models of a list of requested calls.
pub open spec fn uses_model(s: Seq<(String, String, JsonValue)>) -> Seq<UseModel> {
    s.map_values(|u: (String, String, JsonValue)| (u.0@, u.1@, json_view(u.2)))
}

/// Trace of one tool call performed during a turn.
#[derive(Debug)]
pub struct ToolCall {
    /// Tool name.
    pub name: String,
    /// Arguments the model produced.
    pub arguments: JsonValue,
    /// Final status.
    pub status: ToolCallStatus,
    /// Payload returned to the model.
    pub result: String,
}

/// A traced call seen abstractly: name, arguments, status, payload.
pub type CallModel = (Seq<char>, JsonView, ToolCallStatus, Seq<char>);

/// The model of a traced call.
pub open spec fn call_model(c: ToolCall) -> CallModel {
    (c.name@, json_view(c.arguments), c.status, c.result@)
}

/// The models of a list of traced calls.
pub open spec fn calls_model(s: Seq<ToolCall>) -> Seq<CallModel> {
    s.map_values(|c: ToolCall| call_model(c))
}

/// Result of a completed turn.
#[derive(Debug)]
pub struct TurnOutcome {
    /// The assistant text of the final response.
    pub text: String,
    /// Tool calls executed during the turn, in order.
    pub tool_calls: Vec<ToolCall>,
    /// Provider round-trips the turn took, the final one included.
    pub iterations: u32,
}

// ---------------------------------------------------------------------------
// The machine's interface
// ---------------------------------------------------------------------------
/// Where a turn stands.
#[derive(Debug, Clone, Copy, PartialEq, Eq, Structural)]
pub enum TurnPhase {
    /// No turn is running.
    Idle,
    /// The provider was asked and its answer is awaited.
    AwaitingResponse,
    /// The current tool call is being gated.
    Gating,
    /// The current tool call is running.
    Running,
}

/// What the embedder hands back to the machine.
#[derive(Debug)]
pub enum TurnInput {
    /// Start a turn with the user's text.
    Start(String),
    /// The provider's answer.
    Response(Result<CompleteResponse, ProviderError>),
    /// What the permission check decided for the current call: run it,
    /// or refuse it for this reason.
    Gated(Result<(), String>),
    /// What running the current call gave.
    ToolFinished(ToolCallOutcome),
}

/// What the machine asks the embedder to do next.
#[derive(Debug)]
pub enum TurnAction {
    /// Ask the provider, with the history and the turn's messages; this is
    /// the given iteration (1-based).
    CallProvider {
        /// The iteration.
        iteration: u32,
    },
    /// Gate this call (policy, then the user where the policy asks).
    Gate {
        /// Tool name.
        name: String,
        /// Arguments.
        arguments: JsonValue,
    },
    /// Run this call.
    RunTool {
        /// Tool name.
        name: String,
        /// Arguments.
        arguments: JsonValue,
    },
    /// The turn is complete and committed.
    Finish(TurnOutcome),
    /// The turn failed; the history is as before the turn.
    Fail(HostError),
}

/// A failure seen abstractly.
pub enum FailView {
    /// Startup failure with its message.
    Startup(Seq<char>),
    /// A provider error.
    Provider(ProviderError),
    /// The iteration cap.
    LoopLimit(u32),
    /// A response that cannot be acted on, with its message.
    Malformed(Seq<char>),
}

/// An action seen abstractly.
pub enum ActionView {
    /// Ask the provider for this iteration.
    CallProvider(u32),
    /// Gate a call: name, arguments.
    Gate(Seq<char>, JsonView),
    /// Run a call: name, arguments.
    RunTool(Seq<char>, JsonView),
    /// Finish: text, traced calls, iterations.
    Finish(Seq<char>, Seq<CallModel>, u32),
    /// Fail.
    Fail(FailView),
}

/// The view of an action.
pub open spec fn action_view(a: TurnAction) -> ActionView {
    match a {
        TurnAction::CallProvider { iteration } => ActionView::CallProvider(iteration),
        TurnAction::Gate { name, arguments } => ActionView::Gate(name@, json_view(arguments)),
        TurnAction::RunTool { name, arguments } => ActionView::RunTool(name@, json_view(arguments)),
        TurnAction::Finish(o) => ActionView::Finish(o.text@, calls_model(o.tool_calls@), o.iterations),
        TurnAction::Fail(e) => ActionView::Fail(
            match e {
                HostError::Startup(m) => FailView::Startup(m@),
                HostError::Provider(p) => FailView::Provider(p),
                HostError::LoopLimit(n) => FailView::LoopLimit(n),
                HostError::MalformedResponse(m) => FailView::Malformed(m@),
            },
        ),
    }
}

// ---------------------------------------------------------------------------
// The machine, abstractly
// ---------------------------------------------------------------------------
/// The turn machine seen abstractly.
pub struct TurnView {
    /// Where the turn stands.
    pub phase: TurnPhase,
    /// The committed conversation.
    pub history: Seq<MessageModel>,
    /// The messages this turn has added so far.
    pub turn: Seq<MessageModel>,
    /// Iterations started this turn.
    pub iterations: u32,
    /// The iteration cap.
    pub max_iterations: u32,
    /// The calls the last response asked for.
    pub pending: Seq<UseModel>,
    /// The index of the call being settled.
    pub next: int,
    /// Results of the calls settled so far.
    pub results: Seq<BlockModel>,
    /// Trace of the calls settled this turn.
    pub calls: Seq<CallModel>,
}

/// A result block answers the call with id `id`.
pub open spec fn answers(b: BlockModel, id: Seq<char>) -> bool {
    b matches BlockModel::Result(x, _, _) && x == id
}

/// The machine's invariant: the current call exists while gating or
/// running, the iteration count is within the cap, and the results so far
/// answer the calls before the current one, in order.
pub open spec fn view_ok(v: TurnView) -> bool {
    &&& 0 <= v.next <= v.pending.len()
    &&& (v.phase == TurnPhase::Gating || v.phase == TurnPhase::Running) ==> v.next < v.pending.len()
    &&& v.iterations <= v.max_iterations
    &&& v.results.len() == v.next
    &&& forall|i: int| 0 <= i < v.next ==> answers(#[trigger] v.results[i], v.pending[i].0)
}

/// The input the machine expects in its phase.
pub open spec fn accepts(v: TurnView, input: TurnInput) -> bool {
    match input {
        TurnInput::Start(_) => v.phase == TurnPhase::Idle,
        TurnInput::Response(_) => v.phase == TurnPhase::AwaitingResponse,
        TurnInput::Gated(_) => v.phase == TurnPhase::Gating,
        TurnInput::ToolFinished(_) => v.phase == TurnPhase::Running,
    }
}

/// Back to idle: the turn's messages and bookkeeping are dropped, the
/// history is kept.
pub open spec fn settle(v: TurnView) -> TurnView {
    TurnView {
        phase: TurnPhase::Idle,
        turn: Seq::empty(),
        pending: Seq::empty(),
        next: 0,
        results: Seq::empty(),
        calls: Seq::empty(),
        ..v
    }
}

/// Start the next iteration, unless the cap is reached.
pub open spec fn begin_iteration(v: TurnView) -> (TurnView, ActionView) {
    if v.iterations >= v.max_iterations {
        (settle(v), ActionView::Fail(FailView::LoopLimit(v.max_iterations)))
    } else {
        let i = (v.iterations + 1) as u32;
        (TurnView { phase: TurnPhase::AwaitingResponse, iterations: i, ..v }, ActionView::CallProvider(i))
    }
}

/// Gate the current call.
pub open spec fn ask_gate(v: TurnView) -> (TurnView, ActionView) {
    (TurnView { phase: TurnPhase::Gating, ..v }, ActionView::Gate(v.pending[v.next].1, v.pending[v.next].2))
}

/// Gate the next call, or, once every call is settled, add the results as
/// one user message and start the next iteration.
pub open spec fn advance(v: TurnView) -> (TurnView, ActionView) {
    if v.next < v.pending.len() {
        ask_gate(v)
    } else {
        begin_iteration(
            TurnView {
                turn: v.turn.push((Role::User, v.results)),
                pending: Seq::empty(),
                next: 0,
                results: Seq::empty(),
                ..v
            },
        )
    }
}

/// The result block for a call: its id, the payload as one text block, and
/// the error flag.
pub open spec fn result_model(id: Seq<char>, payload: Seq<char>, is_error: bool) -> BlockModel {
    BlockModel::Result(id, seq![BlockView::Text(payload)], is_error)
}

/// Settle the current call with `payload`, then move on.
pub open spec fn record(v: TurnView, payload: Seq<char>, status: ToolCallStatus, is_error: bool) -> (
    TurnView,
    ActionView,
) {
    let u = v.pending[v.next];
    advance(
        TurnView {
            results: v.results.push(result_model(u.0, payload, is_error)),
            calls: v.calls.push((u.1, u.2, status, payload)),
            next: v.next + 1,
            ..v
        },
    )
}

/// One step of the turn loop.
pub open spec fn turn_step_spec(v: TurnView, input: TurnInput) -> (TurnView, ActionView) {
    match input {
        TurnInput::Start(text) => begin_iteration(
            TurnView {
                turn: seq![(Role::User, seq![BlockModel::Plain(BlockView::Text(text@))])],
                iterations: 0,
                pending: Seq::empty(),
                next: 0,
                results: Seq::empty(),
                calls: Seq::empty(),
                ..v
            },
        ),
        TurnInput::Response(Err(e)) => (settle(v), ActionView::Fail(FailView::Provider(e))),
        TurnInput::Response(Ok(resp)) => {
            let turn = v.turn.push((Role::Assistant, blocks_model(resp.content@)));
            let uses = tool_uses_of(resp.content@);
            if uses.len() == 0 {
                (
                    settle(TurnView { history: v.history + turn, ..v }),
                    ActionView::Finish(response_text(resp.content@), v.calls, v.iterations),
                )
            } else if resp.stop_reason == StopReason::EndTurn {
                (settle(v), ActionView::Fail(FailView::Malformed(end_turn_with_tools_message(uses.len()))))
            } else {
                ask_gate(TurnView { turn, pending: uses, next: 0, results: Seq::empty(), ..v })
            }
        },
        TurnInput::Gated(Ok(())) => (
            TurnView { phase: TurnPhase::Running, ..v },
            ActionView::RunTool(v.pending[v.next].1, v.pending[v.next].2),
        ),
        TurnInput::Gated(Err(reason)) => record(v, "denied by policy: "@ + reason@, ToolCallStatus::Errored, true),
        TurnInput::ToolFinished(o) => record(
            v,
            o.payload@,
            if o.is_error {
                ToolCallStatus::Errored
            } else {
                ToolCallStatus::Succeeded
            },
            o.is_error,
        ),
    }
}

// ---------------------------------------------------------------------------
// The machine
// ---------------------------------------------------------------------------
/// The state of the turn loop: the committed history, and the running
/// turn's messages and bookkeeping.
#[derive(Debug)]
pub struct TurnState {
    phase: TurnPhase,
    history: Vec<Message>,
    turn: Vec<Message>,
    iterations: u32,
    max_iterations: u32,
    pending: Vec<(String, String, JsonValue)>,
    next: usize,
    results: Vec<ContentBlock>,
    calls: Vec<ToolCall>,
}

impl View for TurnState {
    type V = TurnView;

    closed spec fn view(&self) -> TurnView {
        TurnView {
            phase: self.phase,
            history: messages_model(self.history@),
            turn: messages_model(self.turn@),
            iterations: self.iterations,
            max_iterations: self.max_iterations,
            pending: uses_model(self.pending@),
            next: self.next as int,
            results: blocks_model(self.results@),
            calls: calls_model(self.calls@),
        }
    }
}

impl TurnState {
    /// The invariant, on the view.
    pub open spec fn wf(&self) -> bool {
        view_ok(self@)
    }

    /// An idle machine over a committed history, with an iteration cap.
    pub fn new(history: Vec<Message>, max_iterations: u32) -> (s: TurnState)
        ensures
            s.wf(),
            s@.phase == TurnPhase::Idle,
            s@.history == messages_model(history@),
            s@.turn.len() == 0,
            s@.max_iterations == max_iterations,
            s@.iterations == 0,
    {
        let s = TurnState {
            phase: TurnPhase::Idle,
            history,
            turn: Vec::new(),
            iterations: 0,
            max_iterations,
            pending: Vec::new(),
            next: 0,
            results: Vec::new(),
            calls: Vec::new(),
        };
        assert(s@.turn =~= Seq::<MessageModel>::empty());
        assert(s@.results =~= Seq::<BlockModel>::empty());
        s
    }

    /// Where the turn stands.
    pub fn phase(&self) -> (p: TurnPhase)
        ensures
            p == self@.phase,
    {
        self.phase
    }

    /// The committed conversation.
    pub fn history(&self) -> (r: &Vec<Message>)
        ensures
            messages_model(r@) == self@.history,
    {
        &self.history
    }

    /// The messages the running turn has added so far; a provider request
    /// carries the history followed by these.
    pub fn turn_messages(&self) -> (r: &Vec<Message>)
        ensures
            messages_model(r@) == self@.turn,
    {
        &self.turn
    }

    /// Replace the committed history, as loading a saved transcript does.
    /// Everything else is kept; a turn running meanwhile still appends its
    /// messages when it finishes, so load only while idle.
    pub fn replace_history(&mut self, messages: Vec<Message>)
        ensures
            final(self)@ == (TurnView { history: messages_model(messages@), ..old(self)@ }),
    {
        self.history = messages;
    }

    /// Drop the committed history.
    pub fn clear_history(&mut self)
        ensures
            final(self)@ == (TurnView { history: Seq::empty(), ..old(self)@ }),
    {
        self.history = Vec::new();
        assert(self@.history =~= Seq::<MessageModel>::empty());
    }

    /// Drop the turn's messages and bookkeeping and go idle.
    fn reset(&mut self)
        ensures
            final(self)@ == settle(old(self)@),
    {
        self.phase = TurnPhase::Idle;
        self.turn = Vec::new();
        self.pending = Vec::new();
        self.next = 0;
        self.results = Vec::new();
        self.calls = Vec::new();
        assert(self@.turn =~= Seq::<MessageModel>::empty());
        assert(self@.pending =~= Seq::<UseModel>::empty());
        assert(self@.results =~= Seq::<BlockModel>::empty());
        assert(self@.calls =~= Seq::<CallModel>::empty());
    }

    /// Start the next iteration (see `begin_iteration`).
    fn begin(&mut self) -> (a: TurnAction)
        ensures
            (final(self)@, action_view(a)) == begin_iteration(old(self)@),
    {
        match next_iteration(self.iterations, self.max_iterations) {
            Ok(i) => {
                self.iterations = i;
                self.phase = TurnPhase::AwaitingResponse;
                TurnAction::CallProvider { iteration: i }
            },
            Err(e) => {
                self.reset();
                TurnAction::Fail(e)
            },
        }
    }

    /// Gate the current call (see `ask_gate`).
    fn gate_current(&mut self) -> (a: TurnAction)
        requires
            old(self).next < old(self).pending@.len(),
        ensures
            (final(self)@, action_view(a)) == ask_gate(old(self)@),
    {
        self.phase = TurnPhase::Gating;
        let name = self.pending[self.next].1.clone();
        let arguments = copy_json(&self.pending[self.next].2);
        TurnAction::Gate { name, arguments }
    }

    /// Gate the next call or close the round of calls (see `advance`).
    fn advance_calls(&mut self) -> (a: TurnAction)
        requires
            old(self).next <= old(self).pending@.len(),
        ensures
            (final(self)@, action_view(a)) == advance(old(self)@),
    {
        if self.next < self.pending.len() {
            self.gate_current()
        } else {
            let ghost v = self@;
            let mut results: Vec<ContentBlock> = Vec::new();
            std::mem::swap(&mut results, &mut self.results);
            self.turn.push(Message { role: Role::User, content: results });
            self.pending = Vec::new();
            self.next = 0;
            proof {
                assert(self@.turn =~= v.turn.push((Role::User, v.results)));
                assert(self@.pending =~= Seq::<UseModel>::empty());
                assert(self@.results =~= Seq::<BlockModel>::empty());
            }
            self.begin()
        }
    }

    /// Settle the current call with `payload` (see `record`).
    fn record_call(&mut self, payload: String, status: ToolCallStatus, is_error: bool) -> (a: TurnAction)
        requires
            old(self).next < old(self).pending@.len(),
        ensures
            (final(self)@, action_view(a)) == record(old(self)@, payload@, status, is_error),
    {
        let ghost v = self@;
        let k = self.next;
        let len = self.pending.len();
        assert(k < len);
        let id = self.pending[k].0.clone();
        let name = self.pending[k].1.clone();
        let arguments = copy_json(&self.pending[k].2);
        let shown = payload.clone();
        let mut inner: Vec<ContentBlock> = Vec::new();
        inner.push(ContentBlock::Text { text: shown });
        self.results.push(ContentBlock::ToolResult { tool_use_id: id, content: inner, is_error });
        self.calls.push(ToolCall { name, arguments, status, result: payload });
        self.next = k + 1;
        proof {
            let u = v.pending[k as int];
            assert(blocks_view(inner@) =~= seq![BlockView::Text(payload@)]);
            assert(self@.results =~= v.results.push(result_model(u.0, payload@, is_error)));
            assert(self@.calls =~= v.calls.push((u.1, u.2, status, payload@)));
        }
        self.advance_calls()
    }
}

/// The tool calls of a response's content, in order.
fn collect_tool_uses(content: &Vec<ContentBlock>) -> (r: Vec<(String, String, JsonValue)>)
    ensures
        uses_model(r@) == tool_uses_of(content@),
{
    let mut out: Vec<(String, String, JsonValue)> = Vec::new();
    let n = content.len();
    for i in 0..n
        invariant
            n == content@.len(),
            uses_model(out@) == tool_uses_of(content@.take(i as int)),
    {
        proof {
            assert(content@.take(i + 1).drop_last() =~= content@.take(i as int));
            assert(content@.take(i + 1).last() == content@[i as int]);
        }
        let ghost prev = out@;
        match &content[i] {
            ContentBlock::ToolUse { id, name, input } => {
                out.push((id.clone(), name.clone(), copy_json(input)));
                assert(uses_model(out@) =~= uses_model(prev).push((id@, name@, json_view(*input))));
            },
            _ => {},
        }
    }
    proof {
        assert(content@.take(n as int) =~= content@);
    }
    out
}

/// One step of the turn loop: fold what the embedder handed back into the
/// state and say what to do next (see `turn_step_spec`).
pub fn turn_step(state: &mut TurnState, input: TurnInput) -> (action: TurnAction)
    requires
        old(state).wf(),
        accepts(old(state)@, input),
    ensures
        final(state).wf(),
        (final(state)@, action_view(action)) == turn_step_spec(old(state)@, input),
{
    let ghost v = state@;
    let ghost inp = input;
    let action = match input {
        TurnInput::Start(text) => {
            let mut first: Vec<ContentBlock> = Vec::new();
            first.push(ContentBlock::Text { text });
            let mut turn: Vec<Message> = Vec::new();
            turn.push(Message { role: Role::User, content: first });
            state.turn = turn;
            state.iterations = 0;
            state.pending = Vec::new();
            state.next = 0;
            state.results = Vec::new();
            state.calls = Vec::new();
            proof {
                assert(blocks_model(first@) =~= seq![BlockModel::Plain(BlockView::Text(inp->Start_0@))]);
                assert(state@.pending =~= Seq::<UseModel>::empty());
                assert(state@.results =~= Seq::<BlockModel>::empty());
                assert(state@.calls =~= Seq::<CallModel>::empty());
                assert(state@.turn =~= seq![(Role::User, seq![BlockModel::Plain(BlockView::Text(inp->Start_0@))])]);
            }
            state.begin()
        },
        TurnInput::Response(Err(e)) => {
            state.reset();
            TurnAction::Fail(HostError::Provider(e))
        },
        TurnInput::Response(Ok(resp)) => {
            let CompleteResponse { content, stop_reason, .. } = resp;
            let summary = summarize_response(content.as_slice());
            let uses = collect_tool_uses(&content);
            let ghost cv = content@;
            match after_response(uses.len(), stop_reason) {
                Err(e) => {
                    state.reset();
                    TurnAction::Fail(e)
                },
                Ok(AfterResponse::Finish) => {
                    state.turn.push(Message { role: Role::Assistant, content });
                    let mut turn: Vec<Message> = Vec::new();
                    std::mem::swap(&mut turn, &mut state.turn);
                    state.history.append(&mut turn);
                    let mut calls: Vec<ToolCall> = Vec::new();
                    std::mem::swap(&mut calls, &mut state.calls);
                    let outcome = TurnOutcome { text: summary.text, tool_calls: calls, iterations: state.iterations };
                    proof {
                        assert(messages_model(state.history@) =~= v.history + v.turn.push(
                            (Role::Assistant, blocks_model(cv)),
                        ));
                    }
                    state.reset();
                    TurnAction::Finish(outcome)
                },
                Ok(AfterResponse::RunTools) => {
                    state.turn.push(Message { role: Role::Assistant, content });
                    state.pending = uses;
                    state.next = 0;
                    state.results = Vec::new();
                    proof {
                        assert(state@.turn =~= v.turn.push((Role::Assistant, blocks_model(cv))));
                        assert(state@.results =~= Seq::<BlockModel>::empty());
                    }
                    state.gate_current()
                },
            }
        },
        TurnInput::Gated(Ok(())) => {
            state.phase = TurnPhase::Running;
            let name = state.pending[state.next].1.clone();
            let arguments = copy_json(&state.pending[state.next].2);
            TurnAction::RunTool { name, arguments }
        },
        TurnInput::Gated(Err(reason)) => {
            let s = settle_refused(reason.as_str());
            state.record_call(s.payload, s.status, s.is_error)
        },
        TurnInput::ToolFinished(o) => {
            let s = settle_ran(o);
            state.record_call(s.payload, s.status, s.is_error)
        },
    };
    proof {
        lemma_step_keeps_view_ok(v, inp);
    }
    action
}

/// Every step keeps the invariant.
pub proof fn lemma_step_keeps_view_ok(v: TurnView, input: TurnInput)
    requires
        view_ok(v),
        accepts(v, input),
    ensures
        view_ok(turn_step_spec(v, input).0),
{
    match input {
        TurnInput::Gated(Err(reason)) => {
            lemma_record_keeps_view_ok(v, "denied by policy: "@ + reason@, ToolCallStatus::Errored, true);
        },
        TurnInput::ToolFinished(o) => {
            lemma_record_keeps_view_ok(
                v,
                o.payload@,
                if o.is_error {
                    ToolCallStatus::Errored
                } else {
                    ToolCallStatus::Succeeded
                },
                o.is_error,
            );
        },
        _ => {},
    }
}

/// Settling the current call keeps the invariant.
proof fn lemma_record_keeps_view_ok(v: TurnView, payload: Seq<char>, status: ToolCallStatus, is_error: bool)
    requires
        view_ok(v),
        v.next < v.pending.len(),
    ensures
        view_ok(record(v, payload, status, is_error).0),
{
    let u = v.pending[v.next];
    let w = TurnView {
        results: v.results.push(result_model(u.0, payload, is_error)),
        calls: v.calls.push((u.1, u.2, status, payload)),
        next: v.next + 1,
        ..v
    };
    assert forall|i: int| 0 <= i < w.next implies answers(#[trigger] w.results[i], w.pending[i].0) by {
        if i < v.next {
            assert(w.results[i] == v.results[i]);
        }
    }
}

// ---------------------------------------------------------------------------
// Laws
// ---------------------------------------------------------------------------
/// A run of steps from `v`: the final state and the actions, in order.
pub open spec fn run_steps(v: TurnView, inputs: Seq<TurnInput>) -> (TurnView, Seq<ActionView>)
    decreases inputs.len(),
{
    if inputs.len() == 0 {
        (v, Seq::empty())
    } else {
        let (w, acts) = run_steps(v, inputs.drop_last());
        let (x, a) = turn_step_spec(w, inputs.last());
        (x, acts.push(a))
    }
}

/// The committed history changes only when a turn finishes: after any run
/// of steps none of which finished a turn (every failure among them
/// included), the history is what it was before the run.
pub proof fn law_history_changes_only_on_finish(v: TurnView, inputs: Seq<TurnInput>)
    requires
        forall|i: int| 0 <= i < run_steps(v, inputs).1.len() ==> !(#[trigger] run_steps(v, inputs).1[i] is Finish),
    ensures
        run_steps(v, inputs).0.history == v.history,
    decreases inputs.len(),
{
    if inputs.len() > 0 {
        let d = inputs.drop_last();
        let acts = run_steps(v, inputs).1;
        assert forall|i: int| 0 <= i < run_steps(v, d).1.len() implies !(#[trigger] run_steps(v, d).1[i] is Finish) by {
            assert(acts[i] == run_steps(v, d).1[i]);
        }
        law_history_changes_only_on_finish(v, d);
        assert(acts[acts.len() - 1] == turn_step_spec(run_steps(v, d).0, inputs.last()).1);
    }
}

/// A failed step goes idle and drops the turn's messages; the history is
/// untouched.
pub proof fn law_failure_keeps_history(v: TurnView, input: TurnInput)
    requires
        turn_step_spec(v, input).1 is Fail,
    ensures
        turn_step_spec(v, input).0.history == v.history,
        turn_step_spec(v, input).0.phase == TurnPhase::Idle,
        turn_step_spec(v, input).0.turn.len() == 0,
{
}

/// A turn finishes on a response that asks for no tool: the turn's
/// messages, then that response as an assistant message, are appended to
/// the history, and the outcome carries the response's text, the calls
/// traced this turn and the iteration count.
pub proof fn law_finish_commits_the_turn(v: TurnView, resp: CompleteResponse)
    requires
        tool_uses_of(resp.content@).len() == 0,
    ensures
        ({
            let (w, a) = turn_step_spec(v, TurnInput::Response(Ok(resp)));
            &&& w.history == v.history + v.turn.push((Role::Assistant, blocks_model(resp.content@)))
            &&& w.phase == TurnPhase::Idle
            &&& a == ActionView::Finish(response_text(resp.content@), v.calls, v.iterations)
        }),
{
}

/// Once the last requested call is settled (run, or refused with an error
/// result), the next provider request carries the results as one user
/// message that answers every call of the response, in order.
pub proof fn law_results_answer_every_call(v: TurnView, input: TurnInput)
    requires
        view_ok(v),
        accepts(v, input),
        input is ToolFinished || input matches TurnInput::Gated(Err(_)),
        v.next + 1 == v.pending.len(),
        turn_step_spec(v, input).1 is CallProvider,
    ensures
        ({
            let w = turn_step_spec(v, input).0;
            &&& w.turn.len() == v.turn.len() + 1
            &&& w.turn.drop_last() == v.turn
            &&& w.turn.last().0 == Role::User
            &&& w.turn.last().1.len() == v.pending.len()
            &&& forall|i: int| 0 <= i < v.pending.len() ==> answers(#[trigger] w.turn.last().1[i], v.pending[i].0)
        }),
{
    let (payload, status, is_error) = match input {
        TurnInput::Gated(Err(reason)) => ("denied by policy: "@ + reason@, ToolCallStatus::Errored, true),
        TurnInput::ToolFinished(o) => (o.payload@, if o.is_error {
            ToolCallStatus::Errored
        } else {
            ToolCallStatus::Succeeded
        }, o.is_error),
        _ => (Seq::empty(), ToolCallStatus::Errored, true),
    };
    lemma_record_keeps_view_ok(v, payload, status, is_error);
    let u = v.pending[v.next];
    let rs = v.results.push(result_model(u.0, payload, is_error));
    let w = turn_step_spec(v, input).0;
    assert(w.turn == v.turn.push((Role::User, rs)));
    assert(w.turn.drop_last() =~= v.turn);
    assert forall|i: int| 0 <= i < v.pending.len() implies answers(#[trigger] w.turn.last().1[i], v.pending[i].0) by {
        if i < v.next {
            assert(rs[i] == v.results[i]);
        }
    }
}

/// A call refused by the permission check gets an error result whose only
/// text is `denied by policy: ` and the reason; its trace entry is errored
/// with that payload, and the next call goes to the check.
pub proof fn law_refused_call_gets_an_error_result(v: TurnView, reason: String)
    requires
        view_ok(v),
        v.phase == TurnPhase::Gating,
        v.next + 1 < v.pending.len(),
    ensures
        ({
            let u = v.pending[v.next];
            let payload = "denied by policy: "@ + reason@;
            let (w, a) = turn_step_spec(v, TurnInput::Gated(Err(reason)));
            &&& w.results.last() == BlockModel::Result(u.0, seq![BlockView::Text(payload)], true)
            &&& w.calls.last() == (u.1, u.2, ToolCallStatus::Errored, payload)
            &&& a == ActionView::Gate(v.pending[v.next + 1].1, v.pending[v.next + 1].2)
        }),
{
}

} // verus!
