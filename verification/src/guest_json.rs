//! The JSON projection of host events handed to plugin guests. The wire
//! shape is fixed here, field by field, so it stays stable across versions:
//! every event is a flat object with a `kind` field.
use vstd::prelude::*;

use crate::plugin::HostEvent;

verus! {

/// A scalar JSON value.
#[derive(Debug, Clone, PartialEq, Eq)]
pub enum JsonScalar {
    /// `true` / `false`.
    Bool(bool),
    /// A non-negative integer.
    UInt(u64),
    /// A string.
    Str(String),
}

/// The model of a scalar.
pub enum ScalarModel {
    /// A boolean.
    Bool(bool),
    /// An integer.
    UInt(nat),
    /// A string.
    Str(Seq<char>),
}

/// The model of a scalar.
pub open spec fn scalar_model(s: JsonScalar) -> ScalarModel {
    match s {
        JsonScalar::Bool(b) => ScalarModel::Bool(b),
        JsonScalar::UInt(n) => ScalarModel::UInt(n as nat),
        JsonScalar::Str(t) => ScalarModel::Str(t@),
    }
}

/// The model of a flat JSON object: its fields in order.
pub open spec fn object_model(fields: Seq<(String, JsonScalar)>) -> Seq<(Seq<char>, ScalarModel)> {
    fields.map_values(|f: (String, JsonScalar)| (f.0@, scalar_model(f.1)))
}

/// A string field.
pub open spec fn str_field(name: Seq<char>, value: Seq<char>) -> (Seq<char>, ScalarModel) {
    (name, ScalarModel::Str(value))
}

/// The fields of the JSON projection of `e`, in order; the first is always
/// `kind`.
pub open spec fn event_fields(e: HostEvent) -> Seq<(Seq<char>, ScalarModel)> {
    match e {
        HostEvent::HostStarting => seq![str_field("kind"@, "host-starting"@)],
        HostEvent::Connect { provider_id } => seq![
            str_field("kind"@, "connect"@),
            str_field("provider_id"@, provider_id.0@),
        ],
        HostEvent::Disconnect { provider_id, reason } => seq![
            str_field("kind"@, "disconnect"@),
            str_field("provider_id"@, provider_id.0@),
            str_field("reason"@, reason@),
        ],
        HostEvent::TurnStart { turn_id } => seq![
            str_field("kind"@, "turn-start"@),
            ("turn_id"@, ScalarModel::UInt(turn_id as nat)),
        ],
        HostEvent::TurnEnd { turn_id, success } => seq![
            str_field("kind"@, "turn-end"@),
            ("turn_id"@, ScalarModel::UInt(turn_id as nat)),
            ("success"@, ScalarModel::Bool(success)),
        ],
        HostEvent::ToolCallStart { call_id, tool } => seq![
            str_field("kind"@, "tool-call-start"@),
            str_field("call_id"@, call_id@),
            str_field("tool"@, tool@),
        ],
        HostEvent::ToolCallEnd { call_id, success } => seq![
            str_field("kind"@, "tool-call-end"@),
            str_field("call_id"@, call_id@),
            ("success"@, ScalarModel::Bool(success)),
        ],
        HostEvent::PromptSubmitted { text } => seq![
            str_field("kind"@, "prompt-submitted"@),
            str_field("text"@, text@),
        ],
        HostEvent::TranscriptSaved { path } => seq![
            str_field("kind"@, "transcript-saved"@),
            str_field("path"@, path@),
        ],
    }
}

/// A string field.
fn sfield(name: &str, value: &str) -> (f: (String, JsonScalar))
    ensures
        f.0@ == name@,
        scalar_model(f.1) == ScalarModel::Str(value@),
{
    (String::from_str(name), JsonScalar::Str(String::from_str(value)))
}

/// Every event's projection starts with its `kind`.
pub proof fn law_every_event_has_a_kind(e: HostEvent)
    ensures
        event_fields(e).len() >= 1,
        event_fields(e)[0].0 == "kind"@,
{
}

/// Project a host event to the flat JSON object handed to plugin guests.
pub fn event_to_json(event: &HostEvent) -> (r: Vec<(String, JsonScalar)>)
    ensures
        object_model(r@) == event_fields(*event),
{
    let mut r: Vec<(String, JsonScalar)> = Vec::new();
    match event {
        HostEvent::HostStarting => {
            r.push(sfield("kind", "host-starting"));
        },
        HostEvent::Connect { provider_id } => {
            r.push(sfield("kind", "connect"));
            r.push(sfield("provider_id", provider_id.0.as_str()));
        },
        HostEvent::Disconnect { provider_id, reason } => {
            r.push(sfield("kind", "disconnect"));
            r.push(sfield("provider_id", provider_id.0.as_str()));
            r.push(sfield("reason", reason.as_str()));
        },
        HostEvent::TurnStart { turn_id } => {
            r.push(sfield("kind", "turn-start"));
            r.push((String::from_str("turn_id"), JsonScalar::UInt(*turn_id as u64)));
        },
        HostEvent::TurnEnd { turn_id, success } => {
            r.push(sfield("kind", "turn-end"));
            r.push((String::from_str("turn_id"), JsonScalar::UInt(*turn_id as u64)));
            r.push((String::from_str("success"), JsonScalar::Bool(*success)));
        },
        HostEvent::ToolCallStart { call_id, tool } => {
            r.push(sfield("kind", "tool-call-start"));
            r.push(sfield("call_id", call_id.as_str()));
            r.push(sfield("tool", tool.as_str()));
        },
        HostEvent::ToolCallEnd { call_id, success } => {
            r.push(sfield("kind", "tool-call-end"));
            r.push(sfield("call_id", call_id.as_str()));
            r.push((String::from_str("success"), JsonScalar::Bool(*success)));
        },
        HostEvent::PromptSubmitted { text } => {
            r.push(sfield("kind", "prompt-submitted"));
            r.push(sfield("text", text.as_str()));
        },
        HostEvent::TranscriptSaved { path } => {
            r.push(sfield("kind", "transcript-saved"));
            r.push(sfield("path", path.as_str()));
        },
    }
    assert(object_model(r@) =~= event_fields(*event));
    r
}

} // verus!
