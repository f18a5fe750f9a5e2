//! Errors of a subagent run.
use vstd::prelude::*;

verus! {

/// Errors produced by a subagent run.
#[derive(Debug, Clone, PartialEq, Eq)]
pub enum SubHostError {
    /// The subagent loop is not implemented yet.
    Unimplemented,
    /// The subagent's cancellation token was tripped.
    Cancelled,
    /// The subagent depth limit would be exceeded by this dispatch.
    DepthExceeded,
    /// The subagent reached the end of its turn without producing text.
    EmptyOutput,
    /// The provider client returned an error.
    Provider(String),
    /// A tool dispatch (or its allowlist gate) returned an error.
    Tool(String),
}

impl SubHostError {
    /// The error's message.
    pub fn message(&self) -> (r: String)
        ensures
            r@ == match self {
                SubHostError::Unimplemented => "subagent loop not yet implemented"@,
                SubHostError::Cancelled => "subagent cancelled"@,
                SubHostError::DepthExceeded => "subagent depth limit exceeded"@,
                SubHostError::EmptyOutput => "subagent produced no output"@,
                SubHostError::Provider(m) => "provider error: "@ + m@,
                SubHostError::Tool(m) => "tool error: "@ + m@,
            },
    {
        match self {
            SubHostError::Unimplemented => String::from_str("subagent loop not yet implemented"),
            SubHostError::Cancelled => String::from_str("subagent cancelled"),
            SubHostError::DepthExceeded => String::from_str("subagent depth limit exceeded"),
            SubHostError::EmptyOutput => String::from_str("subagent produced no output"),
            SubHostError::Provider(m) => {
                let mut s = String::from_str("provider error: ");
                s.append(m.as_str());
                s
            },
            SubHostError::Tool(m) => {
                let mut s = String::from_str("tool error: ");
                s.append(m.as_str());
                s
            },
        }
    }
}

} // verus!
