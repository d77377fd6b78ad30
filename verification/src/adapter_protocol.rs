//! The JSONL protocol between the host and process adapters: its version
//! and the capabilities an adapter advertises.
//!
//! The host sends `initialize` with its protocol version; an adapter
//! answers with `capabilities` only when it speaks exactly that version.
use vstd::prelude::*;

verus! {

/// The protocol version; a package's `[adapter]` table must name it
/// exactly.
pub const PROTOCOL_VERSION: &'static str = "opi-extension-jsonl-v1";

/// A command an adapter handles.
#[derive(Debug, Clone)]
pub struct AdapterCommandCapability {
    /// Command name (such as `todo/list`).
    pub name: String,
    pub description: String,
}

/// Tools whose calls an adapter wants routed through another model.
#[derive(Debug, Clone)]
pub struct AdapterModelOverride {
    /// The model to use.
    pub model: String,
    /// The tools concerned.
    pub tools: Vec<String>,
}

/// The kinds of message an adapter sends.
#[derive(Debug, Clone, Copy, PartialEq, Eq, Structural)]
pub enum AdapterProcessMessageKind {
    Capabilities,
    ToolResult,
    CommandResult,
    HookResult,
    StateResult,
    Error,
}

/// The `type` tag of a message kind.
pub open spec fn kind_tag(k: AdapterProcessMessageKind) -> Seq<char> {
    match k {
        AdapterProcessMessageKind::Capabilities => "capabilities"@,
        AdapterProcessMessageKind::ToolResult => "tool_result"@,
        AdapterProcessMessageKind::CommandResult => "command_result"@,
        AdapterProcessMessageKind::HookResult => "hook_result"@,
        AdapterProcessMessageKind::StateResult => "state_result"@,
        AdapterProcessMessageKind::Error => "error"@,
    }
}

impl AdapterProcessMessageKind {
    /// The `type` tag of this kind.
    pub fn tag(&self) -> (r: &'static str)
        ensures
            r@ == kind_tag(*self),
    {
        match self {
            AdapterProcessMessageKind::Capabilities => "capabilities",
            AdapterProcessMessageKind::ToolResult => "tool_result",
            AdapterProcessMessageKind::CommandResult => "command_result",
            AdapterProcessMessageKind::HookResult => "hook_result",
            AdapterProcessMessageKind::StateResult => "state_result",
            AdapterProcessMessageKind::Error => "error",
        }
    }
}

} // verus!
