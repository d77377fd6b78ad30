//! The system prompt sent to the provider, assembled in layers: the base
//! coding-agent instructions, then the available tools with their
//! descriptions, then the user's own instructions. Layers are separated by
//! a blank line; an empty layer is left out.
use vstd::prelude::*;

use crate::text::{chars_of, extend_str, string_of};

verus! {

/// The base instructions that open every system prompt.
pub const BASE_INSTRUCTIONS: &'static str = "You are opi, an expert coding agent. You help users with software engineering tasks including reading, writing, and editing code, running commands, and searching codebases. Be concise and precise. Explain your reasoning when making changes.";

/// A tool offered to the model: its name, its description and its input
/// schema (JSON text).
#[derive(Debug, Clone)]
pub struct ToolDef {
    pub name: String,
    pub description: String,
    pub input_schema: String,
}

/// The tool section: a heading, then one `- name: description` line per
/// tool.
pub open spec fn tool_section(tools: Seq<ToolDef>) -> Seq<char>
    decreases tools.len(),
{
    if tools.len() == 0 {
        "Available tools:\n"@
    } else {
        let t = tools.last();
        tool_section(tools.drop_last()) + "- "@ + t.name@ + ": "@ + t.description@ + "\n"@
    }
}

/// The system prompt: the base instructions; the tool section when there
/// are tools; the user's instructions when there are some.
pub open spec fn system_prompt(tools: Seq<ToolDef>, user: Option<Seq<char>>) -> Seq<char> {
    let with_tools = if tools.len() == 0 {
        BASE_INSTRUCTIONS@
    } else {
        BASE_INSTRUCTIONS@ + "\n\n"@ + tool_section(tools)
    };
    match user {
        Some(u) => with_tools + "\n\n"@ + "User instructions:\n"@ + u,
        None => with_tools,
    }
}

/// Builds the system prompt from its layers.
pub struct SystemPromptBuilder {
    pub tools: Vec<ToolDef>,
    /// The user's instructions; never empty.
    pub user_system: Option<String>,
}

impl SystemPromptBuilder {
    /// A builder with no tools and no user instructions.
    pub fn new() -> (r: Self)
        ensures
            r.tools@.len() == 0,
            r.user_system is None,
    {
        SystemPromptBuilder { tools: Vec::new(), user_system: None }
    }

    /// Use these tool definitions; their names and descriptions go in the
    /// prompt.
    pub fn tools(self, tools: Vec<ToolDef>) -> (r: Self)
        ensures
            r.tools@ == tools@,
            r.user_system == self.user_system,
    {
        SystemPromptBuilder { tools, user_system: self.user_system }
    }

    /// Use these user instructions (from `--system` or the configuration);
    /// empty instructions are none.
    pub fn user_system(self, content: String) -> (r: Self)
        ensures
            r.tools@ == self.tools@,
            content@.len() == 0 ==> r.user_system is None,
            content@.len() > 0 ==> (r.user_system matches Some(u) && u@ == content@),
    {
        let user = if content.as_str().is_empty() {
            None
        } else {
            Some(content)
        };
        SystemPromptBuilder { tools: self.tools, user_system: user }
    }

    /// The tool definitions, for the request's tool list.
    pub fn tool_definitions(&self) -> (r: &[ToolDef])
        ensures
            r@ == self.tools@,
    {
        self.tools.as_slice()
    }

    /// The full system prompt.
    pub fn build(self) -> (r: String)
        ensures
            r@ == system_prompt(
                self.tools@,
                match self.user_system {
                    Some(u) => Some(u@),
                    None => None,
                },
            ),
    {
        let mut out = chars_of(BASE_INSTRUCTIONS);
        if self.tools.len() > 0 {
            extend_str(&mut out, "\n\n");
            let ghost before = out@;
            extend_str(&mut out, "Available tools:\n");
            let mut i: usize = 0;
            while i < self.tools.len()
                invariant
                    i <= self.tools@.len(),
                    out@ == before + tool_section(self.tools@.take(i as int)),
                decreases self.tools.len() - i,
            {
                assert(self.tools@.take(i + 1).drop_last() =~= self.tools@.take(i as int));
                assert(self.tools@.take(i + 1).last() == self.tools@[i as int]);
                let t = &self.tools[i];
                extend_str(&mut out, "- ");
                extend_str(&mut out, t.name.as_str());
                extend_str(&mut out, ": ");
                extend_str(&mut out, t.description.as_str());
                extend_str(&mut out, "\n");
                i += 1;
            }
            assert(self.tools@.take(self.tools@.len() as int) =~= self.tools@);
        }
        match &self.user_system {
            Some(u) => {
                extend_str(&mut out, "\n\n");
                extend_str(&mut out, "User instructions:\n");
                extend_str(&mut out, u.as_str());
            },
            None => {},
        }
        string_of(&out)
    }
}

impl Default for SystemPromptBuilder {
    fn default() -> (r: Self)
        ensures
            r.tools@.len() == 0,
            r.user_system is None,
    {
        Self::new()
    }
}

} // verus!
