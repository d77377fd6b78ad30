//! The bridge between a process adapter and the extension system.
//!
//! Hooks reach an adapter only when it declared them, and commands only
//! when it advertised them. Each reply of the adapter becomes a hook
//! decision, a tool result or an error: a `before_tool_call` hook fails
//! closed (a timeout, an error or an unexpected reply blocks the call), tool
//! calls, commands and state requests turn every failure into an error.
//!
//! Adapters of installed packages start in ascending order of layer
//! precedence, then package name. A package whose `[adapter]` table names
//! another protocol or kind, or whose command leaves the package, is
//! skipped with a diagnostic.
use vstd::prelude::*;

use crate::adapter_host::AdapterProcessConfig;
use crate::adapter_protocol::{
    kind_tag, AdapterCommandCapability, AdapterModelOverride, AdapterProcessMessageKind,
};
use crate::diagnostic_bridge::{
    command_invalid_diag, diagnostic_for_adapter_command_invalid,
    diagnostic_for_unsupported_adapter_kind, diagnostic_for_unsupported_adapter_protocol,
    kind_unsupported_diag, protocol_unsupported_diag,
};
use crate::doctor::{diag_view, DiagView, DoctorDiagnostic};
use crate::package_discovery::{
    checked_command_spec, discovery_error_message, resolve_adapter_command_checked,
    PackageDiscoveryError, PackageResource,
};
use crate::discovery::{lemma_lex_irreflexive, lex_lt};
use crate::sorting::{
    entry_before, is_permutation, key_views, stable_sort_spec, stable_sorted_order,
    ExecSortKey, SortKey,
};
use crate::text::{
    chars_of, copy_strings, debug_quoted, debug_str, decimal, decimal_chars, extend_chars,
    extend_str, str_eq, string_of, string_views,
};

verus! {

/// How long the host waits for the reply to a tool call, command, hook or
/// state request, in milliseconds.
pub const REQUEST_TIMEOUT_MS: u64 = 30000;

/// How long an adapter may take to start and complete its handshake when
/// its manifest gives no `timeout_ms`, in milliseconds.
pub const DEFAULT_ADAPTER_TIMEOUT_MS: u64 = 30000;

// ---------------------------------------------------------------------------
// Replies
// ---------------------------------------------------------------------------

/// One block of a tool result's content: its `type` and `text` fields, when
/// they are strings.
#[derive(Debug)]
pub struct ToolContentBlock {
    pub kind: Option<String>,
    pub text: Option<String>,
}

/// What an adapter replied to a request, as plain values.
#[derive(Debug)]
pub enum AdapterReply {
    Capabilities,
    ToolResult { content: Vec<ToolContentBlock>, is_error: bool },
    /// The command's result, as JSON text.
    CommandResult { result: String },
    /// A hook's action; the `reason` text of its data, when there is one;
    /// and the data itself as JSON text.
    HookResult { action: String, reason: Option<String>, data: Option<String> },
    /// The adapter's state, as JSON text.
    StateResult { state: String },
    Error { message: String },
}

/// The kind of a reply.
pub open spec fn reply_kind(r: AdapterReply) -> AdapterProcessMessageKind {
    match r {
        AdapterReply::Capabilities => AdapterProcessMessageKind::Capabilities,
        AdapterReply::ToolResult { .. } => AdapterProcessMessageKind::ToolResult,
        AdapterReply::CommandResult { .. } => AdapterProcessMessageKind::CommandResult,
        AdapterReply::HookResult { .. } => AdapterProcessMessageKind::HookResult,
        AdapterReply::StateResult { .. } => AdapterProcessMessageKind::StateResult,
        AdapterReply::Error { .. } => AdapterProcessMessageKind::Error,
    }
}

impl AdapterReply {
    /// The kind of this reply.
    pub fn kind(&self) -> (k: AdapterProcessMessageKind)
        ensures
            k == reply_kind(*self),
    {
        match self {
            AdapterReply::Capabilities => AdapterProcessMessageKind::Capabilities,
            AdapterReply::ToolResult { .. } => AdapterProcessMessageKind::ToolResult,
            AdapterReply::CommandResult { .. } => AdapterProcessMessageKind::CommandResult,
            AdapterReply::HookResult { .. } => AdapterProcessMessageKind::HookResult,
            AdapterReply::StateResult { .. } => AdapterProcessMessageKind::StateResult,
            AdapterReply::Error { .. } => AdapterProcessMessageKind::Error,
        }
    }
}

/// `prefix`, then the quoted tag of a reply that did not fit the request.
pub open spec fn unexpected_reply(prefix: Seq<char>, r: AdapterReply) -> Seq<char> {
    prefix + debug_str(kind_tag(reply_kind(r)))
}

/// `prefix`, then the quoted tag of a reply that did not fit the request.
fn unexpected_reply_text(prefix: &str, r: &AdapterReply) -> (s: String)
    ensures
        s@ == unexpected_reply(prefix@, *r),
{
    let k = r.kind();
    let tag = k.tag();
    let q = debug_quoted(tag);
    let mut v = chars_of(prefix);
    extend_str(&mut v, q.as_str());
    string_of(&v)
}

/// `a` followed by `b`.
fn joined(a: &str, b: &str) -> (r: String)
    ensures
        r@ == a@ + b@,
{
    let mut v = chars_of(a);
    extend_str(&mut v, b);
    string_of(&v)
}

/// A copy of a string.
fn owned(s: &str) -> (r: String)
    ensures
        r@ == s@,
{
    string_of(&chars_of(s))
}

/// The id of a tool call request: the caller's call id, `_`, and the host's
/// next request number.
pub open spec fn tool_request_id(call_id: Seq<char>, n: nat) -> Seq<char> {
    call_id + "_"@ + decimal(n)
}

/// The id of a tool call request.
pub fn tool_call_request_id(call_id: &str, n: u64) -> (r: String)
    ensures
        r@ == tool_request_id(call_id@, n as nat),
{
    let mut v = chars_of(call_id);
    extend_str(&mut v, "_");
    let d = decimal_chars(n as u128);
    extend_chars(&mut v, &d);
    string_of(&v)
}

// ---------------------------------------------------------------------------
// Hooks
// ---------------------------------------------------------------------------

/// Whether a hook lets the agent go on.
#[derive(Debug)]
pub enum HookDecision {
    Continue,
    Block { reason: String },
}

/// The `before_tool_call` decision for a reply (or the host's error text):
/// `None` to continue, or the reason the tool call is blocked. An action
/// other than `block` continues; everything that is not a hook result
/// blocks.
pub open spec fn before_tool_call_spec(reply: Result<AdapterReply, String>) -> Option<Seq<char>> {
    match reply {
        Ok(AdapterReply::HookResult { action, reason, .. }) => {
            if action@ == "block"@ {
                Some(
                    match reason {
                        Some(t) => t@,
                        None => "blocked by adapter"@,
                    },
                )
            } else {
                None
            }
        },
        Ok(AdapterReply::Error { message }) => Some("adapter hook error: "@ + message@),
        Ok(other) => Some(unexpected_reply("unexpected hook response: "@, other)),
        Err(e) => Some("adapter before_tool_call failed: "@ + e@),
    }
}

/// A `before_tool_call` hook fails closed: unless the adapter answers with a
/// hook result whose action is not `block`, the tool call is blocked.
pub proof fn lemma_before_tool_call_fails_closed(reply: Result<AdapterReply, String>)
    requires
        !(reply matches Ok(AdapterReply::HookResult { action, .. }) && action@ != "block"@),
    ensures
        before_tool_call_spec(reply) is Some,
{
}

/// Decide a `before_tool_call` hook from the adapter's reply, or from the
/// host's error when no reply came.
pub fn before_tool_call_decision(reply: &Result<AdapterReply, String>) -> (r: HookDecision)
    ensures
        match before_tool_call_spec(*reply) {
            None => r is Continue,
            Some(m) => r matches HookDecision::Block { reason } && reason@ == m,
        },
{
    match reply {
        Ok(AdapterReply::HookResult { action, reason, .. }) => {
            if str_eq(action.as_str(), "block") {
                let t = match reason {
                    Some(t) => owned(t.as_str()),
                    None => owned("blocked by adapter"),
                };
                HookDecision::Block { reason: t }
            } else {
                HookDecision::Continue
            }
        },
        Ok(AdapterReply::Error { message }) => HookDecision::Block {
            reason: joined("adapter hook error: ", message.as_str()),
        },
        Ok(other) => HookDecision::Block {
            reason: unexpected_reply_text("unexpected hook response: ", other),
        },
        Err(e) => HookDecision::Block { reason: joined("adapter before_tool_call failed: ", e.as_str()) },
    }
}

/// The summary of a tool result sent with `after_tool_call`: each text
/// block's text, and `[content]` for any other block.
pub open spec fn content_summary_spec(blocks: Seq<Option<String>>) -> Seq<Seq<char>> {
    blocks.map_values(|b: Option<String>| block_summary(b))
}

/// The summary of one block of a tool result.
pub open spec fn block_summary(b: Option<String>) -> Seq<char> {
    match b {
        Some(t) => t@,
        None => "[content]"@,
    }
}

/// The summary of a tool result's content (`Some` text for a text block,
/// `None` for any other block).
pub fn content_summary(blocks: &Vec<Option<String>>) -> (r: Vec<String>)
    ensures
        string_views(r@) == content_summary_spec(blocks@),
{
    let mut out: Vec<String> = Vec::new();
    let mut i: usize = 0;
    while i < blocks.len()
        invariant
            i <= blocks@.len(),
            out@.len() == i,
            forall|k: int| 0 <= k < i ==> #[trigger] out@[k]@ == block_summary(blocks@[k]),
        decreases blocks.len() - i,
    {
        let s = match &blocks[i] {
            Some(t) => owned(t.as_str()),
            None => owned("[content]"),
        };
        out.push(s);
        i += 1;
    }
    assert(string_views(out@) =~= content_summary_spec(blocks@));
    out
}

/// The data of a `transform_context` reply, or why there is none: a hook
/// result without data, an adapter error, an unexpected reply or the host's
/// error.
pub open spec fn transform_context_spec(reply: Result<AdapterReply, String>) -> Result<
    Seq<char>,
    Seq<char>,
> {
    match reply {
        Ok(AdapterReply::HookResult { data, .. }) => match data {
            Some(d) => Ok(d@),
            None => Err("missing transform_context data"@),
        },
        Ok(AdapterReply::Error { message }) => Err(message@),
        Ok(other) => Err(unexpected_reply("unexpected transform_context response: "@, other)),
        Err(e) => Err(e@),
    }
}

/// An error of the extension system raised on an adapter's behalf.
#[derive(Debug)]
pub enum AdapterExtensionError {
    HookError { name: String, reason: String },
    CommandError(String),
    StateSerialization { name: String, reason: String },
    StateRestoration { name: String, reason: String },
}

/// The data of a `transform_context` reply (JSON text holding `messages`),
/// or a hook error of the adapter named `name`.
pub fn transform_context_outcome(name: &str, reply: &Result<AdapterReply, String>) -> (r: Result<
    String,
    AdapterExtensionError,
>)
    ensures
        match transform_context_spec(*reply) {
            Ok(d) => r matches Ok(s) && s@ == d,
            Err(m) => r matches Err(AdapterExtensionError::HookError { name: n, reason })
                && n@ == name@ && reason@ == m,
        },
{
    let reason = match reply {
        Ok(AdapterReply::HookResult { data, .. }) => match data {
            Some(d) => {
                return Ok(owned(d.as_str()));
            },
            None => owned("missing transform_context data"),
        },
        Ok(AdapterReply::Error { message }) => owned(message.as_str()),
        Ok(other) => unexpected_reply_text("unexpected transform_context response: ", other),
        Err(e) => owned(e.as_str()),
    };
    Err(AdapterExtensionError::HookError { name: owned(name), reason })
}

/// The hook error of `transform_context` messages that could not be read.
pub fn invalid_transform_messages(name: &str, error: &str) -> (r: AdapterExtensionError)
    ensures
        r matches AdapterExtensionError::HookError { name: n, reason } && n@ == name@ && reason@
            == "invalid transform_context messages: "@ + error@,
{
    AdapterExtensionError::HookError {
        name: owned(name),
        reason: joined("invalid transform_context messages: ", error),
    }
}

/// The data of a `prepare_next_turn` reply: `None` unless the adapter
/// answered with a hook result, whose data (if any) may hold extra messages.
pub open spec fn next_turn_spec(reply: Result<AdapterReply, String>) -> Option<Option<Seq<char>>> {
    match reply {
        Ok(AdapterReply::HookResult { data, .. }) => Some(
            match data {
                Some(d) => Some(d@),
                None => None,
            },
        ),
        _ => None,
    }
}

/// The data of a `prepare_next_turn` reply.
pub fn next_turn_data(reply: &Result<AdapterReply, String>) -> (r: Option<Option<String>>)
    ensures
        match next_turn_spec(*reply) {
            None => r is None,
            Some(None) => r matches Some(None),
            Some(Some(d)) => r matches Some(Some(s)) && s@ == d,
        },
{
    match reply {
        Ok(AdapterReply::HookResult { data, .. }) => match data {
            Some(d) => Some(Some(owned(d.as_str()))),
            None => Some(None),
        },
        _ => None,
    }
}

// ---------------------------------------------------------------------------
// Tool calls, commands and state
// ---------------------------------------------------------------------------

/// The texts of the text blocks of a tool result (a missing text is empty);
/// other blocks are dropped.
pub open spec fn text_blocks(c: Seq<ToolContentBlock>) -> Seq<Seq<char>>
    decreases c.len(),
{
    if c.len() == 0 {
        Seq::empty()
    } else {
        let rest = text_blocks(c.drop_last());
        let b = c.last();
        if b.kind matches Some(k) && k@ == "text"@ {
            rest.push(
                match b.text {
                    Some(t) => t@,
                    None => Seq::empty(),
                },
            )
        } else {
            rest
        }
    }
}

/// What a tool call gives back.
#[derive(Debug)]
pub struct ToolOutput {
    /// The text blocks, in order.
    pub texts: Vec<String>,
    pub is_error: bool,
}

/// The outcome of a tool call: its texts and error flag, or the failure.
pub open spec fn tool_call_spec(reply: Result<AdapterReply, String>) -> Result<
    (Seq<Seq<char>>, bool),
    Seq<char>,
> {
    match reply {
        Ok(AdapterReply::ToolResult { content, is_error }) => Ok((text_blocks(content@), is_error)),
        Ok(AdapterReply::Error { message }) => Err(message@),
        Ok(other) => Err(unexpected_reply("unexpected response type for tool call: "@, other)),
        Err(e) => Err(e@),
    }
}

/// The texts of the text blocks of a tool result.
fn texts_of(content: &Vec<ToolContentBlock>) -> (r: Vec<String>)
    ensures
        string_views(r@) == text_blocks(content@),
{
    let mut out: Vec<String> = Vec::new();
    let mut i: usize = 0;
    while i < content.len()
        invariant
            i <= content@.len(),
            string_views(out@) == text_blocks(content@.take(i as int)),
        decreases content.len() - i,
    {
        let ghost prev = out@;
        assert(content@.take(i + 1).drop_last() =~= content@.take(i as int));
        assert(content@.take(i + 1).last() == content@[i as int]);
        let b = &content[i];
        let is_text = match &b.kind {
            Some(k) => str_eq(k.as_str(), "text"),
            None => false,
        };
        if is_text {
            let t = match &b.text {
                Some(t) => owned(t.as_str()),
                None => string_of(&Vec::new()),
            };
            out.push(t);
            assert(string_views(out@) =~= string_views(prev).push(out@.last()@));
        }
        assert(string_views(out@) =~= text_blocks(content@.take(i + 1)));
        i += 1;
    }
    assert(content@.take(content@.len() as int) =~= content@);
    out
}

/// The result of a tool call from the adapter's reply, or the failure text
/// (the adapter's error, an unexpected reply, or the host's error).
pub fn tool_call_outcome(reply: &Result<AdapterReply, String>) -> (r: Result<ToolOutput, String>)
    ensures
        match tool_call_spec(*reply) {
            Ok((ts, e)) => r matches Ok(o) && string_views(o.texts@) == ts && o.is_error == e,
            Err(m) => r matches Err(s) && s@ == m,
        },
{
    match reply {
        Ok(AdapterReply::ToolResult { content, is_error }) => Ok(
            ToolOutput { texts: texts_of(content), is_error: *is_error },
        ),
        Ok(AdapterReply::Error { message }) => Err(owned(message.as_str())),
        Ok(other) => Err(unexpected_reply_text("unexpected response type for tool call: ", other)),
        Err(e) => Err(owned(e.as_str())),
    }
}

/// The outcome of a command: its data, or why it failed.
pub open spec fn command_spec(reply: Result<AdapterReply, String>) -> Result<Seq<char>, Seq<char>> {
    match reply {
        Ok(AdapterReply::CommandResult { result }) => Ok(result@),
        Ok(AdapterReply::Error { message }) => Err(message@),
        Ok(other) => Err(unexpected_reply("unexpected command response: "@, other)),
        Err(e) => Err(e@),
    }
}

/// The result of a command the adapter handles, or a command error.
pub fn command_outcome(reply: &Result<AdapterReply, String>) -> (r: Result<
    Option<String>,
    AdapterExtensionError,
>)
    ensures
        match command_spec(*reply) {
            Ok(d) => r matches Ok(Some(s)) && s@ == d,
            Err(m) => r matches Err(AdapterExtensionError::CommandError(s)) && s@ == m,
        },
{
    match reply {
        Ok(AdapterReply::CommandResult { result }) => Ok(Some(owned(result.as_str()))),
        Ok(AdapterReply::Error { message }) => Err(
            AdapterExtensionError::CommandError(owned(message.as_str())),
        ),
        Ok(other) => Err(
            AdapterExtensionError::CommandError(
                unexpected_reply_text("unexpected command response: ", other),
            ),
        ),
        Err(e) => Err(AdapterExtensionError::CommandError(owned(e.as_str()))),
    }
}

/// The outcome of a state request: the state, or why it failed.
pub open spec fn state_spec(reply: Result<AdapterReply, String>) -> Result<Seq<char>, Seq<char>> {
    match reply {
        Ok(AdapterReply::StateResult { state }) => Ok(state@),
        Ok(AdapterReply::Error { message }) => Err(message@),
        Ok(other) => Err(unexpected_reply("unexpected state response: "@, other)),
        Err(e) => Err(e@),
    }
}

/// Why a state request failed.
fn state_failure(reply: &Result<AdapterReply, String>) -> (r: Option<String>)
    ensures
        match state_spec(*reply) {
            Ok(_) => r is None,
            Err(m) => r matches Some(s) && s@ == m,
        },
{
    match reply {
        Ok(AdapterReply::StateResult { .. }) => None,
        Ok(AdapterReply::Error { message }) => Some(owned(message.as_str())),
        Ok(other) => Some(unexpected_reply_text("unexpected state response: ", other)),
        Err(e) => Some(owned(e.as_str())),
    }
}

/// The serialized state of the adapter named `name`, or a serialization
/// error.
pub fn state_serialize_outcome(name: &str, reply: &Result<AdapterReply, String>) -> (r: Result<
    Option<String>,
    AdapterExtensionError,
>)
    ensures
        match state_spec(*reply) {
            Ok(st) => r matches Ok(Some(s)) && s@ == st,
            Err(m) => r matches Err(AdapterExtensionError::StateSerialization { name: n, reason })
                && n@ == name@ && reason@ == m,
        },
{
    if let Ok(AdapterReply::StateResult { state }) = reply {
        return Ok(Some(owned(state.as_str())));
    }
    match state_failure(reply) {
        Some(reason) => Err(AdapterExtensionError::StateSerialization { name: owned(name), reason }),
        None => Err(
            AdapterExtensionError::StateSerialization { name: owned(name), reason: owned("") },
        ),
    }
}

/// Whether the adapter named `name` restored its state, or a restoration
/// error.
pub fn state_restore_outcome(name: &str, reply: &Result<AdapterReply, String>) -> (r: Result<
    (),
    AdapterExtensionError,
>)
    ensures
        match state_spec(*reply) {
            Ok(_) => r is Ok,
            Err(m) => r matches Err(AdapterExtensionError::StateRestoration { name: n, reason })
                && n@ == name@ && reason@ == m,
        },
{
    match state_failure(reply) {
        None => Ok(()),
        Some(reason) => Err(AdapterExtensionError::StateRestoration { name: owned(name), reason }),
    }
}

// ---------------------------------------------------------------------------
// The adapter as an extension
// ---------------------------------------------------------------------------

/// What the extension system needs to know of a model an adapter routes
/// tools through.
#[derive(Debug)]
pub struct ModelInfo {
    pub id: String,
    pub display_name: String,
    pub context_window: u64,
    pub max_output_tokens: u64,
    pub supports_images: bool,
    pub supports_streaming: bool,
    pub supports_thinking: bool,
}

/// The model information given to an override's model: the model names both
/// the id and the display name, with fixed limits and capabilities.
pub open spec fn override_info_ok(m: ModelInfo, model: Seq<char>) -> bool {
    &&& m.id@ == model
    &&& m.display_name@ == model
    &&& m.context_window == 128000
    &&& m.max_output_tokens == 16384
    &&& !m.supports_images
    &&& m.supports_streaming
    &&& !m.supports_thinking
}

/// A process adapter seen by the extension system: its name, the commands
/// and hooks it declared, and its model overrides.
#[derive(Debug)]
pub struct AdapterBridge {
    pub name: String,
    pub commands: Vec<String>,
    pub hooks: Vec<String>,
    pub model_overrides: Vec<AdapterModelOverride>,
}

/// The names of the commands.
pub open spec fn command_names(cs: Seq<AdapterCommandCapability>) -> Seq<Seq<char>> {
    cs.map_values(|c: AdapterCommandCapability| c.name@)
}

/// Whether `x` is one of the strings of `v`.
fn contains_string(v: &Vec<String>, x: &str) -> (r: bool)
    ensures
        r == string_views(v@).contains(x@),
{
    let mut i: usize = 0;
    while i < v.len()
        invariant
            i <= v@.len(),
            forall|j: int| 0 <= j < i ==> string_views(v@)[j] != x@,
        decreases v.len() - i,
    {
        if str_eq(v[i].as_str(), x) {
            assert(string_views(v@)[i as int] == x@);
            return true;
        }
        i += 1;
    }
    false
}

impl AdapterBridge {
    /// The bridge of an adapter that completed its handshake with the given
    /// capabilities.
    pub fn from_capabilities(
        name: &str,
        commands: &Vec<AdapterCommandCapability>,
        hooks: &Vec<String>,
        model_overrides: Vec<AdapterModelOverride>,
    ) -> (r: Self)
        ensures
            r.name@ == name@,
            string_views(r.commands@) == command_names(commands@),
            string_views(r.hooks@) == string_views(hooks@),
            r.model_overrides@ == model_overrides@,
    {
        let mut names: Vec<String> = Vec::new();
        let mut i: usize = 0;
        while i < commands.len()
            invariant
                i <= commands@.len(),
                names@.len() == i,
                forall|k: int| 0 <= k < i ==> #[trigger] names@[k]@ == commands@[k].name@,
            decreases commands.len() - i,
        {
            names.push(owned(commands[i].name.as_str()));
            i += 1;
        }
        assert(string_views(names@) =~= command_names(commands@));
        AdapterBridge { name: owned(name), commands: names, hooks: copy_strings(hooks), model_overrides }
    }

    /// Whether the adapter declared the hook; an undeclared hook is never
    /// sent to it.
    pub fn declares_hook(&self, hook: &str) -> (r: bool)
        ensures
            r == string_views(self.hooks@).contains(hook@),
    {
        contains_string(&self.hooks, hook)
    }

    /// Whether the adapter handles the command; any other command is left to
    /// the rest of the system.
    pub fn handles_command(&self, name: &str) -> (r: bool)
        ensures
            r == string_views(self.commands@).contains(name@),
    {
        contains_string(&self.commands, name)
    }

    /// Each model override as its model name and the model information given
    /// to it.
    pub fn override_models(&self) -> (r: Vec<(String, ModelInfo)>)
        ensures
            r@.len() == self.model_overrides@.len(),
            forall|i: int|
                0 <= i < r@.len() ==> (#[trigger] r@[i]).0@ == self.model_overrides@[i].model@
                    && override_info_ok(r@[i].1, self.model_overrides@[i].model@),
    {
        let mut out: Vec<(String, ModelInfo)> = Vec::new();
        let mut i: usize = 0;
        while i < self.model_overrides.len()
            invariant
                i <= self.model_overrides@.len(),
                out@.len() == i,
                forall|j: int|
                    0 <= j < i ==> (#[trigger] out@[j]).0@ == self.model_overrides@[j].model@
                        && override_info_ok(out@[j].1, self.model_overrides@[j].model@),
            decreases self.model_overrides.len() - i,
        {
            let m = self.model_overrides[i].model.as_str();
            let info = ModelInfo {
                id: owned(m),
                display_name: owned(m),
                context_window: 128000,
                max_output_tokens: 16384,
                supports_images: false,
                supports_streaming: true,
                supports_thinking: false,
            };
            out.push((owned(m), info));
            i += 1;
        }
        out
    }
}

// ---------------------------------------------------------------------------
// Starting the adapters of installed packages
// ---------------------------------------------------------------------------

/// An adapter ready to start.
#[derive(Debug)]
pub struct AdapterStart {
    pub package_name: String,
    /// The command as the manifest wrote it.
    pub adapter_command: String,
    /// The process to run, with the command resolved against the package.
    pub config: AdapterProcessConfig,
    /// How long the start and handshake may take, in milliseconds.
    pub timeout_ms: u64,
}

/// One package with an adapter: skipped with a diagnostic, or started.
#[derive(Debug)]
pub enum AdapterStartStep {
    Skip(DoctorDiagnostic),
    Start(AdapterStart),
}

/// A start step as plain values.
pub enum StartStepView {
    Skip(DiagView),
    Start {
        package_name: Seq<char>,
        adapter_command: Seq<char>,
        command: Seq<char>,
        args: Seq<Seq<char>>,
        working_dir: Seq<char>,
        env: Seq<(Seq<char>, Seq<char>)>,
        timeout_ms: u64,
    },
}

/// A start step as plain values.
pub open spec fn step_view(s: AdapterStartStep) -> StartStepView {
    match s {
        AdapterStartStep::Skip(d) => StartStepView::Skip(diag_view(d)),
        AdapterStartStep::Start(a) => StartStepView::Start {
            package_name: a.package_name@,
            adapter_command: a.adapter_command@,
            command: a.config.command@,
            args: string_views(a.config.args@),
            working_dir: a.config.working_dir@,
            env: a.config.env@.map_values(|e: (String, String)| (e.0@, e.1@)),
            timeout_ms: a.timeout_ms,
        },
    }
}

/// What becomes of a package with an adapter: skipped when its protocol or
/// kind is not supported or its command leaves the package, else started in
/// `working_dir` with the command resolved, the manifest's arguments, no
/// added environment, and the manifest's timeout or the default.
pub open spec fn start_step_spec(p: PackageResource, working_dir: Seq<char>) -> StartStepView {
    let a = p.manifest.adapter->0;
    let name = p.manifest.name@;
    if a.protocol@ != "opi-extension-jsonl-v1"@ {
        StartStepView::Skip(protocol_unsupported_diag(name, a.protocol@, a.command@))
    } else if a.kind@ != "process-jsonl"@ {
        StartStepView::Skip(kind_unsupported_diag(name, a.kind@, a.command@))
    } else {
        match checked_command_spec(a.command@, p.path@) {
            Err(path) => StartStepView::Skip(
                command_invalid_diag(
                    name,
                    a.command@,
                    "security: resource path escapes package directory for "@ + "adapter"@
                        + ": "@ + path + " ("@ + "adapter command escapes package root"@ + ")"@,
                ),
            ),
            Ok(cmd) => StartStepView::Start {
                package_name: name,
                adapter_command: a.command@,
                command: cmd,
                args: string_views(a.args@),
                working_dir,
                env: Seq::empty(),
                timeout_ms: match a.timeout_ms {
                    Some(t) => t,
                    None => DEFAULT_ADAPTER_TIMEOUT_MS,
                },
            },
        }
    }
}

/// The step of one package with an adapter.
fn start_step(p: &PackageResource, working_dir: &str) -> (r: AdapterStartStep)
    requires
        p.manifest.adapter is Some,
    ensures
        step_view(r) == start_step_spec(*p, working_dir@),
{
    let a = match &p.manifest.adapter {
        Some(a) => a,
        None => {
            return AdapterStartStep::Skip(
                diagnostic_for_unsupported_adapter_kind(p.manifest.name.as_str(), "", ""),
            );
        },
    };
    let name = p.manifest.name.as_str();
    if !str_eq(a.protocol.as_str(), "opi-extension-jsonl-v1") {
        return AdapterStartStep::Skip(
            diagnostic_for_unsupported_adapter_protocol(name, a.protocol.as_str(), a.command.as_str()),
        );
    }
    if !str_eq(a.kind.as_str(), "process-jsonl") {
        return AdapterStartStep::Skip(
            diagnostic_for_unsupported_adapter_kind(name, a.kind.as_str(), a.command.as_str()),
        );
    }
    match resolve_adapter_command_checked(a, p.path.as_str()) {
        Err(e) => {
            let m = e.message();
            proof {
                if let PackageDiscoveryError::SecurityDiagnostic { package_name, path, reason } = e {
                    assert(m@ == discovery_error_message(e));
                }
            }
            AdapterStartStep::Skip(
                diagnostic_for_adapter_command_invalid(name, a.command.as_str(), m.as_str()),
            )
        },
        Ok(command) => {
            let config = AdapterProcessConfig {
                command,
                args: copy_strings(&a.args),
                working_dir: owned(working_dir),
                env: Vec::new(),
            };
            let timeout_ms = match a.timeout_ms {
                Some(t) => t,
                None => DEFAULT_ADAPTER_TIMEOUT_MS,
            };
            let r = AdapterStartStep::Start(
                AdapterStart {
                    package_name: owned(name),
                    adapter_command: owned(a.command.as_str()),
                    config,
                    timeout_ms,
                },
            );
            assert(step_view(r) matches StartStepView::Start { env, .. } && env =~= Seq::<
                (Seq<char>, Seq<char>),
            >::empty());
            r
        },
    }
}

/// The positions of the packages that have an adapter, in order.
pub open spec fn adapter_positions(ps: Seq<PackageResource>) -> Seq<int>
    decreases ps.len(),
{
    if ps.len() == 0 {
        Seq::empty()
    } else {
        let rest = adapter_positions(ps.drop_last());
        if ps.last().manifest.adapter is Some {
            rest.push(ps.len() - 1)
        } else {
            rest
        }
    }
}

/// The sort keys of the packages at the positions: layer precedence, then
/// name.
pub open spec fn adapter_keys(ps: Seq<PackageResource>, pos: Seq<int>) -> Seq<SortKey> {
    pos.map_values(|i: int| (ps[i].layer_precedence, ps[i].manifest.name@, Seq::<char>::empty()))
}

/// The packages with an adapter, in the order their adapters start: layer
/// precedence, then name, packages with equal keys in their given order.
pub open spec fn adapter_start_order(ps: Seq<PackageResource>) -> Seq<PackageResource> {
    let pos = adapter_positions(ps);
    let order = stable_sort_spec(adapter_keys(ps, pos));
    Seq::new(order.len(), |k: int| ps[pos[order[k] as int]])
}

/// Package `a` starts no later than `b`: lower layer precedence first, then
/// names in code point order.
pub open spec fn starts_no_later(a: PackageResource, b: PackageResource) -> bool {
    a.layer_precedence < b.layer_precedence || (a.layer_precedence == b.layer_precedence && (
    lex_lt(a.manifest.name@, b.manifest.name@) || a.manifest.name@ == b.manifest.name@))
}

/// Each position listed is that of a package with an adapter.
proof fn lemma_adapter_positions(ps: Seq<PackageResource>)
    ensures
        forall|k: int|
            0 <= k < adapter_positions(ps).len() ==> 0 <= #[trigger] adapter_positions(ps)[k]
                < ps.len() && ps[adapter_positions(ps)[k]].manifest.adapter is Some,
    decreases ps.len(),
{
    if ps.len() > 0 {
        lemma_adapter_positions(ps.drop_last());
    }
}

/// Plan the start of the adapters of installed packages: one step per
/// package with an adapter, in start order. Packages without an adapter are
/// left out.
pub fn adapter_start_plan(packages: &Vec<PackageResource>, working_dir: &str) -> (r: Vec<
    AdapterStartStep,
>)
    ensures
        r@.len() == adapter_start_order(packages@).len(),
        forall|k: int|
            0 <= k < r@.len() ==> step_view(#[trigger] r@[k]) == start_step_spec(
                adapter_start_order(packages@)[k],
                working_dir@,
            ),
        forall|k: int, l: int|
            0 <= k < l < adapter_start_order(packages@).len() ==> starts_no_later(
                #[trigger] adapter_start_order(packages@)[k],
                #[trigger] adapter_start_order(packages@)[l],
            ),
{
    let ghost ps = packages@;
    let mut pos: Vec<usize> = Vec::new();
    let mut keys: Vec<ExecSortKey> = Vec::new();
    let mut i: usize = 0;
    while i < packages.len()
        invariant
            i <= ps.len(),
            ps == packages@,
            pos@.len() == keys@.len(),
            pos@.map_values(|x: usize| x as int) == adapter_positions(ps.take(i as int)),
            forall|k: int| 0 <= k < pos@.len() ==> #[trigger] pos@[k] < i,
            forall|k: int|
                0 <= k < keys@.len() ==> (#[trigger] keys@[k]).0 == ps[pos@[k] as int].layer_precedence
                    && keys@[k].1@ == ps[pos@[k] as int].manifest.name@ && keys@[k].2@
                    == Seq::<char>::empty(),
        decreases packages.len() - i,
    {
        assert(ps.take(i + 1).drop_last() =~= ps.take(i as int));
        if packages[i].manifest.adapter.is_some() {
            pos.push(i);
            keys.push(
                (packages[i].layer_precedence, chars_of(packages[i].manifest.name.as_str()), Vec::new()),
            );
            assert(pos@.map_values(|x: usize| x as int) =~= adapter_positions(ps.take(i + 1)));
        } else {
            assert(pos@.map_values(|x: usize| x as int) =~= adapter_positions(ps.take(i + 1)));
        }
        i += 1;
    }
    assert(ps.take(ps.len() as int) =~= ps);
    let ghost positions = adapter_positions(ps);
    proof {
        lemma_adapter_positions(ps);
        assert forall|k: int| 0 <= k < keys@.len() implies pos@[k] as int == #[trigger] positions[k] by {
            assert(pos@.map_values(|x: usize| x as int)[k] == pos@[k] as int);
        }
        assert(key_views(keys@) =~= adapter_keys(ps, positions));
    }
    let order = stable_sorted_order(&keys);
    let ghost ord = order@;
    assert(is_permutation(ord, keys@.len()));
    proof {
        let kv = key_views(keys@);
        let so = adapter_start_order(ps);
        assert forall|k: int, l: int| 0 <= k < l < so.len() implies starts_no_later(
            #[trigger] so[k],
            #[trigger] so[l],
        ) by {
            let a = ord[k] as int;
            let b = ord[l] as int;
            assert(entry_before(kv[a], a, kv[b], b));
            assert(so[k] == ps[positions[a]]);
            assert(so[l] == ps[positions[b]]);
            assert(kv[a] == (ps[positions[a]].layer_precedence, ps[positions[a]].manifest.name@, Seq::<char>::empty()));
            assert(kv[b] == (ps[positions[b]].layer_precedence, ps[positions[b]].manifest.name@, Seq::<char>::empty()));
            lemma_lex_irreflexive(Seq::<char>::empty());
        }
    }
    let mut out: Vec<AdapterStartStep> = Vec::new();
    let mut k: usize = 0;
    while k < order.len()
        invariant
            k <= ord.len(),
            order@ == ord,
            ps == packages@,
            is_permutation(ord, keys@.len()),
            ord == stable_sort_spec(adapter_keys(ps, positions)),
            positions == adapter_positions(ps),
            pos@.len() == positions.len(),
            keys@.len() == pos@.len(),
            pos@.map_values(|x: usize| x as int) == positions,
            forall|j: int|
                0 <= j < positions.len() ==> 0 <= #[trigger] positions[j] < ps.len()
                    && ps[positions[j]].manifest.adapter is Some,
            out@.len() == k,
            forall|j: int|
                0 <= j < k ==> step_view(#[trigger] out@[j]) == start_step_spec(
                    adapter_start_order(ps)[j],
                    working_dir@,
                ),
        decreases ord.len() - k,
    {
        let o = order[k];
        assert(o < pos@.len());
        let p = pos[o];
        assert(p as int == positions[o as int]);
        let step = start_step(&packages[p], working_dir);
        out.push(step);
        assert(adapter_start_order(ps)[k as int] == ps[p as int]);
        k += 1;
    }
    out
}

} // verus!
