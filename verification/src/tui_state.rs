//! What the terminal UI shows of a running agent, and how each agent event
//! changes it: streamed assistant text, the running token total, the active
//! tool call and its status, edit diffs, images from tool results, and
//! notices for compaction and session persistence.
//!
//! The terminal and the agent run elsewhere; they hand each event over as
//! plain values and draw the state that comes back.
use base64::Engine;
use vstd::prelude::*;

use crate::text::{chars_of, decimal, decimal_chars, extend_chars, extend_str, str_eq, string_of};

verus! {

/// What the agent is doing, as the status line shows it.
#[derive(Debug, Clone, Copy, PartialEq, Eq, Structural)]
pub enum TuiAppState {
    Idle,
    Thinking,
    Streaming,
    ToolExecuting,
}

/// Who a transcript entry is from.
#[derive(Debug, Clone, Copy, PartialEq, Eq, Structural)]
pub enum TuiRole {
    User,
    Assistant,
    System,
    Tool,
}

/// The image formats the transcript can show.
#[derive(Debug, Clone, Copy, PartialEq, Eq, Structural)]
pub enum TuiMediaKind {
    Png,
    Jpeg,
    Gif,
    WebP,
}

/// How the active tool call is going.
#[derive(Debug)]
pub enum TuiToolStatus {
    Running,
    Success,
    Error(String),
}

/// What a transcript entry carries besides its text.
#[derive(Debug)]
pub enum TuiAttachment {
    /// Text only.
    Plain,
    /// An edit: the file and its text before and after.
    Diff { path: String, before: String, after: String },
    /// An image from a tool result.
    Image { bytes: Vec<u8>, media: TuiMediaKind },
}

/// One transcript entry.
#[derive(Debug)]
pub struct TuiEntry {
    pub role: TuiRole,
    pub content: String,
    pub attachment: TuiAttachment,
}

/// The state the terminal UI draws.
#[derive(Debug)]
pub struct TuiModel {
    pub entries: Vec<TuiEntry>,
    pub app_state: TuiAppState,
    /// The active tool call: its name, its arguments as text, its status.
    pub active_tool: Option<(String, String, TuiToolStatus)>,
    /// Text of the current assistant message has started to stream.
    pub streaming_started: bool,
    pub total_tokens: u64,
}

/// A content part of a finished assistant message.
#[derive(Debug)]
pub enum AssistantPart {
    Text(String),
    ToolCall { name: String, arguments: String },
    Other,
}

/// The `source` of a tool result item: its `type` where that is a string,
/// its `data` as an array (each element as an unsigned integer where it is
/// one) and as a string.
#[derive(Debug)]
pub struct ImageSource {
    pub kind: Option<String>,
    pub data_array: Option<Vec<Option<u64>>>,
    pub data_str: Option<String>,
}

/// An item of a tool result array: its `type` and `media_type` where they
/// are strings, and its `source`.
#[derive(Debug)]
pub struct ToolResultItem {
    pub kind: Option<String>,
    pub source: Option<ImageSource>,
    pub media_type: Option<String>,
}

/// The `path`, `before` and `after` of an edit's details, each where it is
/// a string.
pub type EditFields = (Option<String>, Option<String>, Option<String>);

/// An agent event, as plain values.
#[derive(Debug)]
pub enum TuiEvent {
    MessageStart,
    /// A piece of streamed assistant text.
    TextDelta(String),
    /// An assistant message ended: its token total and content parts.
    AssistantEnd { tokens: u64, parts: Vec<AssistantPart> },
    ToolStart { name: String, args: String },
    /// A tool finished: its name, whether it failed, the edit fields of its
    /// details (where all three keys are present), and the items of its
    /// result (where the result is an array).
    ToolEnd { name: String, is_error: bool, edit: Option<EditFields>, items: Vec<ToolResultItem> },
    AgentEnd,
    TurnStart,
    /// Compaction started, for the reason given (as its debug text).
    CompactionStart { reason: String },
    /// Compaction ended: the reason (as debug text), the token counts
    /// before and after where it produced a result, whether it was aborted,
    /// and its error message.
    CompactionEnd {
        reason: String,
        token_counts: Option<(u64, u64)>,
        aborted: bool,
        error_message: Option<String>,
    },
    PersistError(String),
    /// Any other event: nothing changes.
    Other,
}

// ---------------------------------------------------------------------------
// Views
// ---------------------------------------------------------------------------

/// A tool status as plain values.
pub enum ToolStatusView {
    Running,
    Success,
    Error(Seq<char>),
}

/// An attachment as plain values.
pub enum AttachmentView {
    Plain,
    Diff { path: Seq<char>, before: Seq<char>, after: Seq<char> },
    Image { bytes: Seq<u8>, media: TuiMediaKind },
}

/// A transcript entry as plain values.
pub struct EntryView {
    pub role: TuiRole,
    pub content: Seq<char>,
    pub attachment: AttachmentView,
}

/// The UI state as plain values.
pub struct ModelView {
    pub entries: Seq<EntryView>,
    pub app_state: TuiAppState,
    pub active_tool: Option<(Seq<char>, Seq<char>, ToolStatusView)>,
    pub streaming_started: bool,
    pub total_tokens: u64,
}

/// An assistant part as plain values.
pub enum PartView {
    Text(Seq<char>),
    ToolCall { name: Seq<char>, arguments: Seq<char> },
    Other,
}

/// An image source as plain values.
pub struct SourceView {
    pub kind: Option<Seq<char>>,
    pub data_array: Option<Seq<Option<u64>>>,
    pub data_str: Option<Seq<char>>,
}

/// A tool result item as plain values.
pub struct ItemView {
    pub kind: Option<Seq<char>>,
    pub source: Option<SourceView>,
    pub media_type: Option<Seq<char>>,
}

/// An event as plain values.
pub enum EventView {
    MessageStart,
    TextDelta(Seq<char>),
    AssistantEnd { tokens: u64, parts: Seq<PartView> },
    ToolStart { name: Seq<char>, args: Seq<char> },
    ToolEnd {
        name: Seq<char>,
        is_error: bool,
        edit: Option<(Option<Seq<char>>, Option<Seq<char>>, Option<Seq<char>>)>,
        items: Seq<ItemView>,
    },
    AgentEnd,
    TurnStart,
    CompactionStart { reason: Seq<char> },
    CompactionEnd {
        reason: Seq<char>,
        token_counts: Option<(u64, u64)>,
        aborted: bool,
        error_message: Option<Seq<char>>,
    },
    PersistError(Seq<char>),
    Other,
}

/// An optional string as plain values.
pub open spec fn opt_str(s: Option<String>) -> Option<Seq<char>> {
    match s {
        Some(x) => Some(x@),
        None => None,
    }
}

pub open spec fn status_view(s: TuiToolStatus) -> ToolStatusView {
    match s {
        TuiToolStatus::Running => ToolStatusView::Running,
        TuiToolStatus::Success => ToolStatusView::Success,
        TuiToolStatus::Error(m) => ToolStatusView::Error(m@),
    }
}

pub open spec fn entry_view(e: TuiEntry) -> EntryView {
    EntryView {
        role: e.role,
        content: e.content@,
        attachment: match e.attachment {
            TuiAttachment::Plain => AttachmentView::Plain,
            TuiAttachment::Diff { path, before, after } => AttachmentView::Diff {
                path: path@,
                before: before@,
                after: after@,
            },
            TuiAttachment::Image { bytes, media } => AttachmentView::Image { bytes: bytes@, media },
        },
    }
}

pub open spec fn entries_view(es: Seq<TuiEntry>) -> Seq<EntryView> {
    es.map_values(|e: TuiEntry| entry_view(e))
}

pub open spec fn tool_view(t: Option<(String, String, TuiToolStatus)>) -> Option<
    (Seq<char>, Seq<char>, ToolStatusView),
> {
    match t {
        Some((n, a, s)) => Some((n@, a@, status_view(s))),
        None => None,
    }
}

impl View for TuiModel {
    type V = ModelView;

    open spec fn view(&self) -> ModelView {
        ModelView {
            entries: entries_view(self.entries@),
            app_state: self.app_state,
            active_tool: tool_view(self.active_tool),
            streaming_started: self.streaming_started,
            total_tokens: self.total_tokens,
        }
    }
}

pub open spec fn part_view(p: AssistantPart) -> PartView {
    match p {
        AssistantPart::Text(t) => PartView::Text(t@),
        AssistantPart::ToolCall { name, arguments } => PartView::ToolCall {
            name: name@,
            arguments: arguments@,
        },
        AssistantPart::Other => PartView::Other,
    }
}

pub open spec fn source_view(s: ImageSource) -> SourceView {
    SourceView {
        kind: opt_str(s.kind),
        data_array: match s.data_array {
            Some(a) => Some(a@),
            None => None,
        },
        data_str: opt_str(s.data_str),
    }
}

pub open spec fn item_view(i: ToolResultItem) -> ItemView {
    ItemView {
        kind: opt_str(i.kind),
        source: match i.source {
            Some(s) => Some(source_view(s)),
            None => None,
        },
        media_type: opt_str(i.media_type),
    }
}

pub open spec fn edit_view(e: Option<EditFields>) -> Option<
    (Option<Seq<char>>, Option<Seq<char>>, Option<Seq<char>>),
> {
    match e {
        Some((p, b, a)) => Some((opt_str(p), opt_str(b), opt_str(a))),
        None => None,
    }
}

pub open spec fn event_view(e: TuiEvent) -> EventView {
    match e {
        TuiEvent::MessageStart => EventView::MessageStart,
        TuiEvent::TextDelta(d) => EventView::TextDelta(d@),
        TuiEvent::AssistantEnd { tokens, parts } => EventView::AssistantEnd {
            tokens,
            parts: parts@.map_values(|p: AssistantPart| part_view(p)),
        },
        TuiEvent::ToolStart { name, args } => EventView::ToolStart { name: name@, args: args@ },
        TuiEvent::ToolEnd { name, is_error, edit, items } => EventView::ToolEnd {
            name: name@,
            is_error,
            edit: edit_view(edit),
            items: items@.map_values(|i: ToolResultItem| item_view(i)),
        },
        TuiEvent::AgentEnd => EventView::AgentEnd,
        TuiEvent::TurnStart => EventView::TurnStart,
        TuiEvent::CompactionStart { reason } => EventView::CompactionStart { reason: reason@ },
        TuiEvent::CompactionEnd { reason, token_counts, aborted, error_message } => EventView::CompactionEnd {
            reason: reason@,
            token_counts,
            aborted,
            error_message: opt_str(error_message),
        },
        TuiEvent::PersistError(m) => EventView::PersistError(m@),
        TuiEvent::Other => EventView::Other,
    }
}

// ---------------------------------------------------------------------------
// The step
// ---------------------------------------------------------------------------

/// What `base64::engine::general_purpose::STANDARD.decode` gives for `s`:
/// the bytes, or `None` where it refuses the text.
pub uninterp spec fn base64_standard_decoded(s: Seq<char>) -> Option<Seq<u8>>;

/// Decodes standard padded base64 (`STANDARD.decode(..).ok()`); the
/// contract names the result.
#[verifier::external_body]
fn base64_standard_decode(s: &str) -> (r: Option<Vec<u8>>)
    ensures
        match base64_standard_decoded(s@) {
            Some(b) => r matches Some(x) && x@ == b,
            None => r is None,
        },
{
    base64::engine::general_purpose::STANDARD.decode(s).ok()
}

/// A text entry.
pub open spec fn text_entry(role: TuiRole, content: Seq<char>) -> EntryView {
    EntryView { role, content, attachment: AttachmentView::Plain }
}

/// The entries and active tool after the parts of a finished assistant
/// message: text parts are added unless text already streamed, and each
/// tool call becomes the active tool, running.
pub open spec fn end_parts(
    entries: Seq<EntryView>,
    active: Option<(Seq<char>, Seq<char>, ToolStatusView)>,
    streamed: bool,
    parts: Seq<PartView>,
) -> (Seq<EntryView>, Option<(Seq<char>, Seq<char>, ToolStatusView)>)
    decreases parts.len(),
{
    if parts.len() == 0 {
        (entries, active)
    } else {
        let (e, a) = end_parts(entries, active, streamed, parts.drop_last());
        match parts.last() {
            PartView::Text(t) => if streamed {
                (e, a)
            } else {
                (e.push(text_entry(TuiRole::Assistant, t)), a)
            },
            PartView::ToolCall { name, arguments } => (e, Some((name, arguments, ToolStatusView::Running))),
            PartView::Other => (e, a),
        }
    }
}

/// The bytes of a `data` array: each unsigned integer element, truncated
/// to its low byte; other elements are skipped.
pub open spec fn low_bytes(a: Seq<Option<u64>>) -> Seq<u8>
    decreases a.len(),
{
    if a.len() == 0 {
        Seq::empty()
    } else {
        match a.last() {
            Some(n) => low_bytes(a.drop_last()).push((n % 256) as u8),
            None => low_bytes(a.drop_last()),
        }
    }
}

/// The image bytes of a source: its `data` array for type `bytes`, its
/// `data` decoded from standard base64 for type `base64` (nothing where it
/// does not decode), else nothing.
pub open spec fn source_bytes(s: SourceView) -> Seq<u8> {
    if s.kind == Some("bytes"@) {
        match s.data_array {
            Some(a) => low_bytes(a),
            None => Seq::empty(),
        }
    } else if s.kind == Some("base64"@) {
        match s.data_str {
            Some(d) => match base64_standard_decoded(d) {
                Some(b) => b,
                None => Seq::empty(),
            },
            None => Seq::empty(),
        }
    } else {
        Seq::empty()
    }
}

/// The media kind named by a `media_type` (PNG where it names none of the
/// others).
pub open spec fn media_of(m: Option<Seq<char>>) -> TuiMediaKind {
    if m == Some("image/jpeg"@) {
        TuiMediaKind::Jpeg
    } else if m == Some("image/gif"@) {
        TuiMediaKind::Gif
    } else if m == Some("image/webp"@) {
        TuiMediaKind::WebP
    } else {
        TuiMediaKind::Png
    }
}

/// The image entry of a tool result item: an item of type `image` with a
/// source that yields some bytes.
pub open spec fn item_image(i: ItemView) -> Option<EntryView> {
    if i.kind == Some("image"@) {
        match i.source {
            Some(s) => if source_bytes(s).len() > 0 {
                Some(
                    EntryView {
                        role: TuiRole::Tool,
                        content: Seq::empty(),
                        attachment: AttachmentView::Image {
                            bytes: source_bytes(s),
                            media: media_of(i.media_type),
                        },
                    },
                )
            } else {
                None
            },
            None => None,
        }
    } else {
        None
    }
}

/// The image entries of a tool result, in order.
pub open spec fn tool_images(items: Seq<ItemView>) -> Seq<EntryView>
    decreases items.len(),
{
    if items.len() == 0 {
        Seq::empty()
    } else {
        match item_image(items.last()) {
            Some(e) => tool_images(items.drop_last()).push(e),
            None => tool_images(items.drop_last()),
        }
    }
}

/// The diff entry of a finished edit that did not fail.
pub open spec fn edit_entry(
    name: Seq<char>,
    is_error: bool,
    edit: Option<(Option<Seq<char>>, Option<Seq<char>>, Option<Seq<char>>)>,
) -> Seq<EntryView> {
    match edit {
        Some((p, b, a)) => if !is_error && name == "edit"@ {
            seq![
                EntryView {
                    role: TuiRole::Tool,
                    content: Seq::empty(),
                    attachment: AttachmentView::Diff {
                        path: match p {
                            Some(x) => x,
                            None => "unknown"@,
                        },
                        before: match b {
                            Some(x) => x,
                            None => Seq::empty(),
                        },
                        after: match a {
                            Some(x) => x,
                            None => Seq::empty(),
                        },
                    },
                },
            ]
        } else {
            Seq::empty()
        },
        None => Seq::empty(),
    }
}

/// The notice for a finished compaction.
pub open spec fn compaction_end_text(
    reason: Seq<char>,
    tokens: Option<(u64, u64)>,
    aborted: bool,
    error_message: Option<Seq<char>>,
) -> Seq<char> {
    if aborted {
        "[compaction aborted ("@ + reason + "): "@ + match error_message {
            Some(m) => m,
            None => Seq::empty(),
        } + "]"@
    } else {
        match tokens {
            Some((b, a)) => "[compaction done ("@ + reason + "): "@ + decimal(b as nat) + " -> "@
                + decimal(a as nat) + " tokens]"@,
            None => "[compaction done ("@ + reason + ")]"@,
        }
    }
}

/// The event does not overflow the token total.
pub open spec fn tokens_fit(m: ModelView, e: EventView) -> bool {
    match e {
        EventView::AssistantEnd { tokens, .. } => m.total_tokens + tokens <= u64::MAX,
        _ => true,
    }
}

/// The UI state after an event.
pub open spec fn tui_step_spec(m: ModelView, e: EventView) -> ModelView {
    match e {
        EventView::MessageStart => ModelView {
            app_state: TuiAppState::Streaming,
            streaming_started: false,
            ..m
        },
        EventView::TextDelta(d) => if !m.streaming_started {
            ModelView {
                entries: m.entries.push(text_entry(TuiRole::Assistant, d)),
                streaming_started: true,
                ..m
            }
        } else if m.entries.len() > 0 {
            ModelView {
                entries: m.entries.update(
                    m.entries.len() - 1,
                    EntryView { content: m.entries.last().content + d, ..m.entries.last() },
                ),
                ..m
            }
        } else {
            m
        },
        EventView::AssistantEnd { tokens, parts } => {
            let (es, a) = end_parts(m.entries, m.active_tool, m.streaming_started, parts);
            ModelView {
                entries: es,
                active_tool: a,
                streaming_started: false,
                total_tokens: (m.total_tokens + tokens) as u64,
                ..m
            }
        },
        EventView::ToolStart { name, args } => ModelView {
            app_state: TuiAppState::ToolExecuting,
            active_tool: Some((name, args, ToolStatusView::Running)),
            ..m
        },
        EventView::ToolEnd { name, is_error, edit, items } => ModelView {
            entries: m.entries + edit_entry(name, is_error, edit) + tool_images(items),
            active_tool: match m.active_tool {
                Some((n, a, s)) => if n == name {
                    Some(
                        (
                            n,
                            a,
                            if is_error {
                                ToolStatusView::Error("failed"@)
                            } else {
                                ToolStatusView::Success
                            },
                        ),
                    )
                } else {
                    Some((n, a, s))
                },
                None => None,
            },
            app_state: TuiAppState::Streaming,
            ..m
        },
        EventView::AgentEnd => ModelView { app_state: TuiAppState::Idle, active_tool: None, ..m },
        EventView::TurnStart => ModelView { app_state: TuiAppState::Thinking, ..m },
        EventView::CompactionStart { reason } => ModelView {
            entries: m.entries.push(
                text_entry(TuiRole::System, "[compaction started: "@ + reason + "]"@),
            ),
            ..m
        },
        EventView::CompactionEnd { reason, token_counts, aborted, error_message } => ModelView {
            entries: m.entries.push(
                text_entry(
                    TuiRole::System,
                    compaction_end_text(reason, token_counts, aborted, error_message),
                ),
            ),
            ..m
        },
        EventView::PersistError(msg) => ModelView {
            entries: m.entries.push(
                text_entry(TuiRole::System, "[session persist error: "@ + msg + "]"@),
            ),
            ..m
        },
        EventView::Other => m,
    }
}

/// Text streamed after a message starts accumulates in one assistant entry:
/// after the start and two deltas, the transcript has grown by one entry,
/// the assistant's, holding both deltas in order.
pub proof fn lemma_streamed_text_accumulates(m: ModelView, d1: Seq<char>, d2: Seq<char>)
    ensures
        ({
            let s = tui_step_spec(
                tui_step_spec(tui_step_spec(m, EventView::MessageStart), EventView::TextDelta(d1)),
                EventView::TextDelta(d2),
            );
            &&& s.entries.len() == m.entries.len() + 1
            &&& s.entries.last().role == TuiRole::Assistant
            &&& s.entries.last().content == d1 + d2
            &&& s.entries.take(m.entries.len() as int) == m.entries
            &&& s.app_state == TuiAppState::Streaming
        }),
{
    let s1 = tui_step_spec(m, EventView::MessageStart);
    let s2 = tui_step_spec(s1, EventView::TextDelta(d1));
    let s3 = tui_step_spec(s2, EventView::TextDelta(d2));
    assert(s2.entries == m.entries.push(text_entry(TuiRole::Assistant, d1)));
    assert(s3.entries.take(m.entries.len() as int) =~= m.entries);
}

// ---------------------------------------------------------------------------
// Exec
// ---------------------------------------------------------------------------

fn text_entry_of(role: TuiRole, content: String) -> (r: TuiEntry)
    ensures
        entry_view(r) == text_entry(role, content@),
{
    TuiEntry { role, content, attachment: TuiAttachment::Plain }
}

fn push_entry(entries: &mut Vec<TuiEntry>, e: TuiEntry)
    ensures
        entries_view(final(entries)@) == entries_view(old(entries)@).push(entry_view(e)),
{
    let ghost old_es = entries@;
    entries.push(e);
    assert(entries_view(entries@) =~= entries_view(old_es).push(entry_view(e)));
}

/// The bytes of a `data` array (see `low_bytes`).
fn low_bytes_of(a: &Vec<Option<u64>>) -> (r: Vec<u8>)
    ensures
        r@ == low_bytes(a@),
{
    let mut out: Vec<u8> = Vec::new();
    let mut i: usize = 0;
    while i < a.len()
        invariant
            i <= a@.len(),
            out@ == low_bytes(a@.take(i as int)),
        decreases a.len() - i,
    {
        assert(a@.take(i + 1).drop_last() =~= a@.take(i as int));
        match a[i] {
            Some(n) => out.push((n % 256) as u8),
            None => {},
        }
        i += 1;
    }
    assert(a@.take(a@.len() as int) =~= a@);
    out
}

fn opt_is(s: &Option<String>, t: &str) -> (r: bool)
    ensures
        r == (opt_str(*s) == Some(t@)),
{
    match s {
        Some(x) => str_eq(x.as_str(), t),
        None => false,
    }
}

/// The image bytes of a source (see `source_bytes`).
fn source_bytes_of(s: &ImageSource) -> (r: Vec<u8>)
    ensures
        r@ == source_bytes(source_view(*s)),
{
    if opt_is(&s.kind, "bytes") {
        match &s.data_array {
            Some(a) => low_bytes_of(a),
            None => Vec::new(),
        }
    } else if opt_is(&s.kind, "base64") {
        match &s.data_str {
            Some(d) => match base64_standard_decode(d.as_str()) {
                Some(b) => b,
                None => Vec::new(),
            },
            None => Vec::new(),
        }
    } else {
        Vec::new()
    }
}

fn media_of_type(m: &Option<String>) -> (r: TuiMediaKind)
    ensures
        r == media_of(opt_str(*m)),
{
    if opt_is(m, "image/jpeg") {
        TuiMediaKind::Jpeg
    } else if opt_is(m, "image/gif") {
        TuiMediaKind::Gif
    } else if opt_is(m, "image/webp") {
        TuiMediaKind::WebP
    } else {
        TuiMediaKind::Png
    }
}

/// The image entry of a tool result item (see `item_image`).
fn item_image_of(i: &ToolResultItem) -> (r: Option<TuiEntry>)
    ensures
        match item_image(item_view(*i)) {
            Some(e) => r matches Some(x) && entry_view(x) == e,
            None => r is None,
        },
{
    if !opt_is(&i.kind, "image") {
        return None;
    }
    match &i.source {
        Some(s) => {
            let bytes = source_bytes_of(s);
            if bytes.len() > 0 {
                let media = media_of_type(&i.media_type);
                Some(
                    TuiEntry {
                        role: TuiRole::Tool,
                        content: String::new(),
                        attachment: TuiAttachment::Image { bytes, media },
                    },
                )
            } else {
                None
            }
        },
        None => None,
    }
}

/// Add the image entries of a tool result.
fn push_images(entries: &mut Vec<TuiEntry>, items: &Vec<ToolResultItem>)
    ensures
        entries_view(final(entries)@) == entries_view(old(entries)@) + tool_images(
            items@.map_values(|i: ToolResultItem| item_view(i)),
        ),
{
    let ghost iv = items@.map_values(|i: ToolResultItem| item_view(i));
    let ghost start = entries_view(entries@);
    let mut k: usize = 0;
    assert(tool_images(iv.take(0)) =~= Seq::<EntryView>::empty());
    assert(start + Seq::<EntryView>::empty() =~= start);
    while k < items.len()
        invariant
            k <= items@.len(),
            iv == items@.map_values(|i: ToolResultItem| item_view(i)),
            entries_view(entries@) == start + tool_images(iv.take(k as int)),
        decreases items.len() - k,
    {
        assert(iv.take(k + 1).drop_last() =~= iv.take(k as int));
        assert(iv.take(k + 1).last() == item_view(items@[k as int]));
        match item_image_of(&items[k]) {
            Some(e) => {
                push_entry(entries, e);
                assert(start + tool_images(iv.take(k as int)).push(entry_view(e)) =~= (start
                    + tool_images(iv.take(k as int))).push(entry_view(e)));
            },
            None => {},
        }
        k += 1;
    }
    assert(iv.take(items@.len() as int) =~= iv);
}

/// Apply the parts of a finished assistant message (see `end_parts`).
fn apply_parts(
    entries: &mut Vec<TuiEntry>,
    active: &mut Option<(String, String, TuiToolStatus)>,
    streamed: bool,
    parts: Vec<AssistantPart>,
)
    ensures
        (entries_view(final(entries)@), tool_view(*final(active))) == end_parts(
            entries_view(old(entries)@),
            tool_view(*old(active)),
            streamed,
            parts@.map_values(|p: AssistantPart| part_view(p)),
        ),
{
    let ghost pv = parts@.map_values(|p: AssistantPart| part_view(p));
    let ghost e0 = entries_view(entries@);
    let ghost a0 = tool_view(*active);
    let n = parts.len();
    let mut rest = parts;
    let mut stack: Vec<AssistantPart> = Vec::new();
    while rest.len() > 0
        invariant
            rest@.len() + stack@.len() == n,
            n == pv.len(),
            forall|j: int| 0 <= j < rest@.len() ==> part_view(#[trigger] rest@[j]) == pv[j],
            forall|j: int| 0 <= j < stack@.len() ==> part_view(#[trigger] stack@[j]) == pv[n - 1 - j],
        decreases rest.len(),
    {
        let p = rest.pop().unwrap();
        stack.push(p);
    }
    let mut k: usize = 0;
    assert(pv.take(0) =~= Seq::<PartView>::empty());
    while stack.len() > 0
        invariant
            k + stack@.len() == n,
            n == pv.len(),
            forall|j: int| 0 <= j < stack@.len() ==> part_view(#[trigger] stack@[j]) == pv[n - 1 - j],
            (entries_view(entries@), tool_view(*active)) == end_parts(e0, a0, streamed, pv.take(k as int)),
        decreases stack.len(),
    {
        let ghost j = stack@.len() - 1;
        let p = stack.pop().unwrap();
        assert(part_view(p) == pv[k as int]);
        assert(pv.take(k + 1).drop_last() =~= pv.take(k as int));
        assert(pv.take(k + 1).last() == pv[k as int]);
        match p {
            AssistantPart::Text(t) => {
                if !streamed {
                    push_entry(entries, text_entry_of(TuiRole::Assistant, t));
                }
            },
            AssistantPart::ToolCall { name, arguments } => {
                *active = Some((name, arguments, TuiToolStatus::Running));
            },
            AssistantPart::Other => {},
        }
        k += 1;
    }
    assert(pv.take(n as int) =~= pv);
}

/// The notice for a finished compaction (see `compaction_end_text`).
fn compaction_end_notice(
    reason: &str,
    tokens: Option<(u64, u64)>,
    aborted: bool,
    error_message: &Option<String>,
) -> (r: String)
    ensures
        r@ == compaction_end_text(reason@, tokens, aborted, opt_str(*error_message)),
{
    let mut v: Vec<char> = Vec::new();
    if aborted {
        extend_str(&mut v, "[compaction aborted (");
        extend_str(&mut v, reason);
        extend_str(&mut v, "): ");
        match error_message {
            Some(m) => extend_str(&mut v, m.as_str()),
            None => {},
        }
        extend_str(&mut v, "]");
        assert(v@ =~= compaction_end_text(reason@, tokens, aborted, opt_str(*error_message)));
    } else {
        match tokens {
            Some((b, a)) => {
                extend_str(&mut v, "[compaction done (");
                extend_str(&mut v, reason);
                extend_str(&mut v, "): ");
                extend_chars(&mut v, &decimal_chars(b as u128));
                extend_str(&mut v, " -> ");
                extend_chars(&mut v, &decimal_chars(a as u128));
                extend_str(&mut v, " tokens]");
                assert(v@ =~= compaction_end_text(reason@, tokens, aborted, opt_str(*error_message)));
            },
            None => {
                extend_str(&mut v, "[compaction done (");
                extend_str(&mut v, reason);
                extend_str(&mut v, ")]");
                assert(v@ =~= compaction_end_text(reason@, tokens, aborted, opt_str(*error_message)));
            },
        }
    }
    string_of(&v)
}

/// A bracketed system notice: `prefix`, `text`, then `]`.
fn notice(prefix: &str, text: &str) -> (r: String)
    ensures
        r@ == prefix@ + text@ + "]"@,
{
    let mut v = chars_of(prefix);
    extend_str(&mut v, text);
    extend_str(&mut v, "]");
    string_of(&v)
}

/// Apply one agent event to the UI state.
pub fn tui_apply_event(state: &mut TuiModel, event: TuiEvent)
    requires
        tokens_fit(old(state)@, event_view(event)),
    ensures
        final(state)@ == tui_step_spec(old(state)@, event_view(event)),
{
    let ghost m = state@;
    match event {
        TuiEvent::MessageStart => {
            state.app_state = TuiAppState::Streaming;
            state.streaming_started = false;
        },
        TuiEvent::TextDelta(d) => {
            if !state.streaming_started {
                push_entry(&mut state.entries, text_entry_of(TuiRole::Assistant, d));
                state.streaming_started = true;
            } else if state.entries.len() > 0 {
                let ghost es = state.entries@;
                let mut last = state.entries.pop().unwrap();
                let mut c = chars_of(last.content.as_str());
                extend_str(&mut c, d.as_str());
                last.content = string_of(&c);
                let ghost lv = entry_view(last);
                state.entries.push(last);
                assert(entries_view(state.entries@) =~= entries_view(es).update(
                    es.len() - 1,
                    lv,
                ));
            }
        },
        TuiEvent::AssistantEnd { tokens, parts } => {
            let streamed = state.streaming_started;
            apply_parts(&mut state.entries, &mut state.active_tool, streamed, parts);
            state.streaming_started = false;
            state.total_tokens = state.total_tokens + tokens;
        },
        TuiEvent::ToolStart { name, args } => {
            state.app_state = TuiAppState::ToolExecuting;
            state.active_tool = Some((name, args, TuiToolStatus::Running));
        },
        TuiEvent::ToolEnd { name, is_error, edit, items } => {
            let ghost ev = edit_view(edit);
            let ghost es0 = entries_view(state.entries@);
            match edit {
                Some((p, b, a)) => {
                    if !is_error && str_eq(name.as_str(), "edit") {
                        let path = match p {
                            Some(x) => x,
                            None => string_of(&chars_of("unknown")),
                        };
                        let before = match b {
                            Some(x) => x,
                            None => String::new(),
                        };
                        let after = match a {
                            Some(x) => x,
                            None => String::new(),
                        };
                        push_entry(
                            &mut state.entries,
                            TuiEntry {
                                role: TuiRole::Tool,
                                content: String::new(),
                                attachment: TuiAttachment::Diff { path, before, after },
                            },
                        );
                        assert(entries_view(state.entries@) =~= es0 + edit_entry(name@, is_error, ev));
                    } else {
                        assert(entries_view(state.entries@) =~= es0 + edit_entry(name@, is_error, ev));
                    }
                },
                None => {
                    assert(entries_view(state.entries@) =~= es0 + edit_entry(name@, is_error, ev));
                },
            }
            push_images(&mut state.entries, &items);
            let mut old_tool: Option<(String, String, TuiToolStatus)> = None;
            std::mem::swap(&mut old_tool, &mut state.active_tool);
            state.active_tool = match old_tool {
                Some((n, a, s)) => if str_eq(n.as_str(), name.as_str()) {
                    let status = if is_error {
                        TuiToolStatus::Error(string_of(&chars_of("failed")))
                    } else {
                        TuiToolStatus::Success
                    };
                    Some((n, a, status))
                } else {
                    Some((n, a, s))
                },
                None => None,
            };
            state.app_state = TuiAppState::Streaming;
        },
        TuiEvent::AgentEnd => {
            state.app_state = TuiAppState::Idle;
            state.active_tool = None;
        },
        TuiEvent::TurnStart => {
            state.app_state = TuiAppState::Thinking;
        },
        TuiEvent::CompactionStart { reason } => {
            let t = notice("[compaction started: ", reason.as_str());
            push_entry(&mut state.entries, text_entry_of(TuiRole::System, t));
        },
        TuiEvent::CompactionEnd { reason, token_counts, aborted, error_message } => {
            let t = compaction_end_notice(reason.as_str(), token_counts, aborted, &error_message);
            push_entry(&mut state.entries, text_entry_of(TuiRole::System, t));
        },
        TuiEvent::PersistError(msg) => {
            let t = notice("[session persist error: ", msg.as_str());
            push_entry(&mut state.entries, text_entry_of(TuiRole::System, t));
        },
        TuiEvent::Other => {},
    }
}

} // verus!
