//! The decisions of the interactive TUI: what a key press does, what a
//! submitted line asks for, and the pickers for models and sessions.
//!
//! While a prompt runs, editing keys and submit are ignored and abort
//! cancels the run; when idle, abort leaves. A submitted `exit` or `quit`
//! leaves, `/model` and `/session` open a picker, and anything else that is
//! not blank becomes a prompt.
use vstd::prelude::*;

use crate::text::{chars_of, decimal, decimal_chars, extend_chars, extend_str, str_eq, string_of, trim, trim_chars};

verus! {

/// A key as the terminal reports it.
#[derive(Debug, Clone, Copy, PartialEq, Eq, Structural)]
pub enum KeyCodeKind {
    Enter,
    Esc,
    Tab,
    Backspace,
    Up,
    Down,
    PageUp,
    PageDown,
    Char(char),
    Other,
}

/// A key press with its modifiers.
#[derive(Debug, Clone, Copy, PartialEq, Eq, Structural)]
pub struct KeyPress {
    pub code: KeyCodeKind,
    pub alt: bool,
    pub ctrl: bool,
    pub shift: bool,
}

/// The key of a configured binding.
#[derive(Debug, Clone, Copy, PartialEq, Eq, Structural)]
pub enum ComboKey {
    Enter,
    Escape,
    Tab,
    Backspace,
    Char(char),
}

/// A configured key binding: a key and the modifiers it needs.
#[derive(Debug, Clone, Copy, PartialEq, Eq, Structural)]
pub struct KeyCombo {
    pub key: ComboKey,
    pub alt: bool,
    pub ctrl: bool,
    pub shift: bool,
}

/// The bindings of the editor.
#[derive(Debug, Clone, Copy, PartialEq, Eq, Structural)]
pub struct Keybindings {
    pub submit: KeyCombo,
    pub abort: KeyCombo,
    pub new_line: KeyCombo,
}

/// The key is the combo's key.
pub open spec fn key_is(code: KeyCodeKind, key: ComboKey) -> bool {
    match (code, key) {
        (KeyCodeKind::Enter, ComboKey::Enter) => true,
        (KeyCodeKind::Esc, ComboKey::Escape) => true,
        (KeyCodeKind::Tab, ComboKey::Tab) => true,
        (KeyCodeKind::Backspace, ComboKey::Backspace) => true,
        (KeyCodeKind::Char(c), ComboKey::Char(e)) => c == e,
        _ => false,
    }
}

/// The press matches the combo: the same key, and exactly the same
/// modifiers.
pub open spec fn combo_matches(k: KeyPress, c: KeyCombo) -> bool {
    key_is(k.code, c.key) && c.alt == k.alt && c.ctrl == k.ctrl && c.shift == k.shift
}

/// Whether a key press matches a binding.
pub fn matches_key_combo(k: KeyPress, c: KeyCombo) -> (r: bool)
    ensures
        r == combo_matches(k, c),
{
    let key_matches = match (k.code, c.key) {
        (KeyCodeKind::Enter, ComboKey::Enter) => true,
        (KeyCodeKind::Esc, ComboKey::Escape) => true,
        (KeyCodeKind::Tab, ComboKey::Tab) => true,
        (KeyCodeKind::Backspace, ComboKey::Backspace) => true,
        (KeyCodeKind::Char(x), ComboKey::Char(e)) => x == e,
        _ => false,
    };
    if !key_matches {
        return false;
    }
    c.alt == k.alt && c.ctrl == k.ctrl && c.shift == k.shift
}

// ---------------------------------------------------------------------------
// The editor
// ---------------------------------------------------------------------------

/// What a key press does to the editor.
#[derive(Debug, Clone, Copy, PartialEq, Eq, Structural)]
pub enum EditorKey {
    /// Submit the input line.
    Submit,
    /// Cancel the running prompt.
    Cancel,
    /// Leave the TUI.
    Exit,
    /// Add a line break to the input.
    NewLine,
    /// Add a character to the input.
    Insert(char),
    /// Remove the last character of the input.
    DeleteLast,
    /// Nothing.
    Ignore,
}

/// What a key press does, given whether a prompt is running (`busy`). The
/// bindings are tried in order: submit, abort, new line; then plain keys
/// edit the input.
pub open spec fn editor_key_spec(k: KeyPress, b: Keybindings, busy: bool) -> EditorKey {
    if combo_matches(k, b.submit) {
        if busy {
            EditorKey::Ignore
        } else {
            EditorKey::Submit
        }
    } else if combo_matches(k, b.abort) {
        if busy {
            EditorKey::Cancel
        } else {
            EditorKey::Exit
        }
    } else if combo_matches(k, b.new_line) {
        if busy {
            EditorKey::Ignore
        } else {
            EditorKey::NewLine
        }
    } else if busy {
        EditorKey::Ignore
    } else {
        match k.code {
            KeyCodeKind::Char(c) => EditorKey::Insert(c),
            KeyCodeKind::Backspace => EditorKey::DeleteLast,
            _ => EditorKey::Ignore,
        }
    }
}

/// What a key press does to the editor.
pub fn editor_key(k: KeyPress, b: Keybindings, busy: bool) -> (r: EditorKey)
    ensures
        r == editor_key_spec(k, b, busy),
{
    if matches_key_combo(k, b.submit) {
        if busy {
            EditorKey::Ignore
        } else {
            EditorKey::Submit
        }
    } else if matches_key_combo(k, b.abort) {
        if busy {
            EditorKey::Cancel
        } else {
            EditorKey::Exit
        }
    } else if matches_key_combo(k, b.new_line) {
        if busy {
            EditorKey::Ignore
        } else {
            EditorKey::NewLine
        }
    } else if busy {
        EditorKey::Ignore
    } else {
        match k.code {
            KeyCodeKind::Char(c) => EditorKey::Insert(c),
            KeyCodeKind::Backspace => EditorKey::DeleteLast,
            _ => EditorKey::Ignore,
        }
    }
}

/// What a submitted line asks for.
#[derive(Debug)]
pub enum SubmitAction {
    /// Leave the TUI (cancelling a running prompt).
    Exit,
    /// Nothing: the line is blank.
    Ignore,
    /// Open the model picker.
    OpenModelPicker,
    /// Open the session picker.
    OpenSessionPicker,
    /// Send this prompt.
    Prompt(String),
}

/// What a submitted line asks for, by its trimmed text.
pub open spec fn submit_spec(input: Seq<char>) -> SubmitView {
    let t = trim(input);
    if t == "exit"@ || t == "quit"@ {
        SubmitView::Exit
    } else if t.len() == 0 {
        SubmitView::Ignore
    } else if t == "/model"@ {
        SubmitView::OpenModelPicker
    } else if t == "/session"@ {
        SubmitView::OpenSessionPicker
    } else {
        SubmitView::Prompt(t)
    }
}

/// A submit action as plain values.
pub enum SubmitView {
    Exit,
    Ignore,
    OpenModelPicker,
    OpenSessionPicker,
    Prompt(Seq<char>),
}

/// A submit action as plain values.
pub open spec fn submit_view(a: SubmitAction) -> SubmitView {
    match a {
        SubmitAction::Exit => SubmitView::Exit,
        SubmitAction::Ignore => SubmitView::Ignore,
        SubmitAction::OpenModelPicker => SubmitView::OpenModelPicker,
        SubmitAction::OpenSessionPicker => SubmitView::OpenSessionPicker,
        SubmitAction::Prompt(p) => SubmitView::Prompt(p@),
    }
}

/// What a submitted line asks for; the input is cleared in every case.
pub fn submit_action(input: &str) -> (r: SubmitAction)
    ensures
        submit_view(r) == submit_spec(input@),
{
    let tc = trim_chars(&chars_of(input));
    let t = string_of(&tc);
    let ts = t.as_str();
    if str_eq(ts, "exit") || str_eq(ts, "quit") {
        SubmitAction::Exit
    } else if tc.len() == 0 {
        SubmitAction::Ignore
    } else if str_eq(ts, "/model") {
        SubmitAction::OpenModelPicker
    } else if str_eq(ts, "/session") {
        SubmitAction::OpenSessionPicker
    } else {
        SubmitAction::Prompt(t)
    }
}

// ---------------------------------------------------------------------------
// Pickers
// ---------------------------------------------------------------------------

/// What a picker chooses.
#[derive(Debug, Clone, Copy, PartialEq, Eq, Structural)]
pub enum PickerKind {
    Model,
    Session,
}

/// What closing a picker asks for.
#[derive(Debug)]
pub enum PickerAction {
    SelectModel(String),
    SelectSession(String),
    Cancel,
}

/// A change of the picker's list.
#[derive(Debug)]
pub enum PickerCommand {
    MoveDown,
    MoveUp,
    PageDown(usize),
    PageUp(usize),
    /// Show only the items that match this filter.
    SetFilter(String),
}

/// What a key press does while a picker is open.
#[derive(Debug)]
pub enum PickerStep {
    /// Close the picker and do this.
    Close(PickerAction),
    /// Keep it open and change its list.
    Update(PickerCommand),
    /// Nothing.
    Ignore,
}

/// A picker step as plain values: 0 close with a model, 1 close with a
/// session, 2 cancel, 3 move down, 4 move up, 5 page down, 6 page up, 7 set
/// the filter, 8 nothing; with the text it carries.
pub open spec fn picker_step_view(s: PickerStep) -> (u8, Seq<char>) {
    match s {
        PickerStep::Close(PickerAction::SelectModel(m)) => (0, m@),
        PickerStep::Close(PickerAction::SelectSession(id)) => (1, id@),
        PickerStep::Close(PickerAction::Cancel) => (2, Seq::empty()),
        PickerStep::Update(PickerCommand::MoveDown) => (3, Seq::empty()),
        PickerStep::Update(PickerCommand::MoveUp) => (4, Seq::empty()),
        PickerStep::Update(PickerCommand::PageDown(_)) => (5, Seq::empty()),
        PickerStep::Update(PickerCommand::PageUp(_)) => (6, Seq::empty()),
        PickerStep::Update(PickerCommand::SetFilter(f)) => (7, f@),
        PickerStep::Ignore => (8, Seq::empty()),
    }
}

/// What a key does in a picker of `kind` whose filter is `filter` and
/// whose list would confirm `confirmed`: Esc cancels; Enter chooses the
/// confirmed item (or cancels when there is none); arrows and page keys move
/// (by ten for a page); Backspace and characters edit the filter.
pub open spec fn picker_key_spec(kind: PickerKind, code: KeyCodeKind, filter: Seq<char>, confirmed: Option<Seq<char>>) -> (
    u8,
    Seq<char>,
) {
    match code {
        KeyCodeKind::Esc => (2, Seq::empty()),
        KeyCodeKind::Enter => match confirmed {
            Some(id) => match kind {
                PickerKind::Model => (0, id),
                PickerKind::Session => (1, id),
            },
            None => (2, Seq::empty()),
        },
        KeyCodeKind::Down => (3, Seq::empty()),
        KeyCodeKind::Up => (4, Seq::empty()),
        KeyCodeKind::PageDown => (5, Seq::empty()),
        KeyCodeKind::PageUp => (6, Seq::empty()),
        KeyCodeKind::Backspace => (
            7,
            if filter.len() == 0 {
                filter
            } else {
                filter.drop_last()
            },
        ),
        KeyCodeKind::Char(c) => (7, filter.push(c)),
        _ => (8, Seq::empty()),
    }
}

/// What a key does while a picker is open.
pub fn picker_key_step(kind: PickerKind, code: KeyCodeKind, filter: &str, confirmed: Option<String>) -> (r:
    PickerStep)
    ensures
        picker_step_view(r) == picker_key_spec(
            kind,
            code,
            filter@,
            match confirmed {
                Some(c) => Some(c@),
                None => None,
            },
        ),
        r matches PickerStep::Update(PickerCommand::PageDown(n)) ==> n == 10,
        r matches PickerStep::Update(PickerCommand::PageUp(n)) ==> n == 10,
{
    match code {
        KeyCodeKind::Esc => PickerStep::Close(PickerAction::Cancel),
        KeyCodeKind::Enter => match confirmed {
            Some(id) => match kind {
                PickerKind::Model => PickerStep::Close(PickerAction::SelectModel(id)),
                PickerKind::Session => PickerStep::Close(PickerAction::SelectSession(id)),
            },
            None => PickerStep::Close(PickerAction::Cancel),
        },
        KeyCodeKind::Down => PickerStep::Update(PickerCommand::MoveDown),
        KeyCodeKind::Up => PickerStep::Update(PickerCommand::MoveUp),
        KeyCodeKind::PageDown => PickerStep::Update(PickerCommand::PageDown(10)),
        KeyCodeKind::PageUp => PickerStep::Update(PickerCommand::PageUp(10)),
        KeyCodeKind::Backspace => {
            let mut f = chars_of(filter);
            if f.len() > 0 {
                f.pop();
            }
            PickerStep::Update(PickerCommand::SetFilter(string_of(&f)))
        },
        KeyCodeKind::Char(c) => {
            let mut f = chars_of(filter);
            f.push(c);
            PickerStep::Update(PickerCommand::SetFilter(string_of(&f)))
        },
        _ => PickerStep::Ignore,
    }
}

// ---------------------------------------------------------------------------
// Messages
// ---------------------------------------------------------------------------

/// The notice after switching models.
pub fn model_switched_message(model: &str) -> (r: String)
    ensures
        r@ == "[model switched: "@ + model@ + "]"@,
{
    let mut v = chars_of("[model switched: ");
    extend_str(&mut v, model);
    extend_str(&mut v, "]");
    string_of(&v)
}

/// The notice after resuming a session, or trying to.
pub fn session_resumed_message(session_id: &str, result: Result<u64, String>) -> (r: String)
    ensures
        match result {
            Ok(n) => r@ == "[session resumed: "@ + session_id@ + ", "@ + decimal(n as nat)
                + " messages]"@,
            Err(e) => r@ == "[session resume failed: "@ + e@ + "]"@,
        },
{
    match result {
        Ok(n) => {
            let mut v = chars_of("[session resumed: ");
            extend_str(&mut v, session_id);
            extend_str(&mut v, ", ");
            extend_chars(&mut v, &decimal_chars(n as u128));
            extend_str(&mut v, " messages]");
            string_of(&v)
        },
        Err(e) => {
            let mut v = chars_of("[session resume failed: ");
            extend_str(&mut v, e.as_str());
            extend_str(&mut v, "]");
            string_of(&v)
        },
    }
}

/// The notice when a picker has nothing to offer.
pub fn empty_picker_message(kind: PickerKind) -> (r: &'static str)
    ensures
        r@ == match kind {
            PickerKind::Model => "[model picker: no models available]"@,
            PickerKind::Session => "[session picker: no sessions available]"@,
        },
{
    match kind {
        PickerKind::Model => "[model picker: no models available]",
        PickerKind::Session => "[session picker: no sessions available]",
    }
}

/// The title of a picker.
pub fn picker_title(kind: PickerKind) -> (r: &'static str)
    ensures
        r@ == match kind {
            PickerKind::Model => "Select model"@,
            PickerKind::Session => "Resume session"@,
        },
{
    match kind {
        PickerKind::Model => "Select model",
        PickerKind::Session => "Resume session",
    }
}

/// The notice of a prompt that failed (other than by cancellation).
pub fn prompt_error_message(error: &str) -> (r: String)
    ensures
        r@ == "error: "@ + error@,
{
    let mut v = chars_of("error: ");
    extend_str(&mut v, error);
    string_of(&v)
}

} // verus!
