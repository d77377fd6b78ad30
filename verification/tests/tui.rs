use opi_coding_agent::interactive::{
    editor_key, empty_picker_message, matches_key_combo, model_switched_message, picker_key_step,
    session_resumed_message, submit_action, ComboKey, EditorKey, KeyCodeKind, KeyCombo, KeyPress,
    Keybindings, PickerAction, PickerCommand, PickerKind, PickerStep, SubmitAction,
};
use opi_coding_agent::model_listing::{model_table_lines, ModelEntry};
use opi_coding_agent::picker::{branch_picker_items, model_picker_items, session_picker_items, short_cwd_of, BranchInfo};
use opi_coding_agent::session_cli::SessionInfo;
use opi_coding_agent::tui_state::{
    tui_apply_event, AssistantPart, ImageSource, ToolResultItem, TuiAppState, TuiAttachment,
    TuiEvent, TuiMediaKind, TuiModel, TuiRole, TuiToolStatus,
};

fn key(code: KeyCodeKind) -> KeyPress {
    KeyPress { code, alt: false, ctrl: false, shift: false }
}

fn bindings() -> Keybindings {
    Keybindings {
        submit: KeyCombo { key: ComboKey::Enter, alt: false, ctrl: false, shift: false },
        abort: KeyCombo { key: ComboKey::Char('c'), alt: false, ctrl: true, shift: false },
        new_line: KeyCombo { key: ComboKey::Enter, alt: false, ctrl: false, shift: true },
    }
}

#[test]
fn model_picker_enter_returns_selected_model() {
    let step = picker_key_step(PickerKind::Model, KeyCodeKind::Enter, "", Some("mock:new".to_string()));
    match step {
        PickerStep::Close(PickerAction::SelectModel(m)) => assert_eq!(m, "mock:new"),
        other => panic!("unexpected {other:?}"),
    }
}

#[test]
fn session_picker_enter_returns_selected_session() {
    let step = picker_key_step(PickerKind::Session, KeyCodeKind::Enter, "", Some("mock:new".to_string()));
    match step {
        PickerStep::Close(PickerAction::SelectSession(s)) => assert_eq!(s, "mock:new"),
        other => panic!("unexpected {other:?}"),
    }
}

#[test]
fn picker_keys_edit_the_filter_and_move() {
    assert!(matches!(
        picker_key_step(PickerKind::Model, KeyCodeKind::Esc, "x", None),
        PickerStep::Close(PickerAction::Cancel)
    ));
    assert!(matches!(
        picker_key_step(PickerKind::Model, KeyCodeKind::Enter, "x", None),
        PickerStep::Close(PickerAction::Cancel)
    ));
    match picker_key_step(PickerKind::Model, KeyCodeKind::Char('é'), "ab", None) {
        PickerStep::Update(PickerCommand::SetFilter(f)) => assert_eq!(f, "abé"),
        other => panic!("unexpected {other:?}"),
    }
    match picker_key_step(PickerKind::Model, KeyCodeKind::Backspace, "abé", None) {
        PickerStep::Update(PickerCommand::SetFilter(f)) => assert_eq!(f, "ab"),
        other => panic!("unexpected {other:?}"),
    }
    assert!(matches!(
        picker_key_step(PickerKind::Session, KeyCodeKind::PageDown, "", None),
        PickerStep::Update(PickerCommand::PageDown(10))
    ));
    assert!(matches!(picker_key_step(PickerKind::Session, KeyCodeKind::Tab, "", None), PickerStep::Ignore));
}

#[test]
fn key_combos_need_exact_modifiers() {
    let combo = KeyCombo { key: ComboKey::Char('c'), alt: false, ctrl: true, shift: false };
    assert!(matches_key_combo(KeyPress { code: KeyCodeKind::Char('c'), alt: false, ctrl: true, shift: false }, combo));
    assert!(!matches_key_combo(KeyPress { code: KeyCodeKind::Char('c'), alt: true, ctrl: true, shift: false }, combo));
    assert!(!matches_key_combo(key(KeyCodeKind::Char('c')), combo));
}

#[test]
fn editor_keys_depend_on_a_running_prompt() {
    let b = bindings();
    assert_eq!(editor_key(key(KeyCodeKind::Enter), b, false), EditorKey::Submit);
    assert_eq!(editor_key(key(KeyCodeKind::Enter), b, true), EditorKey::Ignore);
    let ctrl_c = KeyPress { code: KeyCodeKind::Char('c'), alt: false, ctrl: true, shift: false };
    assert_eq!(editor_key(ctrl_c, b, true), EditorKey::Cancel);
    assert_eq!(editor_key(ctrl_c, b, false), EditorKey::Exit);
    let shift_enter = KeyPress { code: KeyCodeKind::Enter, alt: false, ctrl: false, shift: true };
    assert_eq!(editor_key(shift_enter, b, false), EditorKey::NewLine);
    assert_eq!(editor_key(key(KeyCodeKind::Char('x')), b, false), EditorKey::Insert('x'));
    assert_eq!(editor_key(key(KeyCodeKind::Char('x')), b, true), EditorKey::Ignore);
    assert_eq!(editor_key(key(KeyCodeKind::Backspace), b, false), EditorKey::DeleteLast);
}

#[test]
fn submitted_lines() {
    assert!(matches!(submit_action("  quit "), SubmitAction::Exit));
    assert!(matches!(submit_action("exit"), SubmitAction::Exit));
    assert!(matches!(submit_action("   "), SubmitAction::Ignore));
    assert!(matches!(submit_action("/model"), SubmitAction::OpenModelPicker));
    assert!(matches!(submit_action("/session"), SubmitAction::OpenSessionPicker));
    match submit_action("  fix the bug \n") {
        SubmitAction::Prompt(p) => assert_eq!(p, "fix the bug"),
        other => panic!("unexpected {other:?}"),
    }
}

#[test]
fn notices() {
    assert_eq!(model_switched_message("a:b"), "[model switched: a:b]");
    assert_eq!(session_resumed_message("s1", Ok(4)), "[session resumed: s1, 4 messages]");
    assert_eq!(session_resumed_message("s1", Err("gone".to_string())), "[session resume failed: gone]");
    assert_eq!(empty_picker_message(PickerKind::Session), "[session picker: no sessions available]");
}

fn model(p: &str, m: &str, d: &str) -> ModelEntry {
    ModelEntry { provider_id: p.to_string(), model_id: m.to_string(), display_name: d.to_string() }
}

#[test]
fn model_table() {
    let lines = model_table_lines(&vec![model("openai", "gpt-4o", "GPT-4o"), model("x", "m", "Long display")]);
    assert_eq!(
        lines,
        vec![
            "PROVIDER  MODEL ID  DISPLAY NAME",
            "------  ------  ------------",
            "openai  gpt-4o  GPT-4o",
            "x       m       Long display",
        ]
    );
}

#[test]
fn picker_items() {
    let items = model_picker_items(&vec![model("openai", "gpt-4o", "GPT-4o")]);
    assert_eq!((items[0].id.as_str(), items[0].display.as_str(), items[0].metadata.as_str()), ("openai:gpt-4o", "GPT-4o", "openai"));
    let branches = vec![
        BranchInfo { fork_point: None, summary: None, entry_count: 3, depth: 3, tip_id: "t1".to_string() },
        BranchInfo {
            fork_point: Some("e2".to_string()),
            summary: Some("try b".to_string()),
            entry_count: 2,
            depth: 4,
            tip_id: "t2".to_string(),
        },
    ];
    let items = branch_picker_items(&branches, Some(1));
    assert_eq!(items[0].display, "Trunk");
    assert_eq!(items[0].metadata, "3 entries, depth 3, tip t1");
    assert_eq!(items[1].display, "Branch 2: try b");
    assert_eq!(items[1].metadata, "2 entries, depth 4, tip t2, active");
}

#[test]
fn long_session_directories_are_shortened() {
    assert_eq!(short_cwd_of("/short"), "/short");
    let long = "/home/user/projects/some/deeply/nested/workspace/dir";
    let short = short_cwd_of(long);
    assert_eq!(short, format!("...{}", &long[long.len() - 37..]));
    let wide = format!("/{}", "é".repeat(30));
    let s = short_cwd_of(&wide);
    assert!(s.starts_with("..."));
    assert!(wide.ends_with(&s[3..]));
    assert_eq!(s.len() - 3, 38);
    let items = session_picker_items(&vec![SessionInfo {
        id: "s1".to_string(),
        timestamp: "2024-01-01T00:00:00Z".to_string(),
        cwd: "/w".to_string(),
        parent_session: None,
    }]);
    assert_eq!((items[0].id.as_str(), items[0].display.as_str(), items[0].metadata.as_str()), ("s1", "/w", "2024-01-01T00:00:00Z"));
}

fn empty_model() -> TuiModel {
    TuiModel {
        entries: Vec::new(),
        app_state: TuiAppState::Idle,
        active_tool: None,
        streaming_started: false,
        total_tokens: 0,
    }
}

#[test]
fn streamed_text_and_tokens_accumulate() {
    let mut m = empty_model();
    tui_apply_event(&mut m, TuiEvent::TurnStart);
    assert_eq!(m.app_state, TuiAppState::Thinking);
    tui_apply_event(&mut m, TuiEvent::MessageStart);
    tui_apply_event(&mut m, TuiEvent::TextDelta("Hel".to_string()));
    tui_apply_event(&mut m, TuiEvent::TextDelta("lo".to_string()));
    assert_eq!(m.entries.len(), 1);
    assert_eq!(m.entries[0].content, "Hello");
    assert_eq!(m.entries[0].role, TuiRole::Assistant);
    tui_apply_event(&mut m, TuiEvent::AssistantEnd {
        tokens: 42,
        parts: vec![
            AssistantPart::Text("Hello".to_string()),
            AssistantPart::ToolCall { name: "read".to_string(), arguments: "{}".to_string() },
        ],
    });
    assert_eq!(m.entries.len(), 1);
    assert_eq!(m.total_tokens, 42);
    assert!(!m.streaming_started);
    assert!(matches!(&m.active_tool, Some((n, a, TuiToolStatus::Running)) if n == "read" && a == "{}"));
    tui_apply_event(&mut m, TuiEvent::AssistantEnd { tokens: 8, parts: vec![AssistantPart::Text("Again".to_string())] });
    assert_eq!(m.total_tokens, 50);
    assert_eq!(m.entries.len(), 2);
    assert_eq!(m.entries[1].content, "Again");
}

#[test]
fn tool_end_adds_diff_and_images_and_sets_status() {
    let mut m = empty_model();
    tui_apply_event(&mut m, TuiEvent::ToolStart { name: "edit".to_string(), args: "{\"path\":\"a\"}".to_string() });
    assert_eq!(m.app_state, TuiAppState::ToolExecuting);
    let items = vec![
        ToolResultItem {
            kind: Some("image".to_string()),
            source: Some(ImageSource { kind: Some("bytes".to_string()), data_array: Some(vec![Some(1), None, Some(300)]), data_str: None }),
            media_type: Some("image/gif".to_string()),
        },
        ToolResultItem {
            kind: Some("image".to_string()),
            source: Some(ImageSource { kind: Some("base64".to_string()), data_array: None, data_str: Some("AAEC".to_string()) }),
            media_type: None,
        },
        ToolResultItem {
            kind: Some("image".to_string()),
            source: Some(ImageSource { kind: Some("base64".to_string()), data_array: None, data_str: Some("!!".to_string()) }),
            media_type: None,
        },
        ToolResultItem { kind: Some("text".to_string()), source: None, media_type: None },
    ];
    tui_apply_event(&mut m, TuiEvent::ToolEnd {
        name: "edit".to_string(),
        is_error: false,
        edit: Some((Some("src/a.rs".to_string()), None, Some("new".to_string()))),
        items,
    });
    assert_eq!(m.entries.len(), 3);
    match &m.entries[0].attachment {
        TuiAttachment::Diff { path, before, after } => {
            assert_eq!(path, "src/a.rs");
            assert_eq!(before, "");
            assert_eq!(after, "new");
        }
        other => panic!("unexpected {other:?}"),
    }
    match &m.entries[1].attachment {
        TuiAttachment::Image { bytes, media } => {
            assert_eq!(bytes, &vec![1u8, 44u8]);
            assert_eq!(*media, TuiMediaKind::Gif);
        }
        other => panic!("unexpected {other:?}"),
    }
    match &m.entries[2].attachment {
        TuiAttachment::Image { bytes, media } => {
            assert_eq!(bytes, &vec![0u8, 1u8, 2u8]);
            assert_eq!(*media, TuiMediaKind::Png);
        }
        other => panic!("unexpected {other:?}"),
    }
    assert!(matches!(&m.active_tool, Some((n, _, TuiToolStatus::Success)) if n == "edit"));
    assert_eq!(m.app_state, TuiAppState::Streaming);
    tui_apply_event(&mut m, TuiEvent::ToolEnd { name: "edit".to_string(), is_error: true, edit: None, items: Vec::new() });
    assert!(matches!(&m.active_tool, Some((_, _, TuiToolStatus::Error(e))) if e == "failed"));
    tui_apply_event(&mut m, TuiEvent::AgentEnd);
    assert!(m.active_tool.is_none());
    assert_eq!(m.app_state, TuiAppState::Idle);
}

#[test]
fn compaction_and_persist_notices() {
    let mut m = empty_model();
    tui_apply_event(&mut m, TuiEvent::CompactionStart { reason: "Threshold".to_string() });
    tui_apply_event(&mut m, TuiEvent::CompactionEnd { reason: "Threshold".to_string(), token_counts: Some((1200, 300)), aborted: false, error_message: None });
    tui_apply_event(&mut m, TuiEvent::CompactionEnd { reason: "Manual".to_string(), token_counts: None, aborted: true, error_message: Some("boom".to_string()) });
    tui_apply_event(&mut m, TuiEvent::CompactionEnd { reason: "Manual".to_string(), token_counts: None, aborted: false, error_message: None });
    tui_apply_event(&mut m, TuiEvent::PersistError("disk full".to_string()));
    let texts: Vec<&str> = m.entries.iter().map(|e| e.content.as_str()).collect();
    assert_eq!(texts, vec![
        "[compaction started: Threshold]",
        "[compaction done (Threshold): 1200 -> 300 tokens]",
        "[compaction aborted (Manual): boom]",
        "[compaction done (Manual)]",
        "[session persist error: disk full]",
    ]);
    assert!(m.entries.iter().all(|e| e.role == TuiRole::System));
}
