use opi_coding_agent::config::{
    project_config_path, resolve_layers, user_config_dir, AzureProviderFile, BedrockProviderFile,
    CompactionFile, ConfigFile, DefaultsFile, GenericProviderFile, KeybindingsFile, OpiConfig,
    OpenRouterProviderFile, ProvidersFile, RetryConfig, RetryFile, ThinkingFile, VertexProviderFile,
};
use opi_coding_agent::policy::{
    filter_tool_names, is_mutating_tool, resolve_tool_selection, RunMode, ToolFlags, ToolRuntimeConfig,
    ToolSelection,
};
use opi_coding_agent::rpc::{rpc_command_gate, rpc_run_finished, RpcAction, RpcCommandKind, RpcState};
use opi_coding_agent::session_cli::{
    format_sessions, is_session_file_name, session_file, validate_session_id, SessionCliError, SessionInfo,
};
use opi_coding_agent::session_coordinator::{days_to_ymd, entry_id, entry_seq, generate_session_id, now_iso, seq_after_entries};

fn generic() -> GenericProviderFile {
    GenericProviderFile { api_key_env: None, base_url: None, proxy: None }
}

fn empty_file() -> ConfigFile {
    ConfigFile {
        defaults: DefaultsFile {
            model: None,
            max_iterations: None,
            tool_timeout_ms: None,
            max_image_bytes: None,
            theme: None,
            allow_mutating_tools: None,
        },
        thinking: ThinkingFile { enabled: None, budget_tokens: None },
        providers: ProvidersFile {
            anthropic: generic(),
            bedrock: BedrockProviderFile {
                access_key_id: None,
                secret_access_key_env: None,
                session_token_env: None,
                region: None,
                profile: None,
                base_url: None,
                proxy: None,
            },
            openai: generic(),
            openrouter: OpenRouterProviderFile { api_key_env: None, base_url: None, referer: None, proxy: None },
            mistral: generic(),
            openai_responses: generic(),
            gemini: generic(),
            azure: AzureProviderFile { api_key_env: None, endpoint: None, api_version: None, deployments: None, proxy: None },
            vertex: VertexProviderFile {
                access_token_env: None,
                project: None,
                location: None,
                models: None,
                base_url: None,
                proxy: None,
            },
        },
        keybindings: KeybindingsFile { submit: None, abort: None, new_line: None },
        retry: RetryFile { max_attempts: None, initial_delay_ms: None, max_delay_ms: None },
        compaction: CompactionFile { enabled: None, threshold_tokens: None },
    }
}

fn with_model(m: &str) -> ConfigFile {
    let mut f = empty_file();
    f.defaults.model = Some(m.to_string());
    f
}

fn base() -> OpiConfig {
    OpiConfig::with_runtime_defaults(
        "base:model".to_string(),
        RetryConfig { max_attempts: 3, initial_delay_ms: 100, max_delay_ms: 1000 },
        1024,
    )
}

#[test]
fn model_precedence() {
    let r = resolve_layers(base(), None, None, None, None);
    assert_eq!(r.defaults.model, "base:model");
    let r = resolve_layers(base(), Some(with_model("proj:m")), None, None, None);
    assert_eq!(r.defaults.model, "proj:m");
    let r = resolve_layers(base(), Some(with_model("proj:m")), None, Some("env:m".to_string()), None);
    assert_eq!(r.defaults.model, "env:m");
    let r = resolve_layers(base(), Some(with_model("proj:m")), Some(with_model("explicit:m")), Some("env:m".to_string()), None);
    assert_eq!(r.defaults.model, "explicit:m");
    let r = resolve_layers(base(), None, Some(empty_file()), Some("env:m".to_string()), None);
    assert_eq!(r.defaults.model, "base:model");
    let r = resolve_layers(base(), Some(with_model("p:m")), Some(with_model("e:m")), Some("env:m".to_string()), Some("cli:m".to_string()));
    assert_eq!(r.defaults.model, "cli:m");
}

#[test]
fn empty_layer_keeps_configuration() {
    let r = resolve_layers(base(), Some(empty_file()), None, None, None);
    assert_eq!(r.defaults.model, "base:model");
    assert_eq!(r.defaults.max_image_bytes, 1024);
    assert_eq!(r.retry.max_attempts, 3);
}

#[test]
fn config_paths() {
    assert_eq!(user_config_dir(Some("/h")), "/h/.config/opi");
    assert_eq!(project_config_path("/w"), "/w/.opi/config.toml");
}

#[test]
fn session_ids_must_be_safe() {
    assert!(validate_session_id("abc-123").is_ok());
    for bad in ["", "a/b", "a\\b", "..", "x..y"] {
        assert!(matches!(validate_session_id(bad), Err(SessionCliError::NotFound(_))));
    }
    assert_eq!(session_file("/s", "abc").unwrap(), "/s/abc.jsonl");
    assert!(is_session_file_name("x.jsonl"));
    assert!(!is_session_file_name("x.json"));
}

#[test]
fn session_listing() {
    let s = vec![
        SessionInfo { id: "a".to_string(), timestamp: "t1".to_string(), cwd: "/w".to_string(), parent_session: None },
        SessionInfo { id: "b".to_string(), timestamp: "t2".to_string(), cwd: "/v".to_string(), parent_session: Some("a".to_string()) },
    ];
    assert_eq!(format_sessions(&s), "a  t1  /w\nb  t2  /v  (parent: a)");
}

#[test]
fn session_ids_and_times() {
    assert_eq!(generate_session_id(255), "ff");
    assert_eq!(now_iso(0), "1970-01-01T00:00:00Z");
    assert_eq!(now_iso(951_782_400), "2000-02-29T00:00:00Z");
    assert_eq!(days_to_ymd(19_723), (2024, 1, 1));
    assert_eq!(entry_id("e", 7), "e-7");
    assert_eq!(entry_seq("e-7"), 7);
    let ids = vec!["e-3".to_string(), "e-9".to_string()];
    assert_eq!(seq_after_entries(1, &ids), 10);
}

#[test]
fn tool_policy() {
    assert!(is_mutating_tool("bash") && is_mutating_tool("write") && is_mutating_tool("edit"));
    assert!(!is_mutating_tool("read"));
    let sel = resolve_tool_selection(ToolFlags { no_tools: false, tools: Some(vec!["read".to_string()]), no_builtin_tools: true });
    assert!(matches!(sel, ToolSelection::Allowlist(_)));
    assert_eq!(filter_tool_names(&["read", "bash"], &sel), vec!["read".to_string()]);
    assert!(matches!(resolve_tool_selection(ToolFlags { no_tools: true, tools: None, no_builtin_tools: false }), ToolSelection::Disabled));
    let cfg = ToolRuntimeConfig::resolve(RunMode::NonInteractive, false, ToolSelection::Default);
    assert!(cfg.is_ok());
}

#[test]
fn busy_runner_refuses_mutations() {
    let busy = RpcState { running: true, has_harness: false, has_trace: false };
    match rpc_command_gate(RpcCommandKind::SetModel, busy).0 {
        RpcAction::Refuse { code, message } => {
            assert_eq!(code, "agent_busy");
            assert_eq!(message, "cannot change model while agent is running");
        }
        other => panic!("unexpected {other:?}"),
    }
    let idle = RpcState { running: false, has_harness: true, has_trace: false };
    let (a, next) = rpc_command_gate(RpcCommandKind::Prompt, idle);
    assert!(matches!(a, RpcAction::StartRun));
    assert!(next.running);
    assert_eq!(rpc_run_finished(next), idle);
    assert!(matches!(rpc_command_gate(RpcCommandKind::Abort, idle).0, RpcAction::Abort { abort_active_run: false }));
}
