use opi_coding_agent::adapter_extension::{
    adapter_start_plan, before_tool_call_decision, command_outcome, content_summary,
    invalid_transform_messages, next_turn_data, state_restore_outcome, state_serialize_outcome,
    tool_call_outcome, tool_call_request_id, transform_context_outcome, AdapterBridge,
    AdapterExtensionError, AdapterReply, AdapterStartStep, HookDecision, ToolContentBlock,
    DEFAULT_ADAPTER_TIMEOUT_MS,
};
use opi_coding_agent::adapter_protocol::{AdapterCommandCapability, AdapterModelOverride};
use opi_coding_agent::diagnostic_bridge::{
    diagnostic_for_adapter_host_message, diagnostic_for_adapter_registration_failed,
    diagnostic_for_adapter_startup_failed, diagnostic_for_resource_discovery_error,
    diagnostic_from_package_resolution_error,
};
use opi_coding_agent::doctor::{DetailValue, DiagnosticSource, DoctorDiagnostic, Severity};
use opi_coding_agent::package_discovery::{AdapterManifest, PackageManifest, PackageResource};
use opi_coding_agent::prompt::{SystemPromptBuilder, ToolDef, BASE_INSTRUCTIONS};

fn adapter_package(
    name: &str,
    precedence: u32,
    command: &str,
    kind: &str,
    protocol: &str,
    timeout_ms: Option<u64>,
) -> PackageResource {
    PackageResource {
        manifest: PackageManifest {
            name: name.to_string(),
            description: "an adapter".to_string(),
            version: None,
            opi_version: None,
            adapter: Some(AdapterManifest {
                kind: kind.to_string(),
                command: command.to_string(),
                args: vec!["--stdio".to_string()],
                protocol: protocol.to_string(),
                timeout_ms,
            }),
            extensions: None,
            skills: None,
            fragments: None,
            themes: None,
            disabled: Vec::new(),
        },
        path: format!("/pkgs/{name}"),
        package_toml_path: format!("/pkgs/{name}/package.toml"),
        layer_precedence: precedence,
    }
}

fn plain_package(name: &str, precedence: u32) -> PackageResource {
    let mut p = adapter_package(name, precedence, "x", "process-jsonl", "opi-extension-jsonl-v1", None);
    p.manifest.adapter = None;
    p
}

fn detail_text(d: &DoctorDiagnostic, key: &str) -> Option<String> {
    d.details.iter().find(|(k, _)| k == key).and_then(|(_, v)| match v {
        DetailValue::Text(t) => Some(t.clone()),
        _ => None,
    })
}

fn detail_keys(d: &DoctorDiagnostic) -> Vec<String> {
    d.details.iter().map(|(k, _)| k.clone()).collect()
}

fn hook_result(action: &str, reason: Option<&str>) -> Result<AdapterReply, String> {
    Ok(AdapterReply::HookResult {
        action: action.to_string(),
        reason: reason.map(String::from),
        data: None,
    })
}

fn block_reason(d: HookDecision) -> Option<String> {
    match d {
        HookDecision::Continue => None,
        HookDecision::Block { reason } => Some(reason),
    }
}

#[test]
fn adapters_start_in_precedence_then_name_order() {
    let packages = vec![
        adapter_package("zeta", 2, "./bin/z", "process-jsonl", "opi-extension-jsonl-v1", None),
        plain_package("plain", 0),
        adapter_package("beta", 2, "bin/b", "process-jsonl", "opi-extension-jsonl-v1", Some(500)),
        adapter_package("alpha", 3, "/usr/bin/a", "process-jsonl", "opi-extension-jsonl-v1", None),
        adapter_package("gamma", 1, "gamma", "process-jsonl", "opi-extension-jsonl-v1", None),
    ];
    let plan = adapter_start_plan(&packages, "/work");
    let names: Vec<String> = plan
        .iter()
        .map(|s| match s {
            AdapterStartStep::Start(a) => a.package_name.clone(),
            AdapterStartStep::Skip(_) => "skip".to_string(),
        })
        .collect();
    assert_eq!(names, vec!["gamma", "beta", "zeta", "alpha"]);
    match &plan[1] {
        AdapterStartStep::Start(a) => {
            assert_eq!(a.config.command, "/pkgs/beta/bin/b");
            assert_eq!(a.config.args, vec!["--stdio".to_string()]);
            assert_eq!(a.config.working_dir, "/work");
            assert!(a.config.env.is_empty());
            assert_eq!(a.timeout_ms, 500);
            assert_eq!(a.adapter_command, "bin/b");
        },
        AdapterStartStep::Skip(_) => panic!("beta should start"),
    }
    match &plan[0] {
        AdapterStartStep::Start(a) => {
            assert_eq!(a.config.command, "gamma");
            assert_eq!(a.timeout_ms, DEFAULT_ADAPTER_TIMEOUT_MS);
        },
        AdapterStartStep::Skip(_) => panic!("gamma should start"),
    }
    match &plan[2] {
        AdapterStartStep::Start(a) => assert_eq!(a.config.command, "/pkgs/zeta/bin/z"),
        AdapterStartStep::Skip(_) => panic!("zeta should start"),
    }
    match &plan[3] {
        AdapterStartStep::Start(a) => assert_eq!(a.config.command, "/usr/bin/a"),
        AdapterStartStep::Skip(_) => panic!("alpha should start"),
    }
}

#[test]
fn unsupported_adapters_are_skipped_with_diagnostics() {
    let packages = vec![
        adapter_package("proto", 0, "run", "process-jsonl", "other-v2", None),
        adapter_package("kind", 0, "run", "socket", "opi-extension-jsonl-v1", None),
        adapter_package("escape", 0, "../../etc/x", "process-jsonl", "opi-extension-jsonl-v1", None),
    ];
    let plan = adapter_start_plan(&packages, "/work");
    assert_eq!(plan.len(), 3);
    let diags: Vec<&DoctorDiagnostic> = plan
        .iter()
        .map(|s| match s {
            AdapterStartStep::Skip(d) => d,
            AdapterStartStep::Start(_) => panic!("nothing should start"),
        })
        .collect();
    // "escape" < "kind" < "proto"
    assert_eq!(diags[0].code, "adapter_command_invalid");
    assert_eq!(diags[0].source, DiagnosticSource::Adapter);
    assert_eq!(diags[0].severity, Severity::Error);
    assert_eq!(
        detail_text(diags[0], "adapter_error").unwrap(),
        "security: resource path escapes package directory for adapter: /etc/x (adapter command escapes package root)"
    );
    assert_eq!(diags[1].code, "adapter_kind_unsupported");
    assert_eq!(diags[1].message, "unsupported adapter kind");
    assert_eq!(detail_text(diags[1], "actual_kind").unwrap(), "socket");
    assert_eq!(detail_text(diags[1], "expected_kind").unwrap(), "process-jsonl");
    assert_eq!(diags[2].code, "adapter_protocol_unsupported");
    assert_eq!(detail_text(diags[2], "actual_protocol").unwrap(), "other-v2");
    assert_eq!(detail_text(diags[2], "expected_protocol").unwrap(), "opi-extension-jsonl-v1");
    assert_eq!(detail_text(diags[2], "package_name").unwrap(), "proto");
    assert_eq!(detail_text(diags[2], "adapter_command").unwrap(), "run");
    assert!(diags[2]
        .details
        .iter()
        .any(|(k, v)| k == "disabled_at_runtime" && matches!(v, DetailValue::Flag(true))));
}

#[test]
fn before_tool_call_fails_closed() {
    assert!(matches!(before_tool_call_decision(&hook_result("continue", None)), HookDecision::Continue));
    assert_eq!(
        block_reason(before_tool_call_decision(&hook_result("block", Some("no writes")))),
        Some("no writes".to_string())
    );
    assert_eq!(
        block_reason(before_tool_call_decision(&hook_result("block", None))),
        Some("blocked by adapter".to_string())
    );
    assert_eq!(
        block_reason(before_tool_call_decision(&Ok(AdapterReply::Error { message: "boom".to_string() }))),
        Some("adapter hook error: boom".to_string())
    );
    assert_eq!(
        block_reason(before_tool_call_decision(&Ok(AdapterReply::StateResult { state: "{}".to_string() }))),
        Some("unexpected hook response: \"state_result\"".to_string())
    );
    assert_eq!(
        block_reason(before_tool_call_decision(&Err("request timed out after 30s".to_string()))),
        Some("adapter before_tool_call failed: request timed out after 30s".to_string())
    );
}

#[test]
fn tool_call_results_keep_text_blocks() {
    let reply = Ok(AdapterReply::ToolResult {
        content: vec![
            ToolContentBlock { kind: Some("text".to_string()), text: Some("one".to_string()) },
            ToolContentBlock { kind: Some("image".to_string()), text: Some("x".to_string()) },
            ToolContentBlock { kind: Some("text".to_string()), text: None },
            ToolContentBlock { kind: None, text: Some("y".to_string()) },
        ],
        is_error: true,
    });
    let out = tool_call_outcome(&reply).unwrap();
    assert_eq!(out.texts, vec!["one".to_string(), String::new()]);
    assert!(out.is_error);
    assert_eq!(
        tool_call_outcome(&Ok(AdapterReply::Error { message: "bad args".to_string() })).err(),
        Some("bad args".to_string())
    );
    assert_eq!(
        tool_call_outcome(&hook_result("continue", None)).err(),
        Some("unexpected response type for tool call: \"hook_result\"".to_string())
    );
    assert_eq!(tool_call_outcome(&Err("adapter exited".to_string())).err(), Some("adapter exited".to_string()));
    assert_eq!(tool_call_request_id("call_7", 12), "call_7_12");
}

#[test]
fn commands_state_and_context_replies() {
    match command_outcome(&Ok(AdapterReply::CommandResult { result: "{\"ok\":true}".to_string() })) {
        Ok(Some(d)) => assert_eq!(d, "{\"ok\":true}"),
        _ => panic!("expected data"),
    }
    match command_outcome(&Ok(AdapterReply::Capabilities)) {
        Err(AdapterExtensionError::CommandError(m)) => {
            assert_eq!(m, "unexpected command response: \"capabilities\"")
        },
        _ => panic!("expected an error"),
    }
    match state_serialize_outcome("todo", &Ok(AdapterReply::StateResult { state: "[1]".to_string() })) {
        Ok(Some(s)) => assert_eq!(s, "[1]"),
        _ => panic!("expected state"),
    }
    match state_serialize_outcome("todo", &Err("closed".to_string())) {
        Err(AdapterExtensionError::StateSerialization { name, reason }) => {
            assert_eq!(name, "todo");
            assert_eq!(reason, "closed");
        },
        _ => panic!("expected an error"),
    }
    assert!(state_restore_outcome("todo", &Ok(AdapterReply::StateResult { state: "null".to_string() })).is_ok());
    match state_restore_outcome("todo", &Ok(AdapterReply::Error { message: "bad state".to_string() })) {
        Err(AdapterExtensionError::StateRestoration { name, reason }) => {
            assert_eq!(name, "todo");
            assert_eq!(reason, "bad state");
        },
        _ => panic!("expected an error"),
    }
    match transform_context_outcome("todo", &hook_result("continue", None)) {
        Err(AdapterExtensionError::HookError { name, reason }) => {
            assert_eq!(name, "todo");
            assert_eq!(reason, "missing transform_context data");
        },
        _ => panic!("expected an error"),
    }
    let with_data = Ok(AdapterReply::HookResult {
        action: "continue".to_string(),
        reason: None,
        data: Some("{\"messages\":[]}".to_string()),
    });
    assert_eq!(transform_context_outcome("todo", &with_data).ok(), Some("{\"messages\":[]}".to_string()));
    match invalid_transform_messages("todo", "expected a sequence") {
        AdapterExtensionError::HookError { reason, .. } => {
            assert_eq!(reason, "invalid transform_context messages: expected a sequence")
        },
        _ => panic!("expected a hook error"),
    }
    assert_eq!(next_turn_data(&with_data), Some(Some("{\"messages\":[]}".to_string())));
    assert_eq!(next_turn_data(&Err("timeout".to_string())), None);
    assert_eq!(
        content_summary(&vec![Some("done".to_string()), None]),
        vec!["done".to_string(), "[content]".to_string()]
    );
}

#[test]
fn bridge_filters_hooks_and_commands() {
    let commands = vec![AdapterCommandCapability {
        name: "todo/list".to_string(),
        description: "List todos".to_string(),
    }];
    let hooks = vec!["before_tool_call".to_string(), "event".to_string()];
    let overrides = vec![AdapterModelOverride { model: "local-7b".to_string(), tools: vec!["grep".to_string()] }];
    let b = AdapterBridge::from_capabilities("todo", &commands, &hooks, overrides);
    assert!(b.declares_hook("before_tool_call"));
    assert!(!b.declares_hook("after_tool_call"));
    assert!(b.handles_command("todo/list"));
    assert!(!b.handles_command("todo/add"));
    let models = b.override_models();
    assert_eq!(models.len(), 1);
    assert_eq!(models[0].0, "local-7b");
    assert_eq!(models[0].1.display_name, "local-7b");
    assert_eq!(models[0].1.context_window, 128_000);
    assert_eq!(models[0].1.max_output_tokens, 16_384);
    assert!(models[0].1.supports_streaming);
    assert!(!models[0].1.supports_thinking);
}

#[test]
fn bridged_diagnostics_carry_stable_codes() {
    let d = diagnostic_from_package_resolution_error("bad lock");
    assert_eq!(d.code, "package_resolution_failed");
    assert_eq!(d.source, DiagnosticSource::Package);
    assert_eq!(detail_text(&d, "package_error").unwrap(), "bad lock");
    let d = diagnostic_for_resource_discovery_error("skill", "duplicate");
    assert_eq!(d.code, "package_diagnostic");
    assert_eq!(d.message, "resource discovery failed");
    assert_eq!(detail_keys(&d), vec!["package_error", "resource_kind"]);
    let d = diagnostic_for_adapter_startup_failed("todo", "./run", "spawn failed");
    assert_eq!(d.code, "adapter_startup_failed");
    assert_eq!(detail_keys(&d), vec!["adapter_command", "adapter_error", "disabled_at_runtime", "package_name"]);
    let d = diagnostic_for_adapter_registration_failed("todo", "duplicate extension");
    assert_eq!(d.code, "adapter_registration_failed");
    assert_eq!(detail_text(&d, "adapter_error").unwrap(), "duplicate extension");
    let d = diagnostic_for_adapter_host_message("todo", "event dropped");
    assert_eq!(d.severity, Severity::Warning);
    assert_eq!(d.code, "adapter_host_diagnostic");
    assert!(d.action.is_none());
}

#[test]
fn system_prompt_layers() {
    assert_eq!(SystemPromptBuilder::new().build(), BASE_INSTRUCTIONS);
    let tools = vec![
        ToolDef { name: "read".to_string(), description: "Read a file".to_string(), input_schema: "{}".to_string() },
        ToolDef { name: "bash".to_string(), description: "Run a command".to_string(), input_schema: "{}".to_string() },
    ];
    let b = SystemPromptBuilder::new().tools(tools).user_system("Prefer small diffs.".to_string());
    assert_eq!(b.tool_definitions().len(), 2);
    let prompt = b.build();
    assert_eq!(
        prompt,
        format!(
            "{BASE_INSTRUCTIONS}\n\nAvailable tools:\n- read: Read a file\n- bash: Run a command\n\n\nUser instructions:\nPrefer small diffs."
        )
    );
    let empty_user = SystemPromptBuilder::default().user_system(String::new());
    assert!(empty_user.user_system.is_none());
    assert!(BASE_INSTRUCTIONS.starts_with("You are opi, an expert coding agent."));
}
