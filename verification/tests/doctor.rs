use opi_coding_agent::config::{ConfigError, ProvidersConfig};
use opi_coding_agent::doctor::{
    config_diagnostics, doctor_exit_code, env_value_present, format_text, provider_diagnostics,
    run_doctor, session_diagnostics, tui_diagnostics, DetailValue, DiagnosticSource, DoctorContext,
    DoctorScope, GraphicsProtocol, SessionDirListing, Severity,
};
use opi_coding_agent::package_resolver::{InstalledPackageResolution, PackageResolverError};

fn env(pairs: &[(&str, &str)]) -> Vec<(String, String)> {
    pairs.iter().map(|(k, v)| (k.to_string(), v.to_string())).collect()
}

fn ctx(model: &str) -> DoctorContext {
    DoctorContext {
        model: model.to_string(),
        providers: ProvidersConfig::new(),
        config_error: None,
        packages: Ok(InstalledPackageResolution { packages: Vec::new(), diagnostics: Vec::new() }),
        sessions: SessionDirListing::Listed(vec!["a.jsonl".to_string(), "b.txt".to_string()]),
        graphics_protocol: GraphicsProtocol::Fallback,
        term: Some("xterm".to_string()),
        term_program: None,
        no_color: false,
        colorterm: Some("TrueColor".to_string()),
        env: env(&[("ANTHROPIC_API_KEY", "k")]),
        rpc_schema_version: 3,
    }
}

#[test]
fn scope_list_rejects_unknown_names() {
    assert_eq!(
        DoctorScope::parse_list("config,foo").unwrap_err(),
        "unknown doctor scope \"foo\"; valid scopes are config, provider, package, session, tui, rpc"
    );
    assert_eq!(DoctorScope::parse_list(" tui , ,rpc").unwrap(), vec![DoctorScope::Tui, DoctorScope::Rpc]);
    assert!(DoctorScope::parse_list("").unwrap().is_empty());
}

#[test]
fn exit_codes() {
    assert_eq!(doctor_exit_code(true), 2);
    assert_eq!(doctor_exit_code(false), 0);
}

#[test]
fn config_scope_reports_model_and_proxy() {
    let p = ProvidersConfig::new();
    let d = config_diagnostics("anthropic:m1", None, &p);
    assert_eq!(d.len(), 2);
    assert_eq!(d[0].message, "selected model resolves to provider \"anthropic\", model \"m1\"");
    assert_eq!(d[1].message, "no explicit proxy configured for selected provider \"anthropic\"");
    let d = config_diagnostics("nocolon", None, &p);
    assert_eq!(d.len(), 1);
    assert!(matches!(d[0].severity, Severity::Warning));
    assert_eq!(d[0].action.as_deref(), Some("set [defaults] model to a provider:model spec"));
}

#[test]
fn config_error_comes_first_with_path_in_details() {
    let p = ProvidersConfig::new();
    let e = ConfigError::Parse { path: "/x/config.toml".to_string(), message: "bad".to_string() };
    let d = config_diagnostics("a:b", Some(&e), &p);
    assert_eq!(d[0].code, "config_parse_failed");
    assert!(matches!(d[0].severity, Severity::Error));
    assert_eq!(d[0].message, "failed to parse config file");
    assert!(matches!(&d[0].details[0].1, DetailValue::Text(t) if t == "/x/config.toml"));
}

#[test]
fn provider_scope_checks_credential_presence_only() {
    let p = ProvidersConfig::new();
    let d = provider_diagnostics("anthropic:m", &p, &env(&[("ANTHROPIC_API_KEY", "secret")]));
    assert_eq!(d[0].message, "provider \"anthropic\" credentials present (env ANTHROPIC_API_KEY)");
    assert!(!d[0].message.contains("secret"));
    let d = provider_diagnostics("anthropic:m", &p, &env(&[("ANTHROPIC_API_KEY", "  ")]));
    assert_eq!(d[0].message, "provider \"anthropic\" credentials not set (env ANTHROPIC_API_KEY)");
    assert!(matches!(d[0].severity, Severity::Warning));
    let d = provider_diagnostics("acme:m", &p, &env(&[]));
    assert_eq!(d[0].message, "selected provider \"acme\" is not a known built-in or configured profile");
    assert_eq!(d[1].message, "selected provider \"acme\", model \"m\"");
    let d = provider_diagnostics("azure:m", &p, &env(&[]));
    assert_eq!(d.len(), 4);
    assert_eq!(d[2].message, "azure provider has no endpoint configured");
    assert_eq!(d[3].message, "azure provider has no deployments configured");
}

#[test]
fn bedrock_needs_access_key_and_secret() {
    let p = ProvidersConfig::new();
    let d = provider_diagnostics(
        "bedrock:m",
        &p,
        &env(&[("AWS_ACCESS_KEY_ID", "a"), ("AWS_SECRET_ACCESS_KEY", "b")]),
    );
    assert_eq!(
        d[0].message,
        "provider \"bedrock\" credentials present (env AWS_ACCESS_KEY_ID + env AWS_SECRET_ACCESS_KEY)"
    );
    let d = provider_diagnostics("bedrock:m", &p, &env(&[("AWS_ACCESS_KEY_ID", "a")]));
    assert!(matches!(d[0].severity, Severity::Warning));
}

#[test]
fn env_presence_ignores_blank_values() {
    let e = env(&[("A", " "), ("B", "x")]);
    assert!(!env_value_present(&e, "A"));
    assert!(env_value_present(&e, "B"));
    assert!(!env_value_present(&e, "C"));
}

#[test]
fn session_scope_counts_jsonl_files() {
    let d = session_diagnostics(&SessionDirListing::Listed(vec![
        "a.jsonl".to_string(),
        "b.jsonl".to_string(),
        ".jsonl".to_string(),
        "c.txt".to_string(),
    ]));
    assert_eq!(d[0].message, "sessions directory accessible (2 session file(s))");
    assert!(matches!(d[0].details[0].1, DetailValue::Count(2)));
    let d = session_diagnostics(&SessionDirListing::NotFound { parent_exists: true });
    assert!(matches!(d[0].severity, Severity::Info));
    let d = session_diagnostics(&SessionDirListing::NotFound { parent_exists: false });
    assert!(matches!(d[0].severity, Severity::Warning));
    let d = session_diagnostics(&SessionDirListing::Failed("denied".to_string()));
    assert_eq!(d[0].message, "sessions directory not accessible: denied");
}

#[test]
fn tui_scope_reports_color() {
    let d = tui_diagnostics(GraphicsProtocol::Kitty, None, None, false, Some("24BIT"));
    assert_eq!(d[0].message, "terminal graphics protocol: kitty; color: truecolor");
    let d = tui_diagnostics(GraphicsProtocol::Sixel, None, None, true, Some("truecolor"));
    assert_eq!(d[0].message, "terminal graphics protocol: sixel; color: no color (NO_COLOR set)");
}

#[test]
fn report_follows_canonical_scope_order() {
    let c = ctx("anthropic:m");
    let a = run_doctor(&[DoctorScope::Rpc, DoctorScope::Config, DoctorScope::Rpc], &c);
    let b = run_doctor(&[DoctorScope::Config, DoctorScope::Rpc], &c);
    assert_eq!(format_text(&a), format_text(&b));
    assert_eq!(a.entries[0].scope, DoctorScope::Config);
    assert_eq!(a.entries.last().unwrap().scope, DoctorScope::Rpc);
    let all = run_doctor(&[], &c);
    assert_eq!(all.entries[0].scope, DoctorScope::Config);
    assert!(all.entries.iter().any(|e| e.scope == DoctorScope::Tui));
    assert_eq!(all.exit_code(), 0);
}

#[test]
fn package_resolution_failure_is_an_error() {
    let mut c = ctx("anthropic:m");
    c.packages = Err(PackageResolverError::Failed("boom".to_string()));
    let r = run_doctor(&[DoctorScope::Package], &c);
    assert_eq!(r.entries.len(), 1);
    assert!(matches!(r.entries[0].diagnostic.source, DiagnosticSource::Package));
    assert_eq!(r.entries[0].diagnostic.message, "installed package resolution failed: package resolver failed: boom");
    assert!(r.has_errors());
    assert_eq!(r.exit_code(), 2);
}

#[test]
fn text_format() {
    let c = ctx("anthropic:m");
    let r = run_doctor(&[DoctorScope::Rpc], &c);
    assert_eq!(
        format_text(&r),
        "[info] rpc: rpc::doctor_rpc_schema: SDK/RPC schema version: 3\n[info] rpc: rpc::doctor_rpc_schema: startup diagnostics emitted in the rpc_ready header and session_info responses\n"
    );
    let empty = opi_coding_agent::doctor::DoctorReport { entries: Vec::new() };
    assert_eq!(format_text(&empty), "no diagnostics\n");
}

#[test]
fn provider_checks_ignore_credential_values() {
    let p = ProvidersConfig::new();
    let texts = |e: Vec<(String, String)>| {
        provider_diagnostics("bedrock:m", &p, &e)
            .into_iter()
            .map(|d| format!("{:?} {} {}", d.severity, d.code, d.message))
            .collect::<Vec<_>>()
    };
    let one = texts(env(&[("AWS_ACCESS_KEY_ID", "AKIA1"), ("AWS_SECRET_ACCESS_KEY", "s1")]));
    let two = texts(env(&[("AWS_ACCESS_KEY_ID", "other"), ("AWS_SECRET_ACCESS_KEY", "s2")]));
    assert_eq!(one, two);
    assert!(!one.iter().any(|t| t.contains("AKIA1") || t.contains("s1")));
}
