//! The `opi doctor` command: a local, network-free health summary.
//!
//! It reports diagnostics for six scopes: config, provider, package,
//! session, tui and rpc. The provider scope looks only at whether
//! credentials are present, never at their values. `opi doctor --scope
//! config,tui` limits the summary to the named scopes; a blank list means all
//! of them, and an unknown name is an error so that a typo cannot silently
//! narrow the check. The exit code is 2 when any diagnostic is an error and
//! 0 otherwise.
use vstd::prelude::*;

use crate::config::{ConfigError, ProvidersConfig};
use crate::package_resolver::{
    InstalledPackageResolution, InstalledPackageScope, PackageDiagnostic,
    PackageDiagnosticSeverity, PackageResolverError,
};
use crate::session_cli::{extension_of, is_session_file_name};
use crate::text::{
    chars_of, debug_quoted, debug_str, decimal, eq_ignore_ascii_case, eq_ignore_case, extend_str,
    find_char, find_char_in, split_char, split_chars,
    str_eq, string_of, subvec, trim, trim_chars, views,
};

verus! {

/// One of the six doctor scopes.
#[derive(Debug, Clone, Copy, PartialEq, Eq, Structural)]
pub enum DoctorScope {
    Config,
    Provider,
    Package,
    Session,
    Tui,
    Rpc,
}

/// The lowercase name of a scope.
pub open spec fn scope_name(s: DoctorScope) -> Seq<char> {
    match s {
        DoctorScope::Config => "config"@,
        DoctorScope::Provider => "provider"@,
        DoctorScope::Package => "package"@,
        DoctorScope::Session => "session"@,
        DoctorScope::Tui => "tui"@,
        DoctorScope::Rpc => "rpc"@,
    }
}

/// The scope named `t`.
pub open spec fn scope_named(t: Seq<char>) -> Option<DoctorScope> {
    if t == "config"@ {
        Some(DoctorScope::Config)
    } else if t == "provider"@ {
        Some(DoctorScope::Provider)
    } else if t == "package"@ {
        Some(DoctorScope::Package)
    } else if t == "session"@ {
        Some(DoctorScope::Session)
    } else if t == "tui"@ {
        Some(DoctorScope::Tui)
    } else if t == "rpc"@ {
        Some(DoctorScope::Rpc)
    } else {
        None
    }
}

/// The scopes named in the comma-separated parts, blank parts skipped, or
/// the first unknown (trimmed) name.
pub open spec fn parse_scopes(parts: Seq<Seq<char>>) -> Result<Seq<DoctorScope>, Seq<char>>
    decreases parts.len(),
{
    if parts.len() == 0 {
        Ok(Seq::empty())
    } else {
        let t = trim(parts[0]);
        let rest = parse_scopes(parts.drop_first());
        if t.len() == 0 {
            rest
        } else {
            match scope_named(t) {
                None => Err(t),
                Some(s) => match rest {
                    Ok(ss) => Ok(seq![s] + ss),
                    Err(u) => Err(u),
                },
            }
        }
    }
}

/// The error message for an unknown scope name.
pub open spec fn unknown_scope_message(t: Seq<char>) -> Seq<char> {
    "unknown doctor scope "@ + debug_str(t)
        + "; valid scopes are config, provider, package, session, tui, rpc"@
}

/// Prepend scopes to a parse outcome.
pub open spec fn after_scopes(prefix: Seq<DoctorScope>, r: Result<Seq<DoctorScope>, Seq<char>>) -> Result<
    Seq<DoctorScope>,
    Seq<char>,
> {
    match r {
        Ok(ss) => Ok(prefix + ss),
        Err(u) => Err(u),
    }
}

impl DoctorScope {
    /// All six scopes, in canonical order.
    pub fn all() -> (r: Vec<DoctorScope>)
        ensures
            r@ == seq![
                DoctorScope::Config,
                DoctorScope::Provider,
                DoctorScope::Package,
                DoctorScope::Session,
                DoctorScope::Tui,
                DoctorScope::Rpc,
            ],
    {
        let r = vec![
            DoctorScope::Config,
            DoctorScope::Provider,
            DoctorScope::Package,
            DoctorScope::Session,
            DoctorScope::Tui,
            DoctorScope::Rpc,
        ];
        assert(r@ =~= seq![
            DoctorScope::Config,
            DoctorScope::Provider,
            DoctorScope::Package,
            DoctorScope::Session,
            DoctorScope::Tui,
            DoctorScope::Rpc,
        ]);
        r
    }

    /// The lowercase name of this scope, as `--scope` and the wire write it.
    pub fn as_str(&self) -> (r: &'static str)
        ensures
            r@ == scope_name(*self),
    {
        match self {
            DoctorScope::Config => "config",
            DoctorScope::Provider => "provider",
            DoctorScope::Package => "package",
            DoctorScope::Session => "session",
            DoctorScope::Tui => "tui",
            DoctorScope::Rpc => "rpc",
        }
    }

    /// The scope with the given name.
    fn from_name(t: &[char]) -> (r: Option<DoctorScope>)
        ensures
            r == scope_named(t@),
    {
        let s = string_of(t);
        let n = s.as_str();
        if str_eq(n, "config") {
            Some(DoctorScope::Config)
        } else if str_eq(n, "provider") {
            Some(DoctorScope::Provider)
        } else if str_eq(n, "package") {
            Some(DoctorScope::Package)
        } else if str_eq(n, "session") {
            Some(DoctorScope::Session)
        } else if str_eq(n, "tui") {
            Some(DoctorScope::Tui)
        } else if str_eq(n, "rpc") {
            Some(DoctorScope::Rpc)
        } else {
            None
        }
    }

    /// Parse a comma-separated scope list such as `"config,tui"`. Blank parts
    /// are skipped, so blank input gives no scopes (which callers read as
    /// all of them); an unknown name is an error.
    pub fn parse_list(input: &str) -> (r: Result<Vec<DoctorScope>, String>)
        ensures
            match parse_scopes(split_char(input@, ',')) {
                Ok(ss) => r matches Ok(v) && v@ == ss,
                Err(t) => r matches Err(m) && m@ == unknown_scope_message(t),
            },
    {
        let c = chars_of(input);
        let parts = split_chars(&c, ',');
        let ghost ps = views(parts@);
        let mut out: Vec<DoctorScope> = Vec::new();
        let mut i: usize = 0;
        assert(ps.skip(0) =~= ps);
        assert(after_scopes(Seq::empty(), parse_scopes(ps)) == parse_scopes(ps)) by {
            match parse_scopes(ps) {
                Ok(ss) => assert(Seq::<DoctorScope>::empty() + ss =~= ss),
                Err(_) => {},
            }
        }
        while i < parts.len()
            invariant
                i <= parts@.len(),
                ps == views(parts@),
                ps == split_char(input@, ','),
                parse_scopes(ps) == after_scopes(out@, parse_scopes(ps.skip(i as int))),
            decreases parts.len() - i,
        {
            assert(ps.skip(i as int).drop_first() =~= ps.skip(i + 1));
            assert(ps.skip(i as int)[0] == parts@[i as int]@);
            let t = trim_chars(&parts[i]);
            if t.len() > 0 {
                match DoctorScope::from_name(&t) {
                    None => {
                        let ts = string_of(&t);
                        let mut m = chars_of("unknown doctor scope ");
                        let d = debug_quoted(ts.as_str());
                        extend_str(&mut m, d.as_str());
                        extend_str(&mut m, "; valid scopes are config, provider, package, session, tui, rpc");
                        return Err(string_of(&m));
                    },
                    Some(s) => {
                        let ghost prev = out@;
                        out.push(s);
                        proof {
                            match parse_scopes(ps.skip(i + 1)) {
                                Ok(ss) => assert(prev + (seq![s] + ss) =~= out@ + ss),
                                Err(_) => {},
                            }
                        }
                    },
                }
            }
            i += 1;
        }
        proof {
            assert(ps.skip(i as int) =~= Seq::<Seq<char>>::empty());
            assert(out@ + Seq::<DoctorScope>::empty() =~= out@);
        }
        Ok(out)
    }
}

/// The doctor exit code: 2 when any diagnostic is an error, else 0.
pub fn doctor_exit_code(has_errors: bool) -> (r: i32)
    ensures
        r == (if has_errors { 2i32 } else { 0i32 }),
{
    if has_errors { 2 } else { 0 }
}

// ---------------------------------------------------------------------------
// Diagnostics
// ---------------------------------------------------------------------------

/// How serious a diagnostic is.
#[derive(Debug, Clone, Copy, PartialEq, Eq, Structural)]
pub enum Severity {
    Info,
    Warning,
    Error,
}

/// The subsystem a diagnostic comes from.
#[derive(Debug, Clone, Copy, PartialEq, Eq, Structural)]
pub enum DiagnosticSource {
    Config,
    Provider,
    Package,
    Session,
    Tui,
    Rpc,
    /// A process adapter of an installed package.
    Adapter,
}

/// A value in a diagnostic's structured details.
#[derive(Debug)]
pub enum DetailValue {
    Text(String),
    Flag(bool),
    Count(u64),
    /// JSON `null`.
    Absent,
}

/// One doctor observation.
#[derive(Debug)]
pub struct DoctorDiagnostic {
    pub severity: Severity,
    /// A stable code, such as `doctor_config_model`.
    pub code: String,
    pub source: DiagnosticSource,
    pub message: String,
    /// Structured details, in order.
    pub details: Vec<(String, DetailValue)>,
    /// What the user can do about it.
    pub action: Option<String>,
}

/// A detail value as plain values.
pub enum DetailView {
    Text(Seq<char>),
    Flag(bool),
    Count(u64),
    Absent,
}

/// A detail value as plain values.
pub open spec fn detail_view(v: DetailValue) -> DetailView {
    match v {
        DetailValue::Text(s) => DetailView::Text(s@),
        DetailValue::Flag(b) => DetailView::Flag(b),
        DetailValue::Count(n) => DetailView::Count(n),
        DetailValue::Absent => DetailView::Absent,
    }
}

/// A diagnostic as plain values.
pub struct DiagView {
    pub severity: Severity,
    pub code: Seq<char>,
    pub source: DiagnosticSource,
    pub message: Seq<char>,
    pub details: Seq<(Seq<char>, DetailView)>,
    pub action: Option<Seq<char>>,
}

/// A diagnostic as plain values.
pub open spec fn diag_view(d: DoctorDiagnostic) -> DiagView {
    DiagView {
        severity: d.severity,
        code: d.code@,
        source: d.source,
        message: d.message@,
        details: d.details@.map_values(|e: (String, DetailValue)| (e.0@, detail_view(e.1))),
        action: match d.action {
            Some(a) => Some(a@),
            None => None,
        },
    }
}

/// Diagnostics as plain values.
pub open spec fn diag_views(ds: Seq<DoctorDiagnostic>) -> Seq<DiagView> {
    ds.map_values(|d: DoctorDiagnostic| diag_view(d))
}

/// A diagnostic without details or action.
pub open spec fn plain(severity: Severity, code: Seq<char>, source: DiagnosticSource, message: Seq<char>) -> DiagView {
    DiagView { severity, code, source, message, details: Seq::empty(), action: None }
}

/// A diagnostic without details or action.
fn new_diag(severity: Severity, code: &str, source: DiagnosticSource, message: String) -> (r:
    DoctorDiagnostic)
    ensures
        diag_view(r) == plain(severity, code@, source, message@),
{
    let r = DoctorDiagnostic {
        severity,
        code: string_of(&chars_of(code)),
        source,
        message,
        details: Vec::new(),
        action: None,
    };
    assert(diag_view(r).details =~= Seq::<(Seq<char>, DetailView)>::empty());
    r
}

// ---------------------------------------------------------------------------
// The config scope
// ---------------------------------------------------------------------------

/// `s` split at its first colon (`str::split_once(':')`).
pub open spec fn split_once_colon(s: Seq<char>) -> Option<(Seq<char>, Seq<char>)> {
    match find_char(s, ':') {
        Some(i) => Some((s.take(i), s.skip(i + 1))),
        None => None,
    }
}

/// `s` split at its first colon.
fn split_once_colon_of(s: &str) -> (r: Option<(String, String)>)
    ensures
        match split_once_colon(s@) {
            Some((a, b)) => r matches Some((x, y)) && x@ == a && y@ == b,
            None => r is None,
        },
{
    let c = chars_of(s);
    match find_char_in(&c, ':') {
        Some(i) => {
            assert(i < c.len());
            let a = subvec(&c, 0, i);
            let b = subvec(&c, i + 1, c.len());
            assert(a@ =~= c@.take(i as int));
            assert(b@ =~= c@.skip(i + 1));
            Some((string_of(&a), string_of(&b)))
        },
        None => None,
    }
}

/// The diagnostic of a configuration that could not be resolved; the path
/// goes in the details, not the message.
pub open spec fn config_error_diag(e: ConfigError) -> DiagView {
    match e {
        ConfigError::Parse { path, .. } => DiagView {
            severity: Severity::Error,
            code: "config_parse_failed"@,
            source: DiagnosticSource::Config,
            message: "failed to parse config file"@,
            details: seq![("path"@, DetailView::Text(path@))],
            action: Some("fix the malformed TOML or remove the file to use defaults"@),
        },
        ConfigError::Read { path, .. } => DiagView {
            severity: Severity::Error,
            code: "config_read_failed"@,
            source: DiagnosticSource::Config,
            message: "failed to read config file"@,
            details: seq![("path"@, DetailView::Text(path@))],
            action: Some("check file permissions or remove the file to use defaults"@),
        },
    }
}

/// The diagnostic of a configuration that could not be resolved.
pub fn diagnostic_from_config(e: &ConfigError) -> (r: DoctorDiagnostic)
    ensures
        diag_view(r) == config_error_diag(*e),
{
    let (code, message, path, action) = match e {
        ConfigError::Parse { path, .. } => (
            "config_parse_failed",
            "failed to parse config file",
            path,
            "fix the malformed TOML or remove the file to use defaults",
        ),
        ConfigError::Read { path, .. } => (
            "config_read_failed",
            "failed to read config file",
            path,
            "check file permissions or remove the file to use defaults",
        ),
    };
    let mut details: Vec<(String, DetailValue)> = Vec::new();
    details.push((string_of(&chars_of("path")), DetailValue::Text(string_of(&chars_of(path.as_str())))));
    let r = DoctorDiagnostic {
        severity: Severity::Error,
        code: string_of(&chars_of(code)),
        source: DiagnosticSource::Config,
        message: string_of(&chars_of(message)),
        details,
        action: Some(string_of(&chars_of(action))),
    };
    assert(diag_view(r).details =~= config_error_diag(*e).details);
    r
}

/// A proxy is configured for the built-in provider named `provider`.
pub open spec fn proxy_configured(p: ProvidersConfig, provider: Seq<char>) -> bool {
    if provider == "anthropic"@ {
        p.anthropic.proxy is Some
    } else if provider == "openai"@ {
        p.openai.proxy is Some
    } else if provider == "openrouter"@ {
        p.openrouter.proxy is Some
    } else if provider == "mistral"@ {
        p.mistral.proxy is Some
    } else if provider == "openai-responses"@ {
        p.openai_responses.proxy is Some
    } else if provider == "gemini"@ {
        p.gemini.proxy is Some
    } else if provider == "bedrock"@ {
        p.bedrock.proxy is Some
    } else if provider == "azure"@ {
        p.azure.proxy is Some
    } else if provider == "vertex"@ {
        p.vertex.proxy is Some
    } else {
        false
    }
}

/// Whether a proxy is configured for the provider.
pub fn provider_has_proxy(p: &ProvidersConfig, provider: &str) -> (r: bool)
    ensures
        r == proxy_configured(*p, provider@),
{
    if str_eq(provider, "anthropic") {
        p.anthropic.proxy.is_some()
    } else if str_eq(provider, "openai") {
        p.openai.proxy.is_some()
    } else if str_eq(provider, "openrouter") {
        p.openrouter.proxy.is_some()
    } else if str_eq(provider, "mistral") {
        p.mistral.proxy.is_some()
    } else if str_eq(provider, "openai-responses") {
        p.openai_responses.proxy.is_some()
    } else if str_eq(provider, "gemini") {
        p.gemini.proxy.is_some()
    } else if str_eq(provider, "bedrock") {
        p.bedrock.proxy.is_some()
    } else if str_eq(provider, "azure") {
        p.azure.proxy.is_some()
    } else if str_eq(provider, "vertex") {
        p.vertex.proxy.is_some()
    } else {
        false
    }
}

/// The config scope: the configuration error, if any, then whether the
/// selected model is a `provider:model` spec and, when it is, whether its
/// provider has a proxy.
pub open spec fn config_diags_spec(model: Seq<char>, err: Option<ConfigError>, p: ProvidersConfig) -> Seq<
    DiagView,
> {
    let first = match err {
        Some(e) => seq![config_error_diag(e)],
        None => Seq::empty(),
    };
    match split_once_colon(model) {
        Some((prov, m)) => first + seq![
            plain(
                Severity::Info,
                "doctor_config_model"@,
                DiagnosticSource::Config,
                "selected model resolves to provider "@ + debug_str(prov) + ", model "@ + debug_str(m),
            ),
            plain(
                Severity::Info,
                "doctor_config_proxy"@,
                DiagnosticSource::Config,
                if proxy_configured(p, prov) {
                    "proxy configured for selected provider "@ + debug_str(prov)
                } else {
                    "no explicit proxy configured for selected provider "@ + debug_str(prov)
                },
            ),
        ],
        None => first + seq![
            DiagView {
                severity: Severity::Warning,
                code: "doctor_config_model"@,
                source: DiagnosticSource::Config,
                message: "selected model spec "@ + debug_str(model) + " is not in provider:model form"@,
                details: Seq::empty(),
                action: Some("set [defaults] model to a provider:model spec"@),
            },
        ],
    }
}

/// The diagnostics of the config scope.
pub fn config_diagnostics(model: &str, config_error: Option<&ConfigError>, providers: &ProvidersConfig) -> (r:
    Vec<DoctorDiagnostic>)
    ensures
        diag_views(r@) == config_diags_spec(
            model@,
            match config_error {
                Some(e) => Some(*e),
                None => None,
            },
            *providers,
        ),
{
    let mut out: Vec<DoctorDiagnostic> = Vec::new();
    match config_error {
        Some(e) => out.push(diagnostic_from_config(e)),
        None => {},
    }
    let ghost first = diag_views(out@);
    match split_once_colon_of(model) {
        Some((prov, m)) => {
            let mut msg = chars_of("selected model resolves to provider ");
            extend_str(&mut msg, debug_quoted(prov.as_str()).as_str());
            extend_str(&mut msg, ", model ");
            extend_str(&mut msg, debug_quoted(m.as_str()).as_str());
            out.push(
                new_diag(
                    Severity::Info,
                    "doctor_config_model",
                    DiagnosticSource::Config,
                    string_of(&msg),
                ),
            );
            let mut pm = if provider_has_proxy(providers, prov.as_str()) {
                chars_of("proxy configured for selected provider ")
            } else {
                chars_of("no explicit proxy configured for selected provider ")
            };
            extend_str(&mut pm, debug_quoted(prov.as_str()).as_str());
            out.push(
                new_diag(
                    Severity::Info,
                    "doctor_config_proxy",
                    DiagnosticSource::Config,
                    string_of(&pm),
                ),
            );
        },
        None => {
            let mut msg = chars_of("selected model spec ");
            extend_str(&mut msg, debug_quoted(model).as_str());
            extend_str(&mut msg, " is not in provider:model form");
            let mut d = new_diag(
                Severity::Warning,
                "doctor_config_model",
                DiagnosticSource::Config,
                string_of(&msg),
            );
            d.action = Some(string_of(&chars_of("set [defaults] model to a provider:model spec")));
            out.push(d);
        },
    }
    let ghost want = config_diags_spec(
        model@,
        match config_error {
            Some(e) => Some(*e),
            None => None,
        },
        *providers,
    );
    assert(diag_views(out@) =~= want);
    out
}

// ---------------------------------------------------------------------------
// The provider scope
// ---------------------------------------------------------------------------

/// The value of the first entry named `name` in an environment snapshot.
pub open spec fn env_lookup(env: Seq<(String, String)>, name: Seq<char>) -> Option<Seq<char>>
    decreases env.len(),
{
    if env.len() == 0 {
        None
    } else if env[0].0@ == name {
        Some(env[0].1@)
    } else {
        env_lookup(env.drop_first(), name)
    }
}

/// The variable `name` is set to something other than blanks.
pub open spec fn env_present(env: Seq<(String, String)>, name: Seq<char>) -> bool {
    match env_lookup(env, name) {
        Some(v) => trim(v).len() > 0,
        None => false,
    }
}

/// Whether the variable `name` is set to something other than blanks.
pub fn env_value_present(env: &Vec<(String, String)>, name: &str) -> (r: bool)
    ensures
        r == env_present(env@, name@),
{
    let mut i: usize = 0;
    assert(env@.skip(0) =~= env@);
    while i < env.len()
        invariant
            i <= env@.len(),
            env_lookup(env@, name@) == env_lookup(env@.skip(i as int), name@),
        decreases env.len() - i,
    {
        assert(env@.skip(i as int).drop_first() =~= env@.skip(i + 1));
        assert(env@.skip(i as int)[0] == env@[i as int]);
        if str_eq(env[i].0.as_str(), name) {
            return trim_chars(&chars_of(env[i].1.as_str())).len() > 0;
        }
        i += 1;
    }
    false
}

/// The configured name, or `default` when it is blank.
pub open spec fn env_or_default_spec(configured: Seq<char>, default: Seq<char>) -> Seq<char> {
    if trim(configured).len() == 0 {
        default
    } else {
        configured
    }
}

/// The configured name, or `default` when it is blank.
pub fn env_or_default(configured: &str, default: &str) -> (r: String)
    ensures
        r@ == env_or_default_spec(configured@, default@),
{
    if trim_chars(&chars_of(configured)).len() == 0 {
        string_of(&chars_of(default))
    } else {
        string_of(&chars_of(configured))
    }
}

/// The variable holding the credential of a built-in provider.
pub open spec fn credential_env_name(p: ProvidersConfig, provider: Seq<char>) -> Option<Seq<char>> {
    if provider == "anthropic"@ {
        Some(env_or_default_spec(p.anthropic.api_key_env@, "ANTHROPIC_API_KEY"@))
    } else if provider == "openai"@ {
        Some(env_or_default_spec(p.openai.api_key_env@, "OPENAI_API_KEY"@))
    } else if provider == "openrouter"@ {
        Some(env_or_default_spec(p.openrouter.api_key_env@, "OPENROUTER_API_KEY"@))
    } else if provider == "mistral"@ {
        Some(env_or_default_spec(p.mistral.api_key_env@, "MISTRAL_API_KEY"@))
    } else if provider == "openai-responses"@ {
        Some(env_or_default_spec(p.openai_responses.api_key_env@, "OPENAI_API_KEY"@))
    } else if provider == "gemini"@ {
        Some(env_or_default_spec(p.gemini.api_key_env@, "GEMINI_API_KEY"@))
    } else if provider == "azure"@ {
        Some(env_or_default_spec(p.azure.api_key_env@, "AZURE_OPENAI_API_KEY"@))
    } else if provider == "vertex"@ {
        Some(env_or_default_spec(p.vertex.access_token_env@, "VERTEX_ACCESS_TOKEN"@))
    } else if provider == "bedrock"@ {
        Some("AWS_ACCESS_KEY_ID"@)
    } else {
        None
    }
}

/// The variable holding the credential of a built-in provider.
pub fn provider_credential_env_name(p: &ProvidersConfig, provider: &str) -> (r: Option<String>)
    ensures
        match credential_env_name(*p, provider@) {
            Some(n) => r matches Some(x) && x@ == n,
            None => r is None,
        },
{
    if str_eq(provider, "anthropic") {
        Some(env_or_default(p.anthropic.api_key_env.as_str(), "ANTHROPIC_API_KEY"))
    } else if str_eq(provider, "openai") {
        Some(env_or_default(p.openai.api_key_env.as_str(), "OPENAI_API_KEY"))
    } else if str_eq(provider, "openrouter") {
        Some(env_or_default(p.openrouter.api_key_env.as_str(), "OPENROUTER_API_KEY"))
    } else if str_eq(provider, "mistral") {
        Some(env_or_default(p.mistral.api_key_env.as_str(), "MISTRAL_API_KEY"))
    } else if str_eq(provider, "openai-responses") {
        Some(env_or_default(p.openai_responses.api_key_env.as_str(), "OPENAI_API_KEY"))
    } else if str_eq(provider, "gemini") {
        Some(env_or_default(p.gemini.api_key_env.as_str(), "GEMINI_API_KEY"))
    } else if str_eq(provider, "azure") {
        Some(env_or_default(p.azure.api_key_env.as_str(), "AZURE_OPENAI_API_KEY"))
    } else if str_eq(provider, "vertex") {
        Some(env_or_default(p.vertex.access_token_env.as_str(), "VERTEX_ACCESS_TOKEN"))
    } else if str_eq(provider, "bedrock") {
        Some(string_of(&chars_of("AWS_ACCESS_KEY_ID")))
    } else {
        None
    }
}

/// An optional text that is set to something other than blanks.
pub open spec fn filled(o: Option<String>) -> bool {
    match o {
        Some(v) => trim(v@).len() > 0,
        None => false,
    }
}

/// The Bedrock credential probe: its label and whether the credentials are
/// present. An access key id (configured, or in `AWS_ACCESS_KEY_ID`) and a
/// secret key (in the configured variable, else `AWS_SECRET_ACCESS_KEY`) are
/// both needed.
pub open spec fn bedrock_probe(p: ProvidersConfig, env: Seq<(String, String)>) -> (Seq<char>, bool) {
    let config_access = filled(p.bedrock.access_key_id);
    let secret_env = if filled(p.bedrock.secret_access_key_env) {
        p.bedrock.secret_access_key_env->Some_0@
    } else {
        "AWS_SECRET_ACCESS_KEY"@
    };
    let access_label = if config_access {
        "config access_key_id"@
    } else {
        "env AWS_ACCESS_KEY_ID"@
    };
    (
        access_label + " + env "@ + secret_env,
        (config_access || env_present(env, "AWS_ACCESS_KEY_ID"@)) && env_present(env, secret_env),
    )
}

/// The credential probe of a provider: its label and whether the
/// credentials are present; none for an unknown provider.
pub open spec fn credential_probe(p: ProvidersConfig, provider: Seq<char>, env: Seq<(String, String)>) -> Option<
    (Seq<char>, bool),
> {
    if provider == "bedrock"@ {
        Some(bedrock_probe(p, env))
    } else {
        match credential_env_name(p, provider) {
            Some(n) => Some(("env "@ + n, env_present(env, n))),
            None => None,
        }
    }
}

/// Whether an optional text is set to something other than blanks.
fn is_filled(o: &Option<String>) -> (r: bool)
    ensures
        r == filled(*o),
{
    match o {
        Some(v) => trim_chars(&chars_of(v.as_str())).len() > 0,
        None => false,
    }
}

/// The credential probe of a provider.
pub fn provider_credential_probe(p: &ProvidersConfig, provider: &str, env: &Vec<(String, String)>) -> (r:
    Option<(String, bool)>)
    ensures
        match credential_probe(*p, provider@, env@) {
            Some((label, present)) => r matches Some((l, b)) && l@ == label && b == present,
            None => r is None,
        },
{
    if str_eq(provider, "bedrock") {
        let config_access = is_filled(&p.bedrock.access_key_id);
        let secret_env: String = if is_filled(&p.bedrock.secret_access_key_env) {
            match &p.bedrock.secret_access_key_env {
                Some(v) => string_of(&chars_of(v.as_str())),
                None => string_of(&chars_of("AWS_SECRET_ACCESS_KEY")),
            }
        } else {
            string_of(&chars_of("AWS_SECRET_ACCESS_KEY"))
        };
        let env_access = env_value_present(env, "AWS_ACCESS_KEY_ID");
        let secret_present = env_value_present(env, secret_env.as_str());
        let mut label = if config_access {
            chars_of("config access_key_id")
        } else {
            chars_of("env AWS_ACCESS_KEY_ID")
        };
        extend_str(&mut label, " + env ");
        extend_str(&mut label, secret_env.as_str());
        return Some((string_of(&label), (config_access || env_access) && secret_present));
    }
    match provider_credential_env_name(p, provider) {
        Some(n) => {
            let present = env_value_present(env, n.as_str());
            let mut label = chars_of("env ");
            extend_str(&mut label, n.as_str());
            Some((string_of(&label), present))
        },
        None => None,
    }
}

/// The diagnostic of a credential probe.
pub open spec fn credential_diag(provider: Seq<char>, label: Seq<char>, present: bool) -> DiagView {
    DiagView {
        severity: if present {
            Severity::Info
        } else {
            Severity::Warning
        },
        code: "doctor_provider_credentials"@,
        source: DiagnosticSource::Provider,
        message: "provider "@ + debug_str(provider) + (if present {
            " credentials present ("@
        } else {
            " credentials not set ("@
        }) + label + ")"@,
        details: seq![
            ("provider"@, DetailView::Text(provider)),
            ("credentials_present"@, DetailView::Flag(present)),
            ("credential_probe"@, DetailView::Text(label)),
        ],
        action: None,
    }
}

/// The warnings about required settings that the provider lacks.
pub open spec fn shape_diags(p: ProvidersConfig, provider: Seq<char>) -> Seq<DiagView> {
    if provider == "azure"@ {
        (if p.azure.endpoint is None {
            seq![
                plain(
                    Severity::Warning,
                    "doctor_provider_endpoint"@,
                    DiagnosticSource::Provider,
                    "azure provider has no endpoint configured"@,
                ),
            ]
        } else {
            Seq::empty()
        }) + (if p.azure.deployments@.len() == 0 {
            seq![
                plain(
                    Severity::Warning,
                    "doctor_provider_endpoint"@,
                    DiagnosticSource::Provider,
                    "azure provider has no deployments configured"@,
                ),
            ]
        } else {
            Seq::empty()
        })
    } else if provider == "vertex"@ {
        if p.vertex.project is None || p.vertex.location is None {
            seq![
                plain(
                    Severity::Warning,
                    "doctor_provider_endpoint"@,
                    DiagnosticSource::Provider,
                    "vertex provider is missing project or location"@,
                ),
            ]
        } else {
            Seq::empty()
        }
    } else {
        Seq::empty()
    }
}

/// The provider scope: the credentials of the selected provider (present
/// or not; only their presence is looked at), its identity, and the
/// settings it needs; nothing but a warning when the model is not a
/// `provider:model` spec.
pub open spec fn provider_diags_spec(model: Seq<char>, p: ProvidersConfig, env: Seq<(String, String)>) -> Seq<
    DiagView,
> {
    match split_once_colon(model) {
        None => seq![
            plain(
                Severity::Warning,
                "doctor_provider_unknown"@,
                DiagnosticSource::Provider,
                "selected model spec "@ + debug_str(model)
                    + " is not in provider:model form; skipping provider checks"@,
            ),
        ],
        Some((prov, m)) => seq![
            match credential_probe(p, prov, env) {
                Some((label, present)) => credential_diag(prov, label, present),
                None => plain(
                    Severity::Warning,
                    "doctor_provider_unknown"@,
                    DiagnosticSource::Provider,
                    "selected provider "@ + debug_str(prov)
                        + " is not a known built-in or configured profile"@,
                ),
            },
            plain(
                Severity::Info,
                "doctor_provider_endpoint"@,
                DiagnosticSource::Provider,
                "selected provider "@ + debug_str(prov) + ", model "@ + debug_str(m),
            ),
        ] + shape_diags(p, prov),
    }
}

/// The provider checks look only at whether credentials are present, never
/// at their values: two environments in which the same variables are set
/// (to something other than blanks) give the same provider diagnostics.
pub proof fn lemma_provider_checks_ignore_values(
    model: Seq<char>,
    p: ProvidersConfig,
    env1: Seq<(String, String)>,
    env2: Seq<(String, String)>,
)
    requires
        forall|n: Seq<char>| #[trigger] env_present(env1, n) == env_present(env2, n),
    ensures
        provider_diags_spec(model, p, env1) == provider_diags_spec(model, p, env2),
{
    if let Some((prov, m)) = split_once_colon(model) {
        assert(credential_probe(p, prov, env1) == credential_probe(p, prov, env2)) by {
            if prov == "bedrock"@ {
                let b1 = bedrock_probe(p, env1);
                let b2 = bedrock_probe(p, env2);
                assert(env_present(env1, "AWS_ACCESS_KEY_ID"@) == env_present(env2, "AWS_ACCESS_KEY_ID"@));
                let secret_env = if filled(p.bedrock.secret_access_key_env) {
                    p.bedrock.secret_access_key_env->Some_0@
                } else {
                    "AWS_SECRET_ACCESS_KEY"@
                };
                assert(env_present(env1, secret_env) == env_present(env2, secret_env));
                assert(b1 == b2);
            } else if let Some(n) = credential_env_name(p, prov) {
                assert(env_present(env1, n) == env_present(env2, n));
            }
        }
    }
}

/// A provider-scope warning about a missing setting.
fn endpoint_warning(message: &str) -> (r: DoctorDiagnostic)
    ensures
        diag_view(r) == plain(
            Severity::Warning,
            "doctor_provider_endpoint"@,
            DiagnosticSource::Provider,
            message@,
        ),
{
    new_diag(
        Severity::Warning,
        "doctor_provider_endpoint",
        DiagnosticSource::Provider,
        string_of(&chars_of(message)),
    )
}

/// The diagnostics of the provider scope, given a snapshot of the
/// environment.
pub fn provider_diagnostics(model: &str, p: &ProvidersConfig, env: &Vec<(String, String)>) -> (r: Vec<
    DoctorDiagnostic,
>)
    ensures
        diag_views(r@) == provider_diags_spec(model@, *p, env@),
{
    let mut out: Vec<DoctorDiagnostic> = Vec::new();
    let (prov, m) = match split_once_colon_of(model) {
        Some(x) => x,
        None => {
            let mut msg = chars_of("selected model spec ");
            extend_str(&mut msg, debug_quoted(model).as_str());
            extend_str(&mut msg, " is not in provider:model form; skipping provider checks");
            out.push(
                new_diag(
                    Severity::Warning,
                    "doctor_provider_unknown",
                    DiagnosticSource::Provider,
                    string_of(&msg),
                ),
            );
            assert(diag_views(out@) =~= provider_diags_spec(model@, *p, env@));
            return out;
        },
    };
    let dq = debug_quoted(prov.as_str());
    match provider_credential_probe(p, prov.as_str(), env) {
        Some((label, present)) => {
            let mut msg = chars_of("provider ");
            extend_str(&mut msg, dq.as_str());
            if present {
                extend_str(&mut msg, " credentials present (");
            } else {
                extend_str(&mut msg, " credentials not set (");
            }
            extend_str(&mut msg, label.as_str());
            extend_str(&mut msg, ")");
            let mut details: Vec<(String, DetailValue)> = Vec::new();
            details.push((string_of(&chars_of("provider")), DetailValue::Text(string_of(&chars_of(prov.as_str())))));
            details.push((string_of(&chars_of("credentials_present")), DetailValue::Flag(present)));
            details.push((string_of(&chars_of("credential_probe")), DetailValue::Text(string_of(&chars_of(label.as_str())))));
            let d = DoctorDiagnostic {
                severity: if present {
                    Severity::Info
                } else {
                    Severity::Warning
                },
                code: string_of(&chars_of("doctor_provider_credentials")),
                source: DiagnosticSource::Provider,
                message: string_of(&msg),
                details,
                action: None,
            };
            assert(diag_view(d).details =~= credential_diag(prov@, label@, present).details);
            out.push(d);
        },
        None => {
            let mut msg = chars_of("selected provider ");
            extend_str(&mut msg, dq.as_str());
            extend_str(&mut msg, " is not a known built-in or configured profile");
            out.push(
                new_diag(
                    Severity::Warning,
                    "doctor_provider_unknown",
                    DiagnosticSource::Provider,
                    string_of(&msg),
                ),
            );
        },
    }
    let mut msg = chars_of("selected provider ");
    extend_str(&mut msg, dq.as_str());
    extend_str(&mut msg, ", model ");
    extend_str(&mut msg, debug_quoted(m.as_str()).as_str());
    out.push(
        new_diag(
            Severity::Info,
            "doctor_provider_endpoint",
            DiagnosticSource::Provider,
            string_of(&msg),
        ),
    );
    let ghost head = diag_views(out@);
    if str_eq(prov.as_str(), "azure") {
        if p.azure.endpoint.is_none() {
            out.push(endpoint_warning("azure provider has no endpoint configured"));
        }
        if p.azure.deployments.len() == 0 {
            out.push(endpoint_warning("azure provider has no deployments configured"));
        }
    } else if str_eq(prov.as_str(), "vertex") {
        if p.vertex.project.is_none() || p.vertex.location.is_none() {
            out.push(endpoint_warning("vertex provider is missing project or location"));
        }
    }
    assert(diag_views(out@) =~= head + shape_diags(*p, prov@));
    assert(diag_views(out@) =~= provider_diags_spec(model@, *p, env@));
    out
}

// ---------------------------------------------------------------------------
// The package, session, TUI and RPC scopes
// ---------------------------------------------------------------------------

/// An installed-package diagnostic in the shared vocabulary: its severity,
/// the stable code `package_diagnostic`, and the package's own code,
/// message, source and scope in the details.
pub open spec fn package_diag(pd: PackageDiagnostic) -> DiagView {
    DiagView {
        severity: match pd.severity {
            PackageDiagnosticSeverity::Info => Severity::Info,
            PackageDiagnosticSeverity::Warning => Severity::Warning,
            PackageDiagnosticSeverity::Error => Severity::Error,
        },
        code: "package_diagnostic"@,
        source: DiagnosticSource::Package,
        message: "installed package diagnostic"@,
        details: seq![
            ("package_code"@, DetailView::Text(pd.code@)),
            ("package_message"@, DetailView::Text(pd.message@)),
            ("package_source"@, DetailView::Text(pd.source@)),
            (
                "scope"@,
                DetailView::Text(
                    match pd.scope {
                        InstalledPackageScope::Global => "global"@,
                        InstalledPackageScope::Project => "project"@,
                    },
                ),
            ),
        ],
        action: None,
    }
}

/// An installed-package diagnostic in the shared vocabulary.
pub fn diagnostic_from_package(pd: &PackageDiagnostic) -> (r: DoctorDiagnostic)
    ensures
        diag_view(r) == package_diag(*pd),
{
    let mut details: Vec<(String, DetailValue)> = Vec::new();
    details.push((string_of(&chars_of("package_code")), DetailValue::Text(string_of(&chars_of(pd.code.as_str())))));
    details.push((string_of(&chars_of("package_message")), DetailValue::Text(string_of(&chars_of(pd.message.as_str())))));
    details.push((string_of(&chars_of("package_source")), DetailValue::Text(string_of(&chars_of(pd.source.as_str())))));
    let scope = match pd.scope {
        InstalledPackageScope::Global => "global",
        InstalledPackageScope::Project => "project",
    };
    details.push((string_of(&chars_of("scope")), DetailValue::Text(string_of(&chars_of(scope)))));
    let r = DoctorDiagnostic {
        severity: match pd.severity {
            PackageDiagnosticSeverity::Info => Severity::Info,
            PackageDiagnosticSeverity::Warning => Severity::Warning,
            PackageDiagnosticSeverity::Error => Severity::Error,
        },
        code: string_of(&chars_of("package_diagnostic")),
        source: DiagnosticSource::Package,
        message: string_of(&chars_of("installed package diagnostic")),
        details,
        action: None,
    };
    assert(diag_view(r).details =~= package_diag(*pd).details);
    r
}

/// The package scope: each installed-package diagnostic, then a summary of
/// how many packages and diagnostics there were; an error when the
/// packages could not be resolved.
pub open spec fn package_diags_spec(res: Result<InstalledPackageResolution, PackageResolverError>) -> Seq<
    DiagView,
> {
    match res {
        Ok(r) => Seq::new(r.diagnostics@.len(), |i: int| package_diag(r.diagnostics@[i])) + seq![
            plain(
                Severity::Info,
                "doctor_package_summary"@,
                DiagnosticSource::Package,
                decimal(r.packages@.len()) + " installed package(s) checked; "@ + decimal(
                    r.diagnostics@.len(),
                ) + " diagnostic(s)"@,
            ),
        ],
        Err(e) => seq![
            plain(
                Severity::Error,
                "doctor_package_resolve_failed"@,
                DiagnosticSource::Package,
                "installed package resolution failed: "@ + resolver_message(e),
            ),
        ],
    }
}

/// The message of a resolver error.
pub open spec fn resolver_message(e: PackageResolverError) -> Seq<char> {
    "package resolver failed: "@ + match e {
        PackageResolverError::Failed(m) => m@,
    }
}

/// The diagnostics of the package scope.
pub fn package_diagnostics(res: &Result<InstalledPackageResolution, PackageResolverError>) -> (r: Vec<
    DoctorDiagnostic,
>)
    ensures
        diag_views(r@) == package_diags_spec(*res),
{
    let mut out: Vec<DoctorDiagnostic> = Vec::new();
    match res {
        Ok(resolution) => {
            let ds = &resolution.diagnostics;
            let mut i: usize = 0;
            while i < ds.len()
                invariant
                    i <= ds@.len(),
                    out@.len() == i,
                    forall|k: int| 0 <= k < i ==> diag_view(#[trigger] out@[k]) == package_diag(ds@[k]),
                decreases ds.len() - i,
            {
                out.push(diagnostic_from_package(&ds[i]));
                i += 1;
            }
            let mut msg = crate::text::decimal_chars(resolution.packages.len() as u128);
            extend_str(&mut msg, " installed package(s) checked; ");
            crate::text::extend_chars(&mut msg, &crate::text::decimal_chars(ds.len() as u128));
            extend_str(&mut msg, " diagnostic(s)");
            out.push(
                new_diag(
                    Severity::Info,
                    "doctor_package_summary",
                    DiagnosticSource::Package,
                    string_of(&msg),
                ),
            );
        },
        Err(e) => {
            let mut msg = chars_of("installed package resolution failed: ");
            extend_str(&mut msg, e.message().as_str());
            out.push(
                new_diag(
                    Severity::Error,
                    "doctor_package_resolve_failed",
                    DiagnosticSource::Package,
                    string_of(&msg),
                ),
            );
        },
    }
    assert(diag_views(out@) =~= package_diags_spec(*res));
    out
}

/// What listing the sessions directory showed.
#[derive(Debug)]
pub enum SessionDirListing {
    /// The names of its entries.
    Listed(Vec<String>),
    /// It does not exist; whether its parent does.
    NotFound { parent_exists: bool },
    /// Listing it failed, for this reason.
    Failed(String),
}

/// The number of session files (`.jsonl`) among the names.
pub open spec fn session_count(names: Seq<String>) -> nat
    decreases names.len(),
{
    if names.len() == 0 {
        0
    } else {
        session_count(names.drop_last()) + if extension_of(names.last()@) == Some("jsonl"@) {
            1nat
        } else {
            0nat
        }
    }
}

/// The session scope: how many session files the directory holds, or why
/// it cannot be read. A directory not created yet is normal when its parent
/// exists.
pub open spec fn session_diags_spec(listing: SessionDirListing) -> Seq<DiagView> {
    match listing {
        SessionDirListing::Listed(names) => seq![
            DiagView {
                severity: Severity::Info,
                code: "doctor_session_dir"@,
                source: DiagnosticSource::Session,
                message: "sessions directory accessible ("@ + decimal(session_count(names@))
                    + " session file(s))"@,
                details: seq![("session_count"@, DetailView::Count(session_count(names@) as u64))],
                action: None,
            },
            plain(
                Severity::Info,
                "doctor_session_dir"@,
                DiagnosticSource::Session,
                "corrupt-line recovery available on session load"@,
            ),
        ],
        SessionDirListing::NotFound { parent_exists } => seq![
            if parent_exists {
                plain(
                    Severity::Info,
                    "doctor_session_dir"@,
                    DiagnosticSource::Session,
                    "sessions directory not yet created (created on first run)"@,
                )
            } else {
                plain(
                    Severity::Warning,
                    "doctor_session_dir"@,
                    DiagnosticSource::Session,
                    "sessions directory does not exist and its parent is missing"@,
                )
            },
        ],
        SessionDirListing::Failed(e) => seq![
            plain(
                Severity::Error,
                "doctor_session_dir"@,
                DiagnosticSource::Session,
                "sessions directory not accessible: "@ + e@,
            ),
        ],
    }
}

/// The diagnostics of the session scope.
pub fn session_diagnostics(listing: &SessionDirListing) -> (r: Vec<DoctorDiagnostic>)
    ensures
        diag_views(r@) == session_diags_spec(*listing),
{
    let mut out: Vec<DoctorDiagnostic> = Vec::new();
    match listing {
        SessionDirListing::Listed(names) => {
            let mut count: u64 = 0;
            let mut i: usize = 0;
            while i < names.len()
                invariant
                    i <= names@.len(),
                    count == session_count(names@.take(i as int)),
                    count <= i,
                decreases names.len() - i,
            {
                assert(names@.take(i + 1).drop_last() =~= names@.take(i as int));
                if is_session_file_name(names[i].as_str()) {
                    count += 1;
                }
                i += 1;
            }
            assert(names@.take(names@.len() as int) =~= names@);
            let mut msg = chars_of("sessions directory accessible (");
            crate::text::extend_chars(&mut msg, &crate::text::decimal_chars(count as u128));
            extend_str(&mut msg, " session file(s))");
            let mut details: Vec<(String, DetailValue)> = Vec::new();
            details.push((string_of(&chars_of("session_count")), DetailValue::Count(count)));
            let d = DoctorDiagnostic {
                severity: Severity::Info,
                code: string_of(&chars_of("doctor_session_dir")),
                source: DiagnosticSource::Session,
                message: string_of(&msg),
                details,
                action: None,
            };
            assert(diag_view(d).details =~= seq![
                ("session_count"@, DetailView::Count(session_count(names@) as u64)),
            ]);
            out.push(d);
            out.push(
                new_diag(
                    Severity::Info,
                    "doctor_session_dir",
                    DiagnosticSource::Session,
                    string_of(&chars_of("corrupt-line recovery available on session load")),
                ),
            );
        },
        SessionDirListing::NotFound { parent_exists } => {
            if *parent_exists {
                out.push(
                    new_diag(
                        Severity::Info,
                        "doctor_session_dir",
                        DiagnosticSource::Session,
                        string_of(
                            &chars_of("sessions directory not yet created (created on first run)"),
                        ),
                    ),
                );
            } else {
                out.push(
                    new_diag(
                        Severity::Warning,
                        "doctor_session_dir",
                        DiagnosticSource::Session,
                        string_of(
                            &chars_of("sessions directory does not exist and its parent is missing"),
                        ),
                    ),
                );
            }
        },
        SessionDirListing::Failed(e) => {
            let mut msg = chars_of("sessions directory not accessible: ");
            extend_str(&mut msg, e.as_str());
            out.push(
                new_diag(
                    Severity::Error,
                    "doctor_session_dir",
                    DiagnosticSource::Session,
                    string_of(&msg),
                ),
            );
        },
    }
    assert(diag_views(out@) =~= session_diags_spec(*listing));
    out
}

/// The graphics protocol the terminal supports.
#[derive(Debug, Clone, Copy, PartialEq, Eq, Structural)]
pub enum GraphicsProtocol {
    Kitty,
    Iterm2,
    Sixel,
    Fallback,
}

/// The name of a graphics protocol.
pub open spec fn protocol_name(p: GraphicsProtocol) -> Seq<char> {
    match p {
        GraphicsProtocol::Kitty => "kitty"@,
        GraphicsProtocol::Iterm2 => "iterm2"@,
        GraphicsProtocol::Sixel => "sixel"@,
        GraphicsProtocol::Fallback => "text-fallback"@,
    }
}

/// The color support of the terminal: none under `NO_COLOR`, true color
/// when `COLORTERM` says `truecolor` or `24bit` (in any ASCII case),
/// otherwise the terminal's default.
pub open spec fn color_support(no_color: bool, colorterm: Option<Seq<char>>) -> Seq<char> {
    if no_color {
        "no color (NO_COLOR set)"@
    } else {
        match colorterm {
            Some(v) => if eq_ignore_ascii_case(v, "truecolor"@) || eq_ignore_ascii_case(v, "24bit"@) {
                "truecolor"@
            } else {
                "enabled (terminal default)"@
            },
            None => "enabled (terminal default)"@,
        }
    }
}

/// An optional text as a detail value.
pub open spec fn opt_detail(o: Option<Seq<char>>) -> DetailView {
    match o {
        Some(s) => DetailView::Text(s),
        None => DetailView::Absent,
    }
}

/// The TUI scope: the graphics protocol and the color support.
pub open spec fn tui_diags_spec(
    protocol: GraphicsProtocol,
    term: Option<Seq<char>>,
    term_program: Option<Seq<char>>,
    no_color: bool,
    colorterm: Option<Seq<char>>,
) -> Seq<DiagView> {
    let color = color_support(no_color, colorterm);
    seq![
        DiagView {
            severity: Severity::Info,
            code: "doctor_tui_capability"@,
            source: DiagnosticSource::Tui,
            message: "terminal graphics protocol: "@ + protocol_name(protocol) + "; color: "@ + color,
            details: seq![
                ("graphics_protocol"@, DetailView::Text(protocol_name(protocol))),
                ("color"@, DetailView::Text(color)),
                ("term"@, opt_detail(term)),
                ("term_program"@, opt_detail(term_program)),
            ],
            action: None,
        },
    ]
}

/// An optional string as plain values.
pub open spec fn opt_str(o: Option<&str>) -> Option<Seq<char>> {
    match o {
        Some(s) => Some(s@),
        None => None,
    }
}

/// An optional string as a detail value.
fn opt_detail_of(o: Option<&str>) -> (r: DetailValue)
    ensures
        detail_view(r) == opt_detail(opt_str(o)),
{
    match o {
        Some(s) => DetailValue::Text(string_of(&chars_of(s))),
        None => DetailValue::Absent,
    }
}

/// The diagnostics of the TUI scope, given the graphics protocol detected
/// from `TERM`, `TERM_PROGRAM` and `TERM_FEATURES`.
pub fn tui_diagnostics(
    protocol: GraphicsProtocol,
    term: Option<&str>,
    term_program: Option<&str>,
    no_color: bool,
    colorterm: Option<&str>,
) -> (r: Vec<DoctorDiagnostic>)
    ensures
        diag_views(r@) == tui_diags_spec(
            protocol,
            opt_str(term),
            opt_str(term_program),
            no_color,
            opt_str(colorterm),
        ),
{
    let name = match protocol {
        GraphicsProtocol::Kitty => "kitty",
        GraphicsProtocol::Iterm2 => "iterm2",
        GraphicsProtocol::Sixel => "sixel",
        GraphicsProtocol::Fallback => "text-fallback",
    };
    let color = if no_color {
        "no color (NO_COLOR set)"
    } else {
        match colorterm {
            Some(v) => {
                let c = chars_of(v);
                if eq_ignore_case(&c, &chars_of("truecolor")) || eq_ignore_case(
                    &c,
                    &chars_of("24bit"),
                ) {
                    "truecolor"
                } else {
                    "enabled (terminal default)"
                }
            },
            None => "enabled (terminal default)",
        }
    };
    let mut msg = chars_of("terminal graphics protocol: ");
    extend_str(&mut msg, name);
    extend_str(&mut msg, "; color: ");
    extend_str(&mut msg, color);
    let mut details: Vec<(String, DetailValue)> = Vec::new();
    details.push((string_of(&chars_of("graphics_protocol")), DetailValue::Text(string_of(&chars_of(name)))));
    details.push((string_of(&chars_of("color")), DetailValue::Text(string_of(&chars_of(color)))));
    details.push((string_of(&chars_of("term")), opt_detail_of(term)));
    details.push((string_of(&chars_of("term_program")), opt_detail_of(term_program)));
    let d = DoctorDiagnostic {
        severity: Severity::Info,
        code: string_of(&chars_of("doctor_tui_capability")),
        source: DiagnosticSource::Tui,
        message: string_of(&msg),
        details,
        action: None,
    };
    let ghost want = tui_diags_spec(
        protocol,
        opt_str(term),
        opt_str(term_program),
        no_color,
        opt_str(colorterm),
    );
    assert(diag_view(d).details =~= want[0].details);
    let mut out: Vec<DoctorDiagnostic> = Vec::new();
    out.push(d);
    assert(diag_views(out@) =~= want);
    out
}

/// The RPC scope: the schema version of the SDK and RPC protocol.
pub open spec fn rpc_diags_spec(schema_version: u32) -> Seq<DiagView> {
    seq![
        plain(
            Severity::Info,
            "doctor_rpc_schema"@,
            DiagnosticSource::Rpc,
            "SDK/RPC schema version: "@ + decimal(schema_version as nat),
        ),
        plain(
            Severity::Info,
            "doctor_rpc_schema"@,
            DiagnosticSource::Rpc,
            "startup diagnostics emitted in the rpc_ready header and session_info responses"@,
        ),
    ]
}

/// The diagnostics of the RPC scope.
pub fn rpc_diagnostics(schema_version: u32) -> (r: Vec<DoctorDiagnostic>)
    ensures
        diag_views(r@) == rpc_diags_spec(schema_version),
{
    let mut msg = chars_of("SDK/RPC schema version: ");
    crate::text::extend_chars(&mut msg, &crate::text::decimal_chars(schema_version as u128));
    let mut out: Vec<DoctorDiagnostic> = Vec::new();
    out.push(new_diag(Severity::Info, "doctor_rpc_schema", DiagnosticSource::Rpc, string_of(&msg)));
    out.push(
        new_diag(
            Severity::Info,
            "doctor_rpc_schema",
            DiagnosticSource::Rpc,
            string_of(
                &chars_of(
                    "startup diagnostics emitted in the rpc_ready header and session_info responses",
                ),
            ),
        ),
    );
    assert(diag_views(out@) =~= rpc_diags_spec(schema_version));
    out
}

// ---------------------------------------------------------------------------
// The report
// ---------------------------------------------------------------------------

/// A diagnostic tagged with the scope that produced it.
#[derive(Debug)]
pub struct DoctorEntry {
    pub scope: DoctorScope,
    pub diagnostic: DoctorDiagnostic,
}

/// The diagnostics of a doctor run, in canonical scope order.
#[derive(Debug)]
pub struct DoctorReport {
    pub entries: Vec<DoctorEntry>,
}

/// An entry as plain values.
pub open spec fn entry_view(e: DoctorEntry) -> (DoctorScope, DiagView) {
    (e.scope, diag_view(e.diagnostic))
}

/// Entries as plain values.
pub open spec fn entry_views(es: Seq<DoctorEntry>) -> Seq<(DoctorScope, DiagView)> {
    es.map_values(|e: DoctorEntry| entry_view(e))
}

/// Some entry is an error.
pub open spec fn any_error(es: Seq<DoctorEntry>) -> bool {
    exists|i: int| 0 <= i < es.len() && #[trigger] es[i].diagnostic.severity == Severity::Error
}

impl DoctorReport {
    /// Whether any diagnostic is an error.
    pub fn has_errors(&self) -> (r: bool)
        ensures
            r == any_error(self.entries@),
    {
        let mut i: usize = 0;
        while i < self.entries.len()
            invariant
                i <= self.entries@.len(),
                forall|k: int| 0 <= k < i ==> (#[trigger] self.entries@[k]).diagnostic.severity
                    != Severity::Error,
            decreases self.entries.len() - i,
        {
            if self.entries[i].diagnostic.severity == Severity::Error {
                return true;
            }
            i += 1;
        }
        false
    }

    /// The exit code: 2 when any diagnostic is an error, else 0; warnings
    /// and information do not fail.
    pub fn exit_code(&self) -> (r: i32)
        ensures
            r == (if any_error(self.entries@) { 2i32 } else { 0i32 }),
    {
        doctor_exit_code(self.has_errors())
    }
}

/// Everything a doctor run looks at, read beforehand: the configuration
/// (with the error of resolving it, if any), the installed packages, the
/// sessions directory, the terminal, a snapshot of the environment (only
/// the presence of credentials is looked at) and the RPC schema version.
#[derive(Debug)]
pub struct DoctorContext {
    pub model: String,
    pub providers: ProvidersConfig,
    pub config_error: Option<ConfigError>,
    pub packages: Result<InstalledPackageResolution, PackageResolverError>,
    pub sessions: SessionDirListing,
    pub graphics_protocol: GraphicsProtocol,
    pub term: Option<String>,
    pub term_program: Option<String>,
    pub no_color: bool,
    pub colorterm: Option<String>,
    pub env: Vec<(String, String)>,
    pub rpc_schema_version: u32,
}

/// An optional string as plain values.
pub open spec fn opt_string(o: Option<String>) -> Option<Seq<char>> {
    match o {
        Some(s) => Some(s@),
        None => None,
    }
}

/// The diagnostics of one scope.
pub open spec fn scope_diags(s: DoctorScope, ctx: DoctorContext) -> Seq<DiagView> {
    match s {
        DoctorScope::Config => config_diags_spec(ctx.model@, ctx.config_error, ctx.providers),
        DoctorScope::Provider => provider_diags_spec(ctx.model@, ctx.providers, ctx.env@),
        DoctorScope::Package => package_diags_spec(ctx.packages),
        DoctorScope::Session => session_diags_spec(ctx.sessions),
        DoctorScope::Tui => tui_diags_spec(
            ctx.graphics_protocol,
            opt_string(ctx.term),
            opt_string(ctx.term_program),
            ctx.no_color,
            opt_string(ctx.colorterm),
        ),
        DoctorScope::Rpc => rpc_diags_spec(ctx.rpc_schema_version),
    }
}

/// The scope is requested: it is listed, or nothing is.
pub open spec fn requested(scopes: Seq<DoctorScope>, s: DoctorScope) -> bool {
    scopes.len() == 0 || scopes.contains(s)
}

/// The entries of the requested scopes among `order`, in that order.
pub open spec fn report_entries(order: Seq<DoctorScope>, scopes: Seq<DoctorScope>, ctx: DoctorContext) -> Seq<
    (DoctorScope, DiagView),
>
    decreases order.len(),
{
    if order.len() == 0 {
        Seq::empty()
    } else {
        let s = order.last();
        report_entries(order.drop_last(), scopes, ctx) + if requested(scopes, s) {
            scope_diags(s, ctx).map_values(|d: DiagView| (s, d))
        } else {
            Seq::empty()
        }
    }
}

/// The canonical scope order.
pub open spec fn all_scopes() -> Seq<DoctorScope> {
    seq![
        DoctorScope::Config,
        DoctorScope::Provider,
        DoctorScope::Package,
        DoctorScope::Session,
        DoctorScope::Tui,
        DoctorScope::Rpc,
    ]
}

/// Move the diagnostics into `entries`, tagged with `scope`.
fn push_tagged(entries: &mut Vec<DoctorEntry>, scope: DoctorScope, diags: Vec<DoctorDiagnostic>)
    ensures
        entry_views(final(entries)@) == entry_views(old(entries)@) + diag_views(diags@).map_values(
            |d: DiagView| (scope, d),
        ),
{
    let ghost e0 = entry_views(entries@);
    let ghost dv = diag_views(diags@);
    let n = diags.len();
    let mut diags = diags;
    let mut rev: Vec<DoctorDiagnostic> = Vec::new();
    let ghost orig = diags@;
    while diags.len() > 0
        invariant
            diags@.len() + rev@.len() == n,
            n == orig.len(),
            forall|k: int| 0 <= k < diags@.len() ==> #[trigger] diags@[k] == orig[k],
            forall|k: int| 0 <= k < rev@.len() ==> #[trigger] rev@[k] == orig[n - 1 - k],
        decreases diags.len(),
    {
        let x = diags.pop().unwrap();
        rev.push(x);
    }
    let mut t: usize = 0;
    while rev.len() > 0
        invariant
            rev@.len() + t == n,
            n == orig.len(),
            dv == diag_views(orig),
            forall|k: int| 0 <= k < rev@.len() ==> #[trigger] rev@[k] == orig[n - 1 - k],
            entry_views(entries@) == e0 + dv.take(t as int).map_values(|d: DiagView| (scope, d)),
        decreases rev.len(),
    {
        let d = rev.pop().unwrap();
        let ghost before = entry_views(entries@);
        assert(d == orig[t as int]);
        entries.push(DoctorEntry { scope, diagnostic: d });
        assert(dv.take(t + 1).map_values(|d: DiagView| (scope, d)) =~= dv.take(t as int).map_values(
            |d: DiagView| (scope, d),
        ).push((scope, diag_view(orig[t as int]))));
        assert(entry_views(entries@) =~= before.push((scope, diag_view(orig[t as int]))));
        t += 1;
    }
    assert(dv.take(n as int) =~= dv);
}

/// Whether the scope is requested.
fn is_requested(scopes: &[DoctorScope], s: DoctorScope) -> (r: bool)
    ensures
        r == requested(scopes@, s),
{
    if scopes.len() == 0 {
        return true;
    }
    let mut i: usize = 0;
    while i < scopes.len()
        invariant
            i <= scopes@.len(),
            forall|k: int| 0 <= k < i ==> scopes@[k] != s,
        decreases scopes.len() - i,
    {
        if scopes[i] == s {
            assert(scopes@[i as int] == s);
            return true;
        }
        i += 1;
    }
    false
}

/// Run the requested scopes (all of them when none is listed), in
/// canonical order whatever order or repetitions the list has.
pub fn run_doctor(scopes: &[DoctorScope], ctx: &DoctorContext) -> (r: DoctorReport)
    ensures
        entry_views(r.entries@) == report_entries(all_scopes(), scopes@, *ctx),
{
    let order = DoctorScope::all();
    let mut entries: Vec<DoctorEntry> = Vec::new();
    let mut i: usize = 0;
    assert(order@.take(0) =~= Seq::<DoctorScope>::empty());
    while i < order.len()
        invariant
            i <= order@.len(),
            order@ == all_scopes(),
            entry_views(entries@) == report_entries(order@.take(i as int), scopes@, *ctx),
        decreases order.len() - i,
    {
        let s = order[i];
        assert(order@.take(i + 1).drop_last() =~= order@.take(i as int));
        assert(order@.take(i + 1).last() == s);
        if is_requested(scopes, s) {
            let diags = match s {
                DoctorScope::Config => config_diagnostics(
                    ctx.model.as_str(),
                    match &ctx.config_error {
                        Some(e) => Some(e),
                        None => None,
                    },
                    &ctx.providers,
                ),
                DoctorScope::Provider => provider_diagnostics(
                    ctx.model.as_str(),
                    &ctx.providers,
                    &ctx.env,
                ),
                DoctorScope::Package => package_diagnostics(&ctx.packages),
                DoctorScope::Session => session_diagnostics(&ctx.sessions),
                DoctorScope::Tui => tui_diagnostics(
                    ctx.graphics_protocol,
                    match &ctx.term {
                        Some(t) => Some(t.as_str()),
                        None => None,
                    },
                    match &ctx.term_program {
                        Some(t) => Some(t.as_str()),
                        None => None,
                    },
                    ctx.no_color,
                    match &ctx.colorterm {
                        Some(t) => Some(t.as_str()),
                        None => None,
                    },
                ),
                DoctorScope::Rpc => rpc_diagnostics(ctx.rpc_schema_version),
            };
            assert(diag_views(diags@) == scope_diags(s, *ctx));
            push_tagged(&mut entries, s, diags);
        } else {
            assert(entry_views(entries@) =~= report_entries(order@.take(i as int), scopes@, *ctx)
                + Seq::empty());
        }
        i += 1;
    }
    assert(order@.take(6) =~= order@);
    DoctorReport { entries }
}

/// The label of a severity.
pub open spec fn severity_label(s: Severity) -> Seq<char> {
    match s {
        Severity::Info => "info"@,
        Severity::Warning => "warning"@,
        Severity::Error => "error"@,
    }
}

/// The label of a source.
pub open spec fn source_label(s: DiagnosticSource) -> Seq<char> {
    match s {
        DiagnosticSource::Config => "config"@,
        DiagnosticSource::Provider => "provider"@,
        DiagnosticSource::Package => "package"@,
        DiagnosticSource::Session => "session"@,
        DiagnosticSource::Tui => "tui"@,
        DiagnosticSource::Rpc => "rpc"@,
        DiagnosticSource::Adapter => "adapter"@,
    }
}

/// The text of one entry: `[severity] scope: source::code: message`, then,
/// when there is one, an indented action line.
pub open spec fn entry_text(scope: DoctorScope, d: DiagView) -> Seq<char> {
    "["@ + severity_label(d.severity) + "] "@ + scope_name(scope) + ": "@ + source_label(d.source)
        + "::"@ + d.code + ": "@ + d.message + "\n"@ + match d.action {
        Some(a) => "    action: "@ + a + "\n"@,
        None => Seq::empty(),
    }
}

/// The texts of the entries, one after the other.
pub open spec fn entries_text(es: Seq<(DoctorScope, DiagView)>) -> Seq<char>
    decreases es.len(),
{
    if es.len() == 0 {
        Seq::empty()
    } else {
        entries_text(es.drop_last()) + entry_text(es.last().0, es.last().1)
    }
}

/// The report as text, one line per diagnostic (and one per action), or
/// `no diagnostics` when there are none.
pub open spec fn report_text(es: Seq<(DoctorScope, DiagView)>) -> Seq<char> {
    if es.len() == 0 {
        "no diagnostics\n"@
    } else {
        entries_text(es)
    }
}

/// The label of a severity.
fn severity_str(s: Severity) -> (r: &'static str)
    ensures
        r@ == severity_label(s),
{
    match s {
        Severity::Info => "info",
        Severity::Warning => "warning",
        Severity::Error => "error",
    }
}

/// The label of a source.
fn source_str(s: DiagnosticSource) -> (r: &'static str)
    ensures
        r@ == source_label(s),
{
    match s {
        DiagnosticSource::Config => "config",
        DiagnosticSource::Provider => "provider",
        DiagnosticSource::Package => "package",
        DiagnosticSource::Session => "session",
        DiagnosticSource::Tui => "tui",
        DiagnosticSource::Rpc => "rpc",
        DiagnosticSource::Adapter => "adapter",
    }
}

/// The text of one entry.
fn entry_text_of(e: &DoctorEntry) -> (r: Vec<char>)
    ensures
        r@ == entry_text(e.scope, diag_view(e.diagnostic)),
{
    let d = &e.diagnostic;
    let mut out = chars_of("[");
    extend_str(&mut out, severity_str(d.severity));
    extend_str(&mut out, "] ");
    extend_str(&mut out, e.scope.as_str());
    extend_str(&mut out, ": ");
    extend_str(&mut out, source_str(d.source));
    extend_str(&mut out, "::");
    extend_str(&mut out, d.code.as_str());
    extend_str(&mut out, ": ");
    extend_str(&mut out, d.message.as_str());
    extend_str(&mut out, "\n");
    match &d.action {
        Some(a) => {
            extend_str(&mut out, "    action: ");
            extend_str(&mut out, a.as_str());
            extend_str(&mut out, "\n");
        },
        None => {},
    }
    out
}

/// The report as human-readable text.
pub fn format_text(report: &DoctorReport) -> (r: String)
    ensures
        r@ == report_text(entry_views(report.entries@)),
{
    if report.entries.len() == 0 {
        return string_of(&chars_of("no diagnostics\n"));
    }
    let ghost ev = entry_views(report.entries@);
    let mut out: Vec<char> = Vec::new();
    let mut i: usize = 0;
    assert(ev.take(0) =~= Seq::<(DoctorScope, DiagView)>::empty());
    while i < report.entries.len()
        invariant
            i <= report.entries@.len(),
            ev == entry_views(report.entries@),
            out@ == entries_text(ev.take(i as int)),
        decreases report.entries.len() - i,
    {
        assert(ev.take(i + 1).drop_last() =~= ev.take(i as int));
        let t = entry_text_of(&report.entries[i]);
        crate::text::extend_chars(&mut out, &t);
        i += 1;
    }
    assert(ev.take(report.entries@.len() as int) =~= ev);
    string_of(&out)
}

/// The report depends on the requested scopes only through which scopes
/// they name: two lists naming the same scopes, in any order and with any
/// repetitions, give the same entries, and an empty list gives those of
/// every scope.
pub proof fn lemma_scope_selection(order: Seq<DoctorScope>, a: Seq<DoctorScope>, b: Seq<DoctorScope>, ctx: DoctorContext)
    requires
        forall|s: DoctorScope| #[trigger] requested(a, s) == requested(b, s),
    ensures
        report_entries(order, a, ctx) == report_entries(order, b, ctx),
    decreases order.len(),
{
    if order.len() > 0 {
        lemma_scope_selection(order.drop_last(), a, b, ctx);
        assert(requested(a, order.last()) == requested(b, order.last()));
    }
}

/// Listing no scope runs every scope: it gives the report of the full list.
pub proof fn lemma_empty_selection_is_all(ctx: DoctorContext)
    ensures
        report_entries(all_scopes(), Seq::empty(), ctx) == report_entries(
            all_scopes(),
            all_scopes(),
            ctx,
        ),
{
    assert forall|s: DoctorScope| #[trigger] requested(Seq::empty(), s) == requested(all_scopes(), s) by {
        match s {
            DoctorScope::Config => assert(all_scopes()[0] == s),
            DoctorScope::Provider => assert(all_scopes()[1] == s),
            DoctorScope::Package => assert(all_scopes()[2] == s),
            DoctorScope::Session => assert(all_scopes()[3] == s),
            DoctorScope::Tui => assert(all_scopes()[4] == s),
            DoctorScope::Rpc => assert(all_scopes()[5] == s),
        }
    }
    lemma_scope_selection(all_scopes(), Seq::empty(), all_scopes(), ctx);
}

/// The report depends only on which scopes are requested: an empty list
/// gives the report of the full list, repeating a list changes nothing, and
/// two nonempty lists naming the same scopes, in any order, give the same
/// report.
pub proof fn lemma_doctor_scope_lists(a: Seq<DoctorScope>, b: Seq<DoctorScope>, ctx: DoctorContext)
    ensures
        ({
            &&& report_entries(all_scopes(), Seq::empty(), ctx) == report_entries(
                all_scopes(),
                all_scopes(),
                ctx,
            )
            &&& report_entries(all_scopes(), a + a, ctx) == report_entries(all_scopes(), a, ctx)
            &&& (a.len() > 0 && b.len() > 0 && forall|s: DoctorScope| a.contains(s) <==> b.contains(s))
                ==> report_entries(all_scopes(), a, ctx) == report_entries(all_scopes(), b, ctx)
        }),
{
    lemma_empty_selection_is_all(ctx);
    assert forall|s: DoctorScope| #[trigger] requested(a + a, s) == requested(a, s) by {
        if a.contains(s) {
            let i = choose|i: int| 0 <= i < a.len() && a[i] == s;
            assert((a + a)[i] == s);
        }
        if (a + a).contains(s) {
            let i = choose|i: int| 0 <= i < (a + a).len() && (a + a)[i] == s;
            if i < a.len() {
                assert(a[i] == s);
            } else {
                assert(a[i - a.len()] == s);
            }
        }
    }
    lemma_scope_selection(all_scopes(), a + a, a, ctx);
    if a.len() > 0 && b.len() > 0 && forall|s: DoctorScope| a.contains(s) <==> b.contains(s) {
        assert forall|s: DoctorScope| #[trigger] requested(a, s) == requested(b, s) by {}
        lemma_scope_selection(all_scopes(), a, b, ctx);
    }
}

} // verus!
