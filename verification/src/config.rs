//! Configuration: the resolved settings, the layers they are read from, and
//! their precedence.
//!
//! Settings resolve with precedence CLI > environment > explicit `--config`
//! file > project `.opi/config.toml` > user `config.toml` > built-in
//! defaults. A layer only sets the fields it names; `OPI_MODEL` applies only
//! when no explicit `--config` file is given.
use vstd::prelude::*;

use crate::paths::path_join;
use crate::text::{chars_of, extend_str, string_of, trim, trim_chars};

verus! {

// ---------------------------------------------------------------------------
// Resolved configuration
// ---------------------------------------------------------------------------

/// `[defaults]`.
#[derive(Debug)]
pub struct DefaultsConfig {
    pub model: String,
    pub max_iterations: u32,
    pub tool_timeout_ms: u64,
    pub max_image_bytes: u64,
    pub theme: String,
    pub allow_mutating_tools: bool,
}

/// `[thinking]`.
#[derive(Debug)]
pub struct ThinkingConfig {
    pub enabled: bool,
    pub budget_tokens: u32,
}

/// A provider's proxy, from `[providers.*.proxy]`.
#[derive(Debug)]
pub struct ProviderProxyConfig {
    pub url: String,
    pub no_proxy: Option<String>,
}

/// `[providers.anthropic]`.
#[derive(Debug)]
pub struct AnthropicProviderConfig {
    pub api_key_env: String,
    pub base_url: Option<String>,
    pub proxy: Option<ProviderProxyConfig>,
}

/// A provider with an API key variable, a base URL and a proxy.
#[derive(Debug)]
pub struct GenericProviderConfig {
    pub api_key_env: String,
    pub base_url: Option<String>,
    pub proxy: Option<ProviderProxyConfig>,
}

/// `[providers.openrouter]`.
#[derive(Debug)]
pub struct OpenRouterProviderConfig {
    pub api_key_env: String,
    pub base_url: Option<String>,
    pub referer: Option<String>,
    pub proxy: Option<ProviderProxyConfig>,
}

/// `[providers.bedrock]`.
#[derive(Debug)]
pub struct BedrockProviderConfig {
    pub access_key_id: Option<String>,
    pub secret_access_key_env: Option<String>,
    pub session_token_env: Option<String>,
    pub region: Option<String>,
    pub profile: Option<String>,
    pub base_url: Option<String>,
    pub proxy: Option<ProviderProxyConfig>,
}

/// `[providers.azure]`.
#[derive(Debug)]
pub struct AzureProviderConfig {
    pub api_key_env: String,
    pub endpoint: Option<String>,
    pub api_version: Option<String>,
    pub deployments: Vec<String>,
    pub proxy: Option<ProviderProxyConfig>,
}

/// `[providers.vertex]`.
#[derive(Debug)]
pub struct VertexProviderConfig {
    pub access_token_env: String,
    pub project: Option<String>,
    pub location: Option<String>,
    pub models: Vec<String>,
    pub base_url: Option<String>,
    pub proxy: Option<ProviderProxyConfig>,
}

/// `[providers]`.
#[derive(Debug)]
pub struct ProvidersConfig {
    pub anthropic: AnthropicProviderConfig,
    pub openai: GenericProviderConfig,
    pub openrouter: OpenRouterProviderConfig,
    pub mistral: GenericProviderConfig,
    pub openai_responses: GenericProviderConfig,
    pub gemini: GenericProviderConfig,
    pub bedrock: BedrockProviderConfig,
    pub azure: AzureProviderConfig,
    pub vertex: VertexProviderConfig,
}

/// `[keybindings]`.
#[derive(Debug)]
pub struct KeybindingsConfig {
    pub submit: String,
    pub abort: String,
    pub new_line: String,
}

/// `[retry]`: the provider retry policy.
#[derive(Debug)]
pub struct RetryConfig {
    pub max_attempts: u32,
    pub initial_delay_ms: u64,
    pub max_delay_ms: u64,
}

/// `[compaction]`.
#[derive(Debug)]
pub struct CompactionConfigSection {
    pub enabled: bool,
    pub threshold_tokens: u64,
}

/// The fully resolved configuration.
#[derive(Debug)]
pub struct OpiConfig {
    pub defaults: DefaultsConfig,
    pub thinking: ThinkingConfig,
    pub providers: ProvidersConfig,
    pub keybindings: KeybindingsConfig,
    pub retry: RetryConfig,
    pub compaction: CompactionConfigSection,
}

// ---------------------------------------------------------------------------
// Built-in defaults
// ---------------------------------------------------------------------------

/// An owned copy of a string literal.
fn owned(s: &str) -> (r: String)
    ensures
        r@ == s@,
{
    string_of(&chars_of(s))
}

impl ThinkingConfig {
    /// Thinking enabled with a budget of 10 000 tokens.
    pub fn new() -> (r: Self)
        ensures
            r.enabled && r.budget_tokens == 10_000,
    {
        ThinkingConfig { enabled: true, budget_tokens: 10_000 }
    }
}

impl KeybindingsConfig {
    /// `enter` submits, `escape` aborts, `alt+enter` inserts a new line.
    pub fn new() -> (r: Self)
        ensures
            r.submit@ == "enter"@ && r.abort@ == "escape"@ && r.new_line@ == "alt+enter"@,
    {
        KeybindingsConfig { submit: owned("enter"), abort: owned("escape"), new_line: owned("alt+enter") }
    }
}

impl CompactionConfigSection {
    /// Compaction enabled at 100 000 tokens.
    pub fn new() -> (r: Self)
        ensures
            r.enabled && r.threshold_tokens == 100_000,
    {
        CompactionConfigSection { enabled: true, threshold_tokens: 100_000 }
    }
}

/// A provider with no settings.
fn generic_provider() -> (r: GenericProviderConfig)
    ensures
        r.api_key_env@ == Seq::<char>::empty() && r.base_url is None && r.proxy is None,
{
    GenericProviderConfig { api_key_env: String::new(), base_url: None, proxy: None }
}

/// The built-in provider settings: Anthropic reads `ANTHROPIC_API_KEY`,
/// everything else is unset.
pub open spec fn default_providers(p: ProvidersConfig) -> bool {
    &&& p.anthropic.api_key_env@ == "ANTHROPIC_API_KEY"@
    &&& p.anthropic.base_url is None && p.anthropic.proxy is None
    &&& p.openai.api_key_env@.len() == 0 && p.openai.base_url is None && p.openai.proxy is None
    &&& p.openrouter.api_key_env@.len() == 0 && p.openrouter.base_url is None
        && p.openrouter.referer is None && p.openrouter.proxy is None
    &&& p.mistral.api_key_env@.len() == 0 && p.mistral.base_url is None && p.mistral.proxy is None
    &&& p.openai_responses.api_key_env@.len() == 0 && p.openai_responses.base_url is None
        && p.openai_responses.proxy is None
    &&& p.gemini.api_key_env@.len() == 0 && p.gemini.base_url is None && p.gemini.proxy is None
    &&& p.bedrock.access_key_id is None && p.bedrock.secret_access_key_env is None
        && p.bedrock.session_token_env is None && p.bedrock.region is None
        && p.bedrock.profile is None && p.bedrock.base_url is None && p.bedrock.proxy is None
    &&& p.azure.api_key_env@.len() == 0 && p.azure.endpoint is None && p.azure.api_version is None
        && p.azure.deployments@.len() == 0 && p.azure.proxy is None
    &&& p.vertex.access_token_env@.len() == 0 && p.vertex.project is None
        && p.vertex.location is None && p.vertex.models@.len() == 0 && p.vertex.base_url is None
        && p.vertex.proxy is None
}

impl ProvidersConfig {
    /// The built-in provider settings.
    pub fn new() -> (r: Self)
        ensures
            default_providers(r),
    {
        ProvidersConfig {
            anthropic: AnthropicProviderConfig {
                api_key_env: owned("ANTHROPIC_API_KEY"),
                base_url: None,
                proxy: None,
            },
            openai: generic_provider(),
            openrouter: OpenRouterProviderConfig {
                api_key_env: String::new(),
                base_url: None,
                referer: None,
                proxy: None,
            },
            mistral: generic_provider(),
            openai_responses: generic_provider(),
            gemini: generic_provider(),
            bedrock: BedrockProviderConfig {
                access_key_id: None,
                secret_access_key_env: None,
                session_token_env: None,
                region: None,
                profile: None,
                base_url: None,
                proxy: None,
            },
            azure: AzureProviderConfig {
                api_key_env: String::new(),
                endpoint: None,
                api_version: None,
                deployments: Vec::new(),
                proxy: None,
            },
            vertex: VertexProviderConfig {
                access_token_env: String::new(),
                project: None,
                location: None,
                models: Vec::new(),
                base_url: None,
                proxy: None,
            },
        }
    }
}

/// The built-in configuration, given the default model and the defaults
/// owned by the agent runtime: its retry policy and its image size limit.
pub open spec fn is_default_config(
    c: OpiConfig,
    model: String,
    retry: RetryConfig,
    max_image_bytes: u64,
) -> bool {
    &&& c.defaults.model == model
    &&& c.defaults.max_iterations == 50
    &&& c.defaults.tool_timeout_ms == 30_000
    &&& c.defaults.max_image_bytes == max_image_bytes
    &&& c.defaults.theme@ == "default"@
    &&& !c.defaults.allow_mutating_tools
    &&& c.thinking.enabled && c.thinking.budget_tokens == 10_000
    &&& default_providers(c.providers)
    &&& c.keybindings.submit@ == "enter"@ && c.keybindings.abort@ == "escape"@
        && c.keybindings.new_line@ == "alt+enter"@
    &&& c.retry == retry
    &&& c.compaction.enabled && c.compaction.threshold_tokens == 100_000
}

impl OpiConfig {
    /// The built-in configuration: the given default model, 50 iterations,
    /// 30 s tool timeout, theme `default`, mutating tools off, thinking on
    /// with 10 000 tokens, compaction at 100 000 tokens; the retry policy and
    /// image limit come from the agent runtime.
    pub fn with_runtime_defaults(model: String, retry: RetryConfig, max_image_bytes: u64) -> (r:
        Self)
        ensures
            is_default_config(r, model, retry, max_image_bytes),
    {
        OpiConfig {
            defaults: DefaultsConfig {
                model,
                max_iterations: 50,
                tool_timeout_ms: 30_000,
                max_image_bytes,
                theme: owned("default"),
                allow_mutating_tools: false,
            },
            thinking: ThinkingConfig::new(),
            providers: ProvidersConfig::new(),
            keybindings: KeybindingsConfig::new(),
            retry,
            compaction: CompactionConfigSection::new(),
        }
    }
}

// ---------------------------------------------------------------------------
// Configuration files
// ---------------------------------------------------------------------------

/// `[providers.*.proxy]` as read.
#[derive(Debug)]
pub struct ProxyFile {
    pub url: Option<String>,
    pub no_proxy: Option<String>,
}

/// `[defaults]` as read.
#[derive(Debug)]
pub struct DefaultsFile {
    pub model: Option<String>,
    pub max_iterations: Option<u32>,
    pub tool_timeout_ms: Option<u64>,
    pub max_image_bytes: Option<u64>,
    pub theme: Option<String>,
    pub allow_mutating_tools: Option<bool>,
}

/// `[thinking]` as read.
#[derive(Debug)]
pub struct ThinkingFile {
    pub enabled: Option<bool>,
    pub budget_tokens: Option<u32>,
}

/// A provider section with an API key variable, a base URL and a proxy, as
/// read (also `[providers.anthropic]`).
#[derive(Debug)]
pub struct GenericProviderFile {
    pub api_key_env: Option<String>,
    pub base_url: Option<String>,
    pub proxy: Option<ProxyFile>,
}

/// `[providers.openrouter]` as read.
#[derive(Debug)]
pub struct OpenRouterProviderFile {
    pub api_key_env: Option<String>,
    pub base_url: Option<String>,
    pub referer: Option<String>,
    pub proxy: Option<ProxyFile>,
}

/// `[providers.bedrock]` as read.
#[derive(Debug)]
pub struct BedrockProviderFile {
    pub access_key_id: Option<String>,
    pub secret_access_key_env: Option<String>,
    pub session_token_env: Option<String>,
    pub region: Option<String>,
    pub profile: Option<String>,
    pub base_url: Option<String>,
    pub proxy: Option<ProxyFile>,
}

/// `[providers.azure]` as read.
#[derive(Debug)]
pub struct AzureProviderFile {
    pub api_key_env: Option<String>,
    pub endpoint: Option<String>,
    pub api_version: Option<String>,
    pub deployments: Option<Vec<String>>,
    pub proxy: Option<ProxyFile>,
}

/// `[providers.vertex]` as read.
#[derive(Debug)]
pub struct VertexProviderFile {
    pub access_token_env: Option<String>,
    pub project: Option<String>,
    pub location: Option<String>,
    pub models: Option<Vec<String>>,
    pub base_url: Option<String>,
    pub proxy: Option<ProxyFile>,
}

/// `[providers]` as read.
#[derive(Debug)]
pub struct ProvidersFile {
    pub anthropic: GenericProviderFile,
    pub bedrock: BedrockProviderFile,
    pub openai: GenericProviderFile,
    pub openrouter: OpenRouterProviderFile,
    pub mistral: GenericProviderFile,
    pub openai_responses: GenericProviderFile,
    pub gemini: GenericProviderFile,
    pub azure: AzureProviderFile,
    pub vertex: VertexProviderFile,
}

/// `[keybindings]` as read.
#[derive(Debug)]
pub struct KeybindingsFile {
    pub submit: Option<String>,
    pub abort: Option<String>,
    pub new_line: Option<String>,
}

/// `[retry]` as read.
#[derive(Debug)]
pub struct RetryFile {
    pub max_attempts: Option<u32>,
    pub initial_delay_ms: Option<u64>,
    pub max_delay_ms: Option<u64>,
}

/// `[compaction]` as read.
#[derive(Debug)]
pub struct CompactionFile {
    pub enabled: Option<bool>,
    pub threshold_tokens: Option<u64>,
}

/// A configuration file as read: each field is `Some` when the file sets it.
#[derive(Debug)]
pub struct ConfigFile {
    pub defaults: DefaultsFile,
    pub thinking: ThinkingFile,
    pub providers: ProvidersFile,
    pub keybindings: KeybindingsFile,
    pub retry: RetryFile,
    pub compaction: CompactionFile,
}

// ---------------------------------------------------------------------------
// Merging: spec
// ---------------------------------------------------------------------------

/// The value a layer sets, or the one it leaves.
pub open spec fn pick<T>(layer: Option<T>, current: T) -> T {
    match layer {
        Some(v) => v,
        None => current,
    }
}

/// An optional setting a layer sets, or the one it leaves.
pub open spec fn pick_some<T>(layer: Option<T>, current: Option<T>) -> Option<T> {
    match layer {
        Some(v) => Some(v),
        None => current,
    }
}

/// The proxy after a layer: it takes effect only with a non-blank URL.
pub open spec fn merged_proxy(layer: Option<ProxyFile>, current: Option<ProviderProxyConfig>) -> Option<
    ProviderProxyConfig,
> {
    match layer {
        Some(p) => match p.url {
            Some(u) => if trim(u@).len() > 0 {
                Some(ProviderProxyConfig { url: u, no_proxy: p.no_proxy })
            } else {
                current
            },
            None => current,
        },
        None => current,
    }
}

/// A generic provider after a layer.
pub open spec fn merged_generic(f: GenericProviderFile, c: GenericProviderConfig) -> GenericProviderConfig {
    GenericProviderConfig {
        api_key_env: pick(f.api_key_env, c.api_key_env),
        base_url: pick_some(f.base_url, c.base_url),
        proxy: merged_proxy(f.proxy, c.proxy),
    }
}

/// The configuration after merging layer `f` over `c`: every field the layer
/// sets replaces the current one; the others stay.
pub open spec fn merged_config(f: ConfigFile, c: OpiConfig) -> OpiConfig {
    OpiConfig {
        defaults: DefaultsConfig {
            model: pick(f.defaults.model, c.defaults.model),
            max_iterations: pick(f.defaults.max_iterations, c.defaults.max_iterations),
            tool_timeout_ms: pick(f.defaults.tool_timeout_ms, c.defaults.tool_timeout_ms),
            max_image_bytes: pick(f.defaults.max_image_bytes, c.defaults.max_image_bytes),
            theme: pick(f.defaults.theme, c.defaults.theme),
            allow_mutating_tools: pick(
                f.defaults.allow_mutating_tools,
                c.defaults.allow_mutating_tools,
            ),
        },
        thinking: ThinkingConfig {
            enabled: pick(f.thinking.enabled, c.thinking.enabled),
            budget_tokens: pick(f.thinking.budget_tokens, c.thinking.budget_tokens),
        },
        providers: ProvidersConfig {
            anthropic: AnthropicProviderConfig {
                api_key_env: pick(
                    f.providers.anthropic.api_key_env,
                    c.providers.anthropic.api_key_env,
                ),
                base_url: pick_some(f.providers.anthropic.base_url, c.providers.anthropic.base_url),
                proxy: merged_proxy(f.providers.anthropic.proxy, c.providers.anthropic.proxy),
            },
            openai: merged_generic(f.providers.openai, c.providers.openai),
            openrouter: OpenRouterProviderConfig {
                api_key_env: pick(
                    f.providers.openrouter.api_key_env,
                    c.providers.openrouter.api_key_env,
                ),
                base_url: pick_some(
                    f.providers.openrouter.base_url,
                    c.providers.openrouter.base_url,
                ),
                referer: pick_some(f.providers.openrouter.referer, c.providers.openrouter.referer),
                proxy: merged_proxy(f.providers.openrouter.proxy, c.providers.openrouter.proxy),
            },
            mistral: merged_generic(f.providers.mistral, c.providers.mistral),
            openai_responses: merged_generic(
                f.providers.openai_responses,
                c.providers.openai_responses,
            ),
            gemini: merged_generic(f.providers.gemini, c.providers.gemini),
            bedrock: BedrockProviderConfig {
                access_key_id: pick_some(
                    f.providers.bedrock.access_key_id,
                    c.providers.bedrock.access_key_id,
                ),
                secret_access_key_env: pick_some(
                    f.providers.bedrock.secret_access_key_env,
                    c.providers.bedrock.secret_access_key_env,
                ),
                session_token_env: pick_some(
                    f.providers.bedrock.session_token_env,
                    c.providers.bedrock.session_token_env,
                ),
                region: pick_some(f.providers.bedrock.region, c.providers.bedrock.region),
                profile: pick_some(f.providers.bedrock.profile, c.providers.bedrock.profile),
                base_url: pick_some(f.providers.bedrock.base_url, c.providers.bedrock.base_url),
                proxy: merged_proxy(f.providers.bedrock.proxy, c.providers.bedrock.proxy),
            },
            azure: AzureProviderConfig {
                api_key_env: pick(f.providers.azure.api_key_env, c.providers.azure.api_key_env),
                endpoint: pick_some(f.providers.azure.endpoint, c.providers.azure.endpoint),
                api_version: pick_some(
                    f.providers.azure.api_version,
                    c.providers.azure.api_version,
                ),
                deployments: pick(f.providers.azure.deployments, c.providers.azure.deployments),
                proxy: merged_proxy(f.providers.azure.proxy, c.providers.azure.proxy),
            },
            vertex: VertexProviderConfig {
                access_token_env: pick(
                    f.providers.vertex.access_token_env,
                    c.providers.vertex.access_token_env,
                ),
                project: pick_some(f.providers.vertex.project, c.providers.vertex.project),
                location: pick_some(f.providers.vertex.location, c.providers.vertex.location),
                models: pick(f.providers.vertex.models, c.providers.vertex.models),
                base_url: pick_some(f.providers.vertex.base_url, c.providers.vertex.base_url),
                proxy: merged_proxy(f.providers.vertex.proxy, c.providers.vertex.proxy),
            },
        },
        keybindings: KeybindingsConfig {
            submit: pick(f.keybindings.submit, c.keybindings.submit),
            abort: pick(f.keybindings.abort, c.keybindings.abort),
            new_line: pick(f.keybindings.new_line, c.keybindings.new_line),
        },
        retry: RetryConfig {
            max_attempts: pick(f.retry.max_attempts, c.retry.max_attempts),
            initial_delay_ms: pick(f.retry.initial_delay_ms, c.retry.initial_delay_ms),
            max_delay_ms: pick(f.retry.max_delay_ms, c.retry.max_delay_ms),
        },
        compaction: CompactionConfigSection {
            enabled: pick(f.compaction.enabled, c.compaction.enabled),
            threshold_tokens: pick(f.compaction.threshold_tokens, c.compaction.threshold_tokens),
        },
    }
}

// ---------------------------------------------------------------------------
// Merging: exec
// ---------------------------------------------------------------------------

/// Set `target` to the layer's value, if it has one.
fn set_from<T>(target: &mut T, layer: Option<T>)
    ensures
        *final(target) == pick(layer, *old(target)),
{
    if let Some(v) = layer {
        *target = v;
    }
}

/// Set the optional `target` to the layer's value, if it has one.
fn set_some_from<T>(target: &mut Option<T>, layer: Option<T>)
    ensures
        *final(target) == pick_some(layer, *old(target)),
{
    if let Some(v) = layer {
        *target = Some(v);
    }
}

/// Apply a layer's proxy: only a non-blank URL takes effect.
fn merge_proxy(target: &mut Option<ProviderProxyConfig>, layer: Option<ProxyFile>)
    ensures
        *final(target) == merged_proxy(layer, *old(target)),
{
    if let Some(p) = layer {
        let ProxyFile { url, no_proxy } = p;
        if let Some(u) = url {
            if trim_chars(&chars_of(u.as_str())).len() > 0 {
                *target = Some(ProviderProxyConfig { url: u, no_proxy });
            }
        }
    }
}

/// Apply a generic provider layer.
fn merge_generic(target: &mut GenericProviderConfig, f: GenericProviderFile)
    ensures
        *final(target) == merged_generic(f, *old(target)),
{
    let GenericProviderFile { api_key_env, base_url, proxy } = f;
    set_from(&mut target.api_key_env, api_key_env);
    set_some_from(&mut target.base_url, base_url);
    merge_proxy(&mut target.proxy, proxy);
}

impl ConfigFile {
    /// Merge this layer over `config`: every field the layer sets replaces
    /// the current one (a proxy only with a non-blank URL); the others stay.
    pub fn merge_into(self, config: &mut OpiConfig)
        ensures
            *final(config) == merged_config(self, *old(config)),
    {
        let ghost f = self;
        let ConfigFile { defaults, thinking, providers, keybindings, retry, compaction } = self;
        set_from(&mut config.defaults.model, defaults.model);
        set_from(&mut config.defaults.max_iterations, defaults.max_iterations);
        set_from(&mut config.defaults.tool_timeout_ms, defaults.tool_timeout_ms);
        set_from(&mut config.defaults.max_image_bytes, defaults.max_image_bytes);
        set_from(&mut config.defaults.theme, defaults.theme);
        set_from(&mut config.defaults.allow_mutating_tools, defaults.allow_mutating_tools);
        set_from(&mut config.thinking.enabled, thinking.enabled);
        set_from(&mut config.thinking.budget_tokens, thinking.budget_tokens);
        let ProvidersFile {
            anthropic,
            bedrock,
            openai,
            openrouter,
            mistral,
            openai_responses,
            gemini,
            azure,
            vertex,
        } = providers;
        set_from(&mut config.providers.anthropic.api_key_env, anthropic.api_key_env);
        set_some_from(&mut config.providers.anthropic.base_url, anthropic.base_url);
        merge_proxy(&mut config.providers.anthropic.proxy, anthropic.proxy);
        set_some_from(&mut config.providers.bedrock.access_key_id, bedrock.access_key_id);
        set_some_from(
            &mut config.providers.bedrock.secret_access_key_env,
            bedrock.secret_access_key_env,
        );
        set_some_from(&mut config.providers.bedrock.session_token_env, bedrock.session_token_env);
        set_some_from(&mut config.providers.bedrock.region, bedrock.region);
        set_some_from(&mut config.providers.bedrock.profile, bedrock.profile);
        set_some_from(&mut config.providers.bedrock.base_url, bedrock.base_url);
        merge_proxy(&mut config.providers.bedrock.proxy, bedrock.proxy);
        set_from(&mut config.providers.azure.api_key_env, azure.api_key_env);
        set_some_from(&mut config.providers.azure.endpoint, azure.endpoint);
        set_some_from(&mut config.providers.azure.api_version, azure.api_version);
        set_from(&mut config.providers.azure.deployments, azure.deployments);
        merge_proxy(&mut config.providers.azure.proxy, azure.proxy);
        set_from(&mut config.providers.vertex.access_token_env, vertex.access_token_env);
        set_some_from(&mut config.providers.vertex.project, vertex.project);
        set_some_from(&mut config.providers.vertex.location, vertex.location);
        set_from(&mut config.providers.vertex.models, vertex.models);
        set_some_from(&mut config.providers.vertex.base_url, vertex.base_url);
        merge_proxy(&mut config.providers.vertex.proxy, vertex.proxy);
        merge_generic(&mut config.providers.openai, openai);
        set_from(&mut config.providers.openrouter.api_key_env, openrouter.api_key_env);
        set_some_from(&mut config.providers.openrouter.base_url, openrouter.base_url);
        set_some_from(&mut config.providers.openrouter.referer, openrouter.referer);
        merge_proxy(&mut config.providers.openrouter.proxy, openrouter.proxy);
        merge_generic(&mut config.providers.mistral, mistral);
        merge_generic(&mut config.providers.openai_responses, openai_responses);
        merge_generic(&mut config.providers.gemini, gemini);
        set_from(&mut config.keybindings.submit, keybindings.submit);
        set_from(&mut config.keybindings.abort, keybindings.abort);
        set_from(&mut config.keybindings.new_line, keybindings.new_line);
        set_from(&mut config.retry.max_attempts, retry.max_attempts);
        set_from(&mut config.retry.initial_delay_ms, retry.initial_delay_ms);
        set_from(&mut config.retry.max_delay_ms, retry.max_delay_ms);
        set_from(&mut config.compaction.enabled, compaction.enabled);
        set_from(&mut config.compaction.threshold_tokens, compaction.threshold_tokens);
    }
}

// ---------------------------------------------------------------------------
// Resolution
// ---------------------------------------------------------------------------

/// Errors from loading configuration files.
#[derive(Debug)]
pub enum ConfigError {
    /// A file is not valid TOML for the configuration.
    Parse { path: String, message: String },
    /// A file could not be read (or an explicit `--config` file is missing).
    Read { path: String, message: String },
}

impl ConfigError {
    /// The message of this error.
    pub fn message(&self) -> (r: String)
        ensures
            r@ == (match *self {
                ConfigError::Parse { path, message } => "failed to parse config file "@ + path@
                    + ": "@ + message@,
                ConfigError::Read { path, message } => "failed to read config file "@ + path@
                    + ": "@ + message@,
            }),
    {
        let mut v: Vec<char> = Vec::new();
        match self {
            ConfigError::Parse { path, message } => {
                extend_str(&mut v, "failed to parse config file ");
                extend_str(&mut v, path.as_str());
                extend_str(&mut v, ": ");
                extend_str(&mut v, message.as_str());
            },
            ConfigError::Read { path, message } => {
                extend_str(&mut v, "failed to read config file ");
                extend_str(&mut v, path.as_str());
                extend_str(&mut v, ": ");
                extend_str(&mut v, message.as_str());
            },
        }
        string_of(&v)
    }
}

/// The sources of a resolution, as given on the command line and in the
/// environment.
#[derive(Debug)]
pub struct ConfigSource {
    /// `--model`.
    pub cli_model: Option<String>,
    /// `--config`.
    pub config_path: Option<String>,
    /// `OPI_MODEL`.
    pub env_model: Option<String>,
    /// The project root (for `.opi/config.toml`).
    pub project_dir: Option<String>,
    /// The user config file, when not the platform default.
    pub user_config_path: Option<String>,
}

/// `c` with its model replaced.
pub open spec fn with_model(c: OpiConfig, m: String) -> OpiConfig {
    OpiConfig { defaults: DefaultsConfig { model: m, ..c.defaults }, ..c }
}

/// `c` after an optional layer.
pub open spec fn merged_opt(f: Option<ConfigFile>, c: OpiConfig) -> OpiConfig {
    match f {
        Some(f) => merged_config(f, c),
        None => c,
    }
}

/// The resolved configuration: the user configuration `base`, then the
/// project layer, then the explicit `--config` layer, then `OPI_MODEL`
/// (only without an explicit layer), then `--model`.
pub open spec fn resolved_spec(
    base: OpiConfig,
    project: Option<ConfigFile>,
    explicit: Option<ConfigFile>,
    env_model: Option<String>,
    cli_model: Option<String>,
) -> OpiConfig {
    let c = merged_opt(explicit, merged_opt(project, base));
    let c = if explicit is None && env_model is Some {
        with_model(c, env_model->0)
    } else {
        c
    };
    match cli_model {
        Some(m) => with_model(c, m),
        None => c,
    }
}

/// Resolve the configuration from its layers: `base` is the user
/// configuration (built-in defaults merged with the user file), `project`
/// the project file if it exists, `explicit` the `--config` file if one was
/// given.
pub fn resolve_layers(
    base: OpiConfig,
    project: Option<ConfigFile>,
    explicit: Option<ConfigFile>,
    env_model: Option<String>,
    cli_model: Option<String>,
) -> (r: OpiConfig)
    ensures
        r == resolved_spec(base, project, explicit, env_model, cli_model),
{
    let mut config = base;
    if let Some(f) = project {
        f.merge_into(&mut config);
    }
    let explicit_given = explicit.is_some();
    if let Some(f) = explicit {
        f.merge_into(&mut config);
    }
    if !explicit_given {
        if let Some(m) = env_model {
            config.defaults.model = m;
        }
    }
    if let Some(m) = cli_model {
        config.defaults.model = m;
    }
    config
}

/// The configuration a single file gives over the built-in defaults.
pub fn config_from_file(file: ConfigFile, defaults: OpiConfig) -> (r: OpiConfig)
    ensures
        r == merged_config(file, defaults),
{
    let mut config = defaults;
    file.merge_into(&mut config);
    config
}

/// The model precedence: `--model`, then `OPI_MODEL` unless an explicit
/// `--config` file is given, then the explicit file, then the project file,
/// then the user configuration.
pub proof fn lemma_model_precedence(
    base: OpiConfig,
    project: Option<ConfigFile>,
    explicit: Option<ConfigFile>,
    env_model: Option<String>,
    cli_model: Option<String>,
)
    ensures
        ({
            let m = resolved_spec(base, project, explicit, env_model, cli_model).defaults.model;
            if cli_model is Some {
                m == cli_model->0
            } else if explicit is None && env_model is Some {
                m == env_model->0
            } else if explicit is Some && explicit->0.defaults.model is Some {
                m == explicit->0.defaults.model->0
            } else if project is Some && project->0.defaults.model is Some {
                m == project->0.defaults.model->0
            } else {
                m == base.defaults.model
            }
        }),
{
}

/// A layer that sets nothing leaves the configuration as it is.
pub proof fn lemma_empty_layer_keeps(f: ConfigFile, c: OpiConfig)
    requires
        f.defaults.model is None && f.defaults.max_iterations is None
            && f.defaults.tool_timeout_ms is None && f.defaults.max_image_bytes is None
            && f.defaults.theme is None && f.defaults.allow_mutating_tools is None,
        f.thinking.enabled is None && f.thinking.budget_tokens is None,
        f.providers.anthropic.api_key_env is None && f.providers.anthropic.base_url is None
            && f.providers.anthropic.proxy is None,
        f.providers.openai.api_key_env is None && f.providers.openai.base_url is None
            && f.providers.openai.proxy is None,
        f.providers.openrouter.api_key_env is None && f.providers.openrouter.base_url is None
            && f.providers.openrouter.referer is None && f.providers.openrouter.proxy is None,
        f.providers.mistral.api_key_env is None && f.providers.mistral.base_url is None
            && f.providers.mistral.proxy is None,
        f.providers.openai_responses.api_key_env is None
            && f.providers.openai_responses.base_url is None
            && f.providers.openai_responses.proxy is None,
        f.providers.gemini.api_key_env is None && f.providers.gemini.base_url is None
            && f.providers.gemini.proxy is None,
        f.providers.bedrock.access_key_id is None && f.providers.bedrock.secret_access_key_env is None
            && f.providers.bedrock.session_token_env is None && f.providers.bedrock.region is None
            && f.providers.bedrock.profile is None && f.providers.bedrock.base_url is None
            && f.providers.bedrock.proxy is None,
        f.providers.azure.api_key_env is None && f.providers.azure.endpoint is None
            && f.providers.azure.api_version is None && f.providers.azure.deployments is None
            && f.providers.azure.proxy is None,
        f.providers.vertex.access_token_env is None && f.providers.vertex.project is None
            && f.providers.vertex.location is None && f.providers.vertex.models is None
            && f.providers.vertex.base_url is None && f.providers.vertex.proxy is None,
        f.keybindings.submit is None && f.keybindings.abort is None && f.keybindings.new_line is None,
        f.retry.max_attempts is None && f.retry.initial_delay_ms is None
            && f.retry.max_delay_ms is None,
        f.compaction.enabled is None && f.compaction.threshold_tokens is None,
    ensures
        merged_config(f, c) == c,
{
}

/// The user configuration directory: `<home>/.config/opi`, or `.opi`
/// without a home directory.
pub open spec fn user_config_dir_spec(home: Option<Seq<char>>) -> Seq<char> {
    match home {
        Some(h) => path_join(path_join(h, ".config"@), "opi"@),
        None => ".opi"@,
    }
}

/// The user configuration directory, given `$HOME`.
pub fn user_config_dir(home: Option<&str>) -> (r: String)
    ensures
        r@ == user_config_dir_spec(
            match home {
                Some(h) => Some(h@),
                None => None,
            },
        ),
{
    match home {
        Some(h) => {
            let c = crate::paths::join_path(h, ".config");
            crate::paths::join_path(c.as_str(), "opi")
        },
        None => owned(".opi"),
    }
}

/// The user configuration file, given `$HOME`: `config.toml` in the user
/// configuration directory.
pub fn user_config_path(home: Option<&str>) -> (r: String)
    ensures
        r@ == path_join(
            user_config_dir_spec(
                match home {
                    Some(h) => Some(h@),
                    None => None,
                },
            ),
            "config.toml"@,
        ),
{
    let d = user_config_dir(home);
    crate::paths::join_path(d.as_str(), "config.toml")
}

/// The project configuration file: `.opi/config.toml` in the project.
pub fn project_config_path(project_dir: &str) -> (r: String)
    ensures
        r@ == path_join(path_join(project_dir@, ".opi"@), "config.toml"@),
{
    let d = crate::paths::join_path(project_dir, ".opi");
    crate::paths::join_path(d.as_str(), "config.toml")
}

/// A setting after a layer: the value the layer sets, or, when it sets
/// none, the value before.
pub open spec fn layer_wins<T>(layer: Option<T>, merged: T, before: T) -> bool {
    match layer {
        Some(v) => merged == v,
        None => merged == before,
    }
}

/// An optional setting after a layer: the value the layer sets, or, when
/// it sets none, the value before.
pub open spec fn layer_wins_optional<T>(layer: Option<T>, merged: Option<T>, before: Option<T>) -> bool {
    match layer {
        Some(v) => merged == Some(v),
        None => merged == before,
    }
}

/// A proxy after a layer: the layer's, when it gives a URL that is not
/// blank; otherwise the one before.
pub open spec fn proxy_wins(
    layer: Option<ProxyFile>,
    merged: Option<ProviderProxyConfig>,
    before: Option<ProviderProxyConfig>,
) -> bool {
    if layer is Some && layer->0.url is Some && trim(layer->0.url->0@).len() > 0 {
        merged == Some(ProviderProxyConfig { url: layer->0.url->0, no_proxy: layer->0.no_proxy })
    } else {
        merged == before
    }
}

/// Layering: for every setting, a layer that sets it (`Some(v)`) gives `v`
/// after the merge, and a layer that leaves it unset keeps the value
/// before; a proxy takes effect only with a URL that is not blank.
pub proof fn lemma_layer_sets_win(f: ConfigFile, c: OpiConfig)
    ensures
        ({
            let m = merged_config(f, c);
            &&& layer_wins(f.defaults.model, m.defaults.model, c.defaults.model)
            &&& layer_wins(f.defaults.max_iterations, m.defaults.max_iterations, c.defaults.max_iterations)
            &&& layer_wins(f.defaults.tool_timeout_ms, m.defaults.tool_timeout_ms, c.defaults.tool_timeout_ms)
            &&& layer_wins(f.defaults.max_image_bytes, m.defaults.max_image_bytes, c.defaults.max_image_bytes)
            &&& layer_wins(f.defaults.theme, m.defaults.theme, c.defaults.theme)
            &&& layer_wins(f.defaults.allow_mutating_tools, m.defaults.allow_mutating_tools, c.defaults.allow_mutating_tools)
            &&& layer_wins(f.thinking.enabled, m.thinking.enabled, c.thinking.enabled)
            &&& layer_wins(f.thinking.budget_tokens, m.thinking.budget_tokens, c.thinking.budget_tokens)
            &&& layer_wins(f.providers.anthropic.api_key_env, m.providers.anthropic.api_key_env, c.providers.anthropic.api_key_env)
            &&& layer_wins(f.providers.openrouter.api_key_env, m.providers.openrouter.api_key_env, c.providers.openrouter.api_key_env)
            &&& layer_wins(f.providers.openai.api_key_env, m.providers.openai.api_key_env, c.providers.openai.api_key_env)
            &&& layer_wins(f.providers.mistral.api_key_env, m.providers.mistral.api_key_env, c.providers.mistral.api_key_env)
            &&& layer_wins(f.providers.openai_responses.api_key_env, m.providers.openai_responses.api_key_env, c.providers.openai_responses.api_key_env)
            &&& layer_wins(f.providers.gemini.api_key_env, m.providers.gemini.api_key_env, c.providers.gemini.api_key_env)
            &&& layer_wins(f.providers.azure.api_key_env, m.providers.azure.api_key_env, c.providers.azure.api_key_env)
            &&& layer_wins(f.providers.azure.deployments, m.providers.azure.deployments, c.providers.azure.deployments)
            &&& layer_wins(f.providers.vertex.access_token_env, m.providers.vertex.access_token_env, c.providers.vertex.access_token_env)
            &&& layer_wins(f.providers.vertex.models, m.providers.vertex.models, c.providers.vertex.models)
            &&& layer_wins(f.keybindings.submit, m.keybindings.submit, c.keybindings.submit)
            &&& layer_wins(f.keybindings.abort, m.keybindings.abort, c.keybindings.abort)
            &&& layer_wins(f.keybindings.new_line, m.keybindings.new_line, c.keybindings.new_line)
            &&& layer_wins(f.retry.max_attempts, m.retry.max_attempts, c.retry.max_attempts)
            &&& layer_wins(f.retry.initial_delay_ms, m.retry.initial_delay_ms, c.retry.initial_delay_ms)
            &&& layer_wins(f.retry.max_delay_ms, m.retry.max_delay_ms, c.retry.max_delay_ms)
            &&& layer_wins(f.compaction.enabled, m.compaction.enabled, c.compaction.enabled)
            &&& layer_wins(f.compaction.threshold_tokens, m.compaction.threshold_tokens, c.compaction.threshold_tokens)
            &&& layer_wins_optional(f.providers.anthropic.base_url, m.providers.anthropic.base_url, c.providers.anthropic.base_url)
            &&& layer_wins_optional(f.providers.openrouter.base_url, m.providers.openrouter.base_url, c.providers.openrouter.base_url)
            &&& layer_wins_optional(f.providers.openrouter.referer, m.providers.openrouter.referer, c.providers.openrouter.referer)
            &&& layer_wins_optional(f.providers.openai.base_url, m.providers.openai.base_url, c.providers.openai.base_url)
            &&& layer_wins_optional(f.providers.mistral.base_url, m.providers.mistral.base_url, c.providers.mistral.base_url)
            &&& layer_wins_optional(f.providers.openai_responses.base_url, m.providers.openai_responses.base_url, c.providers.openai_responses.base_url)
            &&& layer_wins_optional(f.providers.gemini.base_url, m.providers.gemini.base_url, c.providers.gemini.base_url)
            &&& layer_wins_optional(f.providers.bedrock.access_key_id, m.providers.bedrock.access_key_id, c.providers.bedrock.access_key_id)
            &&& layer_wins_optional(f.providers.bedrock.secret_access_key_env, m.providers.bedrock.secret_access_key_env, c.providers.bedrock.secret_access_key_env)
            &&& layer_wins_optional(f.providers.bedrock.session_token_env, m.providers.bedrock.session_token_env, c.providers.bedrock.session_token_env)
            &&& layer_wins_optional(f.providers.bedrock.region, m.providers.bedrock.region, c.providers.bedrock.region)
            &&& layer_wins_optional(f.providers.bedrock.profile, m.providers.bedrock.profile, c.providers.bedrock.profile)
            &&& layer_wins_optional(f.providers.bedrock.base_url, m.providers.bedrock.base_url, c.providers.bedrock.base_url)
            &&& layer_wins_optional(f.providers.azure.endpoint, m.providers.azure.endpoint, c.providers.azure.endpoint)
            &&& layer_wins_optional(f.providers.azure.api_version, m.providers.azure.api_version, c.providers.azure.api_version)
            &&& layer_wins_optional(f.providers.vertex.project, m.providers.vertex.project, c.providers.vertex.project)
            &&& layer_wins_optional(f.providers.vertex.location, m.providers.vertex.location, c.providers.vertex.location)
            &&& layer_wins_optional(f.providers.vertex.base_url, m.providers.vertex.base_url, c.providers.vertex.base_url)
            &&& proxy_wins(f.providers.anthropic.proxy, m.providers.anthropic.proxy, c.providers.anthropic.proxy)
            &&& proxy_wins(f.providers.openrouter.proxy, m.providers.openrouter.proxy, c.providers.openrouter.proxy)
            &&& proxy_wins(f.providers.openai.proxy, m.providers.openai.proxy, c.providers.openai.proxy)
            &&& proxy_wins(f.providers.mistral.proxy, m.providers.mistral.proxy, c.providers.mistral.proxy)
            &&& proxy_wins(f.providers.openai_responses.proxy, m.providers.openai_responses.proxy, c.providers.openai_responses.proxy)
            &&& proxy_wins(f.providers.gemini.proxy, m.providers.gemini.proxy, c.providers.gemini.proxy)
            &&& proxy_wins(f.providers.bedrock.proxy, m.providers.bedrock.proxy, c.providers.bedrock.proxy)
            &&& proxy_wins(f.providers.azure.proxy, m.providers.azure.proxy, c.providers.azure.proxy)
            &&& proxy_wins(f.providers.vertex.proxy, m.providers.vertex.proxy, c.providers.vertex.proxy)
        }),
{
}

} // verus!
