//! The command line: options, subcommands and the shells completions are
//! generated for.
use vstd::prelude::*;

verus! {

/// The shells completions can be generated for.
#[derive(Debug, Clone, Copy, PartialEq, Eq, Structural)]
pub enum ShellName {
    Bash,
    Zsh,
    Fish,
    PowerShell,
    Elvish,
}

/// The options of `opi`.
#[derive(Debug)]
pub struct Cli {
    /// `--model`: a model spec such as `provider:model`.
    pub model: Option<String>,
    /// `--config`: a configuration file.
    pub config: Option<String>,
    /// `--system`: a system prompt file.
    pub system: Option<String>,
    /// `--non-interactive`: answer a single prompt.
    pub non_interactive: bool,
    /// `--allow-mutating`: allow `write`, `edit` and `bash` outside
    /// interactive mode.
    pub allow_mutating: bool,
    /// `--json`: NDJSON events on stdout.
    pub json: bool,
    /// `--rpc`: the JSONL command/event protocol on stdin/stdout.
    pub rpc: bool,
    /// `--list-sessions`.
    pub list_sessions: bool,
    /// `--resume <id>`.
    pub resume: Option<String>,
    /// `--fork <id>`.
    pub fork: Option<String>,
    /// `--delete-session <id>`.
    pub delete_session: Option<String>,
    /// `--generate-completion <shell>`.
    pub generate_completion: Option<ShellName>,
    /// `--verbose`.
    pub verbose: bool,
    /// `--trace <path>`: a redacted trace envelope of the run.
    pub trace: Option<String>,
    /// `--tools <list>`: the tool allowlist.
    pub tools: Option<Vec<String>>,
    /// `--no-tools`.
    pub no_tools: bool,
    /// `--no-builtin-tools`.
    pub no_builtin_tools: bool,
    /// `--image <path>`: images attached to the prompt.
    pub image: Vec<String>,
    /// `--list-models`.
    pub list_models: bool,
    /// A subcommand.
    pub command: Option<Command>,
    /// The prompt words.
    pub prompt: Vec<String>,
}

/// The subcommands of `opi`.
#[derive(Debug)]
pub enum Command {
    /// `opi package ...`.
    Package { command: PackageCommand },
    /// `opi doctor [--json] [--scope <list>]`.
    Doctor { json: bool, scope: Option<String> },
}

/// The subcommands of `opi package`.
#[derive(Debug)]
pub enum PackageCommand {
    /// Add a package; `local` uses the project store.
    Add { source: String, local: bool },
    /// Remove a package by name or source; `local` uses the project store.
    Remove { name_or_source: String, local: bool },
    /// List installed packages.
    List { json: bool },
    /// Check installed packages.
    Doctor { json: bool },
}

} // verus!
