//! The non-interactive runner's decisions: its exit codes, what a run
//! prints, and which tools it lets run.
//!
//! A run takes one prompt. In text mode the assistant's text goes to
//! stdout; in JSON mode stdout holds NDJSON events after a header line.
//! Failures go to stderr with the exit code of their kind. Without
//! `--allow-mutating`, tools that change files or run commands are denied.
use vstd::prelude::*;

use crate::policy::is_mutating_tool;
use crate::text::{chars_of, decimal, decimal_chars, extend_chars, extend_str, string_of, string_views};

verus! {

/// Exit codes of the non-interactive runner.
#[derive(Debug, Clone, Copy, PartialEq, Eq, Structural)]
pub enum ExitCode {
    Success,
    RuntimeFailure,
    ConfigError,
    AuthFailure,
    ProviderFailure,
    ToolFailure,
    Interrupted,
}

/// The process exit status of a code.
pub open spec fn exit_status(c: ExitCode) -> i32 {
    match c {
        ExitCode::Success => 0,
        ExitCode::RuntimeFailure => 1,
        ExitCode::ConfigError => 2,
        ExitCode::AuthFailure => 3,
        ExitCode::ProviderFailure => 4,
        ExitCode::ToolFailure => 5,
        ExitCode::Interrupted => 130,
    }
}

impl ExitCode {
    /// The process exit status of this code.
    pub fn code(&self) -> (r: i32)
        ensures
            r == exit_status(*self),
    {
        match self {
            ExitCode::Success => 0,
            ExitCode::RuntimeFailure => 1,
            ExitCode::ConfigError => 2,
            ExitCode::AuthFailure => 3,
            ExitCode::ProviderFailure => 4,
            ExitCode::ToolFailure => 5,
            ExitCode::Interrupted => 130,
        }
    }
}

/// The output of a non-interactive run.
#[derive(Debug)]
pub struct NonInteractiveResult {
    pub stdout: String,
    pub stderr: String,
    pub exit_code: i32,
}

/// The stderr suffix for session persist errors: one
/// `"\nsession persist error: <e>"` per error.
pub open spec fn persist_errors_text(errors: Seq<Seq<char>>) -> Seq<char>
    decreases errors.len(),
{
    if errors.len() == 0 {
        Seq::empty()
    } else {
        persist_errors_text(errors.drop_last()) + "\nsession persist error: "@ + errors.last()
    }
}

/// Format captured session persist errors as a stderr suffix.
pub fn format_persist_errors(errors: &Vec<String>) -> (r: String)
    ensures
        r@ == persist_errors_text(string_views(errors@)),
{
    let ghost ev = string_views(errors@);
    let mut out: Vec<char> = Vec::new();
    let mut i: usize = 0;
    assert(ev.take(0) =~= Seq::<Seq<char>>::empty());
    while i < errors.len()
        invariant
            i <= errors@.len(),
            ev == string_views(errors@),
            out@ == persist_errors_text(ev.take(i as int)),
        decreases errors.len() - i,
    {
        assert(ev.take(i + 1).drop_last() =~= ev.take(i as int));
        assert(ev.take(i + 1).last() == errors@[i as int]@);
        extend_str(&mut out, "\nsession persist error: ");
        extend_str(&mut out, errors[i].as_str());
        i += 1;
    }
    assert(ev.take(errors@.len() as int) =~= ev);
    string_of(&out)
}

/// The version of the NDJSON output schema.
pub const NDJSON_SCHEMA_VERSION: u32 = 1;

/// The first line of JSON-mode output: the session header, an object whose
/// members `serde_json` writes in key order.
pub open spec fn session_header_spec() -> Seq<char> {
    "{\"schema_version\":"@ + decimal(NDJSON_SCHEMA_VERSION as nat) + ",\"type\":\"session_header\"}\n"@
}

/// The session header line that opens JSON-mode output, with the schema
/// version.
pub fn session_header_line() -> (r: String)
    ensures
        r@ == session_header_spec(),
{
    let mut v = chars_of("{\"schema_version\":");
    let d = decimal_chars(NDJSON_SCHEMA_VERSION as u128);
    extend_chars(&mut v, &d);
    extend_str(&mut v, ",\"type\":\"session_header\"}\n");
    string_of(&v)
}

/// How the agent's work on the prompt ended, as plain values.
#[derive(Debug)]
pub enum PromptOutcome {
    /// The agent finished; the error message of the first assistant message
    /// that carries one, if any.
    Completed { error_message: Option<String> },
    Cancelled,
    AuthFailed(String),
    Provider(String),
    Tool(String),
    Hook(String),
    MaxTurnsExceeded(u64),
}

/// The first error message among those of the assistant messages.
pub open spec fn first_error(errors: Seq<Option<String>>) -> Option<Seq<char>>
    decreases errors.len(),
{
    if errors.len() == 0 {
        None
    } else {
        match errors[0] {
            Some(e) => Some(e@),
            None => first_error(errors.drop_first()),
        }
    }
}

/// The first error message among those of the assistant messages.
pub fn find_error_message(errors: &Vec<Option<String>>) -> (r: Option<String>)
    ensures
        match first_error(errors@) {
            Some(e) => r matches Some(x) && x@ == e,
            None => r is None,
        },
{
    let mut i: usize = 0;
    assert(errors@.skip(0) =~= errors@);
    while i < errors.len()
        invariant
            i <= errors@.len(),
            first_error(errors@) == first_error(errors@.skip(i as int)),
        decreases errors.len() - i,
    {
        assert(errors@.skip(i as int).drop_first() =~= errors@.skip(i + 1));
        assert(errors@.skip(i as int)[0] == errors@[i as int]);
        match &errors[i] {
            Some(e) => {
                return Some(string_of(&chars_of(e.as_str())));
            },
            None => {},
        }
        i += 1;
    }
    None
}

/// The stderr text and exit code of an outcome: nothing and success for a
/// clean finish; otherwise the error, described by its kind.
pub open spec fn outcome_report(o: PromptOutcome) -> (Seq<char>, ExitCode) {
    match o {
        PromptOutcome::Completed { error_message } => match error_message {
            Some(e) => (e@, ExitCode::ProviderFailure),
            None => (Seq::empty(), ExitCode::Success),
        },
        PromptOutcome::Cancelled => ("cancelled"@, ExitCode::Interrupted),
        PromptOutcome::AuthFailed(e) => ("authentication error: "@ + e@, ExitCode::AuthFailure),
        PromptOutcome::Provider(e) => ("provider error: "@ + e@, ExitCode::ProviderFailure),
        PromptOutcome::Tool(e) => ("tool error: "@ + e@, ExitCode::ToolFailure),
        PromptOutcome::Hook(e) => ("hook error: "@ + e@, ExitCode::RuntimeFailure),
        PromptOutcome::MaxTurnsExceeded(n) => (
            "max turns exceeded ("@ + decimal(n as nat) + ")"@,
            ExitCode::RuntimeFailure,
        ),
    }
}

/// The stderr text and exit code of an outcome.
fn outcome_text(o: &PromptOutcome) -> (r: (Vec<char>, ExitCode))
    ensures
        r.0@ == outcome_report(*o).0,
        r.1 == outcome_report(*o).1,
{
    match o {
        PromptOutcome::Completed { error_message } => match error_message {
            Some(e) => (chars_of(e.as_str()), ExitCode::ProviderFailure),
            None => (Vec::new(), ExitCode::Success),
        },
        PromptOutcome::Cancelled => (chars_of("cancelled"), ExitCode::Interrupted),
        PromptOutcome::AuthFailed(e) => {
            let mut v = chars_of("authentication error: ");
            extend_str(&mut v, e.as_str());
            (v, ExitCode::AuthFailure)
        },
        PromptOutcome::Provider(e) => {
            let mut v = chars_of("provider error: ");
            extend_str(&mut v, e.as_str());
            (v, ExitCode::ProviderFailure)
        },
        PromptOutcome::Tool(e) => {
            let mut v = chars_of("tool error: ");
            extend_str(&mut v, e.as_str());
            (v, ExitCode::ToolFailure)
        },
        PromptOutcome::Hook(e) => {
            let mut v = chars_of("hook error: ");
            extend_str(&mut v, e.as_str());
            (v, ExitCode::RuntimeFailure)
        },
        PromptOutcome::MaxTurnsExceeded(n) => {
            let mut v = chars_of("max turns exceeded (");
            extend_chars(&mut v, &decimal_chars(*n as u128));
            extend_str(&mut v, ")");
            (v, ExitCode::RuntimeFailure)
        },
    }
}

/// The concatenation of the parts.
pub open spec fn concat_all(parts: Seq<Seq<char>>) -> Seq<char>
    decreases parts.len(),
{
    if parts.len() == 0 {
        Seq::empty()
    } else {
        concat_all(parts.drop_last()) + parts.last()
    }
}

/// The result of a text-mode run: on a clean finish the streamed text on
/// stdout and the persist errors on stderr; otherwise nothing on stdout and
/// the error followed by the persist errors on stderr.
pub fn text_run_result(outcome: &PromptOutcome, text_parts: &Vec<String>, persist_errors: &Vec<String>) -> (r:
    NonInteractiveResult)
    ensures
        r.exit_code == exit_status(outcome_report(*outcome).1),
        r.stderr@ == outcome_report(*outcome).0 + persist_errors_text(string_views(persist_errors@)),
        r.stdout@ == if outcome_report(*outcome).1 == ExitCode::Success {
            concat_all(string_views(text_parts@))
        } else {
            Seq::empty()
        },
{
    let persist = format_persist_errors(persist_errors);
    let (mut err, code) = outcome_text(outcome);
    extend_str(&mut err, persist.as_str());
    let stdout = if code == ExitCode::Success {
        let ghost tv = string_views(text_parts@);
        let mut out: Vec<char> = Vec::new();
        let mut i: usize = 0;
        assert(tv.take(0) =~= Seq::<Seq<char>>::empty());
        while i < text_parts.len()
            invariant
                i <= text_parts@.len(),
                tv == string_views(text_parts@),
                out@ == concat_all(tv.take(i as int)),
            decreases text_parts.len() - i,
        {
            assert(tv.take(i + 1).drop_last() =~= tv.take(i as int));
            extend_str(&mut out, text_parts[i].as_str());
            i += 1;
        }
        assert(tv.take(text_parts@.len() as int) =~= tv);
        string_of(&out)
    } else {
        String::new()
    };
    NonInteractiveResult { stdout, stderr: string_of(&err), exit_code: code.code() }
}

/// The result of a JSON-mode run: the NDJSON written so far on stdout,
/// whatever the outcome, and the error (without persist errors) on stderr.
pub fn json_run_result(outcome: &PromptOutcome, output: String) -> (r: NonInteractiveResult)
    ensures
        r.exit_code == exit_status(outcome_report(*outcome).1),
        r.stderr@ == outcome_report(*outcome).0,
        r.stdout@ == output@,
{
    let (err, code) = outcome_text(outcome);
    NonInteractiveResult { stdout: output, stderr: string_of(&err), exit_code: code.code() }
}

/// Whether a tool may run in non-interactive mode: a mutating tool needs
/// `--allow-mutating`; the error is the reason it is denied.
pub fn before_tool_call(allow_mutating: bool, tool_name: &str) -> (r: Result<(), String>)
    ensures
        (allow_mutating || !crate::policy::mutating(tool_name@)) ==> r is Ok,
        !(allow_mutating || !crate::policy::mutating(tool_name@)) ==> (r matches Err(m)
            && m@ == "tool '"@ + tool_name@
            + "' is not allowed in non-interactive mode without --allow-mutating"@),
{
    if !allow_mutating && is_mutating_tool(tool_name) {
        let mut v = chars_of("tool '");
        extend_str(&mut v, tool_name);
        extend_str(&mut v, "' is not allowed in non-interactive mode without --allow-mutating");
        return Err(string_of(&v));
    }
    Ok(())
}

} // verus!
