//! The decisions of RPC mode: which command is accepted in which state, and
//! which structured error code a refused command carries.
//!
//! Every command gets at most one response. While a run is active, starting
//! another run and every mutating command are refused with `agent_busy`;
//! `abort` while idle is a successful no-op. The transport (JSONL framing,
//! the harness, the run task) stays with the caller, which performs the
//! action chosen here and reports back when a run ends. The main loop ends
//! in success only when its input ends or `quit` is acknowledged and the
//! active run stopped cleanly.
use vstd::prelude::*;

use crate::text::{chars_of, extend_str, string_of};

verus! {

/// A run is already active.
pub const ERR_AGENT_BUSY: &'static str = "agent_busy";

/// No coding harness is attached to the runner.
pub const ERR_HARNESS_UNAVAILABLE: &'static str = "harness_unavailable";

/// A manual compaction returned an error.
pub const ERR_COMPACTION_FAILED: &'static str = "compaction_failed";

/// No registered extension handled the command.
pub const ERR_EXTENSION_COMMAND_NOT_HANDLED: &'static str = "extension_command_not_handled";

/// `trace` on a session without a trace sink.
pub const ERR_UNSUPPORTED_TRACE_REQUEST: &'static str = "unsupported_trace_request";

/// The kind of an RPC command.
#[derive(Debug, Clone, Copy, PartialEq, Eq, Structural)]
pub enum RpcCommandKind {
    Prompt,
    Continue,
    Steer,
    FollowUp,
    Abort,
    SetModel,
    SetThinkingLevel,
    Compact,
    SessionInfo,
    ExtensionCommand,
    Trace,
    Quit,
}

/// The wire name of a command.
pub open spec fn command_name_spec(k: RpcCommandKind) -> Seq<char> {
    match k {
        RpcCommandKind::Prompt => "prompt"@,
        RpcCommandKind::Continue => "continue"@,
        RpcCommandKind::Steer => "steer"@,
        RpcCommandKind::FollowUp => "follow_up"@,
        RpcCommandKind::Abort => "abort"@,
        RpcCommandKind::SetModel => "set_model"@,
        RpcCommandKind::SetThinkingLevel => "set_thinking_level"@,
        RpcCommandKind::Compact => "compact"@,
        RpcCommandKind::SessionInfo => "session_info"@,
        RpcCommandKind::ExtensionCommand => "extension_command"@,
        RpcCommandKind::Trace => "trace"@,
        RpcCommandKind::Quit => "quit"@,
    }
}

impl RpcCommandKind {
    /// The wire name of this command.
    pub fn name(&self) -> (r: &'static str)
        ensures
            r@ == command_name_spec(*self),
    {
        match self {
            RpcCommandKind::Prompt => "prompt",
            RpcCommandKind::Continue => "continue",
            RpcCommandKind::Steer => "steer",
            RpcCommandKind::FollowUp => "follow_up",
            RpcCommandKind::Abort => "abort",
            RpcCommandKind::SetModel => "set_model",
            RpcCommandKind::SetThinkingLevel => "set_thinking_level",
            RpcCommandKind::Compact => "compact",
            RpcCommandKind::SessionInfo => "session_info",
            RpcCommandKind::ExtensionCommand => "extension_command",
            RpcCommandKind::Trace => "trace",
            RpcCommandKind::Quit => "quit",
        }
    }
}

/// What the runner knows when a command arrives.
#[derive(Debug, Clone, Copy, PartialEq, Eq, Structural)]
pub struct RpcState {
    /// A run is active.
    pub running: bool,
    /// A coding harness is attached (it is away while a run holds it).
    pub has_harness: bool,
    /// A recording trace sink is attached.
    pub has_trace: bool,
}

/// Where a queued `steer` or `follow_up` message goes.
#[derive(Debug, Clone, Copy, PartialEq, Eq, Structural)]
pub enum QueueTarget {
    /// To the active run.
    ActiveRun,
    /// To the idle harness, for its next run.
    Harness,
    /// Nowhere: there is neither.
    Dropped,
}

/// What the runner does with a command.
#[derive(Debug)]
pub enum RpcAction {
    /// Respond with an error carrying a structured code.
    Refuse { code: String, message: String },
    /// Respond with success, then start a run (`prompt`, `continue`).
    StartRun,
    /// Abort the active run, if there is one, and respond with success.
    Abort { abort_active_run: bool },
    /// Queue the message and respond with success.
    Queue { target: QueueTarget },
    /// Perform the command on the idle harness and respond with its outcome.
    Perform,
    /// Respond with the recorded trace envelope.
    ReplyTrace,
    /// Respond with success and shut down.
    Quit,
}

/// The message refusing `k` while a run is active.
pub open spec fn busy_message(k: RpcCommandKind) -> Seq<char> {
    match k {
        RpcCommandKind::SetModel => "cannot change model while agent is running"@,
        RpcCommandKind::SetThinkingLevel => "cannot change thinking level while agent is running"@,
        RpcCommandKind::Compact => "cannot compact while agent is running"@,
        RpcCommandKind::SessionInfo => "cannot query session info while agent is running"@,
        RpcCommandKind::ExtensionCommand =>
            "cannot dispatch extension command while agent is running"@,
        _ => "agent is already running; use steer or follow_up to queue messages"@,
    }
}

/// The commands that start a run.
pub open spec fn starts_run(k: RpcCommandKind) -> bool {
    k == RpcCommandKind::Prompt || k == RpcCommandKind::Continue
}

/// The commands that change or read the harness, refused while a run is
/// active.
pub open spec fn needs_idle_harness(k: RpcCommandKind) -> bool {
    ||| k == RpcCommandKind::SetModel
    ||| k == RpcCommandKind::SetThinkingLevel
    ||| k == RpcCommandKind::Compact
    ||| k == RpcCommandKind::SessionInfo
    ||| k == RpcCommandKind::ExtensionCommand
}

/// `a` refuses with `code` and `message`.
pub open spec fn refuses(a: RpcAction, code: Seq<char>, message: Seq<char>) -> bool {
    a matches RpcAction::Refuse { code: c, message: m } && c@ == code && m@ == message
}

/// The action for command `k` in state `s`, and the state after it.
pub open spec fn gate_spec(k: RpcCommandKind, s: RpcState, a: RpcAction, next: RpcState) -> bool {
    if starts_run(k) || needs_idle_harness(k) {
        if s.running {
            refuses(a, "agent_busy"@, busy_message(k)) && next == s
        } else if !s.has_harness {
            refuses(a, "harness_unavailable"@, "agent harness is unavailable"@) && next == s
        } else if starts_run(k) {
            a is StartRun && next == (RpcState { running: true, has_harness: false, ..s })
        } else {
            a is Perform && next == s
        }
    } else {
        next == s && match k {
            RpcCommandKind::Abort => a == RpcAction::Abort { abort_active_run: s.running },
            RpcCommandKind::Steer | RpcCommandKind::FollowUp => a == RpcAction::Queue {
                target: if s.running {
                    QueueTarget::ActiveRun
                } else if s.has_harness {
                    QueueTarget::Harness
                } else {
                    QueueTarget::Dropped
                },
            },
            RpcCommandKind::Trace => if s.has_trace {
                a is ReplyTrace
            } else {
                refuses(
                    a,
                    "unsupported_trace_request"@,
                    "trace is not enabled for this RPC session"@,
                )
            },
            _ => a is Quit,
        }
    }
}

/// A refusal.
fn refuse(code: &str, message: &str) -> (a: RpcAction)
    ensures
        refuses(a, code@, message@),
{
    RpcAction::Refuse { code: string_of(&chars_of(code)), message: string_of(&chars_of(message)) }
}

/// Decide what to do with command `k` in state `s`; returns the action and
/// the state after it. A run, once started, holds the harness until
/// `rpc_run_finished`.
pub fn rpc_command_gate(k: RpcCommandKind, s: RpcState) -> (r: (RpcAction, RpcState))
    ensures
        gate_spec(k, s, r.0, r.1),
{
    match k {
        RpcCommandKind::Prompt | RpcCommandKind::Continue => {
            if s.running {
                (
                    refuse(
                        ERR_AGENT_BUSY,
                        "agent is already running; use steer or follow_up to queue messages",
                    ),
                    s,
                )
            } else if !s.has_harness {
                (refuse(ERR_HARNESS_UNAVAILABLE, "agent harness is unavailable"), s)
            } else {
                (RpcAction::StartRun, RpcState { running: true, has_harness: false, has_trace: s.has_trace })
            }
        },
        RpcCommandKind::SetModel | RpcCommandKind::SetThinkingLevel | RpcCommandKind::Compact
        | RpcCommandKind::SessionInfo | RpcCommandKind::ExtensionCommand => {
            if s.running {
                let message = match k {
                    RpcCommandKind::SetModel => "cannot change model while agent is running",
                    RpcCommandKind::SetThinkingLevel =>
                        "cannot change thinking level while agent is running",
                    RpcCommandKind::Compact => "cannot compact while agent is running",
                    RpcCommandKind::SessionInfo =>
                        "cannot query session info while agent is running",
                    _ => "cannot dispatch extension command while agent is running",
                };
                (refuse(ERR_AGENT_BUSY, message), s)
            } else if !s.has_harness {
                (refuse(ERR_HARNESS_UNAVAILABLE, "agent harness is unavailable"), s)
            } else {
                (RpcAction::Perform, s)
            }
        },
        RpcCommandKind::Abort => (RpcAction::Abort { abort_active_run: s.running }, s),
        RpcCommandKind::Steer | RpcCommandKind::FollowUp => {
            let target = if s.running {
                QueueTarget::ActiveRun
            } else if s.has_harness {
                QueueTarget::Harness
            } else {
                QueueTarget::Dropped
            };
            (RpcAction::Queue { target }, s)
        },
        RpcCommandKind::Trace => {
            if s.has_trace {
                (RpcAction::ReplyTrace, s)
            } else {
                (refuse(ERR_UNSUPPORTED_TRACE_REQUEST, "trace is not enabled for this RPC session"), s)
            }
        },
        RpcCommandKind::Quit => (RpcAction::Quit, s),
    }
}

/// The state once the active run has ended and handed the harness back.
pub fn rpc_run_finished(s: RpcState) -> (r: RpcState)
    ensures
        r == (RpcState { running: false, has_harness: true, ..s }),
{
    RpcState { running: false, has_harness: true, has_trace: s.has_trace }
}

/// The refusal of a failed manual compaction.
pub fn compaction_failed(error: &str) -> (a: RpcAction)
    ensures
        refuses(a, "compaction_failed"@, error@),
{
    refuse(ERR_COMPACTION_FAILED, error)
}

/// The refusal of an extension command that no extension handled.
pub fn extension_command_not_handled(name: &str) -> (a: RpcAction)
    ensures
        refuses(a, "extension_command_not_handled"@, "extension command not handled: "@ + name@),
{
    let mut m = chars_of("extension command not handled: ");
    extend_str(&mut m, name);
    RpcAction::Refuse {
        code: string_of(&chars_of(ERR_EXTENSION_COMMAND_NOT_HANDLED)),
        message: string_of(&m),
    }
}

/// While a run is active, every command that would start a run or use the
/// harness is refused with `agent_busy`, and the state stays as it is.
pub proof fn lemma_busy_refuses(k: RpcCommandKind, s: RpcState, a: RpcAction, next: RpcState)
    requires
        gate_spec(k, s, a, next),
        s.running,
        starts_run(k) || needs_idle_harness(k),
    ensures
        a matches RpcAction::Refuse { code, .. } && code@ == "agent_busy"@,
        next == s,
{
}

/// `abort` while idle is a successful no-op: it aborts nothing and leaves
/// the state as it is.
pub proof fn lemma_idle_abort_is_noop(s: RpcState, a: RpcAction, next: RpcState)
    requires
        gate_spec(RpcCommandKind::Abort, s, a, next),
        !s.running,
    ensures
        a == (RpcAction::Abort { abort_active_run: false }),
        next == s,
{
}

/// Only an accepted `prompt` or `continue` makes a run active, and only
/// when none was.
pub proof fn lemma_only_start_run_starts(k: RpcCommandKind, s: RpcState, a: RpcAction, next: RpcState)
    requires
        gate_spec(k, s, a, next),
        !s.running,
        next.running,
    ensures
        starts_run(k),
        a is StartRun,
        s.has_harness,
{
}

// ---------------------------------------------------------------------------
// The main loop
// ---------------------------------------------------------------------------

/// What happened in one turn of the RPC main loop.
#[derive(Debug, Clone, Copy, PartialEq, Eq, Structural)]
pub enum LoopEvent {
    /// The `rpc_ready` header was written (`ok`) or could not be.
    Ready { ok: bool },
    /// An agent event, or the response to a line that did not parse, was
    /// written (`ok`) or could not be.
    Emitted { ok: bool },
    /// The input ended.
    InputClosed,
    /// A `quit` command came; `ok` when its response was written.
    Quit { ok: bool },
    /// Another command was handled; `ok` unless its response could not be
    /// written.
    Handled { ok: bool },
    /// The active run ended; `ok` unless its task failed.
    RunEnded { ok: bool },
}

/// What the loop does next.
#[derive(Debug, Clone, Copy, PartialEq, Eq, Structural)]
pub enum LoopAction {
    /// Wait for the next event.
    Continue,
    /// Stop with this exit code.
    Exit(crate::runner::ExitCode),
    /// Stop the active run, then exit with `code`, or with a runtime
    /// failure when the run could not be stopped cleanly.
    ShutdownThenExit { code: crate::runner::ExitCode },
}

/// The action after an event: writing failures and failed runs stop the
/// loop with a runtime failure; the end of the input and `quit` stop it
/// after shutting the active run down.
pub open spec fn loop_step_spec(e: LoopEvent) -> LoopAction {
    match e {
        LoopEvent::Ready { ok } => if ok {
            LoopAction::Continue
        } else {
            LoopAction::Exit(crate::runner::ExitCode::RuntimeFailure)
        },
        LoopEvent::Emitted { ok } => if ok {
            LoopAction::Continue
        } else {
            LoopAction::ShutdownThenExit { code: crate::runner::ExitCode::RuntimeFailure }
        },
        LoopEvent::InputClosed => LoopAction::ShutdownThenExit {
            code: crate::runner::ExitCode::Success,
        },
        LoopEvent::Quit { ok } => LoopAction::ShutdownThenExit {
            code: if ok {
                crate::runner::ExitCode::Success
            } else {
                crate::runner::ExitCode::RuntimeFailure
            },
        },
        LoopEvent::Handled { ok } => if ok {
            LoopAction::Continue
        } else {
            LoopAction::ShutdownThenExit { code: crate::runner::ExitCode::RuntimeFailure }
        },
        LoopEvent::RunEnded { ok } => if ok {
            LoopAction::Continue
        } else {
            LoopAction::Exit(crate::runner::ExitCode::RuntimeFailure)
        },
    }
}

/// Decide what the RPC loop does after an event.
pub fn rpc_loop_step(e: LoopEvent) -> (r: LoopAction)
    ensures
        r == loop_step_spec(e),
{
    match e {
        LoopEvent::Ready { ok } => if ok {
            LoopAction::Continue
        } else {
            LoopAction::Exit(crate::runner::ExitCode::RuntimeFailure)
        },
        LoopEvent::Emitted { ok } => if ok {
            LoopAction::Continue
        } else {
            LoopAction::ShutdownThenExit { code: crate::runner::ExitCode::RuntimeFailure }
        },
        LoopEvent::InputClosed => LoopAction::ShutdownThenExit {
            code: crate::runner::ExitCode::Success,
        },
        LoopEvent::Quit { ok } => LoopAction::ShutdownThenExit {
            code: if ok {
                crate::runner::ExitCode::Success
            } else {
                crate::runner::ExitCode::RuntimeFailure
            },
        },
        LoopEvent::Handled { ok } => if ok {
            LoopAction::Continue
        } else {
            LoopAction::ShutdownThenExit { code: crate::runner::ExitCode::RuntimeFailure }
        },
        LoopEvent::RunEnded { ok } => if ok {
            LoopAction::Continue
        } else {
            LoopAction::Exit(crate::runner::ExitCode::RuntimeFailure)
        },
    }
}

/// The exit code once the active run has been shut down (`stopped` when it
/// stopped cleanly).
pub fn exit_after_shutdown(code: crate::runner::ExitCode, stopped: bool) -> (r: crate::runner::ExitCode)
    ensures
        r == (if stopped {
            code
        } else {
            crate::runner::ExitCode::RuntimeFailure
        }),
{
    if stopped {
        code
    } else {
        crate::runner::ExitCode::RuntimeFailure
    }
}

/// The loop ends in success only when the input ended or a `quit` was
/// acknowledged, and then only after the active run stopped cleanly; every
/// failure to write, and every failed run, ends it with a runtime failure.
pub proof fn lemma_success_only_on_clean_end(e: LoopEvent, stopped: bool)
    ensures
        loop_step_spec(e) matches LoopAction::ShutdownThenExit { code } && stopped && code
            == crate::runner::ExitCode::Success ==> (e == LoopEvent::InputClosed || e
            == LoopEvent::Quit { ok: true }),
        loop_step_spec(e) != LoopAction::Exit(crate::runner::ExitCode::Success),
        (e == LoopEvent::Emitted { ok: false } || e == LoopEvent::Handled { ok: false } || e
            == LoopEvent::Quit { ok: false } || e == LoopEvent::Ready { ok: false } || e
            == LoopEvent::RunEnded { ok: false }) ==> loop_step_spec(e) != LoopAction::Continue,
{
}

/// Steer and follow-up messages are never lost while someone can take
/// them: they go to the active run when one is running, to the attached
/// harness for its next run when none is, and are dropped only when there
/// is neither; the state does not change.
pub proof fn lemma_queued_messages_reach_a_taker(k: RpcCommandKind, s: RpcState, a: RpcAction, next: RpcState)
    requires
        k == RpcCommandKind::Steer || k == RpcCommandKind::FollowUp,
        gate_spec(k, s, a, next),
    ensures
        next == s,
        a matches RpcAction::Queue { target } && {
            &&& s.running ==> target == QueueTarget::ActiveRun
            &&& (!s.running && s.has_harness) ==> target == QueueTarget::Harness
            &&& (target == QueueTarget::Dropped <==> (!s.running && !s.has_harness))
        },
{
}

/// `a` refuses with error code `code`.
pub open spec fn refused_with(a: RpcAction, code: Seq<char>) -> bool {
    match a {
        RpcAction::Refuse { code: c, .. } => c@ == code,
        _ => false,
    }
}

/// `a` starts a run.
pub open spec fn starts_a_run(a: RpcAction) -> bool {
    match a {
        RpcAction::StartRun => true,
        _ => false,
    }
}

/// Runs start only from an idle runner with a harness: `prompt` and
/// `continue` are refused with `agent_busy` while a run is active and with
/// `harness_unavailable` without a harness; otherwise they start a run,
/// which takes the harness. `abort` aborts the active run exactly when one
/// is running, and changes nothing else.
pub proof fn lemma_runs_start_only_when_idle(k: RpcCommandKind, s: RpcState, a: RpcAction, next: RpcState)
    requires
        gate_spec(k, s, a, next),
    ensures
        ((k == RpcCommandKind::Prompt || k == RpcCommandKind::Continue) && s.running) ==> (refused_with(
            a,
            "agent_busy"@,
        ) && next == s),
        ((k == RpcCommandKind::Prompt || k == RpcCommandKind::Continue) && !s.running
            && !s.has_harness) ==> (refused_with(a, "harness_unavailable"@) && next == s),
        ((k == RpcCommandKind::Prompt || k == RpcCommandKind::Continue) && !s.running
            && s.has_harness) ==> (starts_a_run(a) && next.running && !next.has_harness
            && next.has_trace == s.has_trace),
        k == RpcCommandKind::Abort ==> (a == RpcAction::Abort { abort_active_run: s.running } && next == s),
        starts_a_run(a) ==> (!s.running && s.has_harness),
{
}

} // verus!
