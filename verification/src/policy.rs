//! Tool safety policy and tool selection.
//!
//! In non-interactive mode the mutating tools (`write`, `edit`, `bash`) are
//! only available with `--allow-mutating`. The `--tools`, `--no-tools` and
//! `--no-builtin-tools` flags select which tools are active.
use vstd::prelude::*;

use crate::text::{chars_of, extend_str, str_eq, string_of, string_views};

verus! {

/// The names of the mutating tools.
pub open spec fn mutating(name: Seq<char>) -> bool {
    name == "write"@ || name == "edit"@ || name == "bash"@
}

/// `name` is a mutating tool (`write`, `edit` or `bash`).
pub fn is_mutating_tool(name: &str) -> (r: bool)
    ensures
        r == mutating(name@),
{
    str_eq(name, "write") || str_eq(name, "edit") || str_eq(name, "bash")
}

/// The mode the application runs in.
#[derive(Debug, Clone, Copy, PartialEq, Eq, Structural)]
pub enum RunMode {
    Interactive,
    NonInteractive,
}

/// The built-in tools, in policy order.
pub open spec fn builtin_tools() -> Seq<Seq<char>> {
    seq!["read"@, "write"@, "edit"@, "bash"@, "grep"@, "find"@, "ls"@, "glob"@]
}

/// The default tools of a coding session.
pub open spec fn coding_default_tools() -> Seq<Seq<char>> {
    seq!["read"@, "write"@, "edit"@, "bash"@]
}

/// The default tools when mutation is not allowed.
pub open spec fn read_only_default_tools() -> Seq<Seq<char>> {
    seq!["read"@, "grep"@, "find"@, "ls"@, "glob"@]
}

/// The views of string slices.
pub open spec fn str_views(s: Seq<&str>) -> Seq<Seq<char>> {
    s.map_values(|x: &str| x@)
}

/// The built-in tool names, in policy order.
pub fn builtin_tool_names() -> (r: Vec<&'static str>)
    ensures
        str_views(r@) == builtin_tools(),
{
    let r = vec!["read", "write", "edit", "bash", "grep", "find", "ls", "glob"];
    assert(str_views(r@) =~= builtin_tools());
    r
}

/// The tools active in a run.
#[derive(Debug)]
pub struct ToolRuntimeConfig {
    pub run_mode: RunMode,
    pub active_tool_names: Vec<String>,
}

/// Errors from resolving the active tools.
#[derive(Debug)]
pub enum ToolPolicyError {
    /// A mutating tool was selected in non-interactive mode without
    /// `--allow-mutating`.
    MutatingToolRequiresOptIn { tool: String },
}

impl ToolPolicyError {
    /// The message of this error.
    pub fn message(&self) -> (r: String)
        ensures
            r@ == (match self {
                ToolPolicyError::MutatingToolRequiresOptIn { tool } => "mutating tool '"@ + tool@
                    + "' requires --allow-mutating in non-interactive mode"@,
            }),
    {
        match self {
            ToolPolicyError::MutatingToolRequiresOptIn { tool } => {
                let mut v = chars_of("mutating tool '");
                extend_str(&mut v, tool.as_str());
                extend_str(&mut v, "' requires --allow-mutating in non-interactive mode");
                string_of(&v)
            },
        }
    }
}

/// Which tools the command line selects.
#[derive(Debug)]
pub enum ToolSelection {
    /// The default built-in tools.
    Default,
    /// Only the built-in tools named here.
    Allowlist(Vec<String>),
    /// No tools at all.
    Disabled,
    /// No built-in tools.
    NoBuiltin,
}

/// The tool flags of the command line.
#[derive(Debug)]
pub struct ToolFlags {
    /// `--tools <list>`.
    pub tools: Option<Vec<String>>,
    /// `--no-tools`.
    pub no_tools: bool,
    /// `--no-builtin-tools`.
    pub no_builtin_tools: bool,
}

/// Resolve the tool flags, with precedence `--no-tools` over `--tools` over
/// `--no-builtin-tools` over the default.
pub fn resolve_tool_selection(flags: ToolFlags) -> (r: ToolSelection)
    ensures
        flags.no_tools ==> r is Disabled,
        !flags.no_tools && flags.tools is Some ==> r == ToolSelection::Allowlist(flags.tools->0),
        !flags.no_tools && flags.tools is None && flags.no_builtin_tools ==> r is NoBuiltin,
        !flags.no_tools && flags.tools is None && !flags.no_builtin_tools ==> r is Default,
{
    if flags.no_tools {
        ToolSelection::Disabled
    } else if let Some(tools) = flags.tools {
        ToolSelection::Allowlist(tools)
    } else if flags.no_builtin_tools {
        ToolSelection::NoBuiltin
    } else {
        ToolSelection::Default
    }
}

/// A tool named `n` passes the selection.
pub open spec fn selected(selection: ToolSelection, n: Seq<char>) -> bool {
    match selection {
        ToolSelection::Default => true,
        ToolSelection::Allowlist(names) => string_views(names@).contains(n),
        ToolSelection::Disabled => false,
        ToolSelection::NoBuiltin => false,
    }
}

/// `n` is in the list.
fn listed(names: &Vec<String>, n: &str) -> (r: bool)
    ensures
        r == string_views(names@).contains(n@),
{
    let ghost nv = string_views(names@);
    let mut i: usize = 0;
    while i < names.len()
        invariant
            i <= names@.len(),
            nv == string_views(names@),
            forall|j: int| 0 <= j < i ==> nv[j] != n@,
        decreases names.len() - i,
    {
        if str_eq(names[i].as_str(), n) {
            assert(nv[i as int] == n@);
            return true;
        }
        i += 1;
    }
    proof {
        if nv.contains(n@) {
            let j = choose|j: int| 0 <= j < nv.len() && nv[j] == n@;
            assert(nv[j] != n@);
        }
    }
    false
}

/// The names of `all_names` that pass the selection, in their order.
pub fn filter_tool_names(all_names: &[&str], selection: &ToolSelection) -> (r: Vec<String>)
    ensures
        string_views(r@) == str_views(all_names@).filter(|n: Seq<char>| selected(*selection, n)),
{
    let ghost pred = |n: Seq<char>| selected(*selection, n);
    let ghost all = str_views(all_names@);
    let mut out: Vec<String> = Vec::new();
    let mut i: usize = 0;
    while i < all_names.len()
        invariant
            i <= all_names@.len(),
            all == str_views(all_names@),
            pred == (|n: Seq<char>| selected(*selection, n)),
            string_views(out@) == all.take(i as int).filter(pred),
        decreases all_names.len() - i,
    {
        reveal_with_fuel(Seq::<_>::filter, 1);
        assert(all.take(i + 1).drop_last() =~= all.take(i as int));
        assert(all.take(i + 1).last() == all_names@[i as int]@);
        let n = all_names[i];
        let keep = match selection {
            ToolSelection::Default => true,
            ToolSelection::Allowlist(names) => listed(names, n),
            ToolSelection::Disabled => false,
            ToolSelection::NoBuiltin => false,
        };
        if keep {
            let ghost prev = out@;
            out.push(string_of(&chars_of(n)));
            assert(string_views(out@) =~= string_views(prev).push(n@));
        }
        i += 1;
    }
    assert(all.take(all_names@.len() as int) =~= all);
    out
}

/// The first mutating name.
pub open spec fn first_mutating(names: Seq<Seq<char>>) -> Option<Seq<char>>
    decreases names.len(),
{
    if names.len() == 0 {
        None
    } else if mutating(names[0]) {
        Some(names[0])
    } else {
        first_mutating(names.drop_first())
    }
}

/// The active tools for a run: `Ok(names)`, or `Err(tool)` for a mutating
/// tool refused in non-interactive mode.
pub open spec fn active_tools_spec(mode: RunMode, allow_mutating: bool, selection: ToolSelection) -> Result<
    Seq<Seq<char>>,
    Seq<char>,
> {
    match selection {
        ToolSelection::Disabled => Ok(Seq::empty()),
        ToolSelection::NoBuiltin => Ok(Seq::empty()),
        ToolSelection::Allowlist(names) => if mode == RunMode::NonInteractive && !allow_mutating
            && first_mutating(string_views(names@)) is Some {
            Err(first_mutating(string_views(names@))->0)
        } else {
            Ok(builtin_tools().filter(|n: Seq<char>| selected(selection, n)))
        },
        ToolSelection::Default => if mode == RunMode::Interactive || allow_mutating {
            Ok(coding_default_tools())
        } else {
            Ok(read_only_default_tools())
        },
    }
}

/// The first mutating name of the list.
fn find_mutating(names: &Vec<String>) -> (r: Option<String>)
    ensures
        match first_mutating(string_views(names@)) {
            Some(t) => r matches Some(s) && s@ == t,
            None => r is None,
        },
{
    let ghost nv = string_views(names@);
    let mut i: usize = 0;
    assert(nv.skip(0) =~= nv);
    while i < names.len()
        invariant
            i <= names@.len(),
            nv == string_views(names@),
            first_mutating(nv) == first_mutating(nv.skip(i as int)),
        decreases names.len() - i,
    {
        assert(nv.skip(i as int).drop_first() =~= nv.skip(i + 1));
        assert(nv.skip(i as int)[0] == names@[i as int]@);
        if is_mutating_tool(names[i].as_str()) {
            return Some(names[i].clone());
        }
        i += 1;
    }
    None
}

/// Owned strings of the given names.
fn owned_names(names: &[&str]) -> (r: Vec<String>)
    ensures
        string_views(r@) == str_views(names@),
{
    let mut out: Vec<String> = Vec::new();
    let mut i: usize = 0;
    while i < names.len()
        invariant
            i <= names@.len(),
            string_views(out@) == str_views(names@).take(i as int),
        decreases names.len() - i,
    {
        let ghost prev = out@;
        out.push(string_of(&chars_of(names[i])));
        assert(string_views(out@) =~= string_views(prev).push(names@[i as int]@));
        assert(str_views(names@).take(i + 1) =~= str_views(names@).take(i as int).push(
            names@[i as int]@,
        ));
        i += 1;
    }
    assert(str_views(names@).take(names@.len() as int) =~= str_views(names@));
    out
}

/// The active tool names for a run.
fn resolve_active_tool_names(run_mode: RunMode, allow_mutating: bool, selection: &ToolSelection) -> (r:
    Result<Vec<String>, ToolPolicyError>)
    ensures
        match active_tools_spec(run_mode, allow_mutating, *selection) {
            Ok(ts) => r matches Ok(v) && string_views(v@) == ts,
            Err(t) => r matches Err(ToolPolicyError::MutatingToolRequiresOptIn { tool }) && tool@
                == t,
        },
{
    match selection {
        ToolSelection::Disabled | ToolSelection::NoBuiltin => {
            let v: Vec<String> = Vec::new();
            assert(string_views(v@) =~= Seq::<Seq<char>>::empty());
            Ok(v)
        },
        ToolSelection::Allowlist(names) => {
            if run_mode == RunMode::NonInteractive && !allow_mutating {
                match find_mutating(names) {
                    Some(tool) => return Err(ToolPolicyError::MutatingToolRequiresOptIn { tool }),
                    None => {},
                }
            }
            let builtin = builtin_tool_names();
            Ok(filter_tool_names(builtin.as_slice(), selection))
        },
        ToolSelection::Default => {
            if run_mode == RunMode::Interactive || allow_mutating {
                let names = vec!["read", "write", "edit", "bash"];
                assert(str_views(names@) =~= coding_default_tools());
                Ok(owned_names(names.as_slice()))
            } else {
                let names = vec!["read", "grep", "find", "ls", "glob"];
                assert(str_views(names@) =~= read_only_default_tools());
                Ok(owned_names(names.as_slice()))
            }
        },
    }
}

impl ToolRuntimeConfig {
    /// Resolve the active tools for a run.
    ///
    /// No tools with `Disabled` or `NoBuiltin`; with an allowlist, the
    /// built-in tools it names, in policy order, unless it names a mutating
    /// tool in non-interactive mode without `allow_mutating`; by default,
    /// `read`, `write`, `edit`, `bash`, or, in non-interactive mode without
    /// `allow_mutating`, the read-only tools `read`, `grep`, `find`, `ls`,
    /// `glob`.
    pub fn resolve(run_mode: RunMode, allow_mutating: bool, selection: ToolSelection) -> (r: Result<
        Self,
        ToolPolicyError,
    >)
        ensures
            match active_tools_spec(run_mode, allow_mutating, selection) {
                Ok(ts) => r matches Ok(c) && c.run_mode == run_mode && string_views(
                    c.active_tool_names@,
                ) == ts,
                Err(t) => r matches Err(ToolPolicyError::MutatingToolRequiresOptIn { tool })
                    && tool@ == t,
            },
    {
        let active_tool_names = resolve_active_tool_names(run_mode, allow_mutating, &selection)?;
        Ok(ToolRuntimeConfig { run_mode, active_tool_names })
    }
}

/// In non-interactive mode without `allow_mutating`, no mutating tool is
/// ever active: the policy either refuses the selection or leaves them out.
pub proof fn lemma_non_interactive_never_mutates(selection: ToolSelection)
    ensures
        active_tools_spec(RunMode::NonInteractive, false, selection) matches Ok(ts) ==> forall|i: int|
            0 <= i < ts.len() ==> !mutating(#[trigger] ts[i]),
{
    reveal_strlit("read");
    reveal_strlit("write");
    reveal_strlit("edit");
    reveal_strlit("bash");
    reveal_strlit("grep");
    reveal_strlit("find");
    reveal_strlit("ls");
    reveal_strlit("glob");
    match selection {
        ToolSelection::Allowlist(names) => {
            let nv = string_views(names@);
            if first_mutating(nv) is None {
                lemma_first_mutating_none(nv);
                let pred = |n: Seq<char>| selected(selection, n);
                let ts = builtin_tools().filter(pred);
                assert forall|i: int| 0 <= i < ts.len() implies !mutating(#[trigger] ts[i]) by {
                    builtin_tools().lemma_filter_pred(pred, i);
                    assert(pred(ts[i]));
                    assert(nv.contains(ts[i]));
                    let j = choose|j: int| 0 <= j < nv.len() && nv[j] == ts[i];
                    assert(!mutating(nv[j]));
                }
            } else {
                assert(active_tools_spec(RunMode::NonInteractive, false, selection) is Err);
            }
        },
        ToolSelection::Default => {
            let ts = read_only_default_tools();
            assert forall|i: int| 0 <= i < ts.len() implies !mutating(#[trigger] ts[i]) by {
                assert(ts[i][0] == 'r' || ts[i][0] == 'g' || ts[i][0] == 'f' || ts[i][0] == 'l');
                lemma_not_mutating(ts[i]);
            }
        },
        _ => {},
    }
}

/// A name that starts with none of `w`, `e`, `b` is not mutating.
proof fn lemma_not_mutating(s: Seq<char>)
    requires
        s.len() > 0,
        s[0] != 'w' && s[0] != 'e' && s[0] != 'b',
    ensures
        !mutating(s),
{
    reveal_strlit("write");
    reveal_strlit("edit");
    reveal_strlit("bash");
    assert("write"@[0] == 'w' && "edit"@[0] == 'e' && "bash"@[0] == 'b');
}

/// When no name is mutating, `first_mutating` finds none.
proof fn lemma_first_mutating_none(names: Seq<Seq<char>>)
    requires
        first_mutating(names) is None,
    ensures
        forall|i: int| 0 <= i < names.len() ==> !mutating(#[trigger] names[i]),
    decreases names.len(),
{
    if names.len() > 0 {
        lemma_first_mutating_none(names.drop_first());
        assert forall|i: int| 0 <= i < names.len() implies !mutating(#[trigger] names[i]) by {
            if i > 0 {
                assert(names[i] == names.drop_first()[i - 1]);
            }
        }
    }
}

/// The default tool set: an interactive session, whatever
/// `allow_mutating` is, gets exactly `read`, `write`, `edit` and `bash`; so
/// does a non-interactive run that allows mutation; only a non-interactive
/// run without it gets the read-only tools `read`, `grep`, `find`, `ls`,
/// `glob`. So an interactive session always has a mutating tool.
pub proof fn lemma_default_tool_set(mode: RunMode, allow_mutating: bool)
    ensures
        (mode == RunMode::Interactive || allow_mutating) ==> active_tools_spec(
            mode,
            allow_mutating,
            ToolSelection::Default,
        ) == Ok::<Seq<Seq<char>>, Seq<char>>(seq!["read"@, "write"@, "edit"@, "bash"@]),
        (mode == RunMode::NonInteractive && !allow_mutating) ==> active_tools_spec(
            mode,
            allow_mutating,
            ToolSelection::Default,
        ) == Ok::<Seq<Seq<char>>, Seq<char>>(seq!["read"@, "grep"@, "find"@, "ls"@, "glob"@]),
        mode == RunMode::Interactive ==> (active_tools_spec(mode, allow_mutating, ToolSelection::Default) matches Ok(ts)
            && ts.contains("write"@) && ts.contains("edit"@) && ts.contains("bash"@)),
{
    if mode == RunMode::Interactive {
        let ts = seq!["read"@, "write"@, "edit"@, "bash"@];
        assert(ts[1] == "write"@);
        assert(ts[2] == "edit"@);
        assert(ts[3] == "bash"@);
    }
}

/// With no tools, or no built-in tools, nothing is active; with an
/// allowlist, in a run that may mutate (interactive, or allowed), the
/// active tools are the built-in tools it names, each once, in policy
/// order.
pub proof fn lemma_selected_tools(mode: RunMode, allow_mutating: bool, names: Seq<Seq<char>>, v: Vec<String>)
    requires
        string_views(v@) == names,
    ensures
        active_tools_spec(mode, allow_mutating, ToolSelection::Disabled) == Ok::<Seq<Seq<char>>, Seq<char>>(Seq::empty()),
        active_tools_spec(mode, allow_mutating, ToolSelection::NoBuiltin) == Ok::<Seq<Seq<char>>, Seq<char>>(Seq::empty()),
        (mode == RunMode::Interactive || allow_mutating) ==> (active_tools_spec(
            mode,
            allow_mutating,
            ToolSelection::Allowlist(v),
        ) matches Ok(ts) && {
            &&& forall|i: int| 0 <= i < ts.len() ==> builtin_tools().contains(#[trigger] ts[i]) && names.contains(ts[i])
            &&& forall|t: Seq<char>| builtin_tools().contains(t) && names.contains(t) ==> #[trigger] ts.contains(t)
        }),
{
    let sel = ToolSelection::Allowlist(v);
    let pred = |n: Seq<char>| selected(sel, n);
    let ts = builtin_tools().filter(pred);
    assert forall|i: int| 0 <= i < ts.len() implies builtin_tools().contains(#[trigger] ts[i]) && names.contains(ts[i]) by {
        builtin_tools().filter_lemma(pred);
        assert(pred(ts[i]));
        assert(selected(sel, ts[i]));
        assert(string_views(v@).contains(ts[i]));
        assert(ts.contains(ts[i]));
        builtin_tools().lemma_filter_contains_rev(pred, ts[i]);
    }
    assert forall|t: Seq<char>| builtin_tools().contains(t) && names.contains(t) implies #[trigger] ts.contains(t) by {
        let j = choose|j: int| 0 <= j < builtin_tools().len() && builtin_tools()[j] == t;
        builtin_tools().filter_lemma(pred);
        assert(selected(sel, t));
        assert(pred(builtin_tools()[j]));
    }
}

} // verus!
