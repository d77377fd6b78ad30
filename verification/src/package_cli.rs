//! `opi package add/remove/list/doctor`: which store a command writes,
//! how declarations and lock entries are updated, and what is reported.
//!
//! Adding a package declares it once (an existing declaration of the same
//! package takes the new source) and records exactly one lock entry for it;
//! removing a package drops its declaration and its lock entries.
use vstd::prelude::*;

use crate::cli::PackageCommand;
use crate::package_resolver::{
    InstalledPackageResolution, InstalledPackageScope, PackageDiagnosticSeverity,
    ResolvedInstalledPackage, copy_lock, local_source_path_spec, resolve_local_source_path,
    sha256_hex,
};
use crate::package_store::{
    PackageDeclaration, PackageFilters, PackageLockEntry, PackageSource, PackageStoreError,
    PackageStoreScope, parse_source_spec, source_view, store_error_message,
};
use crate::paths::path_join;
use crate::text::{chars_of, decimal, decimal_chars, extend_chars, extend_str, join, join_chars, str_eq, string_of, string_views, views};

verus! {

// ---------------------------------------------------------------------------
// Scopes and labels
// ---------------------------------------------------------------------------

/// The store a command writes: `--local` adds and removes use the project
/// store, other adds and removes the global one; `list` and `doctor` read
/// both stores and are given the project scope.
pub open spec fn command_scope_spec(
    command: PackageCommand,
    workspace_root: String,
    user_config_dir: String,
) -> PackageStoreScope {
    match command {
        PackageCommand::Add { local, .. } => if local {
            PackageStoreScope::Project { workspace_root }
        } else {
            PackageStoreScope::Global { user_config_dir }
        },
        PackageCommand::Remove { local, .. } => if local {
            PackageStoreScope::Project { workspace_root }
        } else {
            PackageStoreScope::Global { user_config_dir }
        },
        _ => PackageStoreScope::Project { workspace_root },
    }
}

/// The store a package command writes.
pub fn resolve_scope(command: &PackageCommand, workspace_root: String, user_config_dir: String) -> (r:
    PackageStoreScope)
    ensures
        r == command_scope_spec(*command, workspace_root, user_config_dir),
{
    match command {
        PackageCommand::Add { local, .. } | PackageCommand::Remove { local, .. } => {
            if *local {
                PackageStoreScope::Project { workspace_root }
            } else {
                PackageStoreScope::Global { user_config_dir }
            }
        },
        _ => PackageStoreScope::Project { workspace_root },
    }
}

/// The directory local sources of a scope are relative to.
pub open spec fn scope_base_spec(scope: PackageStoreScope) -> Seq<char> {
    match scope {
        PackageStoreScope::Project { workspace_root } => workspace_root@,
        PackageStoreScope::Global { user_config_dir } => user_config_dir@,
    }
}

/// The directory local sources of a scope are relative to.
pub fn scope_base(scope: &PackageStoreScope) -> (r: &str)
    ensures
        r@ == scope_base_spec(*scope),
{
    match scope {
        PackageStoreScope::Project { workspace_root } => workspace_root.as_str(),
        PackageStoreScope::Global { user_config_dir } => user_config_dir.as_str(),
    }
}

/// The label of a store scope.
pub open spec fn scope_label_spec(scope: PackageStoreScope) -> Seq<char> {
    match scope {
        PackageStoreScope::Project { .. } => "project"@,
        PackageStoreScope::Global { .. } => "global"@,
    }
}

/// The label of a store scope.
pub fn scope_label(scope: &PackageStoreScope) -> (r: &'static str)
    ensures
        r@ == scope_label_spec(*scope),
{
    match scope {
        PackageStoreScope::Project { .. } => "project",
        PackageStoreScope::Global { .. } => "global",
    }
}

/// The label of an installed scope.
pub open spec fn installed_label(scope: InstalledPackageScope) -> Seq<char> {
    match scope {
        InstalledPackageScope::Project => "project"@,
        InstalledPackageScope::Global => "global"@,
    }
}

/// The label of an installed scope.
pub fn installed_scope_label(scope: InstalledPackageScope) -> (r: &'static str)
    ensures
        r@ == installed_label(scope),
{
    match scope {
        InstalledPackageScope::Project => "project",
        InstalledPackageScope::Global => "global",
    }
}

/// The label of a severity.
pub open spec fn severity_text(s: PackageDiagnosticSeverity) -> Seq<char> {
    match s {
        PackageDiagnosticSeverity::Info => "info"@,
        PackageDiagnosticSeverity::Warning => "warning"@,
        PackageDiagnosticSeverity::Error => "error"@,
    }
}

/// The label of a severity.
pub fn severity_label(severity: &PackageDiagnosticSeverity) -> (r: &'static str)
    ensures
        r@ == severity_text(*severity),
{
    match severity {
        PackageDiagnosticSeverity::Info => "info",
        PackageDiagnosticSeverity::Warning => "warning",
        PackageDiagnosticSeverity::Error => "error",
    }
}

/// The version to display: the version, or `-`.
pub open spec fn version_text(version: Option<Seq<char>>) -> Seq<char> {
    match version {
        Some(v) => v,
        None => "-"@,
    }
}

/// The version to display.
pub fn display_version(version: Option<&str>) -> (r: &str)
    ensures
        r@ == version_text(
            match version {
                Some(v) => Some(v@),
                None => None,
            },
        ),
{
    match version {
        Some(v) => v,
        None => "-",
    }
}

// ---------------------------------------------------------------------------
// Lock entries
// ---------------------------------------------------------------------------

/// `lock` records the same package as `entry`: same source, or same kind
/// and identity.
pub open spec fn lock_matches(lock: PackageLockEntry, entry: PackageLockEntry) -> bool {
    lock.source@ == entry.source@ || (lock.identity_kind@ == entry.identity_kind@
        && lock.identity_value@ == entry.identity_value@)
}

/// `lock` records the same package as `entry`.
pub fn lock_matches_entry(lock: &PackageLockEntry, entry: &PackageLockEntry) -> (r: bool)
    ensures
        r == lock_matches(*lock, *entry),
{
    str_eq(lock.source.as_str(), entry.source.as_str()) || (str_eq(
        lock.identity_kind.as_str(),
        entry.identity_kind.as_str(),
    ) && str_eq(lock.identity_value.as_str(), entry.identity_value.as_str()))
}

/// The lock entries once `entry` is recorded: every entry of the same
/// package is replaced by `entry`, at the end.
pub open spec fn locks_with_spec(locks: Seq<PackageLockEntry>, entry: PackageLockEntry) -> Seq<
    PackageLockEntry,
> {
    locks.filter(|l: PackageLockEntry| !lock_matches(l, entry)).push(entry)
}

/// Record `entry`: drop the entries of the same package and add it at the
/// end.
pub fn locks_with_package(locks: Vec<PackageLockEntry>, entry: &PackageLockEntry) -> (r: Vec<
    PackageLockEntry,
>)
    ensures
        r@ == locks_with_spec(locks@, *entry),
{
    let ghost pred = |l: PackageLockEntry| !lock_matches(l, *entry);
    let ghost all = locks@;
    let mut locks = locks;
    let mut rev: Vec<PackageLockEntry> = Vec::new();
    let n = locks.len();
    while locks.len() > 0
        invariant
            locks@.len() + rev@.len() == n,
            n == all.len(),
            forall|k: int| 0 <= k < locks@.len() ==> #[trigger] locks@[k] == all[k],
            forall|k: int| 0 <= k < rev@.len() ==> #[trigger] rev@[k] == all[n - 1 - k],
        decreases locks.len(),
    {
        let x = locks.pop().unwrap();
        rev.push(x);
    }
    let mut out: Vec<PackageLockEntry> = Vec::new();
    let mut t: usize = 0;
    assert(all.take(0) =~= Seq::<PackageLockEntry>::empty());
    while rev.len() > 0
        invariant
            rev@.len() + t == n,
            n == all.len(),
            pred == (|l: PackageLockEntry| !lock_matches(l, *entry)),
            forall|k: int| 0 <= k < rev@.len() ==> #[trigger] rev@[k] == all[n - 1 - k],
            out@ == all.take(t as int).filter(pred),
        decreases rev.len(),
    {
        reveal_with_fuel(Seq::<_>::filter, 1);
        let x = rev.pop().unwrap();
        assert(x == all[t as int]);
        assert(all.take(t + 1).drop_last() =~= all.take(t as int));
        assert(all.take(t + 1).last() == x);
        if !lock_matches_entry(&x, entry) {
            out.push(x);
        }
        t += 1;
    }
    assert(all.take(n as int) =~= all);
    out.push(copy_lock(entry));
    out
}

/// A sequence whose items all pass a filter is its own filtering.
proof fn lemma_filter_all(s: Seq<PackageLockEntry>, pred: spec_fn(PackageLockEntry) -> bool)
    requires
        forall|i: int| 0 <= i < s.len() ==> pred(#[trigger] s[i]),
    ensures
        s.filter(pred) == s,
    decreases s.len(),
{
    reveal_with_fuel(Seq::<_>::filter, 1);
    if s.len() > 0 {
        lemma_filter_all(s.drop_last(), pred);
        assert(s.drop_last().push(s.last()) =~= s);
    }
}

/// Recording the same lock entry twice is recording it once: the lock file
/// holds exactly one entry for the package, the last one recorded.
pub proof fn lemma_locks_with_idempotent(locks: Seq<PackageLockEntry>, entry: PackageLockEntry)
    ensures
        locks_with_spec(locks_with_spec(locks, entry), entry) == locks_with_spec(locks, entry),
        locks_with_spec(locks, entry).last() == entry,
        forall|i: int|
            0 <= i < locks_with_spec(locks, entry).len() - 1 ==> !lock_matches(
                #[trigger] locks_with_spec(locks, entry)[i],
                entry,
            ),
{
    let pred = |l: PackageLockEntry| !lock_matches(l, entry);
    let f = locks.filter(pred);
    assert forall|i: int| 0 <= i < f.len() implies pred(#[trigger] f[i]) by {
        locks.lemma_filter_pred(pred, i);
    }
    let once = f.push(entry);
    reveal_with_fuel(Seq::<_>::filter, 1);
    assert(once.drop_last() =~= f);
    assert(!pred(entry));
    assert(once.filter(pred) == f.filter(pred));
    lemma_filter_all(f, pred);
    assert forall|i: int| 0 <= i < once.len() - 1 implies !lock_matches(#[trigger] once[i], entry) by {
        assert(once[i] == f[i]);
        assert(pred(f[i]));
    }
}

// ---------------------------------------------------------------------------
// Declarations
// ---------------------------------------------------------------------------

/// The identity of the `i`-th declaration, when it is known.
pub open spec fn identity_at(ids: Seq<Option<(String, String)>>, i: int) -> Option<(Seq<char>, Seq<char>)> {
    if 0 <= i < ids.len() {
        match ids[i] {
            Some(p) => Some((p.0@, p.1@)),
            None => None,
        }
    } else {
        None
    }
}

/// The declaration at `i` stops the search for where to declare source
/// `source` of lock entry `entry`: it already has the source, or it is the
/// same package.
pub open spec fn declares(
    decls: Seq<PackageDeclaration>,
    ids: Seq<Option<(String, String)>>,
    i: int,
    source: Seq<char>,
    entry: PackageLockEntry,
) -> bool {
    decls[i].source@ == source || identity_at(ids, i) == Some(
        (entry.identity_kind@, entry.identity_value@),
    )
}

/// The first declaration that stops the search.
pub open spec fn first_declaring(
    decls: Seq<PackageDeclaration>,
    ids: Seq<Option<(String, String)>>,
    source: Seq<char>,
    entry: PackageLockEntry,
    from: int,
) -> Option<int>
    decreases decls.len() - from,
{
    if from < 0 || from >= decls.len() {
        None
    } else if declares(decls, ids, from, source, entry) {
        Some(from)
    } else {
        first_declaring(decls, ids, source, entry, from + 1)
    }
}

/// The declarations once the package of `entry` is declared with `source`:
/// unchanged when a declaration has the source before any of the same
/// package; else the first declaration of the same package takes the
/// source; else a new declaration without filters is added. `ids` holds the
/// identity of each declaration, where known.
pub open spec fn declarations_with_spec(
    decls: Seq<PackageDeclaration>,
    ids: Seq<Option<(String, String)>>,
    source: Seq<char>,
    entry: PackageLockEntry,
    r: Seq<PackageDeclaration>,
) -> bool {
    match first_declaring(decls, ids, source, entry, 0) {
        Some(j) => if decls[j].source@ == source {
            r == decls
        } else {
            r.len() == decls.len() && r[j].source@ == source && r[j].filters == decls[j].filters
                && forall|k: int| 0 <= k < decls.len() && k != j ==> r[k] == decls[k]
        },
        None => r.len() == decls.len() + 1 && r.drop_last() == decls && r.last().source@ == source
            && r.last().filters.extensions is None && r.last().filters.skills is None
            && r.last().filters.fragments is None && r.last().filters.themes is None,
    }
}

/// Declare the package of `entry` with `source`.
pub fn declarations_with_package(
    decls: Vec<PackageDeclaration>,
    ids: &Vec<Option<(String, String)>>,
    source: &str,
    entry: &PackageLockEntry,
) -> (r: Vec<PackageDeclaration>)
    ensures
        declarations_with_spec(decls@, ids@, source@, *entry, r@),
{
    let ghost d0 = decls@;
    let mut out = decls;
    let mut i: usize = 0;
    while i < out.len()
        invariant
            i <= out@.len(),
            out@ == d0,
            d0 == decls@,
            first_declaring(d0, ids@, source@, *entry, 0) == first_declaring(
                d0,
                ids@,
                source@,
                *entry,
                i as int,
            ),
        decreases out.len() - i,
    {
        if str_eq(out[i].source.as_str(), source) {
            assert(declares(d0, ids@, i as int, source@, *entry));
            assert(first_declaring(d0, ids@, source@, *entry, i as int) == Some(i as int));
            assert(d0[i as int].source@ == source@);
            return out;
        }
        let same = if i < ids.len() {
            match &ids[i] {
                Some((kind, value)) => str_eq(kind.as_str(), entry.identity_kind.as_str()) && str_eq(
                    value.as_str(),
                    entry.identity_value.as_str(),
                ),
                None => false,
            }
        } else {
            false
        };
        assert(same == (identity_at(ids@, i as int) == Some(
            (entry.identity_kind@, entry.identity_value@),
        )));
        if same {
            let ghost before = out@;
            out[i].source = string_of(&chars_of(source));
            assert forall|k: int| 0 <= k < before.len() && k != i implies out@[k] == before[k] by {}
            return out;
        }
        i += 1;
    }
    let ghost before = out@;
    out.push(PackageDeclaration { source: string_of(&chars_of(source)), filters: PackageFilters::none() });
    assert(out@.drop_last() =~= before);
    out
}

/// The search for a declaration finds one that stops it.
proof fn lemma_first_declaring_bound(
    decls: Seq<PackageDeclaration>,
    ids: Seq<Option<(String, String)>>,
    source: Seq<char>,
    entry: PackageLockEntry,
    from: int,
)
    ensures
        first_declaring(decls, ids, source, entry, from) matches Some(j) ==> 0 <= j < decls.len()
            && declares(decls, ids, j, source, entry),
    decreases decls.len() - from,
{
    if !(from < 0 || from >= decls.len()) && !declares(decls, ids, from, source, entry) {
        lemma_first_declaring_bound(decls, ids, source, entry, from + 1);
    }
}

/// After adding a package, it is declared with the source it was added
/// with, and at most one declaration was added.
pub proof fn lemma_added_package_is_declared(
    decls: Seq<PackageDeclaration>,
    ids: Seq<Option<(String, String)>>,
    source: Seq<char>,
    entry: PackageLockEntry,
    r: Seq<PackageDeclaration>,
)
    requires
        declarations_with_spec(decls, ids, source, entry, r),
    ensures
        exists|k: int| 0 <= k < r.len() && r[k].source@ == source,
        r.len() <= decls.len() + 1,
{
    lemma_first_declaring_bound(decls, ids, source, entry, 0);
    match first_declaring(decls, ids, source, entry, 0) {
        Some(j) => {
            assert(r[j].source@ == source);
        },
        None => {
            assert(r[r.len() - 1].source@ == source);
        },
    }
}

/// The identity of a declaration: `("git", url)` for a git source,
/// `("local", canonical directory)` for a local one whose directory could be
/// resolved (`canonical_root`), none otherwise.
pub open spec fn declaration_identity_spec(
    source: Seq<char>,
    canonical_root: Option<Seq<char>>,
) -> Option<(Seq<char>, Seq<char>)> {
    match parse_source_spec(source) {
        Err(_) => None,
        Ok(v) => if v.2 {
            Some(("git"@, v.0))
        } else {
            match canonical_root {
                Some(c) => Some(("local"@, c)),
                None => None,
            }
        },
    }
}

/// The directory a local declaration points at, in a scope (resolved by the
/// caller to its canonical form).
pub fn declaration_source_root(scope: &PackageStoreScope, declaration: &PackageDeclaration) -> (r:
    String)
    ensures
        r@ == local_source_path_spec(scope_base_spec(*scope), declaration.source@),
{
    resolve_local_source_path(scope_base(scope), declaration.source.as_str())
}

/// The identity of a declaration, given the canonical form of its local
/// directory when it could be resolved.
pub fn declaration_identity(declaration: &PackageDeclaration, canonical_root: Option<String>) -> (r:
    Option<(String, String)>)
    ensures
        match declaration_identity_spec(
            declaration.source@,
            match canonical_root {
                Some(c) => Some(c@),
                None => None,
            },
        ) {
            Some((k, v)) => r matches Some(p) && p.0@ == k && p.1@ == v,
            None => r is None,
        },
{
    let source = match PackageSource::parse(declaration.source.as_str()) {
        Ok(s) => s,
        Err(_) => return None,
    };
    match source {
        PackageSource::Local { .. } => match canonical_root {
            Some(c) => Some((string_of(&chars_of("local")), c)),
            None => None,
        },
        PackageSource::Git { url, .. } => Some((string_of(&chars_of("git")), url)),
    }
}

/// `lock` belongs to the declaration of `source` with identity `identity`.
pub open spec fn lock_of_declaration(
    lock: PackageLockEntry,
    source: Seq<char>,
    identity: Option<(Seq<char>, Seq<char>)>,
) -> bool {
    lock.source@ == source || match identity {
        Some((k, v)) => lock.identity_kind@ == k && lock.identity_value@ == v,
        None => false,
    }
}

/// The lock entries left once the declaration of `source` (with identity
/// `identity`) is removed, and whether any was dropped.
pub fn locks_without_declaration(
    locks: Vec<PackageLockEntry>,
    source: &str,
    identity: &Option<(String, String)>,
) -> (r: (Vec<PackageLockEntry>, bool))
    ensures
        ({
            let id = match *identity {
                Some(p) => Some((p.0@, p.1@)),
                None => None,
            };
            &&& r.0@ == locks@.filter(
                |l: PackageLockEntry| !lock_of_declaration(l, source@, id),
            )
            &&& r.1 == (r.0@.len() != locks@.len())
        }),
{
    let ghost id = match identity {
        Some(p) => Some((p.0@, p.1@)),
        None => None,
    };
    let ghost pred = |l: PackageLockEntry| !lock_of_declaration(l, source@, id);
    let ghost all = locks@;
    let n = locks.len();
    let mut locks = locks;
    let mut rev: Vec<PackageLockEntry> = Vec::new();
    while locks.len() > 0
        invariant
            locks@.len() + rev@.len() == n,
            n == all.len(),
            forall|k: int| 0 <= k < locks@.len() ==> #[trigger] locks@[k] == all[k],
            forall|k: int| 0 <= k < rev@.len() ==> #[trigger] rev@[k] == all[n - 1 - k],
        decreases locks.len(),
    {
        let x = locks.pop().unwrap();
        rev.push(x);
    }
    let mut out: Vec<PackageLockEntry> = Vec::new();
    let mut t: usize = 0;
    assert(all.take(0) =~= Seq::<PackageLockEntry>::empty());
    while rev.len() > 0
        invariant
            rev@.len() + t == n,
            n == all.len(),
            pred == (|l: PackageLockEntry| !lock_of_declaration(l, source@, id)),
            id == match *identity {
                Some(p) => Some((p.0@, p.1@)),
                None => None,
            },
            forall|k: int| 0 <= k < rev@.len() ==> #[trigger] rev@[k] == all[n - 1 - k],
            out@ == all.take(t as int).filter(pred),
        decreases rev.len(),
    {
        reveal_with_fuel(Seq::<_>::filter, 1);
        let x = rev.pop().unwrap();
        assert(x == all[t as int]);
        assert(all.take(t + 1).drop_last() =~= all.take(t as int));
        assert(all.take(t + 1).last() == x);
        let belongs = str_eq(x.source.as_str(), source) || match identity {
            Some((k, v)) => str_eq(x.identity_kind.as_str(), k.as_str()) && str_eq(
                x.identity_value.as_str(),
                v.as_str(),
            ),
            None => false,
        };
        if !belongs {
            out.push(x);
        }
        t += 1;
    }
    assert(all.take(n as int) =~= all);
    let changed = out.len() != n;
    (out, changed)
}

// ---------------------------------------------------------------------------
// Removing by name
// ---------------------------------------------------------------------------

/// What `opi package remove <name_or_source>` does with the declarations.
#[derive(Debug)]
pub enum RemoveDecision {
    /// Remove the declaration at this index.
    Remove(usize),
    /// No declaration matches.
    NoMatch,
    /// Several declarations' packages have the name; nothing is removed.
    Ambiguous(PackageStoreError),
}

/// The index of the first declaration with the source.
pub open spec fn first_with_source(decls: Seq<PackageDeclaration>, source: Seq<char>) -> Option<int>
    decreases decls.len(),
{
    if decls.len() == 0 {
        None
    } else if decls[0].source@ == source {
        Some(0)
    } else {
        match first_with_source(decls.drop_first(), source) {
            Some(i) => Some(i + 1),
            None => None,
        }
    }
}

/// The manifest name of the `i`-th declaration's package, when known.
pub open spec fn name_at(names: Seq<Option<String>>, i: int) -> Option<Seq<char>> {
    if 0 <= i < names.len() {
        match names[i] {
            Some(n) => Some(n@),
            None => None,
        }
    } else {
        None
    }
}

/// The indices of the declarations whose package has `name`, in order.
pub open spec fn name_matches(
    decls: Seq<PackageDeclaration>,
    names: Seq<Option<String>>,
    name: Seq<char>,
) -> Seq<int>
    decreases decls.len(),
{
    if decls.len() == 0 {
        Seq::empty()
    } else {
        let prev = name_matches(decls.drop_last(), names, name);
        if name_at(names, decls.len() - 1) == Some(name) {
            prev.push(decls.len() - 1)
        } else {
            prev
        }
    }
}

/// The listing of an ambiguous match: `<scope> source=<s> name=<n>` for
/// each match, joined with `, `.
pub open spec fn ambiguous_listing(
    decls: Seq<PackageDeclaration>,
    matches: Seq<int>,
    scope_text: Seq<char>,
    name: Seq<char>,
) -> Seq<char> {
    join(
        Seq::new(
            matches.len(),
            |k: int| scope_text + " source="@ + decls[matches[k]].source@ + " name="@ + name,
        ),
        ", "@,
    )
}

/// The matching indices lie inside the declarations.
proof fn lemma_name_matches_bound(
    decls: Seq<PackageDeclaration>,
    names: Seq<Option<String>>,
    name: Seq<char>,
)
    ensures
        forall|q: int|
            0 <= q < name_matches(decls, names, name).len() ==> 0 <= #[trigger] name_matches(
                decls,
                names,
                name,
            )[q] < decls.len(),
    decreases decls.len(),
{
    if decls.len() > 0 {
        lemma_name_matches_bound(decls.drop_last(), names, name);
        let prev = name_matches(decls.drop_last(), names, name);
        let cur = name_matches(decls, names, name);
        assert forall|q: int| 0 <= q < cur.len() implies 0 <= #[trigger] cur[q] < decls.len() by {
            if q < prev.len() {
                assert(cur[q] == prev[q]);
            }
        }
    }
}

/// What `remove` decides: the first declaration with the source; else the
/// one declaration whose package has the name; else nothing, or an error
/// when several have it. `names` holds each declaration's manifest name,
/// where known.
pub open spec fn remove_spec(
    decls: Seq<PackageDeclaration>,
    names: Seq<Option<String>>,
    name_or_source: Seq<char>,
    scope: PackageStoreScope,
    r: RemoveDecision,
) -> bool {
    match first_with_source(decls, name_or_source) {
        Some(i) => r == RemoveDecision::Remove(i as usize),
        None => {
            let ms = name_matches(decls, names, name_or_source);
            if ms.len() == 0 {
                r is NoMatch
            } else if ms.len() == 1 {
                r == RemoveDecision::Remove(ms[0] as usize)
            } else {
                r matches RemoveDecision::Ambiguous(PackageStoreError::Package(m)) && m@
                    == "ambiguous package '"@ + name_or_source + "'; matches: "@
                    + ambiguous_listing(decls, ms, scope_label_spec(scope), name_or_source)
            }
        },
    }
}

/// Decide which declaration `opi package remove <name_or_source>` removes.
pub fn remove_decision(
    decls: &Vec<PackageDeclaration>,
    names: &Vec<Option<String>>,
    name_or_source: &str,
    scope: &PackageStoreScope,
) -> (r: RemoveDecision)
    ensures
        remove_spec(decls@, names@, name_or_source@, *scope, r),
{
    let mut i: usize = 0;
    assert(decls@.skip(0) =~= decls@);
    while i < decls.len()
        invariant
            i <= decls@.len(),
            first_with_source(decls@, name_or_source@) == match first_with_source(
                decls@.skip(i as int),
                name_or_source@,
            ) {
                Some(j) => Some(j + i),
                None => None,
            },
        decreases decls.len() - i,
    {
        assert(decls@.skip(i as int).drop_first() =~= decls@.skip(i + 1));
        assert(decls@.skip(i as int)[0] == decls@[i as int]);
        if str_eq(decls[i].source.as_str(), name_or_source) {
            return RemoveDecision::Remove(i);
        }
        i += 1;
    }
    let ghost ms_all = name_matches(decls@, names@, name_or_source@);
    let mut ms: Vec<usize> = Vec::new();
    let mut k: usize = 0;
    assert(decls@.take(0) =~= Seq::<PackageDeclaration>::empty());
    while k < decls.len()
        invariant
            k <= decls@.len(),
            ms@.len() == name_matches(decls@.take(k as int), names@, name_or_source@).len(),
            forall|j: int|
                0 <= j < ms@.len() ==> #[trigger] ms@[j] as int == name_matches(
                    decls@.take(k as int),
                    names@,
                    name_or_source@,
                )[j],
        decreases decls.len() - k,
    {
        assert(decls@.take(k + 1).drop_last() =~= decls@.take(k as int));
        let hit = if k < names.len() {
            match &names[k] {
                Some(n) => str_eq(n.as_str(), name_or_source),
                None => false,
            }
        } else {
            false
        };
        if hit {
            ms.push(k);
        }
        k += 1;
    }
    assert(decls@.take(decls@.len() as int) =~= decls@);
    if ms.len() == 0 {
        return RemoveDecision::NoMatch;
    }
    if ms.len() == 1 {
        return RemoveDecision::Remove(ms[0]);
    }
    proof {
        lemma_name_matches_bound(decls@, names@, name_or_source@);
    }
    let label = scope_label(scope);
    let ghost items = Seq::new(
        ms_all.len(),
        |j: int| label@ + " source="@ + decls@[ms_all[j]].source@ + " name="@ + name_or_source@,
    );
    let mut parts: Vec<Vec<char>> = Vec::new();
    let mut j: usize = 0;
    while j < ms.len()
        invariant
            j <= ms@.len(),
            ms@.len() == ms_all.len(),
            forall|q: int| 0 <= q < ms@.len() ==> #[trigger] ms@[q] as int == ms_all[q],
            forall|q: int| 0 <= q < ms_all.len() ==> 0 <= #[trigger] ms_all[q] < decls@.len(),
            items == Seq::new(
                ms_all.len(),
                |j: int| label@ + " source="@ + decls@[ms_all[j]].source@ + " name="@
                    + name_or_source@,
            ),
            views(parts@) == items.take(j as int),
            parts@.len() == j,
        decreases ms.len() - j,
    {
        let idx = ms[j];
        let mut part = chars_of(label);
        extend_str(&mut part, " source=");
        extend_str(&mut part, decls[idx].source.as_str());
        extend_str(&mut part, " name=");
        extend_str(&mut part, name_or_source);
        let ghost prev = parts@;
        parts.push(part);
        assert(views(parts@) =~= items.take(j + 1)) by {
            assert forall|q: int| 0 <= q < j implies #[trigger] parts@[q]@ == items[q] by {
                assert(parts@[q] == prev[q]);
                assert(views(prev)[q] == items.take(j as int)[q]);
            }
        }
        j += 1;
    }
    assert(items.take(ms@.len() as int) =~= items);
    let mut m = chars_of("ambiguous package '");
    extend_str(&mut m, name_or_source);
    extend_str(&mut m, "'; matches: ");
    let listing = join_chars(&parts, ", ");
    extend_chars(&mut m, &listing);
    RemoveDecision::Ambiguous(PackageStoreError::Package(string_of(&m)))
}

/// `lock` holds the package directory of git source `source` at `url`.
pub open spec fn git_manifest_lock(lock: PackageLockEntry, source: Seq<char>, url: Seq<char>) -> bool {
    lock.identity_kind@ == "git"@ && (lock.source@ == source || lock.identity_value@ == url)
}

/// The first lock entry holding the package directory of a git source, for
/// looking up its manifest name.
pub fn git_manifest_lock_index(locks: &Vec<PackageLockEntry>, source: &str, url: &str) -> (r: Option<
    usize,
>)
    ensures
        match r {
            Some(i) => i < locks@.len() && git_manifest_lock(locks@[i as int], source@, url@)
                && forall|k: int| 0 <= k < i ==> !git_manifest_lock(#[trigger] locks@[k], source@, url@),
            None => forall|k: int|
                0 <= k < locks@.len() ==> !git_manifest_lock(#[trigger] locks@[k], source@, url@),
        },
{
    let mut i: usize = 0;
    while i < locks.len()
        invariant
            i <= locks@.len(),
            forall|k: int| 0 <= k < i ==> !git_manifest_lock(#[trigger] locks@[k], source@, url@),
        decreases locks.len() - i,
    {
        let l = &locks[i];
        if str_eq(l.identity_kind.as_str(), "git") && (str_eq(l.source.as_str(), source) || str_eq(
            l.identity_value.as_str(),
            url,
        )) {
            return Some(i);
        }
        i += 1;
    }
    None
}

/// The key under which a git source is cached: `git:<url>`.
pub fn git_cache_key(url: &str) -> (r: String)
    ensures
        r@ == "git:"@ + url@,
{
    let mut v = chars_of("git:");
    extend_str(&mut v, url);
    string_of(&v)
}

/// The SHA-256 digest of a string's UTF-8 bytes, in lowercase hexadecimal.
pub fn sha256_hex_text(s: &str) -> (r: String)
    ensures
        r@ == sha256_hex(vstd::utf8::encode_utf8(s@)),
{
    crate::package_resolver::sha256_of_bytes(s.as_bytes())
}

/// The cache directory of a git source: the digest of its key in the
/// store's cache directory.
pub fn git_cache_dir(cache_dir: &str, url: &str) -> (r: String)
    ensures
        r@ == path_join(cache_dir@, sha256_hex(vstd::utf8::encode_utf8("git:"@ + url@))),
{
    let key = git_cache_key(url);
    let k = key.as_str();
    let digest = sha256_hex_text(k);
    crate::paths::join_path(cache_dir, digest.as_str())
}

// ---------------------------------------------------------------------------
// Reports
// ---------------------------------------------------------------------------

/// `Installed <name> <version> from <source> (<scope>)`.
pub open spec fn installed_spec(
    name: Seq<char>,
    version: Option<Seq<char>>,
    source: Seq<char>,
    scope: PackageStoreScope,
) -> Seq<char> {
    "Installed "@ + name + " "@ + version_text(version) + " from "@ + source + " ("@
        + scope_label_spec(scope) + ")"@
}

/// The message printed after installing a package.
pub fn installed_message(
    name: &str,
    version: Option<&str>,
    source: &str,
    scope: &PackageStoreScope,
) -> (r: String)
    ensures
        r@ == installed_spec(
            name@,
            match version {
                Some(v) => Some(v@),
                None => None,
            },
            source@,
            *scope,
        ),
{
    let mut v = chars_of("Installed ");
    extend_str(&mut v, name);
    extend_str(&mut v, " ");
    extend_str(&mut v, display_version(version));
    extend_str(&mut v, " from ");
    extend_str(&mut v, source);
    extend_str(&mut v, " (");
    extend_str(&mut v, scope_label(scope));
    extend_str(&mut v, ")");
    string_of(&v)
}

/// The message when no declaration matches a removal.
pub fn no_match_message(name_or_source: &str) -> (r: String)
    ensures
        r@ == "opi package: no declaration matching '"@ + name_or_source@ + "'"@,
{
    let mut v = chars_of("opi package: no declaration matching '");
    extend_str(&mut v, name_or_source);
    extend_str(&mut v, "'");
    string_of(&v)
}

/// The table row of a package that loads.
pub open spec fn package_row(p: ResolvedInstalledPackage) -> Seq<char> {
    installed_label(p.scope) + "\t"@ + p.package.manifest.name@ + "\t"@ + version_text(
        match p.package.manifest.version {
            Some(v) => Some(v@),
            None => None,
        },
    ) + "\t"@ + p.declaration.source@ + "\tok"@
}

/// The table row of a diagnostic.
pub open spec fn diagnostic_row(d: crate::package_resolver::PackageDiagnostic) -> Seq<char> {
    installed_label(d.scope) + "\t-\t-\t"@ + d.source@ + "\t"@ + severity_text(d.severity)
}

/// The lines of `opi package list`: `No packages installed.` when there is
/// nothing to show, else a header, a row per package and a row per
/// diagnostic.
pub open spec fn list_lines_spec(r: InstalledPackageResolution) -> Seq<Seq<char>> {
    if r.packages@.len() == 0 && r.diagnostics@.len() == 0 {
        seq!["No packages installed."@]
    } else {
        seq!["scope\tname\tversion\tsource\tstatus"@] + Seq::new(
            r.packages@.len(),
            |i: int| package_row(r.packages@[i]),
        ) + Seq::new(r.diagnostics@.len(), |i: int| diagnostic_row(r.diagnostics@[i]))
    }
}

/// The lines of `opi package list` (without `--json`).
pub fn list_lines(r: &InstalledPackageResolution) -> (out: Vec<String>)
    ensures
        string_views(out@) == list_lines_spec(*r),
{
    let mut out: Vec<String> = Vec::new();
    if r.packages.len() == 0 && r.diagnostics.len() == 0 {
        out.push(string_of(&chars_of("No packages installed.")));
        assert(string_views(out@) =~= list_lines_spec(*r));
        return out;
    }
    out.push(string_of(&chars_of("scope\tname\tversion\tsource\tstatus")));
    let ghost head = seq!["scope\tname\tversion\tsource\tstatus"@];
    let ghost rows = Seq::new(r.packages@.len(), |i: int| package_row(r.packages@[i]));
    let ghost drows = Seq::new(r.diagnostics@.len(), |i: int| diagnostic_row(r.diagnostics@[i]));
    assert(string_views(out@) =~= head + rows.take(0));
    let mut i: usize = 0;
    while i < r.packages.len()
        invariant
            i <= r.packages@.len(),
            rows == Seq::new(r.packages@.len(), |i: int| package_row(r.packages@[i])),
            string_views(out@) == head + rows.take(i as int),
        decreases r.packages.len() - i,
    {
        let p = &r.packages[i];
        let version = match &p.package.manifest.version {
            Some(v) => Some(v.as_str()),
            None => None,
        };
        let mut line = chars_of(installed_scope_label(p.scope));
        extend_str(&mut line, "\t");
        extend_str(&mut line, p.package.manifest.name.as_str());
        extend_str(&mut line, "\t");
        extend_str(&mut line, display_version(version));
        extend_str(&mut line, "\t");
        extend_str(&mut line, p.declaration.source.as_str());
        extend_str(&mut line, "\tok");
        let ghost prev = out@;
        out.push(string_of(&line));
        assert(string_views(out@) =~= string_views(prev).push(rows[i as int]));
        assert(head + rows.take(i + 1) =~= (head + rows.take(i as int)).push(rows[i as int]));
        i += 1;
    }
    assert(rows.take(r.packages@.len() as int) =~= rows);
    let mut j: usize = 0;
    assert(head + rows + drows.take(0) =~= head + rows);
    while j < r.diagnostics.len()
        invariant
            j <= r.diagnostics@.len(),
            drows == Seq::new(r.diagnostics@.len(), |i: int| diagnostic_row(r.diagnostics@[i])),
            string_views(out@) == head + rows + drows.take(j as int),
        decreases r.diagnostics.len() - j,
    {
        let d = &r.diagnostics[j];
        let mut line = chars_of(installed_scope_label(d.scope));
        extend_str(&mut line, "\t-\t-\t");
        extend_str(&mut line, d.source.as_str());
        extend_str(&mut line, "\t");
        extend_str(&mut line, severity_label(&d.severity));
        let ghost prev = out@;
        out.push(string_of(&line));
        assert(string_views(out@) =~= string_views(prev).push(drows[j as int]));
        assert(head + rows + drows.take(j + 1) =~= (head + rows + drows.take(j as int)).push(
            drows[j as int],
        ));
        j += 1;
    }
    assert(drows.take(r.diagnostics@.len() as int) =~= drows);
    out
}

/// The summary of `opi package doctor` when there are no diagnostics.
pub open spec fn doctor_summary_spec(packages: nat) -> Seq<char> {
    if packages == 0 {
        "No packages installed."@
    } else {
        "All "@ + decimal(packages) + " package(s) OK."@
    }
}

/// The summary of `opi package doctor` when there are no diagnostics.
pub fn doctor_summary(packages: usize) -> (r: String)
    ensures
        r@ == doctor_summary_spec(packages as nat),
{
    if packages == 0 {
        return string_of(&chars_of("No packages installed."));
    }
    let mut v = chars_of("All ");
    let d = decimal_chars(packages as u128);
    extend_chars(&mut v, &d);
    extend_str(&mut v, " package(s) OK.");
    string_of(&v)
}

/// The line of `opi package doctor` for a diagnostic:
/// `<source>: <code> (<message>)`.
pub fn doctor_line(d: &crate::package_resolver::PackageDiagnostic) -> (r: String)
    ensures
        r@ == d.source@ + ": "@ + d.code@ + " ("@ + d.message@ + ")"@,
{
    let mut v = chars_of(d.source.as_str());
    extend_str(&mut v, ": ");
    extend_str(&mut v, d.code.as_str());
    extend_str(&mut v, " (");
    extend_str(&mut v, d.message.as_str());
    extend_str(&mut v, ")");
    string_of(&v)
}

/// `opi package doctor` fails when any diagnostic is an error: the error
/// counts all diagnostics.
pub fn doctor_outcome(r: &InstalledPackageResolution) -> (out: Result<(), PackageStoreError>)
    ensures
        (exists|i: int|
            0 <= i < r.diagnostics@.len() && #[trigger] r.diagnostics@[i].severity
                == PackageDiagnosticSeverity::Error) ==> (out matches Err(PackageStoreError::Package(m))
            && m@ == decimal(r.diagnostics@.len() as nat) + " diagnostic(s) found"@),
        !(exists|i: int|
            0 <= i < r.diagnostics@.len() && #[trigger] r.diagnostics@[i].severity
                == PackageDiagnosticSeverity::Error) ==> out is Ok,
{
    let mut i: usize = 0;
    while i < r.diagnostics.len()
        invariant
            i <= r.diagnostics@.len(),
            forall|k: int|
                0 <= k < i ==> #[trigger] r.diagnostics@[k].severity
                    != PackageDiagnosticSeverity::Error,
        decreases r.diagnostics.len() - i,
    {
        if r.diagnostics[i].severity == PackageDiagnosticSeverity::Error {
            let mut v = decimal_chars(r.diagnostics.len() as u128);
            extend_str(&mut v, " diagnostic(s) found");
            return Err(PackageStoreError::Package(string_of(&v)));
        }
        i += 1;
    }
    Ok(())
}

// ---------------------------------------------------------------------------
// Failed installs
// ---------------------------------------------------------------------------

/// The error of an install whose cache replacement had to be rolled back:
/// the error itself, or, when the rollback failed too, both.
pub fn rollback_cache_on_error(
    rollback: Result<(), PackageStoreError>,
    error: PackageStoreError,
) -> (r: PackageStoreError)
    ensures
        match rollback {
            Ok(_) => r == error,
            Err(e) => r matches PackageStoreError::Package(m) && m@ == store_error_message(error)
                + "; cache rollback failed after package install error: "@ + store_error_message(
                e,
            ),
        },
{
    match rollback {
        Ok(()) => error,
        Err(e) => {
            let mut v = chars_of(error.message().as_str());
            extend_str(&mut v, "; cache rollback failed after package install error: ");
            extend_str(&mut v, e.message().as_str());
            PackageStoreError::Package(string_of(&v))
        },
    }
}

/// The rollback details of a failed metadata update.
pub open spec fn rollback_details(
    error: PackageStoreError,
    metadata_restore: Result<(), PackageStoreError>,
    cache_restore: Result<(), PackageStoreError>,
) -> Seq<Seq<char>> {
    let d = seq![store_error_message(error)];
    let d = match metadata_restore {
        Err(e) => d.push("metadata rollback failed: "@ + store_error_message(e)),
        Ok(_) => d,
    };
    match cache_restore {
        Err(e) => d.push("cache rollback failed: "@ + store_error_message(e)),
        Ok(_) => d,
    }
}

/// The error of an install whose metadata could not be written: the error
/// itself when both rollbacks succeeded, else the error with the failed
/// rollbacks.
pub fn metadata_update_error(
    error: PackageStoreError,
    metadata_restore: Result<(), PackageStoreError>,
    cache_restore: Result<(), PackageStoreError>,
) -> (r: PackageStoreError)
    ensures
        metadata_restore is Ok && cache_restore is Ok ==> r == error,
        !(metadata_restore is Ok && cache_restore is Ok) ==> (r matches PackageStoreError::Package(
            m,
        ) && m@ == "package metadata update failed after cache replacement: "@ + join(
            rollback_details(error, metadata_restore, cache_restore),
            "; "@,
        )),
{
    if metadata_restore.is_ok() && cache_restore.is_ok() {
        return error;
    }
    let ghost details = rollback_details(error, metadata_restore, cache_restore);
    let mut parts: Vec<Vec<char>> = Vec::new();
    parts.push(chars_of(error.message().as_str()));
    match &metadata_restore {
        Err(e) => {
            let mut v = chars_of("metadata rollback failed: ");
            extend_str(&mut v, e.message().as_str());
            parts.push(v);
        },
        Ok(_) => {},
    }
    match &cache_restore {
        Err(e) => {
            let mut v = chars_of("cache rollback failed: ");
            extend_str(&mut v, e.message().as_str());
            parts.push(v);
        },
        Ok(_) => {},
    }
    assert(views(parts@) =~= details);
    let mut m = chars_of("package metadata update failed after cache replacement: ");
    let joined = join_chars(&parts, "; ");
    extend_chars(&mut m, &joined);
    PackageStoreError::Package(string_of(&m))
}

} // verus!
