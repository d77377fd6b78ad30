//! Packages: `package.toml` manifests, `opi_version` compatibility, adapter
//! commands, resource composition, precedence-based discovery and the
//! registry.
//!
//! A package is a directory holding `package.toml` and optional
//! `extensions/`, `skills/`, `fragments/` and `themes/` subdirectories. When
//! the manifest lists resources of a kind (validated mode), exactly those are
//! composed and each must exist; otherwise every valid resource directory of
//! that kind is (conventional mode). Names in `disabled` are left out either
//! way, and no resource may resolve outside the package directory.
//!
//! Paths are Unix paths (see [`crate::paths`]).
use vstd::prelude::*;

use crate::discovery::{
    Discovered, duplicate_at, has_duplicate, merge_discovered, merged_from, precedence_merge_law,
};
use crate::frontmatter::{
    NameProblem, check_name, description_reason, description_reason_text, description_too_long,
    name_problem, name_reason, name_reason_text,
};
use crate::paths::{
    components, components_of, components_start_with, components_to_text, from_components,
    is_absolute, path_join, starts_with_components,
};
use crate::text::{
    chars_eq, chars_of, contains, contains_char, extend_chars, extend_str, join, join_chars,
    parse_u64, parse_u64_spec, split_char, split_chars, starts_with, starts_with_str, str_eq,
    string_of, string_views, subvec, trim, trim_chars, views,
};

verus! {

// ---------------------------------------------------------------------------
// Errors and manifest types
// ---------------------------------------------------------------------------

/// Errors from package discovery, manifest parsing and resource composition.
#[derive(Debug)]
pub enum PackageDiscoveryError {
    /// `package.toml` is not valid TOML, or the adapter table is unsupported.
    InvalidManifest { path: String, reason: String },
    /// A required field is missing or blank.
    MissingField { field: String, path: String },
    /// Two packages of the same precedence use the same name.
    DuplicateName { name: String, path: String },
    /// The name holds invalid characters or is too long.
    InvalidName { path: String, reason: String },
    /// The description is too long.
    InvalidDescription { path: String, reason: String },
    /// A resource named in an include list was not found.
    MissingAsset { package_name: String, kind: String, name: String },
    /// A resource path escapes the package directory.
    SecurityDiagnostic { package_name: String, path: String, reason: String },
    /// Reading the file system failed.
    Io(String),
}

/// The `[adapter]` table of `package.toml`, as read.
#[derive(Debug)]
pub struct AdapterTable {
    pub kind: String,
    pub command: String,
    pub args: Vec<String>,
    pub protocol: String,
    pub timeout_ms: Option<u64>,
}

/// The fields of `package.toml`, as read.
#[derive(Debug)]
pub struct PackageFile {
    pub name: Option<String>,
    pub description: Option<String>,
    pub version: Option<String>,
    pub opi_version: Option<String>,
    pub extensions: Option<Vec<String>>,
    pub skills: Option<Vec<String>>,
    pub fragments: Option<Vec<String>>,
    pub themes: Option<Vec<String>>,
    pub disabled: Option<Vec<String>>,
    pub adapter: Option<AdapterTable>,
}

/// A validated package manifest.
#[derive(Debug)]
pub struct PackageManifest {
    /// Lowercase ASCII letters, digits and hyphens, at most 64 bytes.
    pub name: String,
    /// Not blank, at most 1024 characters.
    pub description: String,
    /// Semantic version, if given.
    pub version: Option<String>,
    /// `opi_version` compatibility constraint (advisory).
    pub opi_version: Option<String>,
    /// Process adapter configuration, if given.
    pub adapter: Option<AdapterManifest>,
    /// Extensions to include; `None` includes all that are found.
    pub extensions: Option<Vec<String>>,
    /// Skills to include; `None` includes all that are found.
    pub skills: Option<Vec<String>>,
    /// Fragments to include; `None` includes all that are found.
    pub fragments: Option<Vec<String>>,
    /// Themes to include; `None` includes all that are found.
    pub themes: Option<Vec<String>>,
    /// Resource names left out whatever their kind.
    pub disabled: Vec<String>,
}

/// A validated `[adapter]` table: a process speaking the JSONL protocol.
#[derive(Debug)]
pub struct AdapterManifest {
    /// Always `"process-jsonl"`.
    pub kind: String,
    /// A bare name (looked up on `PATH`), a relative path (against the
    /// package root) or an absolute path.
    pub command: String,
    pub args: Vec<String>,
    /// Always `"opi-extension-jsonl-v1"`.
    pub protocol: String,
    pub timeout_ms: Option<u64>,
}

/// What is wrong with an adapter table.
#[derive(Debug, Clone, Copy, PartialEq, Eq, Structural)]
pub enum AdapterIssue {
    UnsupportedKind,
    MissingCommand,
    UnsupportedProtocol,
}

// ---------------------------------------------------------------------------
// Manifest validation: spec
// ---------------------------------------------------------------------------

/// `s` is empty once surrounding whitespace is removed.
pub open spec fn blank(s: Seq<char>) -> bool {
    trim(s).len() == 0
}

/// The first problem with an adapter table.
pub open spec fn adapter_issue(t: AdapterTable) -> Option<AdapterIssue> {
    if t.kind@ != "process-jsonl"@ {
        Some(AdapterIssue::UnsupportedKind)
    } else if blank(t.command@) {
        Some(AdapterIssue::MissingCommand)
    } else if t.protocol@ != "opi-extension-jsonl-v1"@ {
        Some(AdapterIssue::UnsupportedProtocol)
    } else {
        None
    }
}

/// `e` is the error reported for adapter problem `i` of table `t` in the
/// manifest at `path`.
pub open spec fn adapter_error_is(
    i: AdapterIssue,
    t: AdapterTable,
    path: Seq<char>,
    e: PackageDiscoveryError,
) -> bool {
    match i {
        AdapterIssue::UnsupportedKind => e matches PackageDiscoveryError::InvalidManifest {
            path: p,
            reason,
        } && p@ == path && reason@ == "unsupported adapter kind '"@ + t.kind@ + "'"@,
        AdapterIssue::MissingCommand => e matches PackageDiscoveryError::MissingField {
            field,
            path: p,
        } && field@ == "adapter.command"@ && p@ == path,
        AdapterIssue::UnsupportedProtocol => e matches PackageDiscoveryError::InvalidManifest {
            path: p,
            reason,
        } && p@ == path && reason@ == "unsupported adapter protocol '"@ + t.protocol@ + "'"@,
    }
}

/// The adapter manifest made of a valid table.
pub open spec fn adapter_of(t: AdapterTable) -> AdapterManifest {
    AdapterManifest {
        kind: t.kind,
        command: t.command,
        args: t.args,
        protocol: t.protocol,
        timeout_ms: t.timeout_ms,
    }
}

/// `m` carries the fields of `f` (whose name and description are valid and
/// whose adapter table, if any, is valid).
pub open spec fn manifest_of(f: PackageFile, m: PackageManifest) -> bool {
    &&& m.name == f.name->0
    &&& m.description == f.description->0
    &&& m.version == f.version
    &&& m.opi_version == f.opi_version
    &&& m.adapter == (match f.adapter {
        Some(t) => Some(adapter_of(t)),
        None => None,
    })
    &&& m.extensions == f.extensions
    &&& m.skills == f.skills
    &&& m.fragments == f.fragments
    &&& m.themes == f.themes
    &&& m.disabled@ == (match f.disabled {
        Some(d) => d@,
        None => Seq::empty(),
    })
}

/// `parsed` is a valid manifest.
pub open spec fn manifest_accepts(parsed: Result<PackageFile, String>) -> bool {
    match parsed {
        Err(_) => false,
        Ok(f) => {
            &&& f.name is Some && !blank(f.name->0@)
            &&& name_problem(f.name->0@) is None
            &&& f.description is Some && !blank(f.description->0@)
            &&& f.description->0@.len() <= 1024
            &&& (f.adapter is Some ==> adapter_issue(f.adapter->0) is None)
        },
    }
}

/// What `PackageManifest::from_parsed(parsed, path)` returns.
pub open spec fn manifest_result(
    parsed: Result<PackageFile, String>,
    path: Seq<char>,
    r: Result<PackageManifest, PackageDiscoveryError>,
) -> bool {
    match parsed {
        Err(reason) => r matches Err(PackageDiscoveryError::InvalidManifest { path: p, reason: x })
            && p@ == path && x@ == reason@,
        Ok(f) => if f.name is None || blank(f.name->0@) {
            r matches Err(PackageDiscoveryError::MissingField { field, path: p }) && field@
                == "name"@ && p@ == path
        } else if name_problem(f.name->0@) is Some {
            r matches Err(PackageDiscoveryError::InvalidName { path: p, reason }) && p@ == path
                && reason@ == name_reason(name_problem(f.name->0@)->0)
        } else if f.description is None || blank(f.description->0@) {
            r matches Err(PackageDiscoveryError::MissingField { field, path: p }) && field@
                == "description"@ && p@ == path
        } else if f.description->0@.len() > 1024 {
            r matches Err(PackageDiscoveryError::InvalidDescription { path: p, reason }) && p@
                == path && reason@ == description_reason(f.description->0@.len())
        } else if f.adapter is Some && adapter_issue(f.adapter->0) is Some {
            r matches Err(e) && adapter_error_is(
                adapter_issue(f.adapter->0)->0,
                f.adapter->0,
                path,
                e,
            )
        } else {
            r matches Ok(m) && manifest_of(f, m)
        },
    }
}

// ---------------------------------------------------------------------------
// Manifest validation: exec
// ---------------------------------------------------------------------------

/// The error for a missing required field.
fn missing_field(field: &str, path: &str) -> (e: PackageDiscoveryError)
    ensures
        e matches PackageDiscoveryError::MissingField { field: f, path: p } && f@ == field@ && p@
            == path@,
{
    PackageDiscoveryError::MissingField {
        field: string_of(&chars_of(field)),
        path: string_of(&chars_of(path)),
    }
}

/// `"<prefix>'<value>'"` as a string.
fn quoted_reason(prefix: &str, value: &str) -> (r: String)
    ensures
        r@ == prefix@ + "'"@ + value@ + "'"@,
{
    let mut v = chars_of(prefix);
    extend_str(&mut v, "'");
    extend_str(&mut v, value);
    extend_str(&mut v, "'");
    string_of(&v)
}

/// Validate an adapter table and build its manifest.
pub fn validate_and_build_adapter(table: AdapterTable, path: &str) -> (r: Result<
    AdapterManifest,
    PackageDiscoveryError,
>)
    ensures
        match adapter_issue(table) {
            Some(i) => r matches Err(e) && adapter_error_is(i, table, path@, e),
            None => r matches Ok(a) && a == adapter_of(table),
        },
{
    if !str_eq(table.kind.as_str(), "process-jsonl") {
        let reason = quoted_reason("unsupported adapter kind ", table.kind.as_str());
        proof {
            reveal_strlit("unsupported adapter kind ");
            reveal_strlit("unsupported adapter kind '");
            reveal_strlit("'");
            assert(reason@ =~= "unsupported adapter kind '"@ + table.kind@ + "'"@);
        }
        return Err(
            PackageDiscoveryError::InvalidManifest { path: string_of(&chars_of(path)), reason },
        );
    }
    let command = chars_of(table.command.as_str());
    if trim_chars(&command).len() == 0 {
        return Err(missing_field("adapter.command", path));
    }
    if !str_eq(table.protocol.as_str(), "opi-extension-jsonl-v1") {
        let reason = quoted_reason("unsupported adapter protocol ", table.protocol.as_str());
        proof {
            reveal_strlit("unsupported adapter protocol ");
            reveal_strlit("unsupported adapter protocol '");
            reveal_strlit("'");
            assert(reason@ =~= "unsupported adapter protocol '"@ + table.protocol@ + "'"@);
        }
        return Err(
            PackageDiscoveryError::InvalidManifest { path: string_of(&chars_of(path)), reason },
        );
    }
    Ok(
        AdapterManifest {
            kind: table.kind,
            command: table.command,
            args: table.args,
            protocol: table.protocol,
            timeout_ms: table.timeout_ms,
        },
    )
}

impl PackageManifest {
    /// Validate a parsed `package.toml` (or the reason it could not be
    /// parsed) found at `path`.
    ///
    /// `name` and `description` must be present and not blank; the name
    /// holds only lowercase ASCII letters, digits and hyphens within 64 bytes,
    /// the description at most 1024 characters; an `[adapter]` table must name a
    /// supported kind, a command and a supported protocol.
    pub fn from_parsed(parsed: Result<PackageFile, String>, path: &str) -> (r: Result<
        Self,
        PackageDiscoveryError,
    >)
        ensures
            manifest_result(parsed, path@, r),
    {
        let f = match parsed {
            Err(reason) => {
                return Err(
                    PackageDiscoveryError::InvalidManifest {
                        path: string_of(&chars_of(path)),
                        reason,
                    },
                );
            },
            Ok(f) => f,
        };
        let ghost f0 = f;
        let PackageFile {
            name,
            description,
            version,
            opi_version,
            extensions,
            skills,
            fragments,
            themes,
            disabled,
            adapter,
        } = f;
        let name = match name {
            Some(n) => n,
            None => return Err(missing_field("name", path)),
        };
        let nc = chars_of(name.as_str());
        if trim_chars(&nc).len() == 0 {
            return Err(missing_field("name", path));
        }
        match check_name(&nc) {
            Some(pb) => {
                return Err(
                    PackageDiscoveryError::InvalidName {
                        path: string_of(&chars_of(path)),
                        reason: name_reason_text(pb),
                    },
                );
            },
            None => {},
        }
        let description = match description {
            Some(d) => d,
            None => return Err(missing_field("description", path)),
        };
        let dc = chars_of(description.as_str());
        if trim_chars(&dc).len() == 0 {
            return Err(missing_field("description", path));
        }
        match description_too_long(&dc) {
            Some(len) => {
                return Err(
                    PackageDiscoveryError::InvalidDescription {
                        path: string_of(&chars_of(path)),
                        reason: description_reason_text(len),
                    },
                );
            },
            None => {},
        }
        let adapter = match adapter {
            None => None,
            Some(t) => match validate_and_build_adapter(t, path) {
                Ok(a) => Some(a),
                Err(e) => return Err(e),
            },
        };
        let disabled = match disabled {
            Some(d) => d,
            None => Vec::new(),
        };
        let m = PackageManifest {
            name,
            description,
            version,
            opi_version,
            adapter,
            extensions,
            skills,
            fragments,
            themes,
            disabled,
        };
        assert(manifest_of(f0, m));
        Ok(m)
    }
}

// ---------------------------------------------------------------------------
// `opi_version` compatibility
// ---------------------------------------------------------------------------

/// A diagnostic from checking `opi_version` compatibility.
#[derive(Debug)]
pub struct OpiVersionDiagnostic {
    /// Human-readable message.
    pub message: String,
}

/// A version: major, minor, patch.
pub type Version = (u64, u64, u64);

/// The comparison of one part of a constraint.
#[derive(Debug, Clone, Copy, PartialEq, Eq, Structural)]
pub enum VersionOp {
    /// `>=`
    AtLeast,
    /// `<=`
    AtMost,
    /// `>`
    Above,
    /// `<`
    Below,
    /// `=`, or no operator at all
    Exactly,
}

/// `"X.Y"` or `"X.Y.Z"` (surrounding whitespace ignored) as a version; a
/// missing patch is 0.
pub open spec fn parse_version_spec(s: Seq<char>) -> Option<Version> {
    let parts = split_char(trim(s), '.');
    if parts.len() == 2 {
        match (parse_u64_spec(parts[0]), parse_u64_spec(parts[1])) {
            (Some(a), Some(b)) => Some((a, b, 0u64)),
            _ => None,
        }
    } else if parts.len() == 3 {
        match (parse_u64_spec(parts[0]), parse_u64_spec(parts[1]), parse_u64_spec(parts[2])) {
            (Some(a), Some(b), Some(c)) => Some((a, b, c)),
            _ => None,
        }
    } else {
        None
    }
}

/// `a` is an earlier version than `b` (lexicographic order).
pub open spec fn version_lt(a: Version, b: Version) -> bool {
    a.0 < b.0 || (a.0 == b.0 && (a.1 < b.1 || (a.1 == b.1 && a.2 < b.2)))
}

/// The operator of a trimmed constraint part and the version text after it.
pub open spec fn constraint_op(t: Seq<char>) -> (VersionOp, Seq<char>) {
    if starts_with(t, ">="@) {
        (VersionOp::AtLeast, t.skip(2))
    } else if starts_with(t, "<="@) {
        (VersionOp::AtMost, t.skip(2))
    } else if starts_with(t, ">"@) {
        (VersionOp::Above, t.skip(1))
    } else if starts_with(t, "<"@) {
        (VersionOp::Below, t.skip(1))
    } else if starts_with(t, "="@) {
        (VersionOp::Exactly, t.skip(1))
    } else {
        (VersionOp::Exactly, t)
    }
}

/// Version `cur` satisfies `op v`.
pub open spec fn satisfies(op: VersionOp, cur: Version, v: Version) -> bool {
    match op {
        VersionOp::AtLeast => !version_lt(cur, v),
        VersionOp::AtMost => !version_lt(v, cur),
        VersionOp::Above => version_lt(v, cur),
        VersionOp::Below => version_lt(cur, v),
        VersionOp::Exactly => cur == v,
    }
}

/// The first failing part of a comma-separated constraint: `Some(Some(t))`
/// when the trimmed part `t` cannot be parsed, `Some(None)` when `cur` does
/// not satisfy it. Blank parts are skipped.
pub open spec fn first_failure(parts: Seq<Seq<char>>, cur: Version) -> Option<Option<Seq<char>>>
    decreases parts.len(),
{
    if parts.len() == 0 {
        None
    } else {
        let t = trim(parts[0]);
        if t.len() == 0 {
            first_failure(parts.drop_first(), cur)
        } else {
            match parse_version_spec(constraint_op(t).1) {
                None => Some(Some(t)),
                Some(v) => if satisfies(constraint_op(t).0, cur, v) {
                    first_failure(parts.drop_first(), cur)
                } else {
                    Some(None)
                },
            }
        }
    }
}

/// The message of `OpiVersionDiagnostic::check(constraint, current)`, or
/// `None` when `current` satisfies every part of `constraint`.
pub open spec fn check_spec(constraint: Seq<char>, current: Seq<char>) -> Option<Seq<char>> {
    match parse_version_spec(current) {
        None => Some(
            "cannot parse current version '"@ + current + "' for compatibility check"@,
        ),
        Some(cur) => match first_failure(split_char(constraint, ','), cur) {
            None => None,
            Some(Some(part)) => Some(
                "cannot parse version constraint '"@ + part + "' in '"@ + constraint + "'"@,
            ),
            Some(None) => Some(
                "incompatible opi version: "@ + current + " does not satisfy "@ + constraint,
            ),
        },
    }
}

/// Parse `"X.Y"` or `"X.Y.Z"`.
pub fn parse_simple_version(s: &[char]) -> (r: Option<Version>)
    ensures
        r == parse_version_spec(s@),
{
    let t = trim_chars(s);
    let parts = split_chars(&t, '.');
    assert(views(parts@) == split_char(trim(s@), '.'));
    if parts.len() == 2 {
        assert(views(parts@)[0] == parts@[0]@ && views(parts@)[1] == parts@[1]@);
        let a = parse_u64(&parts[0]);
        let b = parse_u64(&parts[1]);
        match (a, b) {
            (Some(a), Some(b)) => Some((a, b, 0)),
            _ => None,
        }
    } else if parts.len() == 3 {
        assert(views(parts@)[0] == parts@[0]@ && views(parts@)[1] == parts@[1]@ && views(
            parts@,
        )[2] == parts@[2]@);
        let a = parse_u64(&parts[0]);
        let b = parse_u64(&parts[1]);
        let c = parse_u64(&parts[2]);
        match (a, b, c) {
            (Some(a), Some(b), Some(c)) => Some((a, b, c)),
            _ => None,
        }
    } else {
        None
    }
}

/// `a` is an earlier version than `b`.
pub fn version_less(a: Version, b: Version) -> (r: bool)
    ensures
        r == version_lt(a, b),
{
    a.0 < b.0 || (a.0 == b.0 && (a.1 < b.1 || (a.1 == b.1 && a.2 < b.2)))
}

/// The operator of a trimmed constraint part and the text after it.
fn split_constraint_op(t: &[char]) -> (r: (VersionOp, Vec<char>))
    ensures
        r.0 == constraint_op(t@).0,
        r.1@ == constraint_op(t@).1,
{
    proof {
        reveal_strlit(">=");
        reveal_strlit("<=");
        reveal_strlit(">");
        reveal_strlit("<");
        reveal_strlit("=");
    }
    if starts_with_str(t, ">=") {
        assert(t@.subrange(2, t@.len() as int) =~= t@.skip(2));
        (VersionOp::AtLeast, subvec(t, 2, t.len()))
    } else if starts_with_str(t, "<=") {
        assert(t@.subrange(2, t@.len() as int) =~= t@.skip(2));
        (VersionOp::AtMost, subvec(t, 2, t.len()))
    } else if starts_with_str(t, ">") {
        assert(t@.subrange(1, t@.len() as int) =~= t@.skip(1));
        (VersionOp::Above, subvec(t, 1, t.len()))
    } else if starts_with_str(t, "<") {
        assert(t@.subrange(1, t@.len() as int) =~= t@.skip(1));
        (VersionOp::Below, subvec(t, 1, t.len()))
    } else if starts_with_str(t, "=") {
        assert(t@.subrange(1, t@.len() as int) =~= t@.skip(1));
        (VersionOp::Exactly, subvec(t, 1, t.len()))
    } else {
        assert(t@.subrange(0, t@.len() as int) =~= t@);
        (VersionOp::Exactly, subvec(t, 0, t.len()))
    }
}

/// Version `cur` satisfies `op v`.
fn satisfies_op(op: VersionOp, cur: Version, v: Version) -> (r: bool)
    ensures
        r == satisfies(op, cur, v),
{
    match op {
        VersionOp::AtLeast => !version_less(cur, v),
        VersionOp::AtMost => !version_less(v, cur),
        VersionOp::Above => version_less(v, cur),
        VersionOp::Below => version_less(cur, v),
        VersionOp::Exactly => cur.0 == v.0 && cur.1 == v.1 && cur.2 == v.2,
    }
}

impl OpiVersionDiagnostic {
    /// Check `current_version` against a comma-separated constraint such as
    /// `">=0.5,<0.7"`. Returns `None` when it is satisfied, else a diagnostic:
    /// the current version or a part of the constraint cannot be parsed, or
    /// a part is not satisfied. The first failing part decides.
    pub fn check(constraint: &str, current_version: &str) -> (r: Option<Self>)
        ensures
            match check_spec(constraint@, current_version@) {
                None => r is None,
                Some(m) => r matches Some(d) && d.message@ == m,
            },
    {
        let cv = chars_of(current_version);
        let cur = match parse_simple_version(&cv) {
            Some(v) => v,
            None => {
                let mut m = chars_of("cannot parse current version '");
                extend_str(&mut m, current_version);
                extend_str(&mut m, "' for compatibility check");
                return Some(OpiVersionDiagnostic { message: string_of(&m) });
            },
        };
        let cc = chars_of(constraint);
        let parts = split_chars(&cc, ',');
        let ghost ps = views(parts@);
        let mut i: usize = 0;
        assert(ps.skip(0) =~= ps);
        while i < parts.len()
            invariant
                i <= parts@.len(),
                ps == views(parts@),
                ps == split_char(constraint@, ','),
                parse_version_spec(current_version@) == Some(cur),
                first_failure(ps, cur) == first_failure(ps.skip(i as int), cur),
            decreases parts.len() - i,
        {
            assert(ps.skip(i as int).drop_first() =~= ps.skip(i + 1));
            assert(ps.skip(i as int)[0] == parts@[i as int]@);
            let t = trim_chars(&parts[i]);
            if t.len() > 0 {
                let (op, rest) = split_constraint_op(&t);
                match parse_simple_version(&rest) {
                    None => {
                        let mut m = chars_of("cannot parse version constraint '");
                        extend_chars(&mut m, &t);
                        extend_str(&mut m, "' in '");
                        extend_str(&mut m, constraint);
                        extend_str(&mut m, "'");
                        return Some(OpiVersionDiagnostic { message: string_of(&m) });
                    },
                    Some(v) => {
                        if !satisfies_op(op, cur, v) {
                            let mut m = chars_of("incompatible opi version: ");
                            extend_str(&mut m, current_version);
                            extend_str(&mut m, " does not satisfy ");
                            extend_str(&mut m, constraint);
                            return Some(OpiVersionDiagnostic { message: string_of(&m) });
                        }
                    },
                }
            }
            i += 1;
        }
        None
    }
}

// ---------------------------------------------------------------------------
// Adapter commands
// ---------------------------------------------------------------------------

/// `cmd` holds a path separator (`/` or `\`).
pub open spec fn has_separator(cmd: Seq<char>) -> bool {
    contains(cmd, seq!['/']) || contains(cmd, seq!['\\'])
}

/// Where the adapter command `cmd` of a package at `root` is found: an
/// absolute path as it is, a path with separators against the package root,
/// a bare name as it is (for a `PATH` lookup).
pub open spec fn adapter_command_spec(cmd: Seq<char>, root: Seq<char>) -> Seq<char> {
    if is_absolute(cmd) {
        cmd
    } else if has_separator(cmd) {
        path_join(root, cmd)
    } else {
        cmd
    }
}

/// Components with `.` dropped and `..` removing the component before it,
/// except the root; `..` at the start of a relative path is dropped
/// (`PathBuf::pop`).
pub open spec fn lexical_normalize(cs: Seq<Seq<char>>) -> Seq<Seq<char>>
    decreases cs.len(),
{
    if cs.len() == 0 {
        Seq::empty()
    } else {
        let prev = lexical_normalize(cs.drop_last());
        let c = cs.last();
        if c == seq!['.', '.'] {
            if prev.len() == 0 || (prev.len() == 1 && prev[0] == seq!['/']) {
                prev
            } else {
                prev.drop_last()
            }
        } else {
            prev.push(c)
        }
    }
}

/// What `resolve_adapter_command_checked(cmd, root)` gives: `Ok(path)`, or
/// `Err(path)` for a resolved path that leaves the package root.
pub open spec fn checked_command_spec(cmd: Seq<char>, root: Seq<char>) -> Result<
    Seq<char>,
    Seq<char>,
> {
    if is_absolute(cmd) || !has_separator(cmd) {
        Ok(cmd)
    } else {
        let base = lexical_normalize(components(root));
        let resolved = lexical_normalize(components(path_join(root, cmd)));
        if components_start_with(resolved, base) {
            Ok(from_components(resolved))
        } else {
            Err(from_components(resolved))
        }
    }
}

/// Resolve the adapter command of a package rooted at `package_root`.
pub fn resolve_adapter_command(adapter: &AdapterManifest, package_root: &str) -> (r: String)
    ensures
        r@ == adapter_command_spec(adapter.command@, package_root@),
{
    let cmd = chars_of(adapter.command.as_str());
    if cmd.len() > 0 && cmd[0] == '/' {
        return adapter.command.clone();
    }
    if contains_char(&cmd, '/') || contains_char(&cmd, '\\') {
        crate::paths::join_path(package_root, adapter.command.as_str())
    } else {
        adapter.command.clone()
    }
}

/// Normalize components lexically.
pub fn normalize_components(cs: &Vec<Vec<char>>) -> (r: Vec<Vec<char>>)
    ensures
        views(r@) == lexical_normalize(views(cs@)),
{
    let ghost cv = views(cs@);
    let dotdot = vec!['.', '.'];
    assert(dotdot@ =~= seq!['.', '.']);
    let root = vec!['/'];
    assert(root@ =~= seq!['/']);
    let mut out: Vec<Vec<char>> = Vec::new();
    let mut i: usize = 0;
    assert(views(out@) =~= lexical_normalize(cv.take(0)));
    while i < cs.len()
        invariant
            i <= cs.len(),
            cv == views(cs@),
            dotdot@ == seq!['.', '.'],
            root@ == seq!['/'],
            views(out@) == lexical_normalize(cv.take(i as int)),
        decreases cs.len() - i,
    {
        assert(cv.take(i + 1).drop_last() =~= cv.take(i as int));
        assert(cv.take(i + 1).last() == cs@[i as int]@);
        let ghost prev = out@;
        if chars_eq(&cs[i], &dotdot) {
            let n = out.len();
            let keep = n == 0 || (n == 1 && chars_eq(&out[0], &root));
            assert(n > 0 ==> views(prev)[0] == prev[0]@);
            if !keep {
                out.pop();
                assert(views(out@) =~= views(prev).drop_last());
            }
        } else {
            let piece = subvec(&cs[i], 0, cs[i].len());
            assert(cs@[i as int]@.subrange(0, cs@[i as int]@.len() as int) =~= cs@[i as int]@);
            out.push(piece);
            assert forall|j: int| 0 <= j < prev.len() implies #[trigger] out@[j]@ == views(prev)[j] by {
                assert(out@[j] == prev[j]);
            }
            assert(views(out@) =~= views(prev).push(cs@[i as int]@));
        }
        i += 1;
    }
    assert(cv.take(cs.len() as int) =~= cv);
    out
}

/// The error for an adapter command that leaves its package root.
fn command_escapes(path: Vec<char>) -> (e: PackageDiscoveryError)
    ensures
        e matches PackageDiscoveryError::SecurityDiagnostic { package_name, path: p, reason }
            && package_name@ == "adapter"@ && p@ == path@ && reason@
            == "adapter command escapes package root"@,
{
    PackageDiscoveryError::SecurityDiagnostic {
        package_name: string_of(&chars_of("adapter")),
        path: string_of(&path),
        reason: string_of(&chars_of("adapter command escapes package root")),
    }
}

/// Resolve the adapter command of a package rooted at `package_root`,
/// refusing a relative command that, once `.` and `..` are resolved, lies
/// outside the root.
pub fn resolve_adapter_command_checked(adapter: &AdapterManifest, package_root: &str) -> (r:
    Result<String, PackageDiscoveryError>)
    ensures
        match checked_command_spec(adapter.command@, package_root@) {
            Ok(p) => r matches Ok(s) && s@ == p,
            Err(p) => r matches Err(e) && e matches PackageDiscoveryError::SecurityDiagnostic {
                package_name,
                path,
                reason,
            } && package_name@ == "adapter"@ && path@ == p && reason@
                == "adapter command escapes package root"@,
        },
{
    let cmd = chars_of(adapter.command.as_str());
    if cmd.len() > 0 && cmd[0] == '/' {
        return Ok(adapter.command.clone());
    }
    if !(contains_char(&cmd, '/') || contains_char(&cmd, '\\')) {
        return Ok(adapter.command.clone());
    }
    let root_chars = chars_of(package_root);
    let base = normalize_components(&components_of(&root_chars));
    let joined = crate::paths::join_path(package_root, adapter.command.as_str());
    let resolved = normalize_components(&components_of(&chars_of(joined.as_str())));
    let text = components_to_text(&resolved);
    if starts_with_components(&resolved, &base) {
        Ok(string_of(&text))
    } else {
        Err(command_escapes(text))
    }
}

// ---------------------------------------------------------------------------
// Resource kinds
// ---------------------------------------------------------------------------

/// The kind of a resource within a package.
#[derive(Debug, Clone, Copy, PartialEq, Eq, Structural)]
pub enum ResourceKind {
    Extension,
    Skill,
    Fragment,
    Theme,
}

/// The name of a kind, as messages write it.
pub open spec fn kind_label(k: ResourceKind) -> Seq<char> {
    match k {
        ResourceKind::Extension => "extension"@,
        ResourceKind::Skill => "skill"@,
        ResourceKind::Fragment => "fragment"@,
        ResourceKind::Theme => "theme"@,
    }
}

/// The subdirectory of a package holding resources of a kind.
pub open spec fn kind_subdir(k: ResourceKind) -> Seq<char> {
    match k {
        ResourceKind::Extension => "extensions"@,
        ResourceKind::Skill => "skills"@,
        ResourceKind::Fragment => "fragments"@,
        ResourceKind::Theme => "themes"@,
    }
}

/// The file that marks a resource directory of a kind.
pub open spec fn kind_marker(k: ResourceKind) -> Seq<char> {
    match k {
        ResourceKind::Extension => "extension.toml"@,
        ResourceKind::Skill => "SKILL.md"@,
        ResourceKind::Fragment => "FRAGMENT.md"@,
        ResourceKind::Theme => "theme.toml"@,
    }
}

/// The position of a kind in composition order.
pub open spec fn kind_rank(k: ResourceKind) -> u32 {
    match k {
        ResourceKind::Extension => 0,
        ResourceKind::Skill => 1,
        ResourceKind::Fragment => 2,
        ResourceKind::Theme => 3,
    }
}

impl ResourceKind {
    /// The name of this kind.
    pub fn as_str(&self) -> (r: &'static str)
        ensures
            r@ == kind_label(*self),
    {
        match self {
            ResourceKind::Extension => "extension",
            ResourceKind::Skill => "skill",
            ResourceKind::Fragment => "fragment",
            ResourceKind::Theme => "theme",
        }
    }

    /// The package subdirectory holding resources of this kind.
    pub fn subdir(&self) -> (r: &'static str)
        ensures
            r@ == kind_subdir(*self),
    {
        match self {
            ResourceKind::Extension => "extensions",
            ResourceKind::Skill => "skills",
            ResourceKind::Fragment => "fragments",
            ResourceKind::Theme => "themes",
        }
    }

    /// The file that marks a resource directory of this kind.
    pub fn marker(&self) -> (r: &'static str)
        ensures
            r@ == kind_marker(*self),
    {
        match self {
            ResourceKind::Extension => "extension.toml",
            ResourceKind::Skill => "SKILL.md",
            ResourceKind::Fragment => "FRAGMENT.md",
            ResourceKind::Theme => "theme.toml",
        }
    }
}

/// The position of a kind in composition order: extensions, skills,
/// fragments, themes.
pub fn resource_kind_order(kind: ResourceKind) -> (r: u32)
    ensures
        r == kind_rank(kind),
{
    match kind {
        ResourceKind::Extension => 0,
        ResourceKind::Skill => 1,
        ResourceKind::Fragment => 2,
        ResourceKind::Theme => 3,
    }
}

// ---------------------------------------------------------------------------
// Composition
// ---------------------------------------------------------------------------

/// A resource found within a package.
#[derive(Debug)]
pub struct ComposedResource {
    pub kind: ResourceKind,
    /// The resource directory's name.
    pub name: String,
    /// The resource directory.
    pub path: String,
}

/// What the file system showed of one candidate resource directory.
#[derive(Debug)]
pub struct ResourceProbe {
    /// The directory's name; `None` when it is not valid UTF-8.
    pub name: Option<String>,
    /// The directory: the kind's subdirectory joined with the name.
    pub path: String,
    /// It is a directory.
    pub is_dir: bool,
    /// It holds the kind's marker file.
    pub has_marker: bool,
    /// Its canonical path, or the I/O error from resolving it.
    pub canonical: Result<String, String>,
}

/// What the file system showed of one kind's subdirectory of a package.
///
/// With an include list, `probes` holds one probe per listed name, in list
/// order; without one, one per directory entry, in the order they were
/// read, an `Err` standing for an entry that could not be read.
#[derive(Debug)]
pub struct KindListing {
    /// The kind's subdirectory exists.
    pub dir_exists: bool,
    /// The canonical package directory, or the I/O error from resolving it.
    pub canonical_package: Result<String, String>,
    pub probes: Vec<Result<ResourceProbe, String>>,
}

/// A resource as plain values: kind, name, path.
pub type ComposedView = (ResourceKind, Seq<char>, Seq<char>);

/// Why composition failed.
#[derive(Debug, Clone, Copy, PartialEq, Eq, Structural)]
pub enum ComposeIssue {
    /// A listed resource is missing (data: its name).
    Missing,
    /// The file system could not be read (data: the error).
    Unreadable,
    /// A resource resolves outside the package (data: its canonical path and
    /// its name).
    Escapes,
}

/// A composition failure as plain values.
pub type ComposeFailure = (ComposeIssue, Seq<char>, Seq<char>);

/// The plain values of a composed resource.
pub open spec fn composed_view(r: ComposedResource) -> ComposedView {
    (r.kind, r.name@, r.path@)
}

/// The plain values of composed resources.
pub open spec fn composed_views(rs: Seq<ComposedResource>) -> Seq<ComposedView> {
    rs.map_values(|r: ComposedResource| composed_view(r))
}

/// `canonical` lies within `package`, component by component.
pub open spec fn within(canonical: Seq<char>, package: Seq<char>) -> bool {
    components_start_with(components(canonical), components(package))
}

/// The outcome of one probe: `None` to skip it, `Some(Ok(v))` to take
/// resource `v`, `Some(Err(f))` to fail.
pub open spec fn probe_outcome(
    p: Result<ResourceProbe, String>,
    validated: bool,
    disabled: Seq<Seq<char>>,
    package: Seq<char>,
    kind: ResourceKind,
) -> Option<Result<ComposedView, ComposeFailure>> {
    match p {
        Err(e) => Some(Err((ComposeIssue::Unreadable, e@, Seq::empty()))),
        Ok(p) => {
            if validated {
                match p.name {
                    None => None,
                    Some(n) => if disabled.contains(n@) {
                        None
                    } else if !p.is_dir || !p.has_marker {
                        Some(Err((ComposeIssue::Missing, n@, Seq::empty())))
                    } else {
                        match p.canonical {
                            Err(e) => Some(Err((ComposeIssue::Unreadable, e@, Seq::empty()))),
                            Ok(c) => if within(c@, package) {
                                Some(Ok((kind, n@, p.path@)))
                            } else {
                                Some(Err((ComposeIssue::Escapes, c@, n@)))
                            },
                        }
                    },
                }
            } else if !p.is_dir || p.name is None || disabled.contains(p.name->0@)
                || !p.has_marker {
                None
            } else {
                match p.canonical {
                    Err(e) => Some(Err((ComposeIssue::Unreadable, e@, Seq::empty()))),
                    Ok(c) => if within(c@, package) {
                        Some(Ok((kind, p.name->0@, p.path@)))
                    } else {
                        Some(Err((ComposeIssue::Escapes, c@, p.name->0@)))
                    },
                }
            }
        },
    }
}

/// The resources composed from `probes`, in order, or the first failure.
pub open spec fn compose_probes(
    probes: Seq<Result<ResourceProbe, String>>,
    validated: bool,
    disabled: Seq<Seq<char>>,
    package: Seq<char>,
    kind: ResourceKind,
) -> Result<Seq<ComposedView>, ComposeFailure>
    decreases probes.len(),
{
    if probes.len() == 0 {
        Ok(Seq::empty())
    } else {
        let rest = compose_probes(probes.drop_first(), validated, disabled, package, kind);
        match probe_outcome(probes[0], validated, disabled, package, kind) {
            None => rest,
            Some(Err(f)) => Err(f),
            Some(Ok(v)) => match rest {
                Ok(vs) => Ok(seq![v] + vs),
                Err(f) => Err(f),
            },
        }
    }
}

/// The first probe of a missing subdirectory's include list that is not
/// disabled: its name is reported missing.
pub open spec fn first_enabled(
    probes: Seq<Result<ResourceProbe, String>>,
    disabled: Seq<Seq<char>>,
) -> Option<Seq<char>>
    decreases probes.len(),
{
    if probes.len() == 0 {
        None
    } else {
        match probes[0] {
            Ok(p) => match p.name {
                Some(n) => if disabled.contains(n@) {
                    first_enabled(probes.drop_first(), disabled)
                } else {
                    Some(n@)
                },
                None => first_enabled(probes.drop_first(), disabled),
            },
            Err(_) => first_enabled(probes.drop_first(), disabled),
        }
    }
}

/// The resources of one kind composed from its listing.
pub open spec fn compose_kind_spec(
    listing: KindListing,
    validated: bool,
    disabled: Seq<Seq<char>>,
    kind: ResourceKind,
) -> Result<Seq<ComposedView>, ComposeFailure> {
    if !listing.dir_exists {
        if validated {
            match first_enabled(listing.probes@, disabled) {
                Some(n) => Err((ComposeIssue::Missing, n, Seq::empty())),
                None => Ok(Seq::empty()),
            }
        } else {
            Ok(Seq::empty())
        }
    } else {
        match listing.canonical_package {
            Err(e) => Err((ComposeIssue::Unreadable, e@, Seq::empty())),
            Ok(pkg) => compose_probes(listing.probes@, validated, disabled, pkg@, kind),
        }
    }
}

/// `e` is the error for composition failure `f` of a resource of `kind` in
/// package `package_name`.
pub open spec fn compose_error_is(
    f: ComposeFailure,
    package_name: Seq<char>,
    kind: ResourceKind,
    e: PackageDiscoveryError,
) -> bool {
    match f.0 {
        ComposeIssue::Missing => e matches PackageDiscoveryError::MissingAsset {
            package_name: p,
            kind: k,
            name,
        } && p@ == package_name && k@ == kind_label(kind) && name@ == f.1,
        ComposeIssue::Unreadable => e matches PackageDiscoveryError::Io(m) && m@ == f.1,
        ComposeIssue::Escapes => e matches PackageDiscoveryError::SecurityDiagnostic {
            package_name: p,
            path,
            reason,
        } && p@ == package_name && path@ == f.1 && reason@
            == "resource path escapes package directory for "@ + kind_label(kind) + " '"@ + f.2
            + "'"@,
    }
}

/// `name` is among the disabled names.
fn is_disabled(disabled: &Vec<String>, name: &str) -> (r: bool)
    ensures
        r == disabled@.map_values(|d: String| d@).contains(name@),
{
    let ghost dv = disabled@.map_values(|d: String| d@);
    let mut i: usize = 0;
    while i < disabled.len()
        invariant
            i <= disabled@.len(),
            dv == disabled@.map_values(|d: String| d@),
            forall|j: int| 0 <= j < i ==> dv[j] != name@,
        decreases disabled.len() - i,
    {
        if str_eq(disabled[i].as_str(), name) {
            assert(dv[i as int] == name@);
            return true;
        }
        i += 1;
    }
    proof {
        if dv.contains(name@) {
            let j = choose|j: int| 0 <= j < dv.len() && dv[j] == name@;
            assert(dv[j] != name@);
        }
    }
    false
}

/// The error for a composition failure.
fn compose_error(issue: ComposeIssue, a: String, b: &str, package_name: &str, kind: ResourceKind) -> (e:
    PackageDiscoveryError)
    ensures
        compose_error_is((issue, a@, b@), package_name@, kind, e),
{
    match issue {
        ComposeIssue::Missing => PackageDiscoveryError::MissingAsset {
            package_name: string_of(&chars_of(package_name)),
            kind: string_of(&chars_of(kind.as_str())),
            name: a,
        },
        ComposeIssue::Unreadable => PackageDiscoveryError::Io(a),
        ComposeIssue::Escapes => {
            let mut reason = chars_of("resource path escapes package directory for ");
            extend_str(&mut reason, kind.as_str());
            extend_str(&mut reason, " '");
            extend_str(&mut reason, b);
            extend_str(&mut reason, "'");
            PackageDiscoveryError::SecurityDiagnostic {
                package_name: string_of(&chars_of(package_name)),
                path: a,
                reason: string_of(&reason),
            }
        },
    }
}

/// The disabled names as plain values.
pub open spec fn disabled_views(disabled: Seq<String>) -> Seq<Seq<char>> {
    disabled.map_values(|d: String| d@)
}

/// The outcome of one probe.
fn probe_step(
    probe: &Result<ResourceProbe, String>,
    validated: bool,
    disabled: &Vec<String>,
    package_components: &Vec<Vec<char>>,
    package: Ghost<Seq<char>>,
    kind: ResourceKind,
    package_name: &str,
) -> (r: Result<Option<ComposedResource>, PackageDiscoveryError>)
    requires
        views(package_components@) == components(package@),
    ensures
        match probe_outcome(*probe, validated, disabled_views(disabled@), package@, kind) {
            None => r matches Ok(None),
            Some(Ok(v)) => r matches Ok(Some(c)) && composed_view(c) == v,
            Some(Err(f)) => r matches Err(e) && compose_error_is(f, package_name@, kind, e),
        },
{
    let p = match probe {
        Err(e) => return Err(compose_error(ComposeIssue::Unreadable, e.clone(), "", package_name, kind)),
        Ok(p) => p,
    };
    let name = match &p.name {
        None => return Ok(None),
        Some(n) => n,
    };
    if validated {
        if is_disabled(disabled, name.as_str()) {
            return Ok(None);
        }
        if !p.is_dir || !p.has_marker {
            return Err(compose_error(ComposeIssue::Missing, name.clone(), "", package_name, kind));
        }
    } else if !p.is_dir || is_disabled(disabled, name.as_str()) || !p.has_marker {
        return Ok(None);
    }
    let canonical = match &p.canonical {
        Err(e) => return Err(compose_error(ComposeIssue::Unreadable, e.clone(), "", package_name, kind)),
        Ok(c) => c,
    };
    let cs = components_of(&chars_of(canonical.as_str()));
    if !starts_with_components(&cs, package_components) {
        return Err(
            compose_error(ComposeIssue::Escapes, canonical.clone(), name.as_str(), package_name, kind),
        );
    }
    Ok(Some(ComposedResource { kind, name: name.clone(), path: p.path.clone() }))
}

/// Prepend resources to a composition outcome.
pub open spec fn after(prefix: Seq<ComposedView>, r: Result<Seq<ComposedView>, ComposeFailure>) -> Result<
    Seq<ComposedView>,
    ComposeFailure,
> {
    match r {
        Ok(vs) => Ok(prefix + vs),
        Err(f) => Err(f),
    }
}

/// Compose the resources of one kind of package `package_name` from what
/// the file system showed. `validated` tells whether the manifest lists
/// resources of this kind.
pub fn compose_kind(
    package_name: &str,
    kind: ResourceKind,
    validated: bool,
    disabled: &Vec<String>,
    listing: &KindListing,
) -> (r: Result<Vec<ComposedResource>, PackageDiscoveryError>)
    ensures
        match compose_kind_spec(*listing, validated, disabled_views(disabled@), kind) {
            Ok(vs) => r matches Ok(rs) && composed_views(rs@) == vs,
            Err(f) => r matches Err(e) && compose_error_is(f, package_name@, kind, e),
        },
{
    let ghost dv = disabled_views(disabled@);
    let ghost ps = listing.probes@;
    if !listing.dir_exists {
        if validated {
            let mut i: usize = 0;
            assert(ps.skip(0) =~= ps);
            while i < listing.probes.len()
                invariant
                    i <= ps.len(),
                    ps == listing.probes@,
                    dv == disabled_views(disabled@),
                    first_enabled(ps, dv) == first_enabled(ps.skip(i as int), dv),
                    !listing.dir_exists,
                    validated,
                decreases ps.len() - i,
            {
                assert(ps.skip(i as int).drop_first() =~= ps.skip(i + 1));
                assert(ps.skip(i as int)[0] == ps[i as int]);
                match &listing.probes[i] {
                    Ok(p) => match &p.name {
                        Some(n) => {
                            if !is_disabled(disabled, n.as_str()) {
                                return Err(
                                    compose_error(ComposeIssue::Missing, n.clone(), "", package_name, kind),
                                );
                            }
                        },
                        None => {},
                    },
                    Err(_) => {},
                }
                i += 1;
            }
        }
        let empty: Vec<ComposedResource> = Vec::new();
        assert(composed_views(empty@) =~= Seq::<ComposedView>::empty());
        return Ok(empty);
    }
    let pkg = match &listing.canonical_package {
        Err(e) => return Err(compose_error(ComposeIssue::Unreadable, e.clone(), "", package_name, kind)),
        Ok(c) => c,
    };
    let pkg_cs = components_of(&chars_of(pkg.as_str()));
    let mut out: Vec<ComposedResource> = Vec::new();
    let mut i: usize = 0;
    assert(ps.skip(0) =~= ps);
    assert(composed_views(out@) =~= Seq::<ComposedView>::empty());
    assert(after(Seq::empty(), compose_probes(ps, validated, dv, pkg@, kind)) =~= compose_probes(
        ps,
        validated,
        dv,
        pkg@,
        kind,
    )) by {
        match compose_probes(ps, validated, dv, pkg@, kind) {
            Ok(vs) => assert(Seq::<ComposedView>::empty() + vs =~= vs),
            Err(_) => {},
        }
    }
    while i < listing.probes.len()
        invariant
            i <= ps.len(),
            ps == listing.probes@,
            dv == disabled_views(disabled@),
            views(pkg_cs@) == components(pkg@),
            listing.dir_exists,
            listing.canonical_package == Ok::<String, String>(*pkg),
            compose_probes(ps, validated, dv, pkg@, kind) == after(
                composed_views(out@),
                compose_probes(ps.skip(i as int), validated, dv, pkg@, kind),
            ),
        decreases ps.len() - i,
    {
        assert(ps.skip(i as int).drop_first() =~= ps.skip(i + 1));
        assert(ps.skip(i as int)[0] == ps[i as int]);
        let ghost prev = out@;
        match probe_step(&listing.probes[i], validated, disabled, &pkg_cs, Ghost(pkg@), kind, package_name) {
            Err(e) => return Err(e),
            Ok(None) => {},
            Ok(Some(c)) => {
                out.push(c);
                assert(composed_views(out@) =~= composed_views(prev).push(composed_view(c)));
                proof {
                    match compose_probes(ps.skip(i + 1), validated, dv, pkg@, kind) {
                        Ok(vs) => {
                            assert(composed_views(prev) + (seq![composed_view(c)] + vs)
                                =~= composed_views(out@) + vs);
                        },
                        Err(_) => {},
                    }
                }
            },
        }
        i += 1;
    }
    proof {
        assert(ps.skip(i as int) =~= Seq::<Result<ResourceProbe, String>>::empty());
        assert(composed_views(out@) + Seq::<ComposedView>::empty() =~= composed_views(out@));
    }
    Ok(out)
}

// ---------------------------------------------------------------------------
// Error messages
// ---------------------------------------------------------------------------

/// The message of an error, as it is displayed.
pub open spec fn discovery_error_message(e: PackageDiscoveryError) -> Seq<char> {
    match e {
        PackageDiscoveryError::InvalidManifest { path, reason } => "invalid package manifest at "@
            + path@ + ": "@ + reason@,
        PackageDiscoveryError::MissingField { field, path } => "missing required field '"@
            + field@ + "' in package at "@ + path@,
        PackageDiscoveryError::DuplicateName { name, path } => "duplicate package name '"@ + name@
            + "' in discovery layer at "@ + path@,
        PackageDiscoveryError::InvalidName { path, reason } => "invalid package name in "@ + path@
            + ": "@ + reason@,
        PackageDiscoveryError::InvalidDescription { path, reason } =>
            "invalid description in package at "@ + path@ + ": "@ + reason@,
        PackageDiscoveryError::MissingAsset { package_name, kind, name } => "missing "@ + kind@
            + " '"@ + name@ + "' in package '"@ + package_name@ + "'"@,
        PackageDiscoveryError::SecurityDiagnostic { package_name, path, reason } =>
            "security: resource path escapes package directory for "@ + package_name@ + ": "@
                + path@ + " ("@ + reason@ + ")"@,
        PackageDiscoveryError::Io(m) => "I/O error discovering packages: "@ + m@,
    }
}

impl PackageDiscoveryError {
    /// The message of this error.
    pub fn message(&self) -> (r: String)
        ensures
            r@ == discovery_error_message(*self),
    {
        let mut v: Vec<char> = Vec::new();
        match self {
            PackageDiscoveryError::InvalidManifest { path, reason } => {
                extend_str(&mut v, "invalid package manifest at ");
                extend_str(&mut v, path.as_str());
                extend_str(&mut v, ": ");
                extend_str(&mut v, reason.as_str());
            },
            PackageDiscoveryError::MissingField { field, path } => {
                extend_str(&mut v, "missing required field '");
                extend_str(&mut v, field.as_str());
                extend_str(&mut v, "' in package at ");
                extend_str(&mut v, path.as_str());
            },
            PackageDiscoveryError::DuplicateName { name, path } => {
                extend_str(&mut v, "duplicate package name '");
                extend_str(&mut v, name.as_str());
                extend_str(&mut v, "' in discovery layer at ");
                extend_str(&mut v, path.as_str());
            },
            PackageDiscoveryError::InvalidName { path, reason } => {
                extend_str(&mut v, "invalid package name in ");
                extend_str(&mut v, path.as_str());
                extend_str(&mut v, ": ");
                extend_str(&mut v, reason.as_str());
            },
            PackageDiscoveryError::InvalidDescription { path, reason } => {
                extend_str(&mut v, "invalid description in package at ");
                extend_str(&mut v, path.as_str());
                extend_str(&mut v, ": ");
                extend_str(&mut v, reason.as_str());
            },
            PackageDiscoveryError::MissingAsset { package_name, kind, name } => {
                extend_str(&mut v, "missing ");
                extend_str(&mut v, kind.as_str());
                extend_str(&mut v, " '");
                extend_str(&mut v, name.as_str());
                extend_str(&mut v, "' in package '");
                extend_str(&mut v, package_name.as_str());
                extend_str(&mut v, "'");
            },
            PackageDiscoveryError::SecurityDiagnostic { package_name, path, reason } => {
                extend_str(&mut v, "security: resource path escapes package directory for ");
                extend_str(&mut v, package_name.as_str());
                extend_str(&mut v, ": ");
                extend_str(&mut v, path.as_str());
                extend_str(&mut v, " (");
                extend_str(&mut v, reason.as_str());
                extend_str(&mut v, ")");
            },
            PackageDiscoveryError::Io(m) => {
                extend_str(&mut v, "I/O error discovering packages: ");
                extend_str(&mut v, m.as_str());
            },
        }
        string_of(&v)
    }
}

// ---------------------------------------------------------------------------
// Package resources
// ---------------------------------------------------------------------------

/// A discovered package.
#[derive(Debug)]
pub struct PackageResource {
    /// The manifest (metadata only).
    pub manifest: PackageManifest,
    /// The canonical package directory.
    pub path: String,
    /// Its `package.toml`.
    pub package_toml_path: String,
    /// Precedence of the layer that produced it.
    pub layer_precedence: u32,
}

impl Discovered for PackageResource {
    open spec fn key(&self) -> Seq<char> {
        self.manifest.name@
    }

    open spec fn rank(&self) -> u32 {
        self.layer_precedence
    }

    fn name_chars(&self) -> (r: Vec<char>) {
        chars_of(self.manifest.name.as_str())
    }

    fn precedence(&self) -> (p: u32) {
        self.layer_precedence
    }
}

/// What the file system showed of a package's four resource subdirectories.
#[derive(Debug)]
pub struct PackageListing {
    pub extensions: KindListing,
    pub skills: KindListing,
    pub fragments: KindListing,
    pub themes: KindListing,
}

/// A composition failure of a kind.
pub type KindFailure = (ComposeFailure, ResourceKind);

/// The resources composed from a package: extensions, skills, fragments,
/// themes, each kind in listing order; or the first failure.
pub open spec fn compose_spec(m: PackageManifest, l: PackageListing) -> Result<
    Seq<ComposedView>,
    KindFailure,
> {
    let dv = disabled_views(m.disabled@);
    match compose_kind_spec(l.extensions, m.extensions is Some, dv, ResourceKind::Extension) {
        Err(f) => Err((f, ResourceKind::Extension)),
        Ok(a) => match compose_kind_spec(l.skills, m.skills is Some, dv, ResourceKind::Skill) {
            Err(f) => Err((f, ResourceKind::Skill)),
            Ok(b) => match compose_kind_spec(
                l.fragments,
                m.fragments is Some,
                dv,
                ResourceKind::Fragment,
            ) {
                Err(f) => Err((f, ResourceKind::Fragment)),
                Ok(c) => match compose_kind_spec(l.themes, m.themes is Some, dv, ResourceKind::Theme) {
                    Err(f) => Err((f, ResourceKind::Theme)),
                    Ok(d) => Ok(a + b + c + d),
                },
            },
        },
    }
}

/// The position of a kind in composition order.
pub open spec fn kind_order(k: ResourceKind) -> int {
    match k {
        ResourceKind::Extension => 0,
        ResourceKind::Skill => 1,
        ResourceKind::Fragment => 2,
        ResourceKind::Theme => 3,
    }
}

/// Each resource composed from probes is of the probes' kind, and none is
/// disabled.
proof fn lemma_probes_enabled(
    probes: Seq<Result<ResourceProbe, String>>,
    validated: bool,
    disabled: Seq<Seq<char>>,
    package: Seq<char>,
    kind: ResourceKind,
)
    ensures
        compose_probes(probes, validated, disabled, package, kind) matches Ok(vs) ==> forall|i: int|
            0 <= i < vs.len() ==> (#[trigger] vs[i]).0 == kind && !disabled.contains(vs[i].1),
    decreases probes.len(),
{
    if probes.len() > 0 {
        lemma_probes_enabled(probes.drop_first(), validated, disabled, package, kind);
        let rest = compose_probes(probes.drop_first(), validated, disabled, package, kind);
        match probe_outcome(probes[0], validated, disabled, package, kind) {
            Some(Ok(v)) => {
                if let Ok(vs) = rest {
                    let all = seq![v] + vs;
                    assert forall|i: int| 0 <= i < all.len() implies (#[trigger] all[i]).0 == kind
                        && !disabled.contains(all[i].1) by {
                        if i > 0 {
                            assert(all[i] == vs[i - 1]);
                        }
                    }
                }
            },
            _ => {},
        }
    }
}

/// Each resource composed for a kind is of that kind, and none is disabled.
proof fn lemma_kind_enabled(
    listing: KindListing,
    validated: bool,
    disabled: Seq<Seq<char>>,
    kind: ResourceKind,
)
    ensures
        compose_kind_spec(listing, validated, disabled, kind) matches Ok(vs) ==> forall|i: int|
            0 <= i < vs.len() ==> (#[trigger] vs[i]).0 == kind && !disabled.contains(vs[i].1),
{
    if listing.dir_exists {
        if let Ok(pkg) = listing.canonical_package {
            lemma_probes_enabled(listing.probes@, validated, disabled, pkg@, kind);
        }
    }
}

/// The names of an include list's probes that are not disabled, in list
/// order.
pub open spec fn enabled_names(
    probes: Seq<Result<ResourceProbe, String>>,
    disabled: Seq<Seq<char>>,
) -> Seq<Seq<char>>
    decreases probes.len(),
{
    if probes.len() == 0 {
        Seq::empty()
    } else {
        let rest = enabled_names(probes.drop_first(), disabled);
        match probes[0] {
            Ok(p) => match p.name {
                Some(n) => if disabled.contains(n@) {
                    rest
                } else {
                    seq![n@] + rest
                },
                None => rest,
            },
            Err(_) => rest,
        }
    }
}

/// The names of composed resources, in order.
pub open spec fn composed_names(vs: Seq<ComposedView>) -> Seq<Seq<char>> {
    vs.map_values(|v: ComposedView| v.1)
}

/// Probes of an include list: each was examined and carries its name.
pub open spec fn named_probes(probes: Seq<Result<ResourceProbe, String>>) -> bool {
    forall|i: int| 0 <= i < probes.len() ==> ((#[trigger] probes[i]) matches Ok(p) && p.name is Some)
}

proof fn lemma_validated_probe_names(
    probes: Seq<Result<ResourceProbe, String>>,
    disabled: Seq<Seq<char>>,
    package: Seq<char>,
    kind: ResourceKind,
)
    requires
        named_probes(probes),
    ensures
        compose_probes(probes, true, disabled, package, kind) matches Ok(vs) ==> composed_names(vs)
            == enabled_names(probes, disabled),
    decreases probes.len(),
{
    if probes.len() > 0 {
        let t = probes.drop_first();
        assert forall|i: int| 0 <= i < t.len() implies ((#[trigger] t[i]) matches Ok(p) && p.name is Some) by {
            assert(t[i] == probes[i + 1]);
        }
        lemma_validated_probe_names(t, disabled, package, kind);
        assert(probes[0] matches Ok(p) && p.name is Some);
        if let Ok(vs) = compose_probes(probes, true, disabled, package, kind) {
            match probe_outcome(probes[0], true, disabled, package, kind) {
                Some(Ok(v)) => {
                    let ws = compose_probes(t, true, disabled, package, kind)->Ok_0;
                    assert(vs == seq![v] + ws);
                    assert(composed_names(vs) =~= seq![v.1] + composed_names(ws));
                },
                _ => {},
            }
        }
    }
}

/// With no disabled name, a missing subdirectory's include list is empty
/// of enabled names.
proof fn lemma_first_enabled_none(probes: Seq<Result<ResourceProbe, String>>, disabled: Seq<Seq<char>>)
    ensures
        first_enabled(probes, disabled) is None ==> enabled_names(probes, disabled) == Seq::<Seq<char>>::empty(),
    decreases probes.len(),
{
    if probes.len() > 0 {
        lemma_first_enabled_none(probes.drop_first(), disabled);
    }
}

/// A kind listed in the manifest composes exactly the listed resources
/// that are not disabled, in the order of the list.
pub proof fn lemma_listed_kind_follows_list(
    listing: KindListing,
    disabled: Seq<Seq<char>>,
    kind: ResourceKind,
)
    requires
        named_probes(listing.probes@),
    ensures
        compose_kind_spec(listing, true, disabled, kind) matches Ok(vs) ==> composed_names(vs)
            == enabled_names(listing.probes@, disabled),
{
    if listing.dir_exists {
        if let Ok(pkg) = listing.canonical_package {
            lemma_validated_probe_names(listing.probes@, disabled, pkg@, kind);
        }
    } else {
        lemma_first_enabled_none(listing.probes@, disabled);
        assert(composed_names(Seq::<ComposedView>::empty()) =~= Seq::<Seq<char>>::empty());
    }
}

/// Probe `p` shows a directory at `path` whose canonical form lies within
/// the canonical package directory `package`.
pub open spec fn probe_within(p: Result<ResourceProbe, String>, path: Seq<char>, package: Seq<char>) -> bool {
    match p {
        Ok(q) => q.path@ == path && match q.canonical {
            Ok(c) => within(c@, package),
            Err(_) => false,
        },
        Err(_) => false,
    }
}

/// Some probe of `probes` shows `path` within `package`.
pub open spec fn shown_within(
    probes: Seq<Result<ResourceProbe, String>>,
    path: Seq<char>,
    package: Seq<char>,
) -> bool {
    exists|j: int| 0 <= j < probes.len() && #[trigger] probe_within(probes[j], path, package)
}

/// Each of `vs` has a probe of `probes` that shows its path within
/// `package`.
pub open spec fn all_within(
    vs: Seq<ComposedView>,
    probes: Seq<Result<ResourceProbe, String>>,
    package: Seq<char>,
) -> bool {
    forall|i: int| 0 <= i < vs.len() ==> #[trigger] shown_within(probes, vs[i].2, package)
}

proof fn lemma_probes_within(
    probes: Seq<Result<ResourceProbe, String>>,
    validated: bool,
    disabled: Seq<Seq<char>>,
    package: Seq<char>,
    kind: ResourceKind,
)
    ensures
        compose_probes(probes, validated, disabled, package, kind) matches Ok(vs) ==> all_within(
            vs,
            probes,
            package,
        ),
    decreases probes.len(),
{
    if probes.len() > 0 {
        let t = probes.drop_first();
        lemma_probes_within(t, validated, disabled, package, kind);
        let rest = compose_probes(t, validated, disabled, package, kind);
        if let Ok(ws) = rest {
            assert forall|i: int| 0 <= i < ws.len() implies #[trigger] shown_within(probes, ws[i].2, package) by {
                assert(shown_within(t, ws[i].2, package));
                let j = choose|j: int| 0 <= j < t.len() && #[trigger] probe_within(t[j], ws[i].2, package);
                assert(t[j] == probes[j + 1]);
                assert(probe_within(probes[j + 1], ws[i].2, package));
            }
            match probe_outcome(probes[0], validated, disabled, package, kind) {
                Some(Ok(v)) => {
                    let vs = seq![v] + ws;
                    assert(probe_within(probes[0], v.2, package));
                    assert forall|i: int| 0 <= i < vs.len() implies #[trigger] shown_within(probes, vs[i].2, package) by {
                        if i == 0 {
                            assert(vs[0] == v);
                            assert(probe_within(probes[0], vs[i].2, package));
                        } else {
                            assert(vs[i] == ws[i - 1]);
                            assert(shown_within(probes, ws[i - 1].2, package));
                        }
                    }
                },
                _ => {},
            }
        }
    }
}

/// Every resource composed for a kind is a directory the file system showed
/// at its path, whose canonical form lies within the canonical package
/// directory: a resource that escapes the package is never composed.
pub proof fn lemma_composed_within_package(
    listing: KindListing,
    validated: bool,
    disabled: Seq<Seq<char>>,
    kind: ResourceKind,
)
    ensures
        compose_kind_spec(listing, validated, disabled, kind) matches Ok(vs) ==> all_within(
            vs,
            listing.probes@,
            listing.canonical_package->Ok_0@,
        ),
{
    if listing.dir_exists {
        if let Ok(pkg) = listing.canonical_package {
            lemma_probes_within(listing.probes@, validated, disabled, pkg@, kind);
        }
    } else {
        if let Ok(vs) = compose_kind_spec(listing, validated, disabled, kind) {
            assert(vs.len() == 0);
        }
    }
}

/// A composed package lists its extensions, then its skills, fragments and
/// themes, and no resource the manifest disables.
pub proof fn lemma_compose_order_and_disabled(m: PackageManifest, l: PackageListing)
    ensures
        compose_spec(m, l) matches Ok(rs) ==> {
            &&& forall|i: int, j: int|
                0 <= i < j < rs.len() ==> kind_order((#[trigger] rs[i]).0) <= kind_order(
                    (#[trigger] rs[j]).0,
                )
            &&& forall|i: int|
                0 <= i < rs.len() ==> !disabled_views(m.disabled@).contains((#[trigger] rs[i]).1)
        },
{
    let dv = disabled_views(m.disabled@);
    lemma_kind_enabled(l.extensions, m.extensions is Some, dv, ResourceKind::Extension);
    lemma_kind_enabled(l.skills, m.skills is Some, dv, ResourceKind::Skill);
    lemma_kind_enabled(l.fragments, m.fragments is Some, dv, ResourceKind::Fragment);
    lemma_kind_enabled(l.themes, m.themes is Some, dv, ResourceKind::Theme);
    if let Ok(rs) = compose_spec(m, l) {
        let a = compose_kind_spec(l.extensions, m.extensions is Some, dv, ResourceKind::Extension)->Ok_0;
        let b = compose_kind_spec(l.skills, m.skills is Some, dv, ResourceKind::Skill)->Ok_0;
        let c = compose_kind_spec(l.fragments, m.fragments is Some, dv, ResourceKind::Fragment)->Ok_0;
        let d = compose_kind_spec(l.themes, m.themes is Some, dv, ResourceKind::Theme)->Ok_0;
        assert(rs == a + b + c + d);
        assert forall|i: int| 0 <= i < rs.len() implies (#[trigger] rs[i]).0 == (if i < a.len() {
            ResourceKind::Extension
        } else if i < a.len() + b.len() {
            ResourceKind::Skill
        } else if i < a.len() + b.len() + c.len() {
            ResourceKind::Fragment
        } else {
            ResourceKind::Theme
        }) && !dv.contains(rs[i].1) by {
            if i < a.len() {
                assert(rs[i] == a[i]);
            } else if i < a.len() + b.len() {
                assert(rs[i] == b[i - a.len()]);
            } else if i < a.len() + b.len() + c.len() {
                assert(rs[i] == c[i - a.len() - b.len()]);
            } else {
                assert(rs[i] == d[i - a.len() - b.len() - c.len()]);
            }
        }
    }
}

/// The directory of resource `name` of kind `k` in the package at
/// `package`: the package path joined with the kind's subdirectory and the
/// name.
pub open spec fn resource_path(package: Seq<char>, k: ResourceKind, name: Seq<char>) -> Seq<char> {
    path_join(path_join(package, kind_subdir(k)), name)
}

/// Probe `p` is of the resource named `expected` (any name when `None`) at
/// its directory in the package at `package`.
pub open spec fn probe_fits(
    p: Result<ResourceProbe, String>,
    expected: Option<Seq<char>>,
    package: Seq<char>,
    k: ResourceKind,
) -> bool {
    match p {
        Ok(q) => match q.name {
            Some(n) => q.path@ == resource_path(package, k, n@) && match expected {
                Some(e) => n@ == e,
                None => true,
            },
            None => expected is None,
        },
        Err(_) => expected is None,
    }
}

/// The listing of a kind was made for the manifest's include list: one
/// probe per listed name, in list order (whether or not the directory
/// exists); without a list, the probes of the directory's entries. Each
/// named probe is at its resource directory.
pub open spec fn kind_listing_fits(
    l: KindListing,
    listed: Option<Vec<String>>,
    package: Seq<char>,
    k: ResourceKind,
) -> bool {
    match listed {
        Some(names) => l.probes@.len() == names@.len() && forall|i: int|
            0 <= i < names@.len() ==> probe_fits(#[trigger] l.probes@[i], Some(names@[i]@), package, k),
        None => forall|i: int| 0 <= i < l.probes@.len() ==> probe_fits(#[trigger] l.probes@[i], None, package, k),
    }
}

/// The listing of a package was made for its manifest and path.
pub open spec fn listing_fits(m: PackageManifest, package: Seq<char>, l: PackageListing) -> bool {
    &&& kind_listing_fits(l.extensions, m.extensions, package, ResourceKind::Extension)
    &&& kind_listing_fits(l.skills, m.skills, package, ResourceKind::Skill)
    &&& kind_listing_fits(l.fragments, m.fragments, package, ResourceKind::Fragment)
    &&& kind_listing_fits(l.themes, m.themes, package, ResourceKind::Theme)
}

/// The names of an include list that are not disabled, in list order.
pub open spec fn enabled_list(names: Seq<Seq<char>>, disabled: Seq<Seq<char>>) -> Seq<Seq<char>>
    decreases names.len(),
{
    if names.len() == 0 {
        Seq::empty()
    } else {
        let rest = enabled_list(names.drop_first(), disabled);
        if disabled.contains(names[0]) {
            rest
        } else {
            seq![names[0]] + rest
        }
    }
}

/// The include list of a kind as plain values.
pub open spec fn listed_views(listed: Option<Vec<String>>) -> Option<Seq<Seq<char>>> {
    match listed {
        Some(names) => Some(names@.map_values(|n: String| n@)),
        None => None,
    }
}

/// The include list of kind `k` in a manifest.
pub open spec fn manifest_list(m: PackageManifest, k: ResourceKind) -> Option<Vec<String>> {
    match k {
        ResourceKind::Extension => m.extensions,
        ResourceKind::Skill => m.skills,
        ResourceKind::Fragment => m.fragments,
        ResourceKind::Theme => m.themes,
    }
}

/// The composed resources of kind `k`, in order.
pub open spec fn of_kind(vs: Seq<ComposedView>, k: ResourceKind) -> Seq<ComposedView>
    decreases vs.len(),
{
    if vs.len() == 0 {
        Seq::empty()
    } else if vs[0].0 == k {
        seq![vs[0]] + of_kind(vs.drop_first(), k)
    } else {
        of_kind(vs.drop_first(), k)
    }
}

proof fn lemma_of_kind_add(a: Seq<ComposedView>, b: Seq<ComposedView>, k: ResourceKind)
    ensures
        of_kind(a + b, k) == of_kind(a, k) + of_kind(b, k),
    decreases a.len(),
{
    if a.len() == 0 {
        assert(a + b =~= b);
        assert(of_kind(a, k) + of_kind(b, k) =~= of_kind(b, k));
    } else {
        assert((a + b).drop_first() =~= a.drop_first() + b);
        lemma_of_kind_add(a.drop_first(), b, k);
        if a[0].0 == k {
            assert(seq![a[0]] + (of_kind(a.drop_first(), k) + of_kind(b, k)) =~= (seq![a[0]]
                + of_kind(a.drop_first(), k)) + of_kind(b, k));
        }
    }
}

/// Resources all of kind `k` are their own part of kind `k`; resources all
/// of another kind have none.
proof fn lemma_of_kind_uniform(vs: Seq<ComposedView>, j: ResourceKind, k: ResourceKind)
    requires
        forall|i: int| 0 <= i < vs.len() ==> (#[trigger] vs[i]).0 == j,
    ensures
        of_kind(vs, k) == (if j == k {
            vs
        } else {
            Seq::empty()
        }),
    decreases vs.len(),
{
    if vs.len() > 0 {
        let t = vs.drop_first();
        assert forall|i: int| 0 <= i < t.len() implies (#[trigger] t[i]).0 == j by {
            assert(t[i] == vs[i + 1]);
        }
        lemma_of_kind_uniform(t, j, k);
        if j == k {
            assert(seq![vs[0]] + t =~= vs);
        }
    }
}

/// A named probe lies at its resource directory.
pub open spec fn probe_at_its_path(p: Result<ResourceProbe, String>, package: Seq<char>, k: ResourceKind) -> bool {
    match p {
        Ok(q) => match q.name {
            Some(n) => q.path@ == resource_path(package, k, n@),
            None => true,
        },
        Err(_) => true,
    }
}

/// Probes that fit an include list give its enabled names.
proof fn lemma_fitting_probes_names(
    probes: Seq<Result<ResourceProbe, String>>,
    names: Seq<Seq<char>>,
    disabled: Seq<Seq<char>>,
    package: Seq<char>,
    k: ResourceKind,
)
    requires
        probes.len() == names.len(),
        forall|i: int| 0 <= i < names.len() ==> probe_fits(#[trigger] probes[i], Some(names[i]), package, k),
    ensures
        named_probes(probes),
        enabled_names(probes, disabled) == enabled_list(names, disabled),
        first_enabled(probes, disabled) is None <==> enabled_list(names, disabled).len() == 0,
    decreases names.len(),
{
    if names.len() > 0 {
        let t = probes.drop_first();
        let u = names.drop_first();
        assert forall|i: int| 0 <= i < u.len() implies probe_fits(#[trigger] t[i], Some(u[i]), package, k) by {
            assert(t[i] == probes[i + 1] && u[i] == names[i + 1]);
        }
        lemma_fitting_probes_names(t, u, disabled, package, k);
        assert(probe_fits(probes[0], Some(names[0]), package, k));
        assert forall|i: int| 0 <= i < probes.len() implies ((#[trigger] probes[i]) matches Ok(p)
            && p.name is Some) by {
            assert(probe_fits(probes[i], Some(names[i]), package, k));
        }
    }
}

/// Each resource composed from fitting probes lies at its resource
/// directory.
proof fn lemma_fitting_probes_paths(
    probes: Seq<Result<ResourceProbe, String>>,
    validated: bool,
    disabled: Seq<Seq<char>>,
    canonical: Seq<char>,
    package: Seq<char>,
    k: ResourceKind,
)
    requires
        forall|i: int| 0 <= i < probes.len() ==> probe_at_its_path(#[trigger] probes[i], package, k),
    ensures
        compose_probes(probes, validated, disabled, canonical, k) matches Ok(vs) ==> forall|i: int|
            0 <= i < vs.len() ==> (#[trigger] vs[i]).2 == resource_path(package, vs[i].0, vs[i].1),
    decreases probes.len(),
{
    if probes.len() > 0 {
        let t = probes.drop_first();
        assert forall|i: int| 0 <= i < t.len() implies probe_at_its_path(#[trigger] t[i], package, k) by {
            assert(t[i] == probes[i + 1]);
        }
        lemma_fitting_probes_paths(t, validated, disabled, canonical, package, k);
        assert(probe_at_its_path(probes[0], package, k));
        if let Ok(vs) = compose_probes(probes, validated, disabled, canonical, k) {
            match probe_outcome(probes[0], validated, disabled, canonical, k) {
                Some(Ok(v)) => {
                    let ws = compose_probes(t, validated, disabled, canonical, k)->Ok_0;
                    assert(vs == seq![v] + ws);
                    assert forall|i: int| 0 <= i < vs.len() implies (#[trigger] vs[i]).2 == resource_path(
                        package,
                        vs[i].0,
                        vs[i].1,
                    ) by {
                        if i > 0 {
                            assert(vs[i] == ws[i - 1]);
                        }
                    }
                },
                _ => {},
            }
        }
    }
}

/// The resources of a kind composed from a fitting listing lie at their
/// resource directories; when the kind is listed, they are the enabled
/// listed names, in list order.
proof fn lemma_fitting_kind(
    l: KindListing,
    listed: Option<Vec<String>>,
    disabled: Seq<Seq<char>>,
    package: Seq<char>,
    k: ResourceKind,
)
    requires
        kind_listing_fits(l, listed, package, k),
    ensures
        compose_kind_spec(l, listed is Some, disabled, k) matches Ok(vs) ==> {
            &&& forall|i: int|
                0 <= i < vs.len() ==> (#[trigger] vs[i]).2 == resource_path(package, vs[i].0, vs[i].1)
            &&& forall|i: int| 0 <= i < vs.len() ==> (#[trigger] vs[i]).0 == k
            &&& listed_views(listed) matches Some(names) ==> composed_names(vs) == enabled_list(
                names,
                disabled,
            )
        },
{
    lemma_kind_enabled(l, listed is Some, disabled, k);
    assert forall|i: int| 0 <= i < l.probes@.len() implies probe_at_its_path(#[trigger] l.probes@[i], package, k) by {
        match listed {
            Some(names) => {
                assert(probe_fits(l.probes@[i], Some(names@[i]@), package, k));
            },
            None => {
                assert(probe_fits(l.probes@[i], None, package, k));
            },
        }
    }
    if let Some(names) = listed {
        let nv = names@.map_values(|n: String| n@);
        assert forall|i: int| 0 <= i < nv.len() implies probe_fits(#[trigger] l.probes@[i], Some(nv[i]), package, k) by {
            assert(probe_fits(l.probes@[i], Some(names@[i]@), package, k));
        }
        lemma_fitting_probes_names(l.probes@, nv, disabled, package, k);
        lemma_listed_kind_follows_list(l, disabled, k);
    }
    if l.dir_exists {
        if let Ok(pkg) = l.canonical_package {
            lemma_fitting_probes_paths(l.probes@, listed is Some, disabled, pkg@, package, k);
        }
    }
}

/// A package composed from a listing made for its manifest: every resource
/// lies at its directory (the package path joined with the kind's
/// subdirectory and the resource name), and each listed kind gives exactly
/// its listed names that are not disabled, in list order.
pub proof fn lemma_compose_follows_manifest(m: PackageManifest, package: Seq<char>, l: PackageListing)
    requires
        listing_fits(m, package, l),
    ensures
        compose_spec(m, l) matches Ok(rs) ==> {
            &&& forall|i: int|
                0 <= i < rs.len() ==> (#[trigger] rs[i]).2 == resource_path(package, rs[i].0, rs[i].1)
            &&& forall|k: ResourceKind|
                #![trigger manifest_list(m, k)]
                match listed_views(manifest_list(m, k)) {
                    Some(names) => composed_names(of_kind(rs, k)) == enabled_list(
                        names,
                        disabled_views(m.disabled@),
                    ),
                    None => true,
                }
        },
{
    let dv = disabled_views(m.disabled@);
    lemma_fitting_kind(l.extensions, m.extensions, dv, package, ResourceKind::Extension);
    lemma_fitting_kind(l.skills, m.skills, dv, package, ResourceKind::Skill);
    lemma_fitting_kind(l.fragments, m.fragments, dv, package, ResourceKind::Fragment);
    lemma_fitting_kind(l.themes, m.themes, dv, package, ResourceKind::Theme);
    if let Ok(rs) = compose_spec(m, l) {
        let a = compose_kind_spec(l.extensions, m.extensions is Some, dv, ResourceKind::Extension)->Ok_0;
        let b = compose_kind_spec(l.skills, m.skills is Some, dv, ResourceKind::Skill)->Ok_0;
        let c = compose_kind_spec(l.fragments, m.fragments is Some, dv, ResourceKind::Fragment)->Ok_0;
        let d = compose_kind_spec(l.themes, m.themes is Some, dv, ResourceKind::Theme)->Ok_0;
        assert(rs == a + b + c + d);
        assert forall|i: int| 0 <= i < rs.len() implies (#[trigger] rs[i]).2 == resource_path(
            package,
            rs[i].0,
            rs[i].1,
        ) by {
            if i < a.len() {
                assert(rs[i] == a[i]);
            } else if i < a.len() + b.len() {
                assert(rs[i] == b[i - a.len()]);
            } else if i < a.len() + b.len() + c.len() {
                assert(rs[i] == c[i - a.len() - b.len()]);
            } else {
                assert(rs[i] == d[i - a.len() - b.len() - c.len()]);
            }
        }
        assert forall|k: ResourceKind| #![trigger manifest_list(m, k)]
            match listed_views(manifest_list(m, k)) {
                Some(names) => composed_names(of_kind(rs, k)) == enabled_list(names, dv),
                None => true,
            } by {
            lemma_of_kind_add(a + b + c, d, k);
            lemma_of_kind_add(a + b, c, k);
            lemma_of_kind_add(a, b, k);
            lemma_of_kind_uniform(a, ResourceKind::Extension, k);
            lemma_of_kind_uniform(b, ResourceKind::Skill, k);
            lemma_of_kind_uniform(c, ResourceKind::Fragment, k);
            lemma_of_kind_uniform(d, ResourceKind::Theme, k);
            let e = Seq::<ComposedView>::empty();
            match k {
                ResourceKind::Extension => assert(of_kind(rs, k) =~= a + e + e + e),
                ResourceKind::Skill => assert(of_kind(rs, k) =~= e + b + e + e),
                ResourceKind::Fragment => assert(of_kind(rs, k) =~= e + e + c + e),
                ResourceKind::Theme => assert(of_kind(rs, k) =~= e + e + e + d),
            }
        }
    }
}

/// Whether a probe fits (see `probe_fits`).
fn probe_fits_exec(
    p: &Result<ResourceProbe, String>,
    expected: Option<&str>,
    package: &str,
    k: ResourceKind,
) -> (r: bool)
    ensures
        r == probe_fits(
            *p,
            match expected {
                Some(e) => Some(e@),
                None => None,
            },
            package@,
            k,
        ),
{
    match p {
        Ok(q) => match &q.name {
            Some(n) => {
                let dir = crate::paths::join_path(package, k.subdir());
                let path = crate::paths::join_path(dir.as_str(), n.as_str());
                str_eq(q.path.as_str(), path.as_str()) && match expected {
                    Some(e) => str_eq(n.as_str(), e),
                    None => true,
                }
            },
            None => expected.is_none(),
        },
        Err(_) => expected.is_none(),
    }
}

/// Whether a kind's listing fits (see `kind_listing_fits`).
fn kind_listing_fits_exec(
    l: &KindListing,
    listed: &Option<Vec<String>>,
    package: &str,
    k: ResourceKind,
) -> (r: bool)
    ensures
        r == kind_listing_fits(*l, *listed, package@, k),
{
    if listed.is_some() {
        let names = listed.as_ref().unwrap();
        assert(*listed == Some(*names));
        if l.probes.len() != names.len() {
            return false;
        }
        let mut i: usize = 0;
        while i < names.len()
            invariant
                i <= names@.len(),
                l.probes@.len() == names@.len(),
                *listed == Some(*names),
                forall|j: int|
                    0 <= j < i ==> probe_fits(#[trigger] l.probes@[j], Some(names@[j]@), package@, k),
            decreases names.len() - i,
        {
            if !probe_fits_exec(&l.probes[i], Some(names[i].as_str()), package, k) {
                assert(!probe_fits(l.probes@[i as int], Some(names@[i as int]@), package@, k));
                return false;
            }
            i += 1;
        }
        true
    } else {
        let mut i: usize = 0;
        while i < l.probes.len()
            invariant
                i <= l.probes@.len(),
                listed is None,
                forall|j: int| 0 <= j < i ==> probe_fits(#[trigger] l.probes@[j], None, package@, k),
            decreases l.probes.len() - i,
        {
            if !probe_fits_exec(&l.probes[i], None, package, k) {
                return false;
            }
            i += 1;
        }
        true
    }
}

/// Move the resources of `b` to the end of `a`.
fn append_resources(a: &mut Vec<ComposedResource>, b: Vec<ComposedResource>)
    ensures
        composed_views(final(a)@) == composed_views(old(a)@) + composed_views(b@),
{
    let mut b = b;
    let ghost a0 = a@;
    let ghost b0 = b@;
    a.append(&mut b);
    assert(composed_views(a@) =~= composed_views(a0) + composed_views(b0));
}

impl PackageResource {
    /// The resource directories to examine for a kind the manifest lists:
    /// each listed name with its directory, in list order; `None` when the
    /// kind is not listed (its directory's entries are examined instead).
    pub fn listed_targets(&self, k: ResourceKind) -> (r: Option<Vec<(String, String)>>)
        ensures
            match manifest_list(self.manifest, k) {
                Some(names) => r matches Some(ts) && ts@.len() == names@.len() && forall|i: int|
                    0 <= i < ts@.len() ==> (#[trigger] ts@[i]).0@ == names@[i]@ && ts@[i].1@
                        == resource_path(self.path@, k, names@[i]@),
                None => r is None,
            },
    {
        let listed = match k {
            ResourceKind::Extension => &self.manifest.extensions,
            ResourceKind::Skill => &self.manifest.skills,
            ResourceKind::Fragment => &self.manifest.fragments,
            ResourceKind::Theme => &self.manifest.themes,
        };
        let names = match listed {
            Some(names) => names,
            None => return None,
        };
        let dir = crate::paths::join_path(self.path.as_str(), k.subdir());
        let mut out: Vec<(String, String)> = Vec::new();
        let mut i: usize = 0;
        while i < names.len()
            invariant
                i <= names@.len(),
                out@.len() == i,
                dir@ == path_join(self.path@, kind_subdir(k)),
                forall|j: int|
                    0 <= j < i ==> (#[trigger] out@[j]).0@ == names@[j]@ && out@[j].1@
                        == resource_path(self.path@, k, names@[j]@),
            decreases names.len() - i,
        {
            let path = crate::paths::join_path(dir.as_str(), names[i].as_str());
            out.push((string_of(&chars_of(names[i].as_str())), path));
            i += 1;
        }
        Some(out)
    }

    /// Whether `listing` was made for this package's manifest and path (see
    /// `listing_fits`), as `compose` requires.
    pub fn listing_fits_manifest(&self, listing: &PackageListing) -> (r: bool)
        ensures
            r == listing_fits(self.manifest, self.path@, *listing),
    {
        let m = &self.manifest;
        let p = self.path.as_str();
        kind_listing_fits_exec(&listing.extensions, &m.extensions, p, ResourceKind::Extension)
            && kind_listing_fits_exec(&listing.skills, &m.skills, p, ResourceKind::Skill)
            && kind_listing_fits_exec(&listing.fragments, &m.fragments, p, ResourceKind::Fragment)
            && kind_listing_fits_exec(&listing.themes, &m.themes, p, ResourceKind::Theme)
    }

    /// Compose the resources of this package from what the file system
    /// showed of its subdirectories: extensions, then skills, fragments and
    /// themes. A kind the manifest lists is composed in validated mode. Every
    /// resource lies at its directory, and a listed kind gives exactly its
    /// listed names that are not disabled, in list order.
    pub fn compose(&self, listing: &PackageListing) -> (r: Result<
        Vec<ComposedResource>,
        PackageDiscoveryError,
    >)
        requires
            listing_fits(self.manifest, self.path@, *listing),
        ensures
            match compose_spec(self.manifest, *listing) {
                Ok(vs) => r matches Ok(rs) && composed_views(rs@) == vs,
                Err((f, k)) => r matches Err(e) && compose_error_is(
                    f,
                    self.manifest.name@,
                    k,
                    e,
                ),
            },
            r matches Ok(rs) ==> forall|i: int|
                0 <= i < rs@.len() ==> (#[trigger] rs@[i]).path@ == resource_path(
                    self.path@,
                    rs@[i].kind,
                    rs@[i].name@,
                ),
            r matches Ok(rs) ==> forall|k: ResourceKind|
                #![trigger manifest_list(self.manifest, k)]
                match listed_views(manifest_list(self.manifest, k)) {
                    Some(names) => composed_names(of_kind(composed_views(rs@), k)) == enabled_list(
                        names,
                        disabled_views(self.manifest.disabled@),
                    ),
                    None => true,
                },
    {
        proof {
            lemma_compose_follows_manifest(self.manifest, self.path@, *listing);
        }
        let r = self.compose_listed(listing);
        proof {
            if r is Ok {
                let rs = r->Ok_0;
                assert forall|i: int| 0 <= i < rs@.len() implies (#[trigger] rs@[i]).path@ == resource_path(
                    self.path@,
                    rs@[i].kind,
                    rs@[i].name@,
                ) by {
                    assert(composed_views(rs@)[i] == composed_view(rs@[i]));
                }
            }
        }
        r
    }

    fn compose_listed(&self, listing: &PackageListing) -> (r: Result<
        Vec<ComposedResource>,
        PackageDiscoveryError,
    >)
        ensures
            match compose_spec(self.manifest, *listing) {
                Ok(vs) => r matches Ok(rs) && composed_views(rs@) == vs,
                Err((f, k)) => r matches Err(e) && compose_error_is(
                    f,
                    self.manifest.name@,
                    k,
                    e,
                ),
            },
    {
        let m = &self.manifest;
        let name = m.name.as_str();
        let mut out = compose_kind(
            name,
            ResourceKind::Extension,
            m.extensions.is_some(),
            &m.disabled,
            &listing.extensions,
        )?;
        let b = compose_kind(
            name,
            ResourceKind::Skill,
            m.skills.is_some(),
            &m.disabled,
            &listing.skills,
        )?;
        append_resources(&mut out, b);
        let c = compose_kind(
            name,
            ResourceKind::Fragment,
            m.fragments.is_some(),
            &m.disabled,
            &listing.fragments,
        )?;
        append_resources(&mut out, c);
        let d = compose_kind(
            name,
            ResourceKind::Theme,
            m.themes.is_some(),
            &m.disabled,
            &listing.themes,
        )?;
        append_resources(&mut out, d);
        Ok(out)
    }
}

// ---------------------------------------------------------------------------
// Discovery
// ---------------------------------------------------------------------------

/// Merge the packages found across discovery layers, in the order found,
/// into one per name sorted by name, keeping the one of highest precedence.
/// Two packages of the same name and precedence are an error, whatever a
/// layer of higher precedence holds: the later of the first such pair is
/// reported.
pub fn merge_discovered_packages(found: Vec<PackageResource>) -> (r: Result<Vec<PackageResource>, PackageDiscoveryError>)
    ensures
        match r {
            Ok(v) => !has_duplicate(found@) && merged_from(found@, v@) && precedence_merge_law(
                found@,
                v@,
            ),
            Err(e) => exists|j: int|
                {
                    &&& duplicate_at(found@, j)
                    &&& forall|k: int| 0 <= k < j ==> !duplicate_at(found@, k)
                    &&& e matches PackageDiscoveryError::DuplicateName { name, path }
                    &&& name@ == found@[j].manifest.name@
                    &&& path@ == found@[j].path@
                },
        },
{
    match merge_discovered(found) {
        Ok(v) => Ok(v),
        Err(item) => Err(PackageDiscoveryError::DuplicateName { name: item.manifest.name, path: item.path }),
    }
}

/// The package found in directory `dir` of a layer of precedence
/// `layer_precedence`, given its parsed `package.toml` (or the reason it
/// could not be parsed) and its canonical path (or the I/O error from
/// resolving it).
pub fn discover_package_root(
    dir: &str,
    layer_precedence: u32,
    parsed: Result<PackageFile, String>,
    canonical: Result<String, String>,
) -> (r: Result<PackageResource, PackageDiscoveryError>)
    ensures
        !manifest_accepts(parsed) ==> (r matches Err(e) && manifest_result(
            parsed,
            path_join(dir@, "package.toml"@),
            Err(e),
        )),
        manifest_accepts(parsed) ==> match canonical {
            Err(x) => r matches Err(PackageDiscoveryError::Io(y)) && y@ == x@,
            Ok(c) => r matches Ok(p) && manifest_of(parsed->Ok_0, p.manifest) && p.path == c
                && p.package_toml_path@ == path_join(dir@, "package.toml"@) && p.layer_precedence
                == layer_precedence,
        },
{
    let toml = crate::paths::join_path(dir, "package.toml");
    let manifest = PackageManifest::from_parsed(parsed, toml.as_str())?;
    let path = match canonical {
        Err(e) => return Err(PackageDiscoveryError::Io(e)),
        Ok(c) => c,
    };
    Ok(PackageResource { manifest, path, package_toml_path: toml, layer_precedence })
}

// ---------------------------------------------------------------------------
// Composed resource layers
// ---------------------------------------------------------------------------

/// A package with the outcome of composing its resources.
#[derive(Debug)]
pub struct ComposedPackage {
    pub name: String,
    pub layer_precedence: u32,
    pub composed: Result<Vec<ComposedResource>, PackageDiscoveryError>,
}

/// Discovery layers made of composed package resources, by kind, and the
/// diagnostics of packages that could not be composed.
#[derive(Debug)]
pub struct PackageComposedResourceLayers {
    pub extensions: Vec<crate::resource::DiscoveryLayer>,
    pub skills: Vec<crate::resource::DiscoveryLayer>,
    pub fragments: Vec<crate::resource::DiscoveryLayer>,
    pub themes: Vec<crate::resource::DiscoveryLayer>,
    pub diagnostics: Vec<String>,
}

/// A discovery layer as plain values: root, subdirectory, precedence.
pub type LayerView = (Seq<char>, Option<Seq<char>>, u32);

/// The plain values of a layer.
pub open spec fn layer_view(l: crate::resource::DiscoveryLayer) -> LayerView {
    (
        l.root@,
        match l.subdirectory {
            Some(s) => Some(s@),
            None => None,
        },
        l.precedence,
    )
}

/// The plain values of layers.
pub open spec fn layer_views(ls: Seq<crate::resource::DiscoveryLayer>) -> Seq<LayerView> {
    ls.map_values(|l: crate::resource::DiscoveryLayer| layer_view(l))
}

/// The sort keys of packages: precedence, then name.
pub open spec fn package_keys(ps: Seq<ComposedPackage>) -> Seq<crate::sorting::SortKey> {
    ps.map_values(|p: ComposedPackage| (p.layer_precedence, p.name@, Seq::<char>::empty()))
}

/// The sort keys of resources: kind, then name.
pub open spec fn resource_keys(rs: Seq<ComposedResource>) -> Seq<crate::sorting::SortKey> {
    rs.map_values(|r: ComposedResource| (kind_rank(r.kind), r.name@, Seq::<char>::empty()))
}

/// `s` reordered by the positions in `order`.
pub open spec fn reorder<T>(s: Seq<T>, order: Seq<usize>) -> Seq<T> {
    Seq::new(order.len(), |j: int| s[order[j] as int])
}

/// The layers of kind `k` made of `rs`, in order, with precedence `prec`.
pub open spec fn kind_layers(rs: Seq<ComposedResource>, k: ResourceKind, prec: u32) -> Seq<
    LayerView,
>
    decreases rs.len(),
{
    if rs.len() == 0 {
        Seq::empty()
    } else {
        let prev = kind_layers(rs.drop_last(), k, prec);
        if rs.last().kind == k {
            prev.push((rs.last().path@, None, prec))
        } else {
            prev
        }
    }
}

/// The resources of a package in stable order of kind, then name.
pub open spec fn sorted_resources(rs: Seq<ComposedResource>) -> Seq<ComposedResource> {
    reorder(rs, crate::sorting::stable_sort_spec(resource_keys(rs)))
}

/// The packages in stable order of precedence, then name.
pub open spec fn sorted_packages(ps: Seq<ComposedPackage>) -> Seq<ComposedPackage> {
    reorder(ps, crate::sorting::stable_sort_spec(package_keys(ps)))
}

/// The layers of kind `k` of packages `ps`, taken in order.
pub open spec fn packages_layers(ps: Seq<ComposedPackage>, k: ResourceKind) -> Seq<LayerView>
    decreases ps.len(),
{
    if ps.len() == 0 {
        Seq::empty()
    } else {
        let p = ps.last();
        packages_layers(ps.drop_last(), k) + match p.composed {
            Ok(rs) => kind_layers(sorted_resources(rs@), k, p.layer_precedence),
            Err(_) => Seq::empty(),
        }
    }
}

/// The diagnostics of packages `ps`, taken in order.
pub open spec fn packages_diagnostics(ps: Seq<ComposedPackage>) -> Seq<Seq<char>>
    decreases ps.len(),
{
    if ps.len() == 0 {
        Seq::empty()
    } else {
        let p = ps.last();
        let prev = packages_diagnostics(ps.drop_last());
        match p.composed {
            Ok(_) => prev,
            Err(e) => prev.push("package '"@ + p.name@ + "': "@ + discovery_error_message(e)),
        }
    }
}

/// The layers of a result, by kind.
pub open spec fn result_layers(r: PackageComposedResourceLayers, k: ResourceKind) -> Seq<LayerView> {
    match k {
        ResourceKind::Extension => layer_views(r.extensions@),
        ResourceKind::Skill => layer_views(r.skills@),
        ResourceKind::Fragment => layer_views(r.fragments@),
        ResourceKind::Theme => layer_views(r.themes@),
    }
}

/// The resources of a composed package are put in order by a permutation.
pub open spec fn resources_ordered(p: ComposedPackage) -> bool {
    match p.composed {
        Ok(rs) => crate::sorting::is_permutation(crate::sorting::stable_sort_spec(resource_keys(rs@)), rs@.len()),
        Err(_) => true,
    }
}

/// Layer `l` of kind `k` is made of a resource of kind `k` that package `p`
/// composed: rooted at the resource, with no subdirectory and the package's
/// precedence.
pub open spec fn layer_of_package(p: ComposedPackage, k: ResourceKind, l: LayerView) -> bool {
    match p.composed {
        Ok(rs) => exists|x: int|
            0 <= x < rs@.len() && (#[trigger] rs@[x]).kind == k && l == (rs@[x].path@, None::<Seq<char>>, p.layer_precedence),
        Err(_) => false,
    }
}

/// Layer `l` of kind `k` is made of a resource of one of `ps`.
pub open spec fn layer_of_some(ps: Seq<ComposedPackage>, k: ResourceKind, l: LayerView) -> bool {
    exists|j: int| 0 <= j < ps.len() && layer_of_package(#[trigger] ps[j], k, l)
}

/// The diagnostic of a package that could not be composed.
pub open spec fn failure_text(p: ComposedPackage) -> Option<Seq<char>> {
    match p.composed {
        Ok(_) => None,
        Err(e) => Some("package '"@ + p.name@ + "': "@ + discovery_error_message(e)),
    }
}

/// Diagnostic `d` is that of one of `ps` that could not be composed.
pub open spec fn failure_of_some(ps: Seq<ComposedPackage>, d: Seq<char>) -> bool {
    exists|j: int| 0 <= j < ps.len() && #[trigger] failure_text(ps[j]) == Some(d)
}

/// Each layer comes from a resource of a composed package.
proof fn lemma_kind_layers_origin(rs: Seq<ComposedResource>, k: ResourceKind, prec: u32)
    ensures
        forall|a: int|
            0 <= a < kind_layers(rs, k, prec).len() ==> exists|y: int|
                0 <= y < rs.len() && (#[trigger] rs[y]).kind == k && #[trigger] kind_layers(rs, k, prec)[a]
                    == (rs[y].path@, None::<Seq<char>>, prec),
    decreases rs.len(),
{
    if rs.len() > 0 {
        let q = rs.drop_last();
        lemma_kind_layers_origin(q, k, prec);
        let all = kind_layers(rs, k, prec);
        let prev = kind_layers(q, k, prec);
        assert forall|a: int| 0 <= a < all.len() implies exists|y: int|
            0 <= y < rs.len() && (#[trigger] rs[y]).kind == k && #[trigger] all[a]
                == (rs[y].path@, None::<Seq<char>>, prec) by {
            if a < prev.len() {
                assert(all[a] == prev[a]);
                let y = choose|y: int|
                    0 <= y < q.len() && (#[trigger] q[y]).kind == k && prev[a]
                        == (q[y].path@, None::<Seq<char>>, prec);
                assert(q[y] == rs[y]);
            } else {
                assert(all[a] == (rs[rs.len() - 1].path@, None::<Seq<char>>, prec));
            }
        }
    }
}

/// Each layer of `ps` comes from a resource that one of them composed, and
/// each diagnostic from one of them that could not be composed.
proof fn lemma_layers_origin(ps: Seq<ComposedPackage>, k: ResourceKind)
    requires
        forall|j: int| 0 <= j < ps.len() ==> resources_ordered(#[trigger] ps[j]),
    ensures
        forall|a: int|
            0 <= a < packages_layers(ps, k).len() ==> layer_of_some(ps, k, #[trigger] packages_layers(ps, k)[a]),
        forall|a: int|
            0 <= a < packages_diagnostics(ps).len() ==> failure_of_some(ps, #[trigger] packages_diagnostics(ps)[a]),
        forall|j: int|
            #![trigger ps[j]]
            0 <= j < ps.len() && failure_text(ps[j]) is Some ==> packages_diagnostics(ps).contains(failure_text(ps[j])->0),
    decreases ps.len(),
{
    if ps.len() > 0 {
        let q = ps.drop_last();
        assert forall|j: int| 0 <= j < q.len() implies resources_ordered(#[trigger] q[j]) by {
            assert(q[j] == ps[j]);
        }
        lemma_layers_origin(q, k);
        let p = ps.last();
        let n = ps.len() - 1;
        assert(ps[n] == p);
        let prev = packages_layers(q, k);
        let all = packages_layers(ps, k);
        let pd = packages_diagnostics(q);
        let ad = packages_diagnostics(ps);
        match p.composed {
            Ok(rs) => {
                let srt = sorted_resources(rs@);
                let order = crate::sorting::stable_sort_spec(resource_keys(rs@));
                lemma_kind_layers_origin(srt, k, p.layer_precedence);
                assert(all == prev + kind_layers(srt, k, p.layer_precedence));
                assert forall|a: int| 0 <= a < all.len() implies layer_of_some(ps, k, #[trigger] all[a]) by {
                    if a < prev.len() {
                        assert(all[a] == prev[a]);
                        let j = choose|j: int| 0 <= j < q.len() && layer_of_package(#[trigger] q[j], k, prev[a]);
                        assert(q[j] == ps[j]);
                    } else {
                        let b = a - prev.len();
                        let tail = kind_layers(srt, k, p.layer_precedence);
                        assert(all[a] == tail[b]);
                        let y = choose|y: int|
                            0 <= y < srt.len() && (#[trigger] srt[y]).kind == k && tail[b]
                                == (srt[y].path@, None::<Seq<char>>, p.layer_precedence);
                        assert(resources_ordered(ps[n]));
                        let x = order[y] as int;
                        assert(srt[y] == rs@[x]);
                        assert(layer_of_package(ps[n], k, all[a]));
                    }
                }
                assert(ad == pd);
                assert forall|a: int| 0 <= a < ad.len() implies failure_of_some(ps, #[trigger] ad[a]) by {
                    let j = choose|j: int| 0 <= j < q.len() && #[trigger] failure_text(q[j]) == Some(pd[a]);
                    assert(q[j] == ps[j]);
                }
                assert forall|j: int| #![trigger ps[j]] 0 <= j < ps.len() && failure_text(ps[j]) is Some implies ad.contains(
                    failure_text(ps[j])->0,
                ) by {
                    if j < n {
                        assert(q[j] == ps[j]);
                    }
                }
            },
            Err(e) => {
                assert(all =~= prev);
                let t = failure_text(p)->0;
                assert(ad == pd.push(t));
                assert forall|a: int| 0 <= a < all.len() implies layer_of_some(ps, k, #[trigger] all[a]) by {
                    let j = choose|j: int| 0 <= j < q.len() && layer_of_package(#[trigger] q[j], k, prev[a]);
                    assert(q[j] == ps[j]);
                }
                assert forall|a: int| 0 <= a < ad.len() implies failure_of_some(ps, #[trigger] ad[a]) by {
                    if a < pd.len() {
                        assert(ad[a] == pd[a]);
                        let j = choose|j: int| 0 <= j < q.len() && #[trigger] failure_text(q[j]) == Some(pd[a]);
                        assert(q[j] == ps[j]);
                    } else {
                        assert(failure_text(ps[n]) == Some(ad[a]));
                    }
                }
                assert forall|j: int| #![trigger ps[j]] 0 <= j < ps.len() && failure_text(ps[j]) is Some implies ad.contains(
                    failure_text(ps[j])->0,
                ) by {
                    if j < n {
                        assert(q[j] == ps[j]);
                        let w = choose|w: int| 0 <= w < pd.len() && pd[w] == failure_text(q[j])->0;
                        assert(ad[w] == pd[w]);
                    } else {
                        assert(ad[pd.len() as int] == t);
                    }
                }
            },
        }
    }
}

/// The law of composing packages into layers: every layer of a kind is
/// made of a resource of that kind that one of the packages composed
/// (rooted at the resource, with no subdirectory and the package's
/// precedence), so a package that could not be composed gives no layer;
/// every diagnostic is that of a package that could not be composed, and
/// every such package has its diagnostic.
pub open spec fn composed_layers_law(ps: Seq<ComposedPackage>, r: PackageComposedResourceLayers) -> bool {
    &&& forall|k: ResourceKind, a: int|
        0 <= a < result_layers(r, k).len() ==> layer_of_some(ps, k, #[trigger] result_layers(r, k)[a])
    &&& forall|a: int|
        0 <= a < r.diagnostics@.len() ==> failure_of_some(ps, #[trigger] string_views(r.diagnostics@)[a])
    &&& forall|i: int|
        0 <= i < ps.len() && failure_text(#[trigger] ps[i]) is Some ==> string_views(r.diagnostics@).contains(
            failure_text(ps[i])->0,
        )
}

/// Append the layers of `rs`, in stable order of kind then name, to `out`.
fn push_resource_layers(out: &mut PackageComposedResourceLayers, rs: &Vec<ComposedResource>, prec: u32)
    ensures
        forall|k: ResourceKind|
            #[trigger] result_layers(*final(out), k) == result_layers(*old(out), k) + kind_layers(
                sorted_resources(rs@),
                k,
                prec,
            ),
        final(out).diagnostics == old(out).diagnostics,
        crate::sorting::is_permutation(crate::sorting::stable_sort_spec(resource_keys(rs@)), rs@.len()),
{
    let mut keys: Vec<crate::sorting::ExecSortKey> = Vec::new();
    let mut i: usize = 0;
    while i < rs.len()
        invariant
            i <= rs@.len(),
            keys@.len() == i,
            forall|j: int|
                0 <= j < i ==> (#[trigger] keys@[j]).0 == kind_rank(rs@[j].kind) && keys@[j].1@
                    == rs@[j].name@ && keys@[j].2@ == Seq::<char>::empty(),
        decreases rs.len() - i,
    {
        keys.push((resource_kind_order(rs[i].kind), chars_of(rs[i].name.as_str()), Vec::new()));
        i += 1;
    }
    assert(crate::sorting::key_views(keys@) =~= resource_keys(rs@));
    let order = crate::sorting::stable_sorted_order(&keys);
    let ghost sorted = sorted_resources(rs@);
    let ghost o0 = *out;
    assert(order@.len() == rs@.len());
    let mut t: usize = 0;
    assert(sorted.take(0) =~= Seq::<ComposedResource>::empty());
    assert forall|k: ResourceKind| #[trigger] result_layers(*out, k) == result_layers(o0, k) + kind_layers(
        sorted.take(0),
        k,
        prec,
    ) by {
        assert(result_layers(o0, k) + Seq::<LayerView>::empty() =~= result_layers(o0, k));
    }
    while t < order.len()
        invariant
            t <= order@.len(),
            order@.len() == rs@.len(),
            order@ == crate::sorting::stable_sort_spec(resource_keys(rs@)),
            crate::sorting::is_permutation(order@, rs@.len()),
            sorted == sorted_resources(rs@),
            forall|k: ResourceKind|
                #[trigger] result_layers(*out, k) == result_layers(o0, k) + kind_layers(
                    sorted.take(t as int),
                    k,
                    prec,
                ),
            out.diagnostics == o0.diagnostics,
        decreases order.len() - t,
    {
        let idx = order[t];
        assert(order@[t as int] < rs@.len());
        let r = &rs[idx];
        assert(sorted[t as int] == rs@[idx as int]);
        assert(sorted.take(t + 1).drop_last() =~= sorted.take(t as int));
        assert(sorted.take(t + 1).last() == *r);
        let layer = crate::resource::DiscoveryLayer {
            root: r.path.clone(),
            subdirectory: None,
            precedence: prec,
        };
        let ghost lv = layer_view(layer);
        assert(lv == (r.path@, None::<Seq<char>>, prec));
        let ghost before = *out;
        match r.kind {
            ResourceKind::Extension => {
                out.extensions.push(layer);
                assert(layer_views(out.extensions@) =~= layer_views(before.extensions@).push(lv));
            },
            ResourceKind::Skill => {
                out.skills.push(layer);
                assert(layer_views(out.skills@) =~= layer_views(before.skills@).push(lv));
            },
            ResourceKind::Fragment => {
                out.fragments.push(layer);
                assert(layer_views(out.fragments@) =~= layer_views(before.fragments@).push(lv));
            },
            ResourceKind::Theme => {
                out.themes.push(layer);
                assert(layer_views(out.themes@) =~= layer_views(before.themes@).push(lv));
            },
        }
        assert forall|k: ResourceKind| #[trigger] result_layers(*out, k) == result_layers(o0, k)
            + kind_layers(sorted.take(t + 1), k, prec) by {
            if k == r.kind {
                assert(result_layers(*out, k) =~= result_layers(before, k).push(lv));
                assert(result_layers(o0, k) + kind_layers(sorted.take(t as int), k, prec).push(lv)
                    =~= (result_layers(o0, k) + kind_layers(sorted.take(t as int), k, prec)).push(
                    lv,
                ));
            } else {
                assert(result_layers(*out, k) == result_layers(before, k));
            }
        }
        t += 1;
    }
    assert(sorted.take(order@.len() as int) =~= sorted);
}

/// Compose packages into discovery layers grouped by kind.
///
/// Packages are taken in stable order of precedence, then name; the
/// resources of each in stable order of kind (extensions, skills, fragments,
/// themes), then name, each becoming a layer rooted at the resource with the
/// package's precedence. A package that could not be composed gives the
/// diagnostic `package '<name>': <error>` instead.
pub fn package_composed_resource_layers(packages: &Vec<ComposedPackage>) -> (r:
    PackageComposedResourceLayers)
    ensures
        forall|k: ResourceKind| #[trigger] result_layers(r, k) == packages_layers(
            sorted_packages(packages@),
            k,
        ),
        string_views(r.diagnostics@) == packages_diagnostics(sorted_packages(packages@)),
        forall|k: ResourceKind, a: int, b: int|
            0 <= a < b < result_layers(r, k).len() ==> (#[trigger] result_layers(r, k)[a]).2
                <= (#[trigger] result_layers(r, k)[b]).2,
        forall|k: ResourceKind, a: int|
            0 <= a < result_layers(r, k).len() ==> (#[trigger] result_layers(r, k)[a]).1 is None,
        composed_layers_law(packages@, r),
{
    let mut keys: Vec<crate::sorting::ExecSortKey> = Vec::new();
    let mut i: usize = 0;
    while i < packages.len()
        invariant
            i <= packages@.len(),
            keys@.len() == i,
            forall|j: int|
                0 <= j < i ==> (#[trigger] keys@[j]).0 == packages@[j].layer_precedence
                    && keys@[j].1@ == packages@[j].name@ && keys@[j].2@ == Seq::<char>::empty(),
        decreases packages.len() - i,
    {
        keys.push((packages[i].layer_precedence, chars_of(packages[i].name.as_str()), Vec::new()));
        i += 1;
    }
    assert(crate::sorting::key_views(keys@) =~= package_keys(packages@));
    let order = crate::sorting::stable_sorted_order(&keys);
    let ghost sorted = sorted_packages(packages@);
    let mut out = PackageComposedResourceLayers {
        extensions: Vec::new(),
        skills: Vec::new(),
        fragments: Vec::new(),
        themes: Vec::new(),
        diagnostics: Vec::new(),
    };
    assert(sorted.take(0) =~= Seq::<ComposedPackage>::empty());
    assert forall|k: ResourceKind| #[trigger] result_layers(out, k) == packages_layers(
        sorted.take(0),
        k,
    ) by {
        assert(result_layers(out, k) =~= Seq::<LayerView>::empty());
    }
    assert(string_views(out.diagnostics@) =~= packages_diagnostics(sorted.take(0)));
    let mut t: usize = 0;
    while t < order.len()
        invariant
            t <= order@.len(),
            order@.len() == packages@.len(),
            order@ == crate::sorting::stable_sort_spec(package_keys(packages@)),
            crate::sorting::is_permutation(order@, packages@.len()),
            sorted == sorted_packages(packages@),
            forall|k: ResourceKind| #[trigger] result_layers(out, k) == packages_layers(
                sorted.take(t as int),
                k,
            ),
            string_views(out.diagnostics@) == packages_diagnostics(sorted.take(t as int)),
            forall|j: int| 0 <= j < t ==> resources_ordered(#[trigger] sorted[j]),
        decreases order.len() - t,
    {
        let idx = order[t];
        assert(order@[t as int] < packages@.len());
        let p = &packages[idx];
        assert(sorted[t as int] == packages@[idx as int]);
        assert(sorted.take(t + 1).drop_last() =~= sorted.take(t as int));
        assert(sorted.take(t + 1).last() == *p);
        let ghost before = out;
        match &p.composed {
            Err(e) => {
                let mut m = chars_of("package '");
                extend_str(&mut m, p.name.as_str());
                extend_str(&mut m, "': ");
                let msg = e.message();
                extend_str(&mut m, msg.as_str());
                out.diagnostics.push(string_of(&m));
                assert(string_views(out.diagnostics@) =~= string_views(before.diagnostics@).push(m@));
                assert forall|k: ResourceKind| #[trigger] result_layers(out, k) == packages_layers(
                    sorted.take(t + 1),
                    k,
                ) by {
                    assert(result_layers(out, k) == result_layers(before, k));
                    assert(packages_layers(sorted.take(t as int), k) + Seq::<LayerView>::empty()
                        =~= packages_layers(sorted.take(t as int), k));
                }
            },
            Ok(rs) => {
                push_resource_layers(&mut out, rs, p.layer_precedence);
                assert forall|k: ResourceKind| #[trigger] result_layers(out, k) == packages_layers(
                    sorted.take(t + 1),
                    k,
                ) by {
                    assert(result_layers(out, k) == result_layers(before, k) + kind_layers(
                        sorted_resources(rs@),
                        k,
                        p.layer_precedence,
                    ));
                }
            },
        }
        assert(resources_ordered(sorted[t as int]));
        t += 1;
    }
    assert(sorted.take(order@.len() as int) =~= sorted);
    proof {
        let kv = package_keys(packages@);
        assert forall|a: int, b: int| 0 <= a < b < sorted.len() implies (#[trigger] sorted[a]).layer_precedence
            <= (#[trigger] sorted[b]).layer_precedence by {
            let x = order@[a] as int;
            let y = order@[b] as int;
            assert(crate::sorting::entry_before(kv[x], x, kv[y], y));
        }
        assert forall|k: ResourceKind, a: int, b: int|
            0 <= a < b < result_layers(out, k).len() implies (#[trigger] result_layers(out, k)[a]).2
                <= (#[trigger] result_layers(out, k)[b]).2 by {
            lemma_packages_layers_ordered(sorted, k);
            assert(result_layers(out, k) == packages_layers(sorted, k));
        }
        assert forall|k: ResourceKind, a: int|
            0 <= a < result_layers(out, k).len() implies (#[trigger] result_layers(out, k)[a]).1 is None by {
            lemma_packages_layers_ordered(sorted, k);
            assert(result_layers(out, k) == packages_layers(sorted, k));
        }
        let ps = packages@;
        assert forall|k: ResourceKind, a: int|
            0 <= a < result_layers(out, k).len() implies layer_of_some(ps, k, #[trigger] result_layers(out, k)[a]) by {
            lemma_layers_origin(sorted, k);
            assert(result_layers(out, k) == packages_layers(sorted, k));
            let j = choose|j: int| 0 <= j < sorted.len() && layer_of_package(#[trigger] sorted[j], k, result_layers(out, k)[a]);
            assert(sorted[j] == ps[order@[j] as int]);
        }
        let dv = string_views(out.diagnostics@);
        lemma_layers_origin(sorted, ResourceKind::Extension);
        assert forall|a: int| 0 <= a < dv.len() implies failure_of_some(ps, #[trigger] dv[a]) by {
            let j = choose|j: int| 0 <= j < sorted.len() && #[trigger] failure_text(sorted[j]) == Some(dv[a]);
            assert(sorted[j] == ps[order@[j] as int]);
        }
        assert forall|i: int| 0 <= i < ps.len() && failure_text(#[trigger] ps[i]) is Some implies dv.contains(
            failure_text(ps[i])->0,
        ) by {
            crate::sorting::lemma_permutation_covers(order@, ps.len(), i);
            let j = choose|j: int| 0 <= j < ps.len() && order@[j] == i;
            assert(sorted[j] == ps[i]);
        }
    }
    out
}

/// The layers of one kind made of a package's resources all carry the
/// package's precedence and no subdirectory.
proof fn lemma_kind_layers_uniform(rs: Seq<ComposedResource>, k: ResourceKind, prec: u32)
    ensures
        forall|a: int|
            0 <= a < kind_layers(rs, k, prec).len() ==> (#[trigger] kind_layers(rs, k, prec)[a]).2
                == prec && kind_layers(rs, k, prec)[a].1 is None,
    decreases rs.len(),
{
    if rs.len() > 0 {
        lemma_kind_layers_uniform(rs.drop_last(), k, prec);
    }
}

/// Packages taken in order of precedence give layers in order of
/// precedence, none with a subdirectory.
proof fn lemma_packages_layers_ordered(ps: Seq<ComposedPackage>, k: ResourceKind)
    requires
        forall|a: int, b: int|
            0 <= a < b < ps.len() ==> (#[trigger] ps[a]).layer_precedence <= (#[trigger] ps[b]).layer_precedence,
    ensures
        forall|a: int, b: int|
            0 <= a < b < packages_layers(ps, k).len() ==> (#[trigger] packages_layers(ps, k)[a]).2
                <= (#[trigger] packages_layers(ps, k)[b]).2,
        forall|a: int|
            0 <= a < packages_layers(ps, k).len() ==> (#[trigger] packages_layers(ps, k)[a]).1 is None,
        ps.len() > 0 ==> forall|a: int|
            0 <= a < packages_layers(ps, k).len() ==> (#[trigger] packages_layers(ps, k)[a]).2
                <= ps.last().layer_precedence,
    decreases ps.len(),
{
    if ps.len() > 0 {
        let q = ps.drop_last();
        assert forall|a: int, b: int| 0 <= a < b < q.len() implies (#[trigger] q[a]).layer_precedence
            <= (#[trigger] q[b]).layer_precedence by {
            assert(q[a] == ps[a] && q[b] == ps[b]);
        }
        lemma_packages_layers_ordered(q, k);
        let p = ps.last();
        let prev = packages_layers(q, k);
        let tail: Seq<LayerView> = match p.composed {
            Ok(rs) => kind_layers(sorted_resources(rs@), k, p.layer_precedence),
            Err(_) => Seq::empty(),
        };
        if let Ok(rs) = p.composed {
            lemma_kind_layers_uniform(sorted_resources(rs@), k, p.layer_precedence);
        }
        let all = packages_layers(ps, k);
        assert(all == prev + tail);
        if q.len() > 0 {
            assert(q.last() == ps[q.len() - 1]);
            assert(q.last().layer_precedence <= p.layer_precedence);
        }
        assert forall|a: int| 0 <= a < all.len() implies (#[trigger] all[a]).2 <= p.layer_precedence
            && all[a].1 is None by {
            if a < prev.len() {
                assert(all[a] == prev[a]);
            } else {
                assert(all[a] == tail[a - prev.len()]);
            }
        }
        assert forall|a: int, b: int| 0 <= a < b < all.len() implies (#[trigger] all[a]).2
            <= (#[trigger] all[b]).2 by {
            if b < prev.len() {
                assert(all[a] == prev[a] && all[b] == prev[b]);
            } else if a < prev.len() {
                assert(all[a] == prev[a] && all[b] == tail[b - prev.len()]);
            } else {
                assert(all[a] == tail[a - prev.len()] && all[b] == tail[b - prev.len()]);
            }
        }
    }
}

// ---------------------------------------------------------------------------
// Registry
// ---------------------------------------------------------------------------

/// A registry of discovered packages.
pub struct PackageRegistry {
    packages: Vec<PackageResource>,
}

/// The prompt line of a package: `- name: description`, then ` v<version>`
/// when it has a version.
pub open spec fn package_line(p: PackageResource) -> Seq<char> {
    "- "@ + p.manifest.name@ + ": "@ + p.manifest.description@ + match p.manifest.version {
        Some(v) => " v"@ + v@,
        None => ""@,
    }
}

/// The index of the first package named `name`.
pub open spec fn first_package_named(s: Seq<PackageResource>, name: Seq<char>) -> Option<int>
    decreases s.len(),
{
    if s.len() == 0 {
        None
    } else if s[0].manifest.name@ == name {
        Some(0)
    } else {
        match first_package_named(s.drop_first(), name) {
            Some(i) => Some(i + 1),
            None => None,
        }
    }
}

impl PackageRegistry {
    /// The packages, in registry order.
    pub closed spec fn view(&self) -> Seq<PackageResource> {
        self.packages@
    }

    /// Build a registry from discovered packages.
    pub fn from_resources(packages: Vec<PackageResource>) -> (r: Self)
        ensures
            r.view() == packages@,
    {
        PackageRegistry { packages }
    }

    /// The names of all packages, sorted in code point order (distinct names,
    /// as discovery gives them, come out strictly ascending).
    pub fn names(&self) -> (r: Vec<String>)
        ensures
            crate::sorting::sorted_le(string_views(r@)),
            crate::sorting::is_reordering(
                string_views(r@),
                Seq::new(self.view().len(), |i: int| self.view()[i].manifest.name@),
            ),
            crate::sorting::all_distinct(
                Seq::new(self.view().len(), |i: int| self.view()[i].manifest.name@),
            ) ==> crate::sorting::strictly_sorted(string_views(r@)),
    {
        let mut out: Vec<String> = Vec::new();
        let mut i: usize = 0;
        while i < self.packages.len()
            invariant
                i <= self.packages@.len(),
                out@.len() == i,
                forall|j: int| 0 <= j < i ==> #[trigger] out@[j]@
                    == self.packages@[j].manifest.name@,
            decreases self.packages.len() - i,
        {
            out.push(self.packages[i].manifest.name.clone());
            i += 1;
        }
        assert(string_views(out@) =~= Seq::new(self.view().len(), |i: int| self.view()[i].manifest.name@));
        crate::sorting::sorted_names(out)
    }

    /// The first package named `name`.
    pub fn get(&self, name: &str) -> (r: Option<&PackageResource>)
        ensures
            match first_package_named(self.view(), name@) {
                Some(i) => r == Some(&self.view()[i]),
                None => r is None,
            },
    {
        let mut i: usize = 0;
        assert(self.packages@.skip(0) =~= self.packages@);
        while i < self.packages.len()
            invariant
                i <= self.packages@.len(),
                first_package_named(self.packages@, name@) == match first_package_named(
                    self.packages@.skip(i as int),
                    name@,
                ) {
                    Some(j) => Some(j + i),
                    None => None,
                },
            decreases self.packages.len() - i,
        {
            assert(self.packages@.skip(i as int).drop_first() =~= self.packages@.skip(i + 1));
            if str_eq(self.packages[i].manifest.name.as_str(), name) {
                return Some(&self.packages[i]);
            }
            i += 1;
        }
        None
    }

    /// The packages as prompt text, one line each.
    pub fn format_for_prompt(&self) -> (r: String)
        ensures
            r@ == join(
                Seq::new(self.view().len(), |i: int| package_line(self.view()[i])),
                "\n"@,
            ),
    {
        let ghost lines = Seq::new(
            self.packages@.len(),
            |i: int| package_line(self.packages@[i]),
        );
        let mut parts: Vec<Vec<char>> = Vec::new();
        let mut i: usize = 0;
        while i < self.packages.len()
            invariant
                i <= self.packages@.len(),
                lines == Seq::new(self.packages@.len(), |i: int| package_line(self.packages@[i])),
                views(parts@) == lines.take(i as int),
                parts@.len() == i,
            decreases self.packages.len() - i,
        {
            let p = &self.packages[i];
            let mut line: Vec<char> = Vec::new();
            extend_str(&mut line, "- ");
            extend_str(&mut line, p.manifest.name.as_str());
            extend_str(&mut line, ": ");
            extend_str(&mut line, p.manifest.description.as_str());
            match &p.manifest.version {
                Some(v) => {
                    extend_str(&mut line, " v");
                    extend_str(&mut line, v.as_str());
                },
                None => {
                    extend_str(&mut line, "");
                },
            }
            assert(line@ == package_line(self.packages@[i as int]));
            let ghost prev = parts@;
            parts.push(line);
            assert forall|j: int| 0 <= j < i implies #[trigger] parts@[j]@ == lines[j] by {
                assert(parts@[j] == prev[j]);
                assert(views(prev)[j] == lines.take(i as int)[j]);
            }
            assert(views(parts@) =~= lines.take(i + 1));
            i += 1;
        }
        assert(lines.take(self.packages.len() as int) =~= lines);
        string_of(&join_chars(&parts, "\n"))
    }
}

} // verus!
