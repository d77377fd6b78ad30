//! Installed packages: from the declarations and lock entries of the global
//! and project stores to the packages that load at runtime, with a
//! diagnostic for each package that does not.
//!
//! A declared package loads only when its source exists, holds
//! `package.toml`, has a lock entry whose manifest hash matches, is a valid
//! package, has a safe adapter command and composes. When both scopes
//! provide a package of the same name, the project one wins; two of the same
//! name within a scope keep the first and report the other.
use sha2::Digest;
use vstd::prelude::*;

use crate::package_discovery::{
    PackageDiscoveryError, PackageResource, check_spec, checked_command_spec,
    discovery_error_message, resolve_adapter_command_checked,
};
use crate::package_store::{
    PackageDeclaration, PackageFilters, PackageIdentity, PackageLockEntry, PackageSource,
    PackageStoreError, parse_source_spec, source_view,
};
use crate::paths::{components, components_of, is_absolute, path_join};
use crate::text::{chars_eq, chars_of, extend_str, str_eq, string_of, string_views};

verus! {

// ---------------------------------------------------------------------------
// Types
// ---------------------------------------------------------------------------

/// The scope a package is installed in.
#[derive(Debug, Clone, Copy, PartialEq, Eq, Structural)]
pub enum InstalledPackageScope {
    Global,
    Project,
}

/// The severity of a package diagnostic.
#[derive(Debug, Clone, Copy, PartialEq, Eq, Structural)]
pub enum PackageDiagnosticSeverity {
    Info,
    Warning,
    Error,
}

/// Why a declared package does not load as declared.
#[derive(Debug)]
pub struct PackageDiagnostic {
    pub scope: InstalledPackageScope,
    /// The declaration's source string.
    pub source: String,
    pub severity: PackageDiagnosticSeverity,
    /// A stable code, such as `lock_missing`.
    pub code: String,
    pub message: String,
}

/// A package that loads at runtime.
#[derive(Debug)]
pub struct ResolvedInstalledPackage {
    pub scope: InstalledPackageScope,
    pub declaration: PackageDeclaration,
    pub identity: PackageIdentity,
    pub lock: Option<PackageLockEntry>,
    pub package: PackageResource,
}

/// The packages that load and the diagnostics of those that do not.
#[derive(Debug)]
pub struct InstalledPackageResolution {
    pub packages: Vec<ResolvedInstalledPackage>,
    pub diagnostics: Vec<PackageDiagnostic>,
}

/// Errors that stop package resolution.
#[derive(Debug)]
pub enum PackageResolverError {
    Failed(String),
}

impl PackageResolverError {
    /// The message of this error.
    pub fn message(&self) -> (r: String)
        ensures
            r@ == "package resolver failed: "@ + (match *self {
                PackageResolverError::Failed(m) => m@,
            }),
    {
        match self {
            PackageResolverError::Failed(m) => {
                let mut v = chars_of("package resolver failed: ");
                extend_str(&mut v, m.as_str());
                string_of(&v)
            },
        }
    }
}

/// The precedence of a scope: the project wins over the global scope.
pub open spec fn scope_rank(s: InstalledPackageScope) -> u32 {
    match s {
        InstalledPackageScope::Global => 0,
        InstalledPackageScope::Project => 1,
    }
}

/// The precedence of a scope.
pub fn scope_precedence(scope: InstalledPackageScope) -> (r: u32)
    ensures
        r == scope_rank(scope),
{
    match scope {
        InstalledPackageScope::Global => 0,
        InstalledPackageScope::Project => 1,
    }
}

/// The name of a scope in messages (its `Debug` form).
pub open spec fn scope_debug(s: InstalledPackageScope) -> Seq<char> {
    match s {
        InstalledPackageScope::Global => "Global"@,
        InstalledPackageScope::Project => "Project"@,
    }
}

/// A diagnostic as plain values: scope, source, severity, code, message.
pub type DiagView = (InstalledPackageScope, Seq<char>, PackageDiagnosticSeverity, Seq<char>, Seq<char>);

/// The plain values of a diagnostic.
pub open spec fn diag_view(d: PackageDiagnostic) -> DiagView {
    (d.scope, d.source@, d.severity, d.code@, d.message@)
}

/// The plain values of diagnostics.
pub open spec fn diag_views(ds: Seq<PackageDiagnostic>) -> Seq<DiagView> {
    ds.map_values(|d: PackageDiagnostic| diag_view(d))
}

/// A diagnostic of the given severity.
pub fn diagnostic_with_severity(
    scope: InstalledPackageScope,
    source: &str,
    severity: PackageDiagnosticSeverity,
    code: &str,
    message: String,
) -> (d: PackageDiagnostic)
    ensures
        diag_view(d) == (scope, source@, severity, code@, message@),
{
    PackageDiagnostic {
        scope,
        source: string_of(&chars_of(source)),
        severity,
        code: string_of(&chars_of(code)),
        message,
    }
}

/// An error diagnostic.
pub fn diagnostic(scope: InstalledPackageScope, source: &str, code: &str, message: String) -> (d:
    PackageDiagnostic)
    ensures
        diag_view(d) == (scope, source@, PackageDiagnosticSeverity::Error, code@, message@),
{
    diagnostic_with_severity(scope, source, PackageDiagnosticSeverity::Error, code, message)
}

/// Text built from pieces.
fn text2(a: &str, b: &str) -> (r: String)
    ensures
        r@ == a@ + b@,
{
    let mut v = chars_of(a);
    extend_str(&mut v, b);
    string_of(&v)
}

// ---------------------------------------------------------------------------
// Manifest hashes
// ---------------------------------------------------------------------------

/// The SHA-256 digest of `bytes`.
pub uninterp spec fn sha256_digest(bytes: Seq<u8>) -> Seq<u8>;

/// The SHA-256 digest of `bytes`, as `sha2::Sha256::digest` computes it: the
/// contract names the result and states its documented size, 32 bytes.
#[verifier::external_body]
pub(crate) fn sha256_bytes(bytes: &[u8]) -> (r: Vec<u8>)
    ensures
        r@ == sha256_digest(bytes@),
        r@.len() == 32,
{
    sha2::Sha256::digest(bytes).to_vec()
}

/// The lowercase hexadecimal SHA-256 digest of `bytes`.
pub open spec fn sha256_hex(bytes: Seq<u8>) -> Seq<char> {
    crate::text::hex_bytes(sha256_digest(bytes))
}

/// The SHA-256 digest of `bytes`, in lowercase hexadecimal.
pub fn sha256_of_bytes(bytes: &[u8]) -> (r: String)
    ensures
        r@ == sha256_hex(bytes@),
        r@.len() == 64,
{
    let d = sha256_bytes(bytes);
    proof {
        crate::text::lemma_hex_bytes_len(d@);
    }
    string_of(&crate::text::hex_bytes_of(d.as_slice()))
}

/// The manifest hash of the file at `path`, given its bytes or the I/O error
/// from reading it.
pub fn manifest_sha256(path: &str, bytes: &Result<Vec<u8>, String>) -> (r: Result<
    String,
    PackageResolverError,
>)
    ensures
        match *bytes {
            Ok(b) => r matches Ok(h) && h@ == sha256_hex(b@) && h@.len() == 64,
            Err(e) => r matches Err(PackageResolverError::Failed(m)) && m@ == "read "@ + path@
                + ": "@ + e@,
        },
{
    match bytes {
        Ok(b) => Ok(sha256_of_bytes(b.as_slice())),
        Err(e) => {
            let mut v = chars_of("read ");
            extend_str(&mut v, path);
            extend_str(&mut v, ": ");
            extend_str(&mut v, e.as_str());
            Err(PackageResolverError::Failed(string_of(&v)))
        },
    }
}

// ---------------------------------------------------------------------------
// Sources and lock entries
// ---------------------------------------------------------------------------

/// `s` with every `\` turned into `/`.
pub open spec fn forward_slashes(s: Seq<char>) -> Seq<char> {
    s.map_values(|c: char| if c == '\\' { '/' } else { c })
}

/// Where a local source lives: the declared source with `\` read as `/`,
/// against `base_dir` unless it is absolute.
pub open spec fn local_source_path_spec(base_dir: Seq<char>, raw_source: Seq<char>) -> Seq<char> {
    let p = forward_slashes(raw_source);
    if is_absolute(p) {
        p
    } else {
        path_join(base_dir, p)
    }
}

/// Where a local source lives, against `base_dir`. Paths are POSIX paths:
/// a source is absolute when it starts with `/`, and a drive-letter or UNC
/// form is joined to `base_dir` like any relative path (on Windows `Path`
/// would keep such a source as it is).
pub fn resolve_local_source_path(base_dir: &str, raw_source: &str) -> (r: String)
    ensures
        r@ == local_source_path_spec(base_dir@, raw_source@),
{
    let c = chars_of(raw_source);
    let mut v: Vec<char> = Vec::new();
    let mut i: usize = 0;
    while i < c.len()
        invariant
            i <= c@.len(),
            c@ == raw_source@,
            v@ == forward_slashes(c@.take(i as int)),
        decreases c.len() - i,
    {
        let ghost prev = v@;
        if c[i] == '\\' {
            v.push('/');
        } else {
            v.push(c[i]);
        }
        assert(forward_slashes(c@.take(i + 1)) =~= forward_slashes(c@.take(i as int)).push(
            if c@[i as int] == '\\' {
                '/'
            } else {
                c@[i as int]
            },
        ));
        i += 1;
    }
    assert(c@.take(c@.len() as int) =~= c@);
    let p = string_of(&v);
    if v.len() > 0 && v[0] == '/' {
        p
    } else {
        crate::paths::join_path(base_dir, p.as_str())
    }
}

/// The directory of a local source path against `base`.
pub open spec fn local_root_spec(path: Seq<char>, base: Seq<char>) -> Seq<char> {
    if is_absolute(path) {
        path
    } else {
        path_join(base, path)
    }
}

/// The directory of a local source against `base`.
pub fn local_source_root(path: &str, base: &str) -> (r: String)
    ensures
        r@ == local_root_spec(path@, base@),
{
    crate::paths::join_path(base, path)
}

/// The identity of a source for resolution: a git source by its URL, a
/// local one by its canonical directory (`canonical` is the canonical form
/// of `local_source_root(path, base)`, or the I/O error).
pub fn source_identity_for_resolution(
    source: &PackageSource,
    base: &str,
    canonical: Result<String, String>,
) -> (r: Result<PackageIdentity, PackageResolverError>)
    ensures
        match *source {
            PackageSource::Git { url, .. } => r matches Ok(id) && id.kind@ == "git"@ && id.value
                == url,
            PackageSource::Local { path } => match canonical {
                Ok(c) => r matches Ok(id) && id.kind@ == "local"@ && id.value == c,
                Err(e) => r matches Err(PackageResolverError::Failed(m)) && m@ == "canonicalize "@
                    + local_root_spec(path@, base@) + ": "@ + e@,
            },
        },
{
    match source {
        PackageSource::Local { path } => match canonical {
            Ok(c) => Ok(PackageIdentity { kind: string_of(&chars_of("local")), value: c }),
            Err(e) => {
                let root = local_source_root(path.as_str(), base);
                let mut v = chars_of("canonicalize ");
                extend_str(&mut v, root.as_str());
                extend_str(&mut v, ": ");
                extend_str(&mut v, e.as_str());
                Err(PackageResolverError::Failed(string_of(&v)))
            },
        },
        PackageSource::Git { url, .. } => Ok(
            PackageIdentity { kind: string_of(&chars_of("git")), value: url.clone() },
        ),
    }
}

/// The "canonicalize" failure for `path`.
fn canonicalize_failed(path: &str, e: &str) -> (r: PackageResolverError)
    ensures
        r matches PackageResolverError::Failed(m) && m@ == "canonicalize "@ + path@ + ": "@ + e@,
{
    let mut v = chars_of("canonicalize ");
    extend_str(&mut v, path);
    extend_str(&mut v, ": ");
    extend_str(&mut v, e);
    PackageResolverError::Failed(string_of(&v))
}

/// The lock entry of a local package, given the canonical form of its root
/// (or the I/O error) and the bytes of the root's `package.toml` (or the
/// I/O error).
pub fn local_lock_entry(
    source: String,
    package_root: &str,
    canonical: Result<String, String>,
    manifest_bytes: Result<Vec<u8>, String>,
) -> (r: Result<PackageLockEntry, PackageResolverError>)
    ensures
        match canonical {
            Err(e) => r matches Err(PackageResolverError::Failed(m)) && m@ == "canonicalize "@
                + package_root@ + ": "@ + e@,
            Ok(c) => match manifest_bytes {
                Err(e) => r matches Err(PackageResolverError::Failed(m)) && m@ == "read "@
                    + path_join(c@, "package.toml"@) + ": "@ + e@,
                Ok(b) => r matches Ok(l) && l.identity_kind@ == "local"@ && l.identity_value == c
                    && l.source == source && l.package_root == c && l.cache_path is None
                    && l.git_commit is None && l.manifest_sha256@ == sha256_hex(b@)
                    && l.manifest_sha256@.len() == 64,
            },
        },
{
    let c = match canonical {
        Err(e) => return Err(canonicalize_failed(package_root, e.as_str())),
        Ok(c) => c,
    };
    let manifest = crate::paths::join_path(c.as_str(), "package.toml");
    let hash = manifest_sha256(manifest.as_str(), &manifest_bytes)?;
    Ok(
        PackageLockEntry {
            identity_kind: string_of(&chars_of("local")),
            identity_value: c.clone(),
            source,
            package_root: c,
            cache_path: None,
            git_commit: None,
            manifest_sha256: hash,
        },
    )
}

/// The lock entry of a git package, given the canonical forms of its root
/// and cache directory (or the I/O errors) and the bytes of the root's
/// `package.toml` (or the I/O error).
pub fn git_lock_entry(
    source: String,
    url: String,
    package_root: &str,
    cache_path: &str,
    git_commit: String,
    canonical_root: Result<String, String>,
    canonical_cache: Result<String, String>,
    manifest_bytes: Result<Vec<u8>, String>,
) -> (r: Result<PackageLockEntry, PackageResolverError>)
    ensures
        match canonical_root {
            Err(e) => r matches Err(PackageResolverError::Failed(m)) && m@ == "canonicalize "@
                + package_root@ + ": "@ + e@,
            Ok(root) => match canonical_cache {
                Err(e) => r matches Err(PackageResolverError::Failed(m)) && m@ == "canonicalize "@
                    + cache_path@ + ": "@ + e@,
                Ok(cache) => match manifest_bytes {
                    Err(e) => r matches Err(PackageResolverError::Failed(m)) && m@ == "read "@
                        + path_join(root@, "package.toml"@) + ": "@ + e@,
                    Ok(b) => r matches Ok(l) && l.identity_kind@ == "git"@ && l.identity_value
                        == url && l.source == source && l.package_root == root && l.cache_path
                        == Some(cache) && l.git_commit == Some(git_commit) && l.manifest_sha256@
                        == sha256_hex(b@) && l.manifest_sha256@.len() == 64,
                },
            },
        },
{
    let root = match canonical_root {
        Err(e) => return Err(canonicalize_failed(package_root, e.as_str())),
        Ok(c) => c,
    };
    let cache = match canonical_cache {
        Err(e) => return Err(canonicalize_failed(cache_path, e.as_str())),
        Ok(c) => c,
    };
    let manifest = crate::paths::join_path(root.as_str(), "package.toml");
    let hash = manifest_sha256(manifest.as_str(), &manifest_bytes)?;
    Ok(
        PackageLockEntry {
            identity_kind: string_of(&chars_of("git")),
            identity_value: url,
            source,
            package_root: root,
            cache_path: Some(cache),
            git_commit: Some(git_commit),
            manifest_sha256: hash,
        },
    )
}

/// `l` is the lock entry of local source `source` at `canonical_root`.
pub open spec fn local_lock_matches(l: PackageLockEntry, source: Seq<char>, canonical_root: Seq<char>) -> bool {
    l.identity_kind@ == "local"@ && (l.source@ == source || l.identity_value@ == canonical_root
        || components(l.package_root@) == components(canonical_root))
}

/// `l` is the lock entry of git source `source` at `url`.
pub open spec fn git_lock_matches(l: PackageLockEntry, source: Seq<char>, url: Seq<char>) -> bool {
    l.identity_kind@ == "git"@ && l.source@ == source && l.identity_value@ == url
}

/// `l` is a lock entry of a git package at `url`, whatever its source.
pub open spec fn git_identity_matches(l: PackageLockEntry, url: Seq<char>) -> bool {
    l.identity_kind@ == "git"@ && l.identity_value@ == url
}

/// The kind of a lock lookup.
#[derive(Debug, Clone, Copy, PartialEq, Eq, Structural)]
pub enum LockQuery {
    /// The lock of a local source at a canonical root.
    Local,
    /// The lock of a git source at a URL.
    Git,
    /// Any lock of a git package at a URL.
    GitIdentity,
}

/// `l` answers the lookup.
pub open spec fn lock_answers(q: LockQuery, l: PackageLockEntry, source: Seq<char>, key: Seq<char>) -> bool {
    match q {
        LockQuery::Local => local_lock_matches(l, source, key),
        LockQuery::Git => git_lock_matches(l, source, key),
        LockQuery::GitIdentity => git_identity_matches(l, key),
    }
}

/// The index of the first lock entry answering the lookup.
pub open spec fn first_lock(
    locks: Seq<PackageLockEntry>,
    q: LockQuery,
    source: Seq<char>,
    key: Seq<char>,
) -> Option<int>
    decreases locks.len(),
{
    if locks.len() == 0 {
        None
    } else if lock_answers(q, locks[0], source, key) {
        Some(0)
    } else {
        match first_lock(locks.drop_first(), q, source, key) {
            Some(i) => Some(i + 1),
            None => None,
        }
    }
}

/// Components are equal, one by one.
fn same_components(a: &Vec<Vec<char>>, b: &Vec<Vec<char>>) -> (r: bool)
    ensures
        r == (crate::text::views(a@) == crate::text::views(b@)),
{
    if a.len() != b.len() {
        assert(crate::text::views(a@).len() != crate::text::views(b@).len());
        return false;
    }
    let mut i: usize = 0;
    while i < a.len()
        invariant
            i <= a@.len(),
            a@.len() == b@.len(),
            forall|j: int| 0 <= j < i ==> #[trigger] a@[j]@ == b@[j]@,
        decreases a.len() - i,
    {
        if !chars_eq(&a[i], &b[i]) {
            assert(crate::text::views(a@)[i as int] != crate::text::views(b@)[i as int]);
            return false;
        }
        i += 1;
    }
    assert(crate::text::views(a@) =~= crate::text::views(b@));
    true
}

/// The first lock entry answering the lookup.
pub fn find_lock(locks: &Vec<PackageLockEntry>, q: LockQuery, source: &str, key: &str) -> (r: Option<
    usize,
>)
    ensures
        match first_lock(locks@, q, source@, key@) {
            Some(i) => r is Some && r->0 as int == i,
            None => r is None,
        },
{
    let key_components = components_of(&chars_of(key));
    let mut i: usize = 0;
    assert(locks@.skip(0) =~= locks@);
    while i < locks.len()
        invariant
            i <= locks@.len(),
            crate::text::views(key_components@) == components(key@),
            first_lock(locks@, q, source@, key@) == match first_lock(
                locks@.skip(i as int),
                q,
                source@,
                key@,
            ) {
                Some(j) => Some(j + i),
                None => None,
            },
        decreases locks.len() - i,
    {
        assert(locks@.skip(i as int).drop_first() =~= locks@.skip(i + 1));
        assert(locks@.skip(i as int)[0] == locks@[i as int]);
        let l = &locks[i];
        let kind = l.identity_kind.as_str();
        let hit = match q {
            LockQuery::Local => str_eq(kind, "local") && (str_eq(l.source.as_str(), source)
                || str_eq(l.identity_value.as_str(), key) || same_components(
                &components_of(&chars_of(l.package_root.as_str())),
                &key_components,
            )),
            LockQuery::Git => str_eq(kind, "git") && str_eq(l.source.as_str(), source) && str_eq(
                l.identity_value.as_str(),
                key,
            ),
            LockQuery::GitIdentity => str_eq(kind, "git") && str_eq(l.identity_value.as_str(), key),
        };
        if hit {
            return Some(i);
        }
        i += 1;
    }
    None
}

// ---------------------------------------------------------------------------
// Resolving one declaration
// ---------------------------------------------------------------------------

/// Where a declared package is to be found, decided from its source and the
/// lock entries before the file system is read.
#[derive(Debug)]
pub enum DeclaredRoot {
    /// A local source: this directory.
    Local { source_root: String },
    /// A git source: the directory of lock entry `lock`.
    Git { url: String, lock: usize },
}

/// `e` is the error diagnostic `code`/`message` of `scope` and `source`.
pub open spec fn is_error_diag(
    d: PackageDiagnostic,
    scope: InstalledPackageScope,
    source: Seq<char>,
    code: Seq<char>,
    message: Seq<char>,
) -> bool {
    diag_view(d) == (scope, source, PackageDiagnosticSeverity::Error, code, message)
}

/// The message of a missing lock entry.
pub open spec fn lock_missing_message() -> Seq<char> {
    "package lock entry is missing; package is disabled at runtime"@
}

/// What `declaration_root` decides.
pub open spec fn declared_root_is(
    scope: InstalledPackageScope,
    base_dir: Seq<char>,
    source: Seq<char>,
    locks: Seq<PackageLockEntry>,
    r: Result<DeclaredRoot, PackageDiagnostic>,
) -> bool {
    match parse_source_spec(source) {
        Err(reason) => r matches Err(d) && is_error_diag(
            d,
            scope,
            source,
            "invalid_source"@,
            "invalid package source: "@ + ("invalid package source '"@ + source + "': "@ + reason),
        ),
        Ok(v) => if !v.2 {
            r matches Ok(DeclaredRoot::Local { source_root }) && source_root@
                == local_source_path_spec(base_dir, source)
        } else {
            match first_lock(locks, LockQuery::Git, source, v.0) {
                Some(i) => r matches Ok(DeclaredRoot::Git { url, lock }) && url@ == v.0 && lock == i,
                None => match first_lock(locks, LockQuery::GitIdentity, source, v.0) {
                    Some(j) => r matches Err(d) && is_error_diag(
                        d,
                        scope,
                        source,
                        "lock_source_mismatch"@,
                        "package lock source '"@ + locks[j].source@
                            + "' does not match declaration source '"@ + source + "'"@,
                    ),
                    None => r matches Err(d) && is_error_diag(
                        d,
                        scope,
                        source,
                        "lock_missing"@,
                        lock_missing_message(),
                    ),
                },
            }
        },
    }
}

/// Decide where a declared package is to be found: a local source's
/// directory, or a git source's locked directory; a source that cannot be
/// parsed or a git source without its lock entry gets a diagnostic.
pub fn declaration_root(
    scope: InstalledPackageScope,
    base_dir: &str,
    declaration: &PackageDeclaration,
    locks: &Vec<PackageLockEntry>,
) -> (r: Result<DeclaredRoot, PackageDiagnostic>)
    ensures
        declared_root_is(scope, base_dir@, declaration.source@, locks@, r),
{
    let src = declaration.source.as_str();
    let source = match PackageSource::parse(src) {
        Ok(s) => s,
        Err(e) => {
            let m = text2("invalid package source: ", e.message().as_str());
            return Err(diagnostic(scope, src, "invalid_source", m));
        },
    };
    match source {
        PackageSource::Local { .. } => Ok(
            DeclaredRoot::Local { source_root: resolve_local_source_path(base_dir, src) },
        ),
        PackageSource::Git { url, .. } => {
            match find_lock(locks, LockQuery::Git, src, url.as_str()) {
                Some(i) => Ok(DeclaredRoot::Git { url, lock: i }),
                None => match find_lock(locks, LockQuery::GitIdentity, src, url.as_str()) {
                    Some(j) => {
                        proof {
                            lemma_first_lock_bound(locks@, LockQuery::GitIdentity, src@, url@);
                        }
                        let mut v = chars_of("package lock source '");
                        extend_str(&mut v, locks[j].source.as_str());
                        extend_str(&mut v, "' does not match declaration source '");
                        extend_str(&mut v, src);
                        extend_str(&mut v, "'");
                        Err(diagnostic(scope, src, "lock_source_mismatch", string_of(&v)))
                    },
                    None => Err(
                        diagnostic(
                            scope,
                            src,
                            "lock_missing",
                            string_of(
                                &chars_of(
                                    "package lock entry is missing; package is disabled at runtime",
                                ),
                            ),
                        ),
                    ),
                },
            }
        },
    }
}

/// A found lock index lies inside the entries.
pub proof fn lemma_first_lock_bound(
    locks: Seq<PackageLockEntry>,
    q: LockQuery,
    source: Seq<char>,
    key: Seq<char>,
)
    ensures
        first_lock(locks, q, source, key) matches Some(i) ==> 0 <= i < locks.len() && lock_answers(
            q,
            locks[i],
            source,
            key,
        ),
    decreases locks.len(),
{
    if locks.len() > 0 && !lock_answers(q, locks[0], source, key) {
        lemma_first_lock_bound(locks.drop_first(), q, source, key);
        if let Some(i) = first_lock(locks.drop_first(), q, source, key) {
            assert(locks.drop_first()[i] == locks[i + 1]);
        }
    }
}

/// What the file system showed of a declared package's directory.
#[derive(Debug)]
pub struct RootFacts {
    /// The directory exists.
    pub is_dir: bool,
    /// It holds a `package.toml` file.
    pub has_manifest: bool,
    /// Its canonical path, or the I/O error (read for local sources only).
    pub canonical: Result<String, String>,
    /// The bytes of `package.toml` (under the canonical path of a local
    /// source), or the I/O error.
    pub manifest_bytes: Result<Vec<u8>, String>,
    /// The package discovered there (see `discover_package_root`).
    pub discovered: Result<PackageResource, PackageDiscoveryError>,
    /// The outcome of composing that package (see `PackageResource::compose`).
    pub composition: Result<(), PackageDiscoveryError>,
}

/// The directory a declared root points at.
pub open spec fn root_dir(root: DeclaredRoot, locks: Seq<PackageLockEntry>) -> Seq<char> {
    match root {
        DeclaredRoot::Local { source_root } => source_root@,
        DeclaredRoot::Git { lock, .. } => locks[lock as int].package_root@,
    }
}

/// The message of a manifest that drifted from its lock entry.
pub open spec fn drift_message(expected: Seq<char>, actual: Seq<char>) -> Seq<char> {
    "package manifest hash does not match the lock file (expected "@ + expected + ", actual "@
        + actual + "); package is disabled at runtime"@
}

/// The checks before discovery: `Ok((identity, lock))` with the identity
/// value (canonical directory or URL) and the index of the lock entry, or
/// `Err((code, message))`.
pub open spec fn root_checks(
    root: DeclaredRoot,
    locks: Seq<PackageLockEntry>,
    source: Seq<char>,
    facts: RootFacts,
) -> Result<(Seq<char>, int), (Seq<char>, Seq<char>)> {
    let dir = root_dir(root, locks);
    if !facts.is_dir {
        Err(("source_missing"@, "package source does not exist: "@ + dir))
    } else if !facts.has_manifest {
        Err(("manifest_missing"@, "package source has no package.toml: "@ + dir))
    } else {
        match root {
            DeclaredRoot::Local { .. } => match facts.canonical {
                Err(e) => Err(("source_missing"@, "canonicalize "@ + dir + ": "@ + e@)),
                Ok(c) => match facts.manifest_bytes {
                    Err(e) => Err(
                        (
                            "manifest_hash_failed"@,
                            "package resolver failed: "@ + ("read "@ + path_join(
                                c@,
                                "package.toml"@,
                            ) + ": "@ + e@),
                        ),
                    ),
                    Ok(b) => match first_lock(locks, LockQuery::Local, source, c@) {
                        None => Err(("lock_missing"@, lock_missing_message())),
                        Some(i) => if locks[i].manifest_sha256@ != sha256_hex(b@) {
                            Err(
                                (
                                    "lock_drifted"@,
                                    drift_message(locks[i].manifest_sha256@, sha256_hex(b@)),
                                ),
                            )
                        } else {
                            Ok((c@, i))
                        },
                    },
                },
            },
            DeclaredRoot::Git { url, lock } => match facts.manifest_bytes {
                Err(e) => Err(
                    (
                        "manifest_hash_failed"@,
                        "package resolver failed: "@ + ("read "@ + path_join(dir, "package.toml"@)
                            + ": "@ + e@),
                    ),
                ),
                Ok(b) => if locks[lock as int].manifest_sha256@ != sha256_hex(b@) {
                    Err(
                        (
                            "lock_drifted"@,
                            drift_message(locks[lock as int].manifest_sha256@, sha256_hex(b@)),
                        ),
                    )
                } else {
                    Ok((url@, lock as int))
                },
            },
        }
    }
}

/// The drift diagnostic's message.
fn drift_text(expected: &str, actual: &str) -> (r: String)
    ensures
        r@ == drift_message(expected@, actual@),
{
    let mut v = chars_of("package manifest hash does not match the lock file (expected ");
    extend_str(&mut v, expected);
    extend_str(&mut v, ", actual ");
    extend_str(&mut v, actual);
    extend_str(&mut v, "); package is disabled at runtime");
    string_of(&v)
}

/// A declared root names a lock entry that exists.
pub open spec fn root_wf(root: DeclaredRoot, locks: Seq<PackageLockEntry>) -> bool {
    root matches DeclaredRoot::Git { lock, .. } ==> lock < locks.len()
}

/// Run the checks before discovery.
fn check_root(
    root: &DeclaredRoot,
    locks: &Vec<PackageLockEntry>,
    source: &str,
    facts: &RootFacts,
) -> (r: Result<(String, usize), (String, String)>)
    requires
        root_wf(*root, locks@),
    ensures
        match root_checks(*root, locks@, source@, *facts) {
            Ok((id, i)) => r matches Ok((s, j)) && s@ == id && j as int == i && j < locks@.len(),
            Err((code, message)) => r matches Err((c, m)) && c@ == code && m@ == message,
        },
{
    let dir = match root {
        DeclaredRoot::Local { source_root } => source_root.as_str(),
        DeclaredRoot::Git { lock, .. } => locks[*lock].package_root.as_str(),
    };
    if !facts.is_dir {
        return Err((owned_text("source_missing"), text2("package source does not exist: ", dir)));
    }
    if !facts.has_manifest {
        return Err(
            (owned_text("manifest_missing"), text2("package source has no package.toml: ", dir)),
        );
    }
    match root {
        DeclaredRoot::Local { .. } => {
            let c = match &facts.canonical {
                Err(e) => {
                    let mut v = chars_of("canonicalize ");
                    extend_str(&mut v, dir);
                    extend_str(&mut v, ": ");
                    extend_str(&mut v, e.as_str());
                    return Err((owned_text("source_missing"), string_of(&v)));
                },
                Ok(c) => c,
            };
            let manifest = crate::paths::join_path(c.as_str(), "package.toml");
            let hash = match manifest_sha256(manifest.as_str(), &facts.manifest_bytes) {
                Err(e) => return Err((owned_text("manifest_hash_failed"), e.message())),
                Ok(h) => h,
            };
            proof {
                lemma_first_lock_bound(locks@, LockQuery::Local, source@, c@);
            }
            let i = match find_lock(locks, LockQuery::Local, source, c.as_str()) {
                None => {
                    return Err(
                        (
                            owned_text("lock_missing"),
                            owned_text(
                                "package lock entry is missing; package is disabled at runtime",
                            ),
                        ),
                    );
                },
                Some(i) => i,
            };
            let expected = locks[i].manifest_sha256.as_str();
            if !str_eq(expected, hash.as_str()) {
                return Err((owned_text("lock_drifted"), drift_text(expected, hash.as_str())));
            }
            Ok((c.clone(), i))
        },
        DeclaredRoot::Git { url, lock } => {
            let manifest = crate::paths::join_path(dir, "package.toml");
            let hash = match manifest_sha256(manifest.as_str(), &facts.manifest_bytes) {
                Err(e) => return Err((owned_text("manifest_hash_failed"), e.message())),
                Ok(h) => h,
            };
            let expected = locks[*lock].manifest_sha256.as_str();
            if !str_eq(expected, hash.as_str()) {
                return Err((owned_text("lock_drifted"), drift_text(expected, hash.as_str())));
            }
            Ok((url.clone(), *lock))
        },
    }
}

/// An owned copy of a string.
fn owned_text(s: &str) -> (r: String)
    ensures
        r@ == s@,
{
    string_of(&chars_of(s))
}

/// A copy of an optional string.
fn copy_opt(s: &Option<String>) -> (r: Option<String>)
    ensures
        r == *s,
{
    match s {
        Some(v) => Some(v.clone()),
        None => None,
    }
}

/// A copy of a lock entry.
pub fn copy_lock(l: &PackageLockEntry) -> (r: PackageLockEntry)
    ensures
        r == *l,
{
    PackageLockEntry {
        identity_kind: l.identity_kind.clone(),
        identity_value: l.identity_value.clone(),
        source: l.source.clone(),
        package_root: l.package_root.clone(),
        cache_path: copy_opt(&l.cache_path),
        git_commit: copy_opt(&l.git_commit),
        manifest_sha256: l.manifest_sha256.clone(),
    }
}

/// The message of an adapter command that leaves its package.
pub open spec fn adapter_escape_message(path: Seq<char>) -> Seq<char> {
    "security: resource path escapes package directory for "@ + "adapter"@ + ": "@ + path + " ("@
        + "adapter command escapes package root"@ + ")"@
}

/// The diagnostics after discovery of package `pkg`, and whether it loads:
/// an incompatible `opi_version` is a warning; an adapter command that
/// leaves the package, or a failed composition, disables it.
pub open spec fn after_discovery(
    scope: InstalledPackageScope,
    source: Seq<char>,
    pkg: PackageResource,
    composition: Result<(), PackageDiscoveryError>,
    current: Seq<char>,
) -> (Seq<DiagView>, bool) {
    let w: Seq<DiagView> = match pkg.manifest.opi_version {
        Some(c) => match check_spec(c@, current) {
            Some(m) => seq![
                (scope, source, PackageDiagnosticSeverity::Warning, "opi_version_incompatible"@, m),
            ],
            None => Seq::empty(),
        },
        None => Seq::empty(),
    };
    let adapter_error: Option<Seq<char>> = match pkg.manifest.adapter {
        Some(a) => match checked_command_spec(a.command@, pkg.path@) {
            Err(p) => Some(adapter_escape_message(p)),
            Ok(_) => None,
        },
        None => None,
    };
    match adapter_error {
        Some(m) => (
            w.push((scope, source, PackageDiagnosticSeverity::Error, "adapter_command_invalid"@, m)),
            false,
        ),
        None => match composition {
            Err(e) => (
                w.push(
                    (
                        scope,
                        source,
                        PackageDiagnosticSeverity::Error,
                        "composition_failed"@,
                        discovery_error_message(e),
                    ),
                ),
                false,
            ),
            Ok(_) => (w, true),
        },
    }
}

/// Push a diagnostic.
fn push_diag(diagnostics: &mut Vec<PackageDiagnostic>, d: PackageDiagnostic)
    ensures
        diag_views(final(diagnostics)@) == diag_views(old(diagnostics)@).push(diag_view(d)),
{
    let ghost before = diagnostics@;
    diagnostics.push(d);
    assert(diag_views(diagnostics@) =~= diag_views(before).push(diag_view(d)));
}

/// Resolve a declared package from what the file system showed of its
/// directory: the package that loads, or `None` with a diagnostic saying
/// why not (an `opi_version` warning does not stop it). `current_version`
/// is the running opi version.
pub fn resolve_declaration(
    scope: InstalledPackageScope,
    declaration: PackageDeclaration,
    locks: &Vec<PackageLockEntry>,
    root: DeclaredRoot,
    facts: RootFacts,
    current_version: &str,
    diagnostics: &mut Vec<PackageDiagnostic>,
) -> (r: Option<ResolvedInstalledPackage>)
    requires
        root_wf(root, locks@),
    ensures
        match root_checks(root, locks@, declaration.source@, facts) {
            Err((code, message)) => r is None && diag_views(final(diagnostics)@) == diag_views(
                old(diagnostics)@,
            ).push((scope, declaration.source@, PackageDiagnosticSeverity::Error, code, message)),
            Ok((id, i)) => match facts.discovered {
                Err(e) => r is None && diag_views(final(diagnostics)@) == diag_views(
                    old(diagnostics)@,
                ).push(
                    (
                        scope,
                        declaration.source@,
                        PackageDiagnosticSeverity::Error,
                        "discovery_failed"@,
                        discovery_error_message(e) + "; package is disabled at runtime"@,
                    ),
                ),
                Ok(pkg) => {
                    let (ds, loads) = after_discovery(
                        scope,
                        declaration.source@,
                        pkg,
                        facts.composition,
                        current_version@,
                    );
                    &&& diag_views(final(diagnostics)@) == diag_views(old(diagnostics)@) + ds
                    &&& loads ==> (r matches Some(p) && p.scope == scope && p.declaration
                        == declaration && p.identity.kind@ == (if root is Local {
                        "local"@
                    } else {
                        "git"@
                    }) && p.identity.value@ == id && p.lock == Some(locks@[i]) && p.package == pkg)
                    &&& !loads ==> r is None
                },
            },
        },
        declaration_law(
            scope,
            declaration,
            r,
            diag_views(old(diagnostics)@),
            diag_views(final(diagnostics)@),
        ),
{
    let ghost before = diag_views(diagnostics@);
    let ghost decl = declaration;
    let ghost f = facts;
    let r = resolve_declaration_step(scope, declaration, locks, root, facts, current_version, diagnostics);
    proof {
        let after = diag_views(diagnostics@);
        match root_checks(root, locks@, decl.source@, f) {
            Err(_) => {
                assert(after.take(before.len() as int) =~= before);
                assert(after[before.len() as int].2 == PackageDiagnosticSeverity::Error);
            },
            Ok(_) => match f.discovered {
                Err(_) => {
                    assert(after.take(before.len() as int) =~= before);
                    assert(after[before.len() as int].2 == PackageDiagnosticSeverity::Error);
                },
                Ok(pkg) => {
                    let (ds, loads) = after_discovery(scope, decl.source@, pkg, f.composition, current_version@);
                    lemma_loads_or_error(scope, decl.source@, pkg, f.composition, current_version@);
                    assert(after.take(before.len() as int) =~= before);
                    assert forall|i: int| before.len() <= i < after.len() implies (#[trigger] after[i]).0 == scope
                        && after[i].1 == decl.source@ && (r is Some ==> after[i].2 == PackageDiagnosticSeverity::Warning) by {
                        assert(after[i] == ds[i - before.len()]);
                    }
                    if r is None {
                        assert(after[after.len() - 1] == ds.last());
                    }
                },
            },
        }
    }
    r
}

/// The step behind `resolve_declaration`.
fn resolve_declaration_step(
    scope: InstalledPackageScope,
    declaration: PackageDeclaration,
    locks: &Vec<PackageLockEntry>,
    root: DeclaredRoot,
    facts: RootFacts,
    current_version: &str,
    diagnostics: &mut Vec<PackageDiagnostic>,
) -> (r: Option<ResolvedInstalledPackage>)
    requires
        root_wf(root, locks@),
    ensures
        match root_checks(root, locks@, declaration.source@, facts) {
            Err((code, message)) => r is None && diag_views(final(diagnostics)@) == diag_views(
                old(diagnostics)@,
            ).push((scope, declaration.source@, PackageDiagnosticSeverity::Error, code, message)),
            Ok((id, i)) => match facts.discovered {
                Err(e) => r is None && diag_views(final(diagnostics)@) == diag_views(
                    old(diagnostics)@,
                ).push(
                    (
                        scope,
                        declaration.source@,
                        PackageDiagnosticSeverity::Error,
                        "discovery_failed"@,
                        discovery_error_message(e) + "; package is disabled at runtime"@,
                    ),
                ),
                Ok(pkg) => {
                    let (ds, loads) = after_discovery(
                        scope,
                        declaration.source@,
                        pkg,
                        facts.composition,
                        current_version@,
                    );
                    &&& diag_views(final(diagnostics)@) == diag_views(old(diagnostics)@) + ds
                    &&& loads ==> (r matches Some(p) && p.scope == scope && p.declaration
                        == declaration && p.identity.kind@ == (if root is Local {
                        "local"@
                    } else {
                        "git"@
                    }) && p.identity.value@ == id && p.lock == Some(locks@[i]) && p.package == pkg)
                    &&& !loads ==> r is None
                },
            },
        },
{
    let src = declaration.source.as_str();
    let (id, i) = match check_root(&root, locks, src, &facts) {
        Err((code, message)) => {
            push_diag(diagnostics, diagnostic(scope, src, code.as_str(), message));
            return None;
        },
        Ok(v) => v,
    };
    let RootFacts { discovered, composition, .. } = facts;
    let pkg = match discovered {
        Err(e) => {
            let m = text2(e.message().as_str(), "; package is disabled at runtime");
            push_diag(diagnostics, diagnostic(scope, src, "discovery_failed", m));
            return None;
        },
        Ok(p) => p,
    };
    let ghost old_views = diag_views(diagnostics@);
    match &pkg.manifest.opi_version {
        Some(c) => match crate::package_discovery::OpiVersionDiagnostic::check(
            c.as_str(),
            current_version,
        ) {
            Some(d) => {
                push_diag(
                    diagnostics,
                    diagnostic_with_severity(
                        scope,
                        src,
                        PackageDiagnosticSeverity::Warning,
                        "opi_version_incompatible",
                        d.message,
                    ),
                );
            },
            None => {},
        },
        None => {},
    }
    let ghost warned = diag_views(diagnostics@);
    match &pkg.manifest.adapter {
        Some(a) => match resolve_adapter_command_checked(a, pkg.path.as_str()) {
            Err(e) => {
                push_diag(
                    diagnostics,
                    diagnostic(scope, src, "adapter_command_invalid", e.message()),
                );
                return None;
            },
            Ok(_) => {},
        },
        None => {},
    }
    match &composition {
        Err(e) => {
            push_diag(diagnostics, diagnostic(scope, src, "composition_failed", e.message()));
            return None;
        },
        Ok(_) => {},
    }
    let kind = match root {
        DeclaredRoot::Local { .. } => owned_text("local"),
        DeclaredRoot::Git { .. } => owned_text("git"),
    };
    let lock = copy_lock(&locks[i]);
    Some(
        ResolvedInstalledPackage {
            scope,
            declaration,
            identity: PackageIdentity { kind, value: id },
            lock: Some(lock),
            package: pkg,
        },
    )
}

// ---------------------------------------------------------------------------
// Ordering and precedence
// ---------------------------------------------------------------------------

/// The sort keys of resolved packages: scope precedence, name, source.
pub open spec fn resolved_keys(ps: Seq<ResolvedInstalledPackage>) -> Seq<crate::sorting::SortKey> {
    ps.map_values(
        |p: ResolvedInstalledPackage|
            (scope_rank(p.scope), p.package.manifest.name@, p.declaration.source@),
    )
}

/// The sort keys of resolved packages without the source.
pub open spec fn named_keys(ps: Seq<ResolvedInstalledPackage>) -> Seq<crate::sorting::SortKey> {
    ps.map_values(
        |p: ResolvedInstalledPackage|
            (scope_rank(p.scope), p.package.manifest.name@, Seq::<char>::empty()),
    )
}

/// The sort keys of resolved packages.
fn keys_of(ps: &Vec<ResolvedInstalledPackage>, with_source: bool) -> (r: Vec<
    crate::sorting::ExecSortKey,
>)
    ensures
        crate::sorting::key_views(r@) == if with_source {
            resolved_keys(ps@)
        } else {
            named_keys(ps@)
        },
{
    let mut keys: Vec<crate::sorting::ExecSortKey> = Vec::new();
    let mut i: usize = 0;
    while i < ps.len()
        invariant
            i <= ps@.len(),
            keys@.len() == i,
            forall|j: int|
                0 <= j < i ==> (#[trigger] keys@[j]).0 == scope_rank(ps@[j].scope) && keys@[j].1@
                    == ps@[j].package.manifest.name@ && keys@[j].2@ == (if with_source {
                    ps@[j].declaration.source@
                } else {
                    Seq::<char>::empty()
                }),
        decreases ps.len() - i,
    {
        let p = &ps[i];
        let third = if with_source {
            chars_of(p.declaration.source.as_str())
        } else {
            Vec::new()
        };
        keys.push((scope_precedence(p.scope), chars_of(p.package.manifest.name.as_str()), third));
        i += 1;
    }
    proof {
        if with_source {
            assert(crate::sorting::key_views(keys@) =~= resolved_keys(ps@));
        } else {
            assert(crate::sorting::key_views(keys@) =~= named_keys(ps@));
        }
    }
    keys
}

/// Sort resolved packages by scope precedence, then name, then source.
pub fn sort_resolved(packages: Vec<ResolvedInstalledPackage>) -> (r: Vec<ResolvedInstalledPackage>)
    ensures
        r@ == crate::sorting::reordered(
            packages@,
            crate::sorting::stable_sort_spec(resolved_keys(packages@)),
        ),
        crate::sorting::stable_order(
            resolved_keys(packages@),
            crate::sorting::stable_sort_spec(resolved_keys(packages@)),
        ),
{
    let keys = keys_of(&packages, true);
    let order = crate::sorting::stable_sorted_order(&keys);
    crate::sorting::apply_order(packages, &order)
}

/// The index of the first package named `name`.
pub open spec fn index_named(ps: Seq<ResolvedInstalledPackage>, name: Seq<char>) -> Option<int>
    decreases ps.len(),
{
    if ps.len() == 0 {
        None
    } else if ps[0].package.manifest.name@ == name {
        Some(0)
    } else {
        match index_named(ps.drop_first(), name) {
            Some(i) => Some(i + 1),
            None => None,
        }
    }
}

/// The message of a package whose name another package of its scope already
/// provides.
pub open spec fn duplicate_message(
    name: Seq<char>,
    scope: InstalledPackageScope,
    existing_source: Seq<char>,
) -> Seq<char> {
    "duplicate manifest name '"@ + name + "' in scope "@ + scope_debug(scope)
        + " (already provided by '"@ + existing_source + "'); package is disabled at runtime"@
}

/// The packages kept, one per name, and the diagnostics of those dropped,
/// taking `ps` in order: a package of higher precedence than the kept one
/// of its name replaces it; one of equal precedence is dropped and reported;
/// one of lower precedence is dropped.
pub open spec fn dedupe_spec(ps: Seq<ResolvedInstalledPackage>) -> (
    Seq<ResolvedInstalledPackage>,
    Seq<DiagView>,
)
    decreases ps.len(),
{
    if ps.len() == 0 {
        (Seq::empty(), Seq::empty())
    } else {
        let (kept, ds) = dedupe_spec(ps.drop_last());
        let p = ps.last();
        match index_named(kept, p.package.manifest.name@) {
            Some(e) => if scope_rank(kept[e].scope) >= scope_rank(p.scope) {
                if scope_rank(kept[e].scope) == scope_rank(p.scope) {
                    (
                        kept,
                        ds.push(
                            (
                                p.scope,
                                p.declaration.source@,
                                PackageDiagnosticSeverity::Error,
                                "duplicate_name"@,
                                duplicate_message(
                                    p.package.manifest.name@,
                                    p.scope,
                                    kept[e].declaration.source@,
                                ),
                            ),
                        ),
                    )
                } else {
                    (kept, ds)
                }
            } else {
                (kept.update(e, p), ds)
            },
            None => (kept.push(p), ds),
        }
    }
}

/// A found index lies inside the sequence and names the package.
proof fn lemma_index_named_bound(ps: Seq<ResolvedInstalledPackage>, name: Seq<char>)
    ensures
        index_named(ps, name) matches Some(i) ==> 0 <= i < ps.len() && ps[i].package.manifest.name@
            == name,
    decreases ps.len(),
{
    if ps.len() > 0 && ps[0].package.manifest.name@ != name {
        lemma_index_named_bound(ps.drop_first(), name);
        if let Some(i) = index_named(ps.drop_first(), name) {
            assert(ps.drop_first()[i] == ps[i + 1]);
        }
    }
}

/// The first package named `name`.
fn find_named(ps: &Vec<ResolvedInstalledPackage>, name: &str) -> (r: Option<usize>)
    ensures
        match index_named(ps@, name@) {
            Some(i) => r is Some && r->0 as int == i,
            None => r is None,
        },
{
    let mut i: usize = 0;
    assert(ps@.skip(0) =~= ps@);
    while i < ps.len()
        invariant
            i <= ps@.len(),
            index_named(ps@, name@) == match index_named(ps@.skip(i as int), name@) {
                Some(j) => Some(j + i),
                None => None,
            },
        decreases ps.len() - i,
    {
        assert(ps@.skip(i as int).drop_first() =~= ps@.skip(i + 1));
        assert(ps@.skip(i as int)[0] == ps@[i as int]);
        if str_eq(ps[i].package.manifest.name.as_str(), name) {
            return Some(i);
        }
        i += 1;
    }
    None
}

/// The error for a store of `scope` whose `what` (`declarations` or
/// `lock`) could not be read, for the reason `reason`.
pub fn scope_read_error(scope: InstalledPackageScope, what: &str, reason: &str) -> (r:
    PackageResolverError)
    ensures
        r == PackageResolverError::Failed(r->Failed_0),
        r->Failed_0@ == "read "@ + scope_debug(scope) + " package "@ + what@ + ": "@ + reason@,
{
    let mut v = chars_of("read ");
    extend_str(&mut v, scope_debug_text(scope));
    extend_str(&mut v, " package ");
    extend_str(&mut v, what);
    extend_str(&mut v, ": ");
    extend_str(&mut v, reason);
    PackageResolverError::Failed(string_of(&v))
}

/// Gather the declared packages of both scopes: `resolved` holds those that
/// loaded, global scope first and each scope in declaration order, and
/// `diagnostics` those of the others. The packages come out ordered by scope
/// precedence, then name, then source; none is dropped or repeated.
pub fn resolve_declared_installed_packages(
    resolved: Vec<ResolvedInstalledPackage>,
    diagnostics: Vec<PackageDiagnostic>,
) -> (r: InstalledPackageResolution)
    ensures
        r.packages@ == crate::sorting::reordered(
            resolved@,
            crate::sorting::stable_sort_spec(resolved_keys(resolved@)),
        ),
        r.diagnostics@ == diagnostics@,
        crate::sorting::is_permutation(
            crate::sorting::stable_sort_spec(resolved_keys(resolved@)),
            resolved@.len(),
        ),
        forall|a: int, b: int|
            0 <= a < b < r.packages@.len() ==> !crate::sorting::key_lt(
                resolved_keys(r.packages@)[b],
                resolved_keys(r.packages@)[a],
            ),
{
    let ghost input = resolved@;
    let packages = sort_resolved(resolved);
    proof {
        let kv = resolved_keys(input);
        let p = crate::sorting::stable_sort_spec(kv);
        assert forall|a: int, b: int| 0 <= a < b < packages@.len() implies !crate::sorting::key_lt(
            resolved_keys(packages@)[b],
            resolved_keys(packages@)[a],
        ) by {
            let x = p[a] as int;
            let y = p[b] as int;
            assert(crate::sorting::entry_before(kv[x], x, kv[y], y));
            assert(resolved_keys(packages@)[a] == kv[x] && resolved_keys(packages@)[b] == kv[y]);
            crate::sorting::lemma_key_lt_total(kv[x], kv[y]);
        }
    }
    InstalledPackageResolution { packages, diagnostics }
}

/// The `Debug` name of a scope.
fn scope_debug_text(scope: InstalledPackageScope) -> (r: &'static str)
    ensures
        r@ == scope_debug(scope),
{
    match scope {
        InstalledPackageScope::Global => "Global",
        InstalledPackageScope::Project => "Project",
    }
}

/// Keep one package per name by scope precedence, then order them by
/// precedence and name; packages dropped for a name already provided in
/// their own scope get a `duplicate_name` diagnostic, added after `all`'s
/// diagnostics.
pub fn resolve_installed_packages(all: InstalledPackageResolution) -> (r: InstalledPackageResolution)
    ensures
        ({
            let (kept, ds) = dedupe_spec(all.packages@);
            &&& r.packages@ == crate::sorting::reordered(
                kept,
                crate::sorting::stable_sort_spec(named_keys(kept)),
            )
            &&& diag_views(r.diagnostics@) == diag_views(all.diagnostics@) + ds
        }),
        forall|a: int, b: int|
            0 <= a < b < r.packages@.len() ==> #[trigger] r.packages@[a].package.manifest.name@
                != #[trigger] r.packages@[b].package.manifest.name@,
        forall|a: int, b: int|
            0 <= a < b < r.packages@.len() ==> crate::sorting::key_lt(
                named_keys(r.packages@)[a],
                named_keys(r.packages@)[b],
            ),
        forall|k: int|
            0 <= k < all.packages@.len() ==> covered_by(r.packages@, #[trigger] all.packages@[k]),
        forall|e: int|
            0 <= e < r.packages@.len() ==> first_input(all.packages@, #[trigger] r.packages@[e]),
        installed_dedupe_law(
            all.packages@,
            diag_views(all.diagnostics@),
            r.packages@,
            diag_views(r.diagnostics@),
        ),
{
    let InstalledPackageResolution { packages, diagnostics } = all;
    let ghost input = packages@;
    let ghost d0 = diag_views(diagnostics@);
    let mut diagnostics = diagnostics;
    let mut packages = packages;
    // Take the packages in order: reverse them so that popping yields them.
    let mut rev: Vec<ResolvedInstalledPackage> = Vec::new();
    let n = packages.len();
    while packages.len() > 0
        invariant
            packages@.len() + rev@.len() == n,
            n == input.len(),
            forall|k: int| 0 <= k < packages@.len() ==> #[trigger] packages@[k] == input[k],
            forall|k: int| 0 <= k < rev@.len() ==> #[trigger] rev@[k] == input[n - 1 - k],
        decreases packages.len(),
    {
        let x = packages.pop().unwrap();
        rev.push(x);
    }
    let mut kept: Vec<ResolvedInstalledPackage> = Vec::new();
    let mut t: usize = 0;
    assert(input.take(0) =~= Seq::<ResolvedInstalledPackage>::empty());
    assert(diag_views(diagnostics@) =~= d0 + Seq::<DiagView>::empty());
    while rev.len() > 0
        invariant
            rev@.len() + t == n,
            n == input.len(),
            forall|k: int| 0 <= k < rev@.len() ==> #[trigger] rev@[k] == input[n - 1 - k],
            kept@ == dedupe_spec(input.take(t as int)).0,
            diag_views(diagnostics@) == d0 + dedupe_spec(input.take(t as int)).1,
        decreases rev.len(),
    {
        let p = rev.pop().unwrap();
        assert(p == input[t as int]);
        assert(input.take(t + 1).drop_last() =~= input.take(t as int));
        assert(input.take(t + 1).last() == p);
        let ghost ds_prev = dedupe_spec(input.take(t as int)).1;
        proof {
            lemma_index_named_bound(kept@, p.package.manifest.name@);
        }
        match find_named(&kept, p.package.manifest.name.as_str()) {
            Some(e) => {
                let existing = scope_precedence(kept[e].scope);
                let incoming = scope_precedence(p.scope);
                if existing >= incoming {
                    if existing == incoming {
                        let mut m = chars_of("duplicate manifest name '");
                        extend_str(&mut m, p.package.manifest.name.as_str());
                        extend_str(&mut m, "' in scope ");
                        extend_str(&mut m, scope_debug_text(p.scope));
                        extend_str(&mut m, " (already provided by '");
                        extend_str(&mut m, kept[e].declaration.source.as_str());
                        extend_str(&mut m, "'); package is disabled at runtime");
                        let d = diagnostic(
                            p.scope,
                            p.declaration.source.as_str(),
                            "duplicate_name",
                            string_of(&m),
                        );
                        let ghost before = diagnostics@;
                        diagnostics.push(d);
                        assert(diag_views(diagnostics@) =~= diag_views(before).push(diag_view(d)));
                        assert(d0 + ds_prev.push(diag_view(d)) =~= (d0 + ds_prev).push(
                            diag_view(d),
                        ));
                    }
                } else {
                    kept.set(e, p);
                }
            },
            None => {
                kept.push(p);
            },
        }
        t += 1;
    }
    assert(input.take(n as int) =~= input);
    let keys = keys_of(&kept, false);
    let order = crate::sorting::stable_sorted_order(&keys);
    let ghost ks = kept@;
    let sorted = crate::sorting::apply_order(kept, &order);
    proof {
        lemma_resolved_order(input, ks, order@, sorted@);
        lemma_dedupe_diags(input);
        let dv = diag_views(diagnostics@);
        assert(dv.take(d0.len() as int) =~= d0);
        assert(dv.skip(d0.len() as int) =~= dedupe_spec(input).1);
    }
    InstalledPackageResolution { packages: sorted, diagnostics }
}

/// Some entry of `out` has the name of `p` and at least its scope's
/// precedence.
pub open spec fn covered_by(out: Seq<ResolvedInstalledPackage>, p: ResolvedInstalledPackage) -> bool {
    exists|e: int|
        0 <= e < out.len() && #[trigger] out[e].package.manifest.name@ == p.package.manifest.name@
            && scope_rank(out[e].scope) >= scope_rank(p.scope)
}

/// `x` is an input package that no earlier input of its name and scope
/// precedes.
pub open spec fn first_input(input: Seq<ResolvedInstalledPackage>, x: ResolvedInstalledPackage) -> bool {
    exists|i: int| 0 <= i < input.len() && x == #[trigger] input[i] && first_of_its_scope(input, i)
}

/// `d` reports an input package dropped because an earlier one of its
/// name and scope is kept: an error `duplicate_name` of its scope and
/// source.
pub open spec fn reports_dropped(input: Seq<ResolvedInstalledPackage>, d: DiagView) -> bool {
    &&& d.2 == PackageDiagnosticSeverity::Error
    &&& d.3 == "duplicate_name"@
    &&& exists|k: int|
        0 <= k < input.len() && !first_of_its_scope(input, k) && d.0 == (#[trigger] input[k]).scope
            && d.1 == input[k].declaration.source@
}

/// The law of installed-package deduplication: names are distinct and
/// ordered by scope precedence, then name; each input package's name is
/// kept at its scope's precedence or higher; each kept package is the first
/// of its name in its scope; the diagnostics are the input's, then only
/// `duplicate_name` errors about dropped packages.
pub open spec fn installed_dedupe_law(
    input: Seq<ResolvedInstalledPackage>,
    diags_in: Seq<DiagView>,
    out: Seq<ResolvedInstalledPackage>,
    diags_out: Seq<DiagView>,
) -> bool {
    &&& forall|a: int, b: int|
        0 <= a < b < out.len() ==> #[trigger] out[a].package.manifest.name@
            != #[trigger] out[b].package.manifest.name@
    &&& forall|a: int, b: int|
        0 <= a < b < out.len() ==> crate::sorting::key_lt(named_keys(out)[a], named_keys(out)[b])
    &&& forall|k: int| 0 <= k < input.len() ==> covered_by(out, #[trigger] input[k])
    &&& forall|e: int| 0 <= e < out.len() ==> first_input(input, #[trigger] out[e])
    &&& diags_in.len() <= diags_out.len()
    &&& diags_out.take(diags_in.len() as int) == diags_in
    &&& forall|i: int|
        diags_in.len() <= i < diags_out.len() ==> reports_dropped(input, #[trigger] diags_out[i])
}

/// Deduplication reports only packages dropped for an earlier one of their
/// name and scope.
pub proof fn lemma_dedupe_diags(ps: Seq<ResolvedInstalledPackage>)
    ensures
        forall|i: int| 0 <= i < dedupe_spec(ps).1.len() ==> reports_dropped(ps, #[trigger] dedupe_spec(ps).1[i]),
    decreases ps.len(),
{
    if ps.len() > 0 {
        let q = ps.drop_last();
        lemma_dedupe_diags(q);
        lemma_dedupe_first_kept(q);
        let (kept, ds) = dedupe_spec(q);
        let p = ps.last();
        let n = ps.len() - 1;
        let name = p.package.manifest.name@;
        lemma_index_named_bound(kept, name);
        let out = dedupe_spec(ps).1;
        assert forall|i: int| 0 <= i < ds.len() implies reports_dropped(ps, #[trigger] ds[i]) by {
            assert(reports_dropped(q, ds[i]));
            let k = choose|k: int|
                0 <= k < q.len() && !first_of_its_scope(q, k) && ds[i].0 == (#[trigger] q[k]).scope
                    && ds[i].1 == q[k].declaration.source@;
            assert(q[k] == ps[k]);
            let j = choose|j: int| 0 <= j < k && same_name_and_scope(#[trigger] q[j], q[k]);
            assert(q[j] == ps[j]);
            assert(!first_of_its_scope(ps, k));
        }
        if let Some(e) = index_named(kept, name) {
            if scope_rank(kept[e].scope) == scope_rank(p.scope) {
                let i0 = choose|i: int| 0 <= i < q.len() && kept[e] == #[trigger] q[i] && first_of_its_scope(q, i);
                assert(q[i0] == ps[i0]);
                assert(same_name_and_scope(ps[i0], ps[n]));
                assert(!first_of_its_scope(ps, n));
                assert(out == ds.push(out.last()));
                assert forall|i: int| 0 <= i < out.len() implies reports_dropped(ps, #[trigger] out[i]) by {
                    if i < ds.len() {
                        assert(out[i] == ds[i]);
                    } else {
                        assert(ps[n] == p);
                    }
                }
            }
        }
    }
}

/// Sorting the deduplicated packages by scope and name keeps the laws of
/// deduplication: distinct names, highest scope per name, first per scope.
proof fn lemma_resolved_order(
    input: Seq<ResolvedInstalledPackage>,
    kept: Seq<ResolvedInstalledPackage>,
    order: Seq<usize>,
    out: Seq<ResolvedInstalledPackage>,
)
    requires
        kept == dedupe_spec(input).0,
        crate::sorting::stable_order(named_keys(kept), order),
        out == crate::sorting::reordered(kept, order),
    ensures
        forall|a: int, b: int|
            0 <= a < b < out.len() ==> #[trigger] out[a].package.manifest.name@
                != #[trigger] out[b].package.manifest.name@,
        forall|a: int, b: int|
            0 <= a < b < out.len() ==> crate::sorting::key_lt(named_keys(out)[a], named_keys(out)[b]),
        forall|k: int| 0 <= k < input.len() ==> covered_by(out, #[trigger] input[k]),
        forall|e: int| 0 <= e < out.len() ==> first_input(input, #[trigger] out[e]),
{
    lemma_dedupe_unique_names(input);
    lemma_dedupe_first_kept(input);
    let kv = named_keys(kept);
    assert forall|a: int, b: int| 0 <= a < b < out.len() implies #[trigger] out[a].package.manifest.name@
        != #[trigger] out[b].package.manifest.name@ && crate::sorting::key_lt(named_keys(out)[a], named_keys(out)[b]) by {
        let x = order[a] as int;
        let y = order[b] as int;
        assert(x != y);
        assert(out[a] == kept[x] && out[b] == kept[y]);
        assert(crate::sorting::entry_before(kv[x], x, kv[y], y));
        if x < y {
            assert(kept[x].package.manifest.name@ != kept[y].package.manifest.name@);
        } else {
            assert(kept[y].package.manifest.name@ != kept[x].package.manifest.name@);
        }
        assert(named_keys(out)[a] == kv[x] && named_keys(out)[b] == kv[y]);
    }
    assert forall|k: int| 0 <= k < input.len() implies covered_by(out, #[trigger] input[k]) by {
        lemma_dedupe_highest_wins(input, k);
        let w = choose|w: int|
            0 <= w < kept.len() && kept[w].package.manifest.name@ == input[k].package.manifest.name@
                && scope_rank(kept[w].scope) >= scope_rank(input[k].scope);
        crate::sorting::lemma_permutation_covers(order, kept.len(), w);
        let e = choose|e: int| 0 <= e < order.len() && order[e] == w;
        assert(out[e] == kept[w]);
    }
    assert forall|e: int| 0 <= e < out.len() implies first_input(input, #[trigger] out[e]) by {
        let x = order[e] as int;
        assert(out[e] == kept[x]);
        assert(kept[x] == kept[x]);
    }
}

/// Within one scope a name is provided by the first package that has it;
/// every later package of that name and scope is reported: after
/// deduplication, no two kept packages share a name.
pub proof fn lemma_dedupe_unique_names(ps: Seq<ResolvedInstalledPackage>)
    ensures
        forall|i: int, j: int|
            0 <= i < j < dedupe_spec(ps).0.len() ==> dedupe_spec(ps).0[i].package.manifest.name@
                != dedupe_spec(ps).0[j].package.manifest.name@,
    decreases ps.len(),
{
    if ps.len() > 0 {
        lemma_dedupe_unique_names(ps.drop_last());
        let (kept, ds) = dedupe_spec(ps.drop_last());
        let p = ps.last();
        lemma_index_named_bound(kept, p.package.manifest.name@);
        lemma_index_named_none(kept, p.package.manifest.name@);
    }
}

/// When no package is named `name`, none has that name.
proof fn lemma_index_named_none(ps: Seq<ResolvedInstalledPackage>, name: Seq<char>)
    ensures
        index_named(ps, name) is None ==> forall|i: int|
            0 <= i < ps.len() ==> ps[i].package.manifest.name@ != name,
    decreases ps.len(),
{
    if ps.len() > 0 {
        lemma_index_named_none(ps.drop_first(), name);
        assert forall|i: int| 0 < i < ps.len() implies ps[i] == ps.drop_first()[i - 1] by {}
    }
}

/// A package of a higher-precedence scope replaces the kept package of its
/// name: after deduplication, the kept package of each name is one of the
/// highest precedence among those of that name.
pub proof fn lemma_dedupe_highest_wins(ps: Seq<ResolvedInstalledPackage>, k: int)
    requires
        0 <= k < ps.len(),
    ensures
        exists|i: int|
            0 <= i < dedupe_spec(ps).0.len() && dedupe_spec(ps).0[i].package.manifest.name@
                == ps[k].package.manifest.name@ && scope_rank(dedupe_spec(ps).0[i].scope)
                >= scope_rank(ps[k].scope),
    decreases ps.len(),
{
    let (kept, ds) = dedupe_spec(ps.drop_last());
    let p = ps.last();
    let name = p.package.manifest.name@;
    lemma_index_named_bound(kept, name);
    let out = dedupe_spec(ps).0;
    if k == ps.len() - 1 {
        match index_named(kept, name) {
            Some(e) => {
                assert(out[e].package.manifest.name@ == name);
            },
            None => {
                assert(out[kept.len() as int] == p);
            },
        }
    } else {
        lemma_dedupe_highest_wins(ps.drop_last(), k);
        assert(ps.drop_last()[k] == ps[k]);
        let i = choose|i: int|
            0 <= i < kept.len() && kept[i].package.manifest.name@ == ps[k].package.manifest.name@
                && scope_rank(kept[i].scope) >= scope_rank(ps[k].scope);
        match index_named(kept, name) {
            Some(e) => {
                if scope_rank(kept[e].scope) >= scope_rank(p.scope) {
                    assert(out[i] == kept[i]);
                } else if i == e {
                    assert(out[e] == p);
                } else {
                    assert(out[i] == kept[i]);
                }
            },
            None => {
                assert(out[i] == kept[i]);
            },
        }
    }
}

/// Packages `a` and `b` have the same name and scope.
pub open spec fn same_name_and_scope(a: ResolvedInstalledPackage, b: ResolvedInstalledPackage) -> bool {
    a.package.manifest.name@ == b.package.manifest.name@ && scope_rank(a.scope) == scope_rank(b.scope)
}

/// Entry `i` of `ps` is the first of its name and scope.
pub open spec fn first_of_its_scope(ps: Seq<ResolvedInstalledPackage>, i: int) -> bool {
    forall|j: int| 0 <= j < i ==> !same_name_and_scope(#[trigger] ps[j], ps[i])
}

/// Within a scope the first package of a name is the one kept: each kept
/// package is an input package that no earlier input of its name and
/// scope precedes.
pub proof fn lemma_dedupe_first_kept(ps: Seq<ResolvedInstalledPackage>)
    ensures
        forall|e: int|
            #![trigger dedupe_spec(ps).0[e]]
            0 <= e < dedupe_spec(ps).0.len() ==> exists|i: int|
                0 <= i < ps.len() && dedupe_spec(ps).0[e] == #[trigger] ps[i] && first_of_its_scope(
                    ps,
                    i,
                ),
    decreases ps.len(),
{
    if ps.len() > 0 {
        let q = ps.drop_last();
        lemma_dedupe_first_kept(q);
        lemma_dedupe_unique_names(q);
        let (kept, ds) = dedupe_spec(q);
        let p = ps.last();
        let n = ps.len() - 1;
        let name = p.package.manifest.name@;
        lemma_index_named_bound(kept, name);
        lemma_index_named_none(kept, name);
        let out = dedupe_spec(ps).0;
        // What holds of a kept entry carries over from the shorter input.
        assert forall|e: int| #![trigger kept[e]] 0 <= e < kept.len() implies exists|i: int|
            0 <= i < ps.len() && kept[e] == #[trigger] ps[i] && first_of_its_scope(ps, i) by {
            let i = choose|i: int| 0 <= i < q.len() && kept[e] == #[trigger] q[i] && first_of_its_scope(q, i);
            assert(q[i] == ps[i]);
            assert forall|j: int| 0 <= j < i implies !same_name_and_scope(#[trigger] ps[j], ps[i]) by {
                assert(q[j] == ps[j]);
            }
        }
        match index_named(kept, name) {
            None => {
                assert forall|j: int| 0 <= j < n implies !same_name_and_scope(#[trigger] ps[j], ps[n]) by {
                    assert(q[j] == ps[j]);
                    lemma_dedupe_highest_wins(q, j);
                    let w = choose|w: int|
                        0 <= w < kept.len() && kept[w].package.manifest.name@ == q[j].package.manifest.name@
                            && scope_rank(kept[w].scope) >= scope_rank(q[j].scope);
                    assert(kept[w].package.manifest.name@ != name);
                }
                assert forall|e: int| #![trigger out[e]] 0 <= e < out.len() implies exists|i: int|
                    0 <= i < ps.len() && out[e] == #[trigger] ps[i] && first_of_its_scope(ps, i) by {
                    if e < kept.len() {
                        assert(out[e] == kept[e]);
                    } else {
                        assert(out[e] == ps[n]);
                    }
                }
            },
            Some(e0) => {
                if scope_rank(kept[e0].scope) >= scope_rank(p.scope) {
                    assert(out == kept);
                } else {
                    assert forall|j: int| 0 <= j < n implies !same_name_and_scope(#[trigger] ps[j], ps[n]) by {
                        if ps[j].package.manifest.name@ == name {
                            assert(q[j] == ps[j]);
                            lemma_dedupe_highest_wins(q, j);
                            let w = choose|w: int|
                                0 <= w < kept.len() && kept[w].package.manifest.name@
                                    == q[j].package.manifest.name@ && scope_rank(kept[w].scope)
                                    >= scope_rank(q[j].scope);
                            if w < e0 {
                                assert(kept[w].package.manifest.name@ != kept[e0].package.manifest.name@);
                            } else if w > e0 {
                                assert(kept[e0].package.manifest.name@ != kept[w].package.manifest.name@);
                            }
                        }
                    }
                    assert forall|e: int| #![trigger out[e]] 0 <= e < out.len() implies exists|i: int|
                        0 <= i < ps.len() && out[e] == #[trigger] ps[i] && first_of_its_scope(ps, i) by {
                        if e != e0 {
                            assert(out[e] == kept[e]);
                        } else {
                            assert(out[e] == ps[n]);
                        }
                    }
                }
            },
        }
    }
}

/// One declaration gives either a package, made from that declaration in
/// its scope, with at most warnings about its source, or no package with an
/// error about its source; the diagnostics before it are kept, and every
/// new one is of its scope and source.
pub open spec fn declaration_law(
    scope: InstalledPackageScope,
    declaration: PackageDeclaration,
    r: Option<ResolvedInstalledPackage>,
    before: Seq<DiagView>,
    after: Seq<DiagView>,
) -> bool {
    &&& before.len() <= after.len()
    &&& after.take(before.len() as int) == before
    &&& forall|i: int|
        before.len() <= i < after.len() ==> (#[trigger] after[i]).0 == scope && after[i].1
            == declaration.source@
    &&& match r {
        Some(p) => p.declaration == declaration && p.scope == scope && forall|i: int|
            before.len() <= i < after.len() ==> (#[trigger] after[i]).2
                == PackageDiagnosticSeverity::Warning,
        None => exists|i: int|
            before.len() <= i < after.len() && (#[trigger] after[i]).2
                == PackageDiagnosticSeverity::Error,
    }
}

/// A declared package that was discovered either loads, with at most
/// warnings about its source, or does not load, with an error about its
/// source: never both.
pub proof fn lemma_loads_or_error(
    scope: InstalledPackageScope,
    source: Seq<char>,
    pkg: PackageResource,
    composition: Result<(), PackageDiscoveryError>,
    current: Seq<char>,
)
    ensures
        ({
            let (ds, loads) = after_discovery(scope, source, pkg, composition, current);
            &&& forall|i: int| 0 <= i < ds.len() ==> (#[trigger] ds[i]).0 == scope && ds[i].1 == source
            &&& loads <==> forall|i: int|
                0 <= i < ds.len() ==> (#[trigger] ds[i]).2 == PackageDiagnosticSeverity::Warning
            &&& !loads ==> ds.len() > 0 && ds.last().2 == PackageDiagnosticSeverity::Error
        }),
{
    let (ds, loads) = after_discovery(scope, source, pkg, composition, current);
    if !loads {
        assert(ds.last().2 == PackageDiagnosticSeverity::Error);
        assert(ds[ds.len() - 1].2 != PackageDiagnosticSeverity::Warning);
    }
}

} // verus!
