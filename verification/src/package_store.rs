//! Package sources, declarations (`packages.toml`), lock entries
//! (`package-lock.toml`) and store scopes.
//!
//! A source is a local path (`./vendor/todo`, `/abs/path`, `C:\path`) or a
//! git URL (`git:github.com/user/repo@v1`, `git:https://host/repo.git@ref`).
use vstd::prelude::*;

use crate::paths::{components, components_of, components_start_with, from_components, path_join};
use crate::text::{
    chars_eq, chars_of, contains, debug_quoted, debug_str, contains_char, contains_str, ends_with, extend_chars,
    extend_str, find, find_char, find_char_in, find_chars, rfind_char, rfind_char_in,
    starts_with, starts_with_str, string_of, subvec, trim, trim_chars, views,
};

verus! {

/// Errors from package store operations.
#[derive(Debug)]
pub enum PackageStoreError {
    /// A package source string could not be parsed.
    InvalidSource { input: String, reason: String },
    /// Reading or writing the file system failed.
    Io(String),
    /// A TOML file could not be read.
    Toml(String),
    /// A TOML file could not be written.
    TomlSer(String),
    /// A git operation failed.
    Git(String),
    /// A package lifecycle operation failed.
    Package(String),
}

/// The message of a store error.
pub open spec fn store_error_message(e: PackageStoreError) -> Seq<char> {
    match e {
        PackageStoreError::InvalidSource { input, reason } => "invalid package source '"@ + input@
            + "': "@ + reason@,
        PackageStoreError::Io(m) => "I/O error: "@ + m@,
        PackageStoreError::Toml(m) => "TOML error: "@ + m@,
        PackageStoreError::TomlSer(m) => "TOML serialization error: "@ + m@,
        PackageStoreError::Git(m) => "git operation failed: "@ + m@,
        PackageStoreError::Package(m) => "package error: "@ + m@,
    }
}

impl PackageStoreError {
    /// The message of this error.
    pub fn message(&self) -> (r: String)
        ensures
            r@ == store_error_message(*self),
    {
        let mut v: Vec<char> = Vec::new();
        match self {
            PackageStoreError::InvalidSource { input, reason } => {
                extend_str(&mut v, "invalid package source '");
                extend_str(&mut v, input.as_str());
                extend_str(&mut v, "': ");
                extend_str(&mut v, reason.as_str());
            },
            PackageStoreError::Io(m) => {
                extend_str(&mut v, "I/O error: ");
                extend_str(&mut v, m.as_str());
            },
            PackageStoreError::Toml(m) => {
                extend_str(&mut v, "TOML error: ");
                extend_str(&mut v, m.as_str());
            },
            PackageStoreError::TomlSer(m) => {
                extend_str(&mut v, "TOML serialization error: ");
                extend_str(&mut v, m.as_str());
            },
            PackageStoreError::Git(m) => {
                extend_str(&mut v, "git operation failed: ");
                extend_str(&mut v, m.as_str());
            },
            PackageStoreError::Package(m) => {
                extend_str(&mut v, "package error: ");
                extend_str(&mut v, m.as_str());
            },
        }
        string_of(&v)
    }
}

/// A parsed package source.
#[derive(Debug)]
pub enum PackageSource {
    /// A local path, relative or absolute.
    Local { path: String },
    /// A git repository URL with an optional ref.
    Git { url: String, refspec: Option<String> },
}

/// An identity key derived from a package source.
#[derive(Debug)]
pub struct PackageIdentity {
    /// `"local"` or `"git"`.
    pub kind: String,
    /// The path for a local source, the URL for a git source.
    pub value: String,
}

/// A package declaration from `packages.toml`.
#[derive(Debug)]
pub struct PackageDeclaration {
    /// Source string (local path or git URL).
    pub source: String,
    /// Optional resource filters.
    pub filters: PackageFilters,
}

/// Resource filters of a package declaration.
#[derive(Debug)]
pub struct PackageFilters {
    /// Include only these extensions.
    pub extensions: Option<Vec<String>>,
    /// Include only these skills.
    pub skills: Option<Vec<String>>,
    /// Include only these prompt fragments.
    pub fragments: Option<Vec<String>>,
    /// Include only these themes.
    pub themes: Option<Vec<String>>,
}

impl PackageFilters {
    /// No filters.
    pub fn none() -> (r: Self)
        ensures
            r.extensions is None && r.skills is None && r.fragments is None && r.themes is None,
    {
        PackageFilters { extensions: None, skills: None, fragments: None, themes: None }
    }
}

/// A lock entry recording the resolved state of an installed package.
#[derive(Debug)]
pub struct PackageLockEntry {
    /// `"local"` or `"git"`.
    pub identity_kind: String,
    /// The path or URL.
    pub identity_value: String,
    /// The source string of the declaration.
    pub source: String,
    /// The resolved package root.
    pub package_root: String,
    /// The cache directory of a git source.
    pub cache_path: Option<String>,
    /// The commit of a git source.
    pub git_commit: Option<String>,
    /// SHA-256 of the package's `package.toml`.
    pub manifest_sha256: String,
}

// ---------------------------------------------------------------------------
// Source parsing: spec
// ---------------------------------------------------------------------------

/// A source as plain values: `Ok((path, None, false))` for a local path,
/// `Ok((url, refspec, true))` for git, `Err(reason)` when it is invalid.
pub type SourceView = Result<(Seq<char>, Option<Seq<char>>, bool), Seq<char>>;

/// A git source in scp form (`user@host:path`), which is refused.
pub open spec fn scp_like(rest: Seq<char>) -> bool {
    if contains(rest, "://"@) || starts_with(rest, "github.com/"@) {
        false
    } else {
        match find_char(rest, '/') {
            None => contains(rest, seq!['@']) && contains(rest, seq![':']),
            Some(fs) => contains(rest.take(fs), seq!['@']) && contains(rest.take(fs), seq![':']),
        }
    }
}

/// The URL and ref of a git source: the ref follows the last `@`, which must
/// lie after the first `/` of the path when the URL has a scheme.
pub open spec fn split_git(rest: Seq<char>) -> (Seq<char>, Option<Seq<char>>) {
    match rfind_char(rest, '@') {
        None => (rest, None),
        Some(at) => match find(rest, "://"@) {
            Some(sp) => match find_char(rest.skip(sp + 3), '/') {
                Some(o) => if at > sp + 3 + o {
                    (rest.take(at), Some(rest.skip(at + 1)))
                } else {
                    (rest, None)
                },
                None => (rest, None),
            },
            None => (rest.take(at), Some(rest.skip(at + 1))),
        },
    }
}

/// `c` is an ASCII letter.
pub open spec fn ascii_alpha(c: char) -> bool {
    ('a' <= c && c <= 'z') || ('A' <= c && c <= 'Z')
}

/// `s` looks like a local path: it starts with `.`, `/` or `\`, or with a
/// drive letter, `:` and a separator.
pub open spec fn local_path_like(s: Seq<char>) -> bool {
    ||| (s.len() > 0 && (s[0] == '.' || s[0] == '/' || s[0] == '\\'))
    ||| (s.len() >= 3 && ascii_alpha(s[0]) && s[1] == ':' && (s[2] == '\\' || s[2] == '/'))
}

/// What `PackageSource::parse` makes of `raw`.
pub open spec fn parse_source_spec(raw: Seq<char>) -> SourceView {
    let t = trim(raw);
    if t.len() == 0 {
        Err("source string is empty"@)
    } else if starts_with(t, "git:"@) {
        let rest = t.skip(4);
        if scp_like(rest) {
            Err("scp-like git sources are not supported; use git:ssh://git@host/path@ref"@)
        } else {
            let (url, refspec) = split_git(rest);
            if url.len() == 0 {
                Err("git URL is empty after 'git:' prefix"@)
            } else if contains(url, "://"@) {
                Ok((url, refspec, true))
            } else if starts_with(url, "github.com/"@) {
                Ok(("https://"@ + url, refspec, true))
            } else {
                Err(
                    "unrecognized git source '"@ + url
                        + "': must be a URL with scheme or github.com shorthand"@,
                )
            }
        }
    } else if local_path_like(t) {
        Ok((t, None, false))
    } else {
        Err(
            "unrecognized source format: must start with './', '/', a drive letter, or 'git:' prefix"@,
        )
    }
}

/// The plain values of a parsed source.
pub open spec fn source_view(s: PackageSource) -> (Seq<char>, Option<Seq<char>>, bool) {
    match s {
        PackageSource::Local { path } => (path@, None, false),
        PackageSource::Git { url, refspec } => (
            url@,
            match refspec {
                Some(r) => Some(r@),
                None => None,
            },
            true,
        ),
    }
}

// ---------------------------------------------------------------------------
// Source parsing: exec
// ---------------------------------------------------------------------------

/// A git source in scp form.
fn is_scp_like_git_source(rest: &[char]) -> (b: bool)
    ensures
        b == scp_like(rest@),
{
    if contains_str(rest, "://") || starts_with_str(rest, "github.com/") {
        return false;
    }
    match find_char_in(rest, '/') {
        None => contains_char(rest, '@') && contains_char(rest, ':'),
        Some(fs) => {
            let authority = subvec(rest, 0, fs);
            assert(rest@.subrange(0, fs as int) =~= rest@.take(fs as int));
            contains_char(&authority, '@') && contains_char(&authority, ':')
        },
    }
}

/// The URL and ref of a git source.
fn split_git_url_and_ref(rest: &[char]) -> (r: (Vec<char>, Option<Vec<char>>))
    ensures
        r.0@ == split_git(rest@).0,
        match split_git(rest@).1 {
            Some(x) => r.1 matches Some(y) && y@ == x,
            None => r.1 is None,
        },
{
    let whole = subvec(rest, 0, rest.len());
    assert(rest@.subrange(0, rest@.len() as int) =~= rest@);
    let at = match rfind_char_in(rest, '@') {
        None => return (whole, None),
        Some(at) => at,
    };
    proof {
        lemma_rfind_char_bound(rest@, '@');
    }
    let before = subvec(rest, 0, at);
    let after = subvec(rest, at + 1, rest.len());
    assert(rest@.subrange(0, at as int) =~= rest@.take(at as int));
    assert(rest@.subrange(at + 1, rest@.len() as int) =~= rest@.skip(at + 1));
    let scheme = chars_of("://");
    proof {
        reveal_strlit("://");
    }
    match find_chars(rest, &scheme) {
        Some(sp) => {
            let tail = subvec(rest, sp + 3, rest.len());
            assert(rest@.subrange(sp + 3, rest@.len() as int) =~= rest@.skip(sp + 3));
            match find_char_in(&tail, '/') {
                Some(o) => {
                    if at > sp + 3 + o {
                        (before, Some(after))
                    } else {
                        (whole, None)
                    }
                },
                None => (whole, None),
            }
        },
        None => (before, Some(after)),
    }
}

/// A found last index lies inside the sequence.
proof fn lemma_rfind_char_bound(s: Seq<char>, c: char)
    ensures
        rfind_char(s, c) matches Some(i) ==> 0 <= i < s.len() && s[i] == c,
    decreases s.len(),
{
    if s.len() > 0 && s.last() != c {
        lemma_rfind_char_bound(s.drop_last(), c);
    }
}

/// `s` looks like a local path.
fn is_local_path(s: &[char]) -> (b: bool)
    ensures
        b == local_path_like(s@),
{
    if s.len() > 0 && (s[0] == '.' || s[0] == '/' || s[0] == '\\') {
        return true;
    }
    s.len() >= 3 && (('a' <= s[0] && s[0] <= 'z') || ('A' <= s[0] && s[0] <= 'Z')) && s[1] == ':'
        && (s[2] == '\\' || s[2] == '/')
}

/// The error for an invalid source.
fn invalid_source(raw: &str, reason: Vec<char>) -> (e: PackageStoreError)
    ensures
        e matches PackageStoreError::InvalidSource { input, reason: r } && input@ == raw@ && r@
            == reason@,
{
    PackageStoreError::InvalidSource { input: string_of(&chars_of(raw)), reason: string_of(&reason) }
}

impl PackageSource {
    /// Parse a source string.
    ///
    /// - `./relative`, `/absolute`, `.\relative`, `D:\path`: a local path;
    /// - `git:github.com/user/repo@ref`: GitHub shorthand, becoming
    ///   `https://github.com/user/repo`;
    /// - `git:https://example.com/repo.git@ref`: a git URL with optional ref.
    pub fn parse(raw: &str) -> (r: Result<Self, PackageStoreError>)
        ensures
            match parse_source_spec(raw@) {
                Ok(v) => r matches Ok(s) && source_view(s) == v,
                Err(reason) => r matches Err(PackageStoreError::InvalidSource { input, reason: x })
                    && input@ == raw@ && x@ == reason,
            },
    {
        let c = chars_of(raw);
        let t = trim_chars(&c);
        if t.len() == 0 {
            return Err(invalid_source(raw, chars_of("source string is empty")));
        }
        if starts_with_str(&t, "git:") {
            proof {
                reveal_strlit("git:");
            }
            let rest = subvec(&t, 4, t.len());
            assert(t@.subrange(4, t@.len() as int) =~= t@.skip(4));
            if is_scp_like_git_source(&rest) {
                return Err(
                    invalid_source(
                        raw,
                        chars_of(
                            "scp-like git sources are not supported; use git:ssh://git@host/path@ref",
                        ),
                    ),
                );
            }
            let (url, refspec) = split_git_url_and_ref(&rest);
            if url.len() == 0 {
                return Err(invalid_source(raw, chars_of("git URL is empty after 'git:' prefix")));
            }
            let refspec = match refspec {
                Some(r) => Some(string_of(&r)),
                None => None,
            };
            if contains_str(&url, "://") {
                return Ok(PackageSource::Git { url: string_of(&url), refspec });
            }
            if starts_with_str(&url, "github.com/") {
                let mut full = chars_of("https://");
                extend_chars(&mut full, &url);
                return Ok(PackageSource::Git { url: string_of(&full), refspec });
            }
            let mut reason = chars_of("unrecognized git source '");
            extend_chars(&mut reason, &url);
            extend_str(&mut reason, "': must be a URL with scheme or github.com shorthand");
            return Err(invalid_source(raw, reason));
        }
        if is_local_path(&t) {
            return Ok(PackageSource::Local { path: string_of(&t) });
        }
        Err(
            invalid_source(
                raw,
                chars_of(
                    "unrecognized source format: must start with './', '/', a drive letter, or 'git:' prefix",
                ),
            ),
        )
    }

    /// The identity key of this source: `("local", path)` or `("git", url)`.
    pub fn identity_key(&self) -> (r: PackageIdentity)
        ensures
            r.kind@ == (if source_view(*self).2 {
                "git"@
            } else {
                "local"@
            }),
            r.value@ == source_view(*self).0,
    {
        match self {
            PackageSource::Local { path } => PackageIdentity {
                kind: string_of(&chars_of("local")),
                value: path.clone(),
            },
            PackageSource::Git { url, .. } => PackageIdentity {
                kind: string_of(&chars_of("git")),
                value: url.clone(),
            },
        }
    }
}

// ---------------------------------------------------------------------------
// Scopes
// ---------------------------------------------------------------------------

/// The scope of a package store.
#[derive(Debug)]
pub enum PackageStoreScope {
    /// User-level store rooted in the config directory.
    Global { user_config_dir: String },
    /// Project-level store rooted in the workspace `.opi/` directory.
    Project { workspace_root: String },
}

/// The directory that holds a scope's files.
pub open spec fn scope_dir(s: PackageStoreScope) -> Seq<char> {
    match s {
        PackageStoreScope::Global { user_config_dir } => user_config_dir@,
        PackageStoreScope::Project { workspace_root } => path_join(workspace_root@, ".opi"@),
    }
}

impl PackageStoreScope {
    /// The directory that holds this scope's files.
    fn dir(&self) -> (r: String)
        ensures
            r@ == scope_dir(*self),
    {
        match self {
            PackageStoreScope::Global { user_config_dir } => user_config_dir.clone(),
            PackageStoreScope::Project { workspace_root } => crate::paths::join_path(
                workspace_root.as_str(),
                ".opi",
            ),
        }
    }

    /// The `packages.toml` declaration file.
    pub fn config_path(&self) -> (r: String)
        ensures
            r@ == path_join(scope_dir(*self), "packages.toml"@),
    {
        crate::paths::join_path(self.dir().as_str(), "packages.toml")
    }

    /// The `package-lock.toml` lock file.
    pub fn lock_path(&self) -> (r: String)
        ensures
            r@ == path_join(scope_dir(*self), "package-lock.toml"@),
    {
        crate::paths::join_path(self.dir().as_str(), "package-lock.toml")
    }

    /// The package cache directory.
    pub fn cache_dir(&self) -> (r: String)
        ensures
            r@ == path_join(scope_dir(*self), "package-cache"@),
    {
        crate::paths::join_path(self.dir().as_str(), "package-cache")
    }
}

/// The package store of a scope.
#[derive(Debug)]
pub struct PackageStore {
    scope: PackageStoreScope,
}

impl PackageStore {
    /// The scope of this store.
    pub closed spec fn scope_of(&self) -> PackageStoreScope {
        self.scope
    }

    /// A store for the given scope.
    pub fn new(scope: PackageStoreScope) -> (r: Self)
        ensures
            r.scope_of() == scope,
    {
        PackageStore { scope }
    }

    /// A project-scoped store.
    pub fn project(workspace_root: String) -> (r: Self)
        ensures
            r.scope_of() == (PackageStoreScope::Project { workspace_root }),
    {
        Self::new(PackageStoreScope::Project { workspace_root })
    }

    /// A global-scoped store.
    pub fn global(user_config_dir: String) -> (r: Self)
        ensures
            r.scope_of() == (PackageStoreScope::Global { user_config_dir }),
    {
        Self::new(PackageStoreScope::Global { user_config_dir })
    }

    /// The scope of this store.
    pub fn scope(&self) -> (r: &PackageStoreScope)
        ensures
            *r == self.scope_of(),
    {
        &self.scope
    }

    /// The cache directory of this store's scope.
    pub fn cache_dir(&self) -> (r: String)
        ensures
            r@ == path_join(scope_dir(self.scope_of()), "package-cache"@),
    {
        self.scope.cache_dir()
    }

    /// `target` lies inside this store's cache directory once `.` and `..`
    /// are resolved lexically; the store refuses to clone into or replace
    /// anything else.
    pub fn is_within_cache(&self, target: &str) -> (r: bool)
        ensures
            r == components_start_with(
                store_normalize(components(target@)),
                store_normalize(
                    components(path_join(scope_dir(self.scope_of()), "package-cache"@)),
                ),
            ),
    {
        let cache = self.cache_dir();
        let t = normalize_path(&chars_of(target));
        let c = normalize_path(&chars_of(cache.as_str()));
        crate::paths::starts_with_components(&t, &c)
    }

    /// Whether a git clone may be made into `target`: only inside this
    /// store's cache directory.
    pub fn check_clone_target(&self, target: &str) -> (r: Result<(), PackageStoreError>)
        ensures
            within_cache(self.scope_of(), target@) ==> r is Ok,
            !within_cache(self.scope_of(), target@) ==> (r matches Err(PackageStoreError::Git(m))
                && m@ == "clone target "@ + debug_str(target@)
                + " is outside the store cache directory "@ + debug_str(
                cache_dir_spec(self.scope_of()),
            )),
    {
        if self.is_within_cache(target) {
            Ok(())
        } else {
            let cache = self.cache_dir();
            let mut v = chars_of("clone target ");
            extend_str(&mut v, debug_quoted(target).as_str());
            extend_str(&mut v, " is outside the store cache directory ");
            extend_str(&mut v, debug_quoted(cache.as_str()).as_str());
            Err(PackageStoreError::Git(string_of(&v)))
        }
    }

    /// Whether the cache directory `target` may be replaced by `staging`:
    /// both must lie inside this store's cache directory (target checked
    /// first), and `staging` must be an existing directory
    /// (`staging_is_dir`, as the file system showed it).
    pub fn check_replacement(&self, target: &str, staging: &str, staging_is_dir: bool) -> (r: Result<
        (),
        PackageStoreError,
    >)
        ensures
            !within_cache(self.scope_of(), target@) ==> (r matches Err(PackageStoreError::Git(m))
                && m@ == "replace target "@ + debug_str(target@)
                + " is outside the store cache directory "@ + debug_str(
                cache_dir_spec(self.scope_of()),
            )),
            within_cache(self.scope_of(), target@) && !within_cache(self.scope_of(), staging@)
                ==> (r matches Err(PackageStoreError::Git(m)) && m@ == "staging directory "@
                + debug_str(staging@) + " is outside the store cache directory "@ + debug_str(
                cache_dir_spec(self.scope_of()),
            )),
            within_cache(self.scope_of(), target@) && within_cache(self.scope_of(), staging@)
                && !staging_is_dir ==> (r matches Err(PackageStoreError::Git(m)) && m@
                == "staging directory does not exist: "@ + staging@),
            within_cache(self.scope_of(), target@) && within_cache(self.scope_of(), staging@)
                && staging_is_dir ==> r is Ok,
    {
        let cache = self.cache_dir();
        if !self.is_within_cache(target) {
            let mut v = chars_of("replace target ");
            extend_str(&mut v, debug_quoted(target).as_str());
            extend_str(&mut v, " is outside the store cache directory ");
            extend_str(&mut v, debug_quoted(cache.as_str()).as_str());
            return Err(PackageStoreError::Git(string_of(&v)));
        }
        if !self.is_within_cache(staging) {
            let mut v = chars_of("staging directory ");
            extend_str(&mut v, debug_quoted(staging).as_str());
            extend_str(&mut v, " is outside the store cache directory ");
            extend_str(&mut v, debug_quoted(cache.as_str()).as_str());
            return Err(PackageStoreError::Git(string_of(&v)));
        }
        if !staging_is_dir {
            let mut v = chars_of("staging directory does not exist: ");
            extend_str(&mut v, staging);
            return Err(PackageStoreError::Git(string_of(&v)));
        }
        Ok(())
    }
}

/// The cache directory of a scope.
pub open spec fn cache_dir_spec(scope: PackageStoreScope) -> Seq<char> {
    path_join(scope_dir(scope), "package-cache"@)
}

/// `target` lies inside the cache directory of `scope` once `.` and `..` are
/// resolved lexically.
pub open spec fn within_cache(scope: PackageStoreScope, target: Seq<char>) -> bool {
    components_start_with(
        store_normalize(components(target)),
        store_normalize(components(cache_dir_spec(scope))),
    )
}

// ---------------------------------------------------------------------------
// Pending cache replacement
// ---------------------------------------------------------------------------

/// File-system work asked for when a cache replacement is settled.
#[derive(Debug)]
pub enum CacheSettleAction {
    /// Nothing is left to do.
    Nothing,
    /// Remove the former cache directory that was kept aside.
    RemoveBackup { path: String },
    /// Put the former cache back: remove `target` if it exists, then, when
    /// there is a backup that exists, rename it to `target`.
    Restore { target: String, backup: Option<String> },
}

/// A cache directory replaced by a staging directory, the former cache kept
/// aside (in `backup`, when there was one) until the replacement is committed
/// or rolled back. A replacement dropped unsettled is rolled back.
#[derive(Debug)]
pub struct PendingCacheReplacement {
    target: String,
    backup: Option<String>,
    committed: bool,
}

impl PendingCacheReplacement {
    /// The replaced cache directory.
    pub closed spec fn target_spec(&self) -> Seq<char> {
        self.target@
    }

    /// Where the former cache was kept aside, if there was one.
    pub closed spec fn backup_spec(&self) -> Option<Seq<char>> {
        match self.backup {
            Some(b) => Some(b@),
            None => None,
        }
    }

    /// The replacement has been committed or rolled back.
    pub closed spec fn is_settled(&self) -> bool {
        self.committed
    }

    /// A replacement of `target` just made, the former cache kept in `backup`.
    pub fn new(target: String, backup: Option<String>) -> (r: Self)
        ensures
            r.target_spec() == target@,
            r.backup_spec() == (match backup {
                Some(b) => Some(b@),
                None => None,
            }),
            !r.is_settled(),
    {
        PendingCacheReplacement { target, backup, committed: false }
    }

    fn restore_action(&self) -> (a: CacheSettleAction)
        ensures
            restores(a, self.target_spec(), self.backup_spec()),
    {
        let backup = match &self.backup {
            Some(b) => Some(b.clone()),
            None => None,
        };
        CacheSettleAction::Restore { target: self.target.clone(), backup }
    }

    /// Keep the new cache directory: the former one, if any, is to be
    /// removed.
    pub fn commit(&mut self) -> (a: CacheSettleAction)
        ensures
            final(self).is_settled(),
            final(self).target_spec() == old(self).target_spec(),
            final(self).backup_spec() == old(self).backup_spec(),
            old(self).is_settled() ==> a is Nothing,
            !old(self).is_settled() ==> match old(self).backup_spec() {
                Some(b) => (a matches CacheSettleAction::RemoveBackup { path } && path@ == b),
                None => a is Nothing,
            },
    {
        if self.committed {
            return CacheSettleAction::Nothing;
        }
        self.committed = true;
        match &self.backup {
            Some(b) => CacheSettleAction::RemoveBackup { path: b.clone() },
            None => CacheSettleAction::Nothing,
        }
    }

    /// Put the former cache directory back: the restore to do. The
    /// replacement stays unsettled until `restore_done` reports that the
    /// restore succeeded; one that fails is tried again when the
    /// replacement is dropped.
    pub fn rollback(&self) -> (a: CacheSettleAction)
        ensures
            self.is_settled() ==> a is Nothing,
            !self.is_settled() ==> restores(a, self.target_spec(), self.backup_spec()),
    {
        if self.committed {
            return CacheSettleAction::Nothing;
        }
        self.restore_action()
    }

    /// Record how the restore asked for by `rollback` went: the replacement
    /// is settled when it succeeded.
    pub fn restore_done(&mut self, succeeded: bool)
        ensures
            final(self).is_settled() == (old(self).is_settled() || succeeded),
            final(self).target_spec() == old(self).target_spec(),
            final(self).backup_spec() == old(self).backup_spec(),
    {
        if succeeded {
            self.committed = true;
        }
    }

    /// What dropping the replacement asks for: a restore when it was never
    /// settled, nothing otherwise. Either way it is settled afterwards.
    pub fn drop_action(&mut self) -> (a: CacheSettleAction)
        ensures
            final(self).is_settled(),
            final(self).target_spec() == old(self).target_spec(),
            final(self).backup_spec() == old(self).backup_spec(),
            old(self).is_settled() ==> a is Nothing,
            !old(self).is_settled() ==> restores(
                a,
                old(self).target_spec(),
                old(self).backup_spec(),
            ),
    {
        if self.committed {
            return CacheSettleAction::Nothing;
        }
        self.committed = true;
        self.restore_action()
    }
}

/// `a` restores `target` from `backup`.
pub open spec fn restores(a: CacheSettleAction, target: Seq<char>, backup: Option<Seq<char>>) -> bool {
    a matches CacheSettleAction::Restore { target: t, backup: b } && t@ == target && match b {
        Some(x) => backup == Some(x@),
        None => backup is None,
    }
}


// ---------------------------------------------------------------------------
// Lexical normalization
// ---------------------------------------------------------------------------

/// Components with `..` resolved against the preceding component, where
/// there is one that is not itself `..` (the root counts as one).
pub open spec fn store_normalize(cs: Seq<Seq<char>>) -> Seq<Seq<char>>
    decreases cs.len(),
{
    if cs.len() == 0 {
        Seq::empty()
    } else {
        let prev = store_normalize(cs.drop_last());
        let c = cs.last();
        if c == seq!['.', '.'] {
            if prev.len() > 0 && prev.last() != seq!['.', '.'] {
                prev.drop_last()
            } else {
                prev.push(c)
            }
        } else {
            prev.push(c)
        }
    }
}

/// The components of `p` with `..` resolved lexically.
pub fn normalize_path(p: &[char]) -> (r: Vec<Vec<char>>)
    ensures
        views(r@) == store_normalize(components(p@)),
{
    let cs = components_of(p);
    let ghost cv = views(cs@);
    let dotdot = vec!['.', '.'];
    assert(dotdot@ =~= seq!['.', '.']);
    let mut out: Vec<Vec<char>> = Vec::new();
    let mut i: usize = 0;
    assert(views(out@) =~= store_normalize(cv.take(0)));
    while i < cs.len()
        invariant
            i <= cs.len(),
            cv == views(cs@),
            dotdot@ == seq!['.', '.'],
            views(out@) == store_normalize(cv.take(i as int)),
        decreases cs.len() - i,
    {
        assert(cv.take(i + 1).drop_last() =~= cv.take(i as int));
        assert(cv.take(i + 1).last() == cs@[i as int]@);
        let ghost prev = out@;
        let piece = subvec(&cs[i], 0, cs[i].len());
        assert(cs@[i as int]@.subrange(0, cs@[i as int]@.len() as int) =~= cs@[i as int]@);
        if chars_eq(&cs[i], &dotdot) {
            let n = out.len();
            if n > 0 && !chars_eq(&out[n - 1], &dotdot) {
                out.pop();
                assert(views(out@) =~= views(prev).drop_last());
            } else {
                out.push(piece);
                assert forall|j: int| 0 <= j < prev.len() implies #[trigger] out@[j]@ == views(
                    prev,
                )[j] by {
                    assert(out@[j] == prev[j]);
                }
                assert(views(out@) =~= views(prev).push(cs@[i as int]@));
            }
        } else {
            out.push(piece);
            assert forall|j: int| 0 <= j < prev.len() implies #[trigger] out@[j]@ == views(prev)[j] by {
                assert(out@[j] == prev[j]);
            }
            assert(views(out@) =~= views(prev).push(cs@[i as int]@));
        }
        i += 1;
    }
    assert(cv.take(cs.len() as int) =~= cv);
    out
}

/// The name of a temporary directory beside `target`, for staging or
/// backing up a cache directory: `<parent>/.<name>.<kind>.<pid>.<nanos>`.
pub open spec fn temporary_dir_spec(
    parent: Seq<char>,
    name: Seq<char>,
    kind: Seq<char>,
    pid: nat,
    nanos: nat,
) -> Seq<char> {
    path_join(
        parent,
        seq!['.'] + name + seq!['.'] + kind + seq!['.'] + crate::text::decimal(pid) + seq!['.']
            + crate::text::decimal(nanos),
    )
}

/// The name of a temporary directory beside a cache directory.
pub fn temporary_cache_dir_for(parent: &str, name: &str, kind: &str, pid: u32, nanos: u128) -> (r:
    String)
    ensures
        r@ == temporary_dir_spec(parent@, name@, kind@, pid as nat, nanos as nat),
{
    let mut leaf: Vec<char> = vec!['.'];
    extend_str(&mut leaf, name);
    leaf.push('.');
    extend_str(&mut leaf, kind);
    leaf.push('.');
    let p = crate::text::decimal_chars(pid as u128);
    extend_chars(&mut leaf, &p);
    leaf.push('.');
    let n = crate::text::decimal_chars(nanos);
    extend_chars(&mut leaf, &n);
    assert(leaf@ =~= seq!['.'] + name@ + seq!['.'] + kind@ + seq!['.'] + crate::text::decimal(
        pid as nat,
    ) + seq!['.'] + crate::text::decimal(nanos as nat));
    let leaf_s = string_of(&leaf);
    crate::paths::join_path(parent, leaf_s.as_str())
}

/// What source parsing refuses and what it keeps: a blank source, an scp
/// form after `git:`, a `git:` source whose URL has no scheme and is not
/// `github.com/` shorthand, and anything neither `git:` nor a local path
/// are refused; a local source keeps the trimmed text as its path, and a
/// git source's URL always has a scheme.
pub proof fn lemma_source_parse_law(raw: Seq<char>)
    ensures
        ({
            let t = trim(raw);
            let r = parse_source_spec(raw);
            &&& t.len() == 0 ==> r is Err
            &&& (t.len() > 0 && starts_with(t, "git:"@) && scp_like(t.skip(4))) ==> r is Err
            &&& (t.len() > 0 && starts_with(t, "git:"@) && !contains(split_git(t.skip(4)).0, "://"@)
                && !starts_with(split_git(t.skip(4)).0, "github.com/"@)) ==> r is Err
            &&& (t.len() > 0 && !starts_with(t, "git:"@) && !local_path_like(t)) ==> r is Err
            &&& match r {
                Ok(v) => if v.2 {
                    contains(v.0, "://"@)
                } else {
                    v.0 == t
                },
                Err(_) => true,
            }
        }),
{
    let t = trim(raw);
    if t.len() > 0 && starts_with(t, "git:"@) && !scp_like(t.skip(4)) {
        let url = split_git(t.skip(4)).0;
        if url.len() > 0 && !contains(url, "://"@) && starts_with(url, "github.com/"@) {
            let full = "https://"@ + url;
            reveal_strlit("https://");
            reveal_strlit("://");
            assert(full.subrange(5, 8) =~= "://"@);
            crate::text::lemma_find_from_some(full, "://"@, 0, 5);
        }
    }
}

/// Text that contains `pat` within its first `n` characters contains it.
proof fn lemma_contains_take(s: Seq<char>, pat: Seq<char>, n: int)
    requires
        0 <= n <= s.len(),
        contains(s.take(n), pat),
    ensures
        contains(s, pat),
{
    let k = find(s.take(n), pat)->0;
    crate::text::lemma_find_from_occurs(s.take(n), pat, 0);
    assert(s.take(n).subrange(k, k + pat.len()) =~= s.subrange(k, k + pat.len()));
    crate::text::lemma_find_from_some(s, pat, 0, k);
}

/// A git source with a scheme keeps its ref: when the last `@` of the text
/// after `git:` comes after the first `/` that follows `://`, the URL is
/// the text before that `@` and the ref the text after it.
pub proof fn lemma_git_url_ref_kept(raw: Seq<char>, sp: int, o: int, at: int)
    requires
        starts_with(trim(raw), "git:"@),
        find(trim(raw).skip(4), "://"@) == Some(sp),
        find_char(trim(raw).skip(4).skip(sp + 3), '/') == Some(o),
        rfind_char(trim(raw).skip(4), '@') == Some(at),
        at > sp + 3 + o,
    ensures
        parse_source_spec(raw) == Ok::<(Seq<char>, Option<Seq<char>>, bool), Seq<char>>(
            (trim(raw).skip(4).take(at), Some(trim(raw).skip(4).skip(at + 1)), true),
        ),
{
    let rest = trim(raw).skip(4);
    reveal_strlit("git:");
    reveal_strlit("://");
    lemma_rfind_char_bound(rest, '@');
    crate::text::lemma_find_from_occurs(rest, "://"@, 0);
    crate::text::lemma_find_from_occurs(rest.skip(sp + 3), seq!['/'], 0);
    assert(sp + 3 <= at);
    assert(rest.take(at).subrange(sp, sp + 3) =~= rest.subrange(sp, sp + 3));
    crate::text::lemma_find_from_some(rest.take(at), "://"@, 0, sp);
    assert(trim(raw).len() > 0);
}

/// `github.com/` shorthand keeps its ref too: with no `://` in the text
/// after `git:` and its last `@` after a `github.com/` prefix, the URL is
/// `https://` and the text before the `@`, and the ref the text after it.
pub proof fn lemma_github_ref_kept(raw: Seq<char>, at: int)
    requires
        starts_with(trim(raw), "git:"@),
        !contains(trim(raw).skip(4), "://"@),
        rfind_char(trim(raw).skip(4), '@') == Some(at),
        starts_with(trim(raw).skip(4).take(at), "github.com/"@),
    ensures
        parse_source_spec(raw) == Ok::<(Seq<char>, Option<Seq<char>>, bool), Seq<char>>(
            ("https://"@ + trim(raw).skip(4).take(at), Some(trim(raw).skip(4).skip(at + 1)), true),
        ),
{
    let rest = trim(raw).skip(4);
    reveal_strlit("git:");
    reveal_strlit("github.com/");
    let url = rest.take(at);
    assert(0 <= at <= rest.len()) by {
        lemma_rfind_char_bound(rest, '@');
    }
    assert(rest.take(11) =~= url.take(11));
    assert(starts_with(rest, "github.com/"@));
    if contains(url, "://"@) {
        lemma_contains_take(rest, "://"@, at);
    }
    assert(trim(raw).len() > 0);
}

/// An `@` of a scheme URL's authority (a user name) is no ref separator:
/// when the text after `git:` has `://` and no `@` after the first `/` that
/// follows it, the whole text is the URL and there is no ref.
pub proof fn lemma_git_url_without_ref(raw: Seq<char>, sp: int)
    requires
        starts_with(trim(raw), "git:"@),
        find(trim(raw).skip(4), "://"@) == Some(sp),
        match rfind_char(trim(raw).skip(4), '@') {
            None => true,
            Some(at) => match find_char(trim(raw).skip(4).skip(sp + 3), '/') {
                Some(o) => at <= sp + 3 + o,
                None => true,
            },
        },
    ensures
        parse_source_spec(raw) == Ok::<(Seq<char>, Option<Seq<char>>, bool), Seq<char>>(
            (trim(raw).skip(4), None, true),
        ),
{
    let rest = trim(raw).skip(4);
    reveal_strlit("git:");
    reveal_strlit("://");
    crate::text::lemma_find_from_occurs(rest, "://"@, 0);
    crate::text::lemma_find_from_some(rest, "://"@, 0, sp);
    assert(trim(raw).len() > 0);
    assert(rest.len() > 0);
}

} // verus!
