use opi_coding_agent::package_cli::{display_version, doctor_summary, git_cache_dir, git_cache_key, no_match_message, sha256_hex_text};
use opi_coding_agent::package_discovery::{parse_simple_version, version_less, OpiVersionDiagnostic};
use opi_coding_agent::package_resolver::{
    manifest_sha256, resolve_declared_installed_packages, scope_read_error, sha256_of_bytes,
    InstalledPackageScope, PackageResolverError,
};
use opi_coding_agent::package_store::{
    CacheSettleAction, PackageSource, PackageStore, PackageStoreError, PendingCacheReplacement,
};

#[test]
fn sha256_digests_are_lowercase_hex() {
    assert_eq!(
        sha256_of_bytes(b""),
        "e3b0c44298fc1c149afbf4c8996fb92427ae41e4649b934ca495991b7852b855"
    );
    assert_eq!(
        sha256_hex_text("abc"),
        "ba7816bf8f01cfea414140de5dae2223b00361a396177a9cb410ff61f20015ad"
    );
    assert_eq!(
        manifest_sha256("/p/package.toml", &Ok(b"abc".to_vec())).unwrap(),
        "ba7816bf8f01cfea414140de5dae2223b00361a396177a9cb410ff61f20015ad"
    );
    match manifest_sha256("/p/package.toml", &Err("gone".to_string())) {
        Err(PackageResolverError::Failed(m)) => assert_eq!(m, "read /p/package.toml: gone"),
        other => panic!("unexpected {other:?}"),
    }
}

#[test]
fn git_cache_directories() {
    assert_eq!(git_cache_key("https://h/r"), "git:https://h/r");
    let dir = git_cache_dir("/c", "https://h/r");
    assert_eq!(dir, format!("/c/{}", sha256_hex_text("git:https://h/r")));
}

#[test]
fn sources_parse() {
    match PackageSource::parse("git:github.com/user/repo@v1").unwrap() {
        PackageSource::Git { url, refspec } => {
            assert_eq!(url, "https://github.com/user/repo");
            assert_eq!(refspec.as_deref(), Some("v1"));
        }
        other => panic!("unexpected {other:?}"),
    }
    match PackageSource::parse("./vendor/todo").unwrap() {
        PackageSource::Local { path } => assert_eq!(path, "./vendor/todo"),
        other => panic!("unexpected {other:?}"),
    }
    match PackageSource::parse("   ") {
        Err(PackageStoreError::InvalidSource { reason, .. }) => assert_eq!(reason, "source string is empty"),
        other => panic!("unexpected {other:?}"),
    }
    assert!(PackageSource::parse("git:git@host:path").is_err());
}

#[test]
fn cache_targets_must_stay_inside_the_cache() {
    let store = PackageStore::project("/w".to_string());
    assert_eq!(store.cache_dir(), "/w/.opi/package-cache");
    assert!(store.is_within_cache("/w/.opi/package-cache/x"));
    assert!(!store.is_within_cache("/w/.opi/package-cache/../evil"));
    assert!(store.check_clone_target("/w/.opi/package-cache/x").is_ok());
    match store.check_clone_target("/tmp/x") {
        Err(PackageStoreError::Git(m)) => assert_eq!(
            m,
            "clone target \"/tmp/x\" is outside the store cache directory \"/w/.opi/package-cache\""
        ),
        other => panic!("unexpected {other:?}"),
    }
    match store.check_replacement("/w/.opi/package-cache/x", "/w/.opi/package-cache/.x.staging", false) {
        Err(PackageStoreError::Git(m)) => assert_eq!(m, "staging directory does not exist: /w/.opi/package-cache/.x.staging"),
        other => panic!("unexpected {other:?}"),
    }
    assert!(store.check_replacement("/w/.opi/package-cache/x", "/w/.opi/package-cache/.x.staging", true).is_ok());
}

#[test]
fn a_committed_replacement_is_never_rolled_back() {
    let mut p = PendingCacheReplacement::new("/c/x".to_string(), Some("/c/.x.backup".to_string()));
    match p.commit() {
        CacheSettleAction::RemoveBackup { path } => assert_eq!(path, "/c/.x.backup"),
        other => panic!("unexpected {other:?}"),
    }
    assert!(matches!(p.drop_action(), CacheSettleAction::Nothing));
    assert!(matches!(p.rollback(), CacheSettleAction::Nothing));
    let mut q = PendingCacheReplacement::new("/c/y".to_string(), None);
    match q.drop_action() {
        CacheSettleAction::Restore { target, backup } => {
            assert_eq!(target, "/c/y");
            assert!(backup.is_none());
        }
        other => panic!("unexpected {other:?}"),
    }
    assert!(matches!(q.commit(), CacheSettleAction::Nothing));
}

#[test]
fn a_failed_rollback_is_retried_on_drop() {
    let mut p = PendingCacheReplacement::new("/c/x".to_string(), Some("/c/.x.backup".to_string()));
    assert!(matches!(p.rollback(), CacheSettleAction::Restore { .. }));
    p.restore_done(false);
    match p.drop_action() {
        CacheSettleAction::Restore { target, backup } => {
            assert_eq!(target, "/c/x");
            assert_eq!(backup.as_deref(), Some("/c/.x.backup"));
        }
        other => panic!("unexpected {other:?}"),
    }
    let mut q = PendingCacheReplacement::new("/c/y".to_string(), None);
    assert!(matches!(q.rollback(), CacheSettleAction::Restore { .. }));
    q.restore_done(true);
    assert!(matches!(q.drop_action(), CacheSettleAction::Nothing));
}

#[test]
fn versions() {
    let a = parse_simple_version(&"1.2.3".chars().collect::<Vec<char>>()).unwrap();
    let b = parse_simple_version(&"1.10.0".chars().collect::<Vec<char>>()).unwrap();
    assert!(version_less(a, b));
    assert!(!version_less(b, a));
    assert!(parse_simple_version(&"1.x".chars().collect::<Vec<char>>()).is_none());
    assert!(OpiVersionDiagnostic::check(">=0.1.0", "0.5.3").is_none());
    assert!(OpiVersionDiagnostic::check(">=9.0.0", "0.5.3").is_some());
}

#[test]
fn resolver_errors_and_ordering() {
    match scope_read_error(InstalledPackageScope::Global, "declarations", "denied") {
        PackageResolverError::Failed(m) => assert_eq!(m, "read Global package declarations: denied"),
    }
    let r = resolve_declared_installed_packages(Vec::new(), Vec::new());
    assert!(r.packages.is_empty() && r.diagnostics.is_empty());
}

#[test]
fn cli_texts() {
    assert_eq!(display_version(Some("1.0")), "1.0");
    assert_eq!(no_match_message("x"), "opi package: no declaration matching 'x'");
    assert_eq!(doctor_summary(2), "All 2 package(s) OK.");
    assert_eq!(doctor_summary(0), "No packages installed.");
}
