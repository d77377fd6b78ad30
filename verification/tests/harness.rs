use opi_coding_agent::harness::{aggregate_turn_usage, filter_extension_tools, Usage};
use opi_coding_agent::policy::ToolSelection;
use opi_coding_agent::harness::{
    check_model_switch, compaction_summary_text, finish_resource_metadata,
    format_installed_package_diagnostic, harness_package_metadata, initial_thinking_request_config,
    max_tokens_for_thinking_budget, merge_package_resources, metadata_names, parse_model_spec,
    thinking_level_request, validate_thinking_budget_for_model, DiscoveredResourceMetadata,
    InstalledPackages, InteractiveCodingHooks, ModelLimits, ResourceMetadataEntry, ThinkingRequest,
};
use opi_coding_agent::package_discovery::{
    merge_discovered_packages, KindListing, PackageDiscoveryError, PackageListing, PackageManifest,
    PackageRegistry, PackageResource, ResourceKind, ResourceProbe,
};
use opi_coding_agent::package_resolver::{
    InstalledPackageScope, PackageDiagnostic, PackageDiagnosticSeverity, PackageResolverError,
};
use opi_coding_agent::resource::ResourceDiscoveryError;
use opi_coding_agent::skill::SkillDiscoveryError;
use opi_coding_agent::theme_discovery::ThemeDiscoveryError;
use opi_coding_agent::prompt_fragment::FragmentDiscoveryError;

fn entry(name: &str, description: Option<&str>, version: Option<&str>) -> ResourceMetadataEntry {
    ResourceMetadataEntry {
        name: name.to_string(),
        description: description.map(String::from),
        version: version.map(String::from),
    }
}

fn package(name: &str, precedence: u32, description: &str) -> PackageResource {
    PackageResource {
        manifest: PackageManifest {
            name: name.to_string(),
            description: description.to_string(),
            version: Some("1.0.0".to_string()),
            opi_version: None,
            adapter: None,
            extensions: None,
            skills: None,
            fragments: None,
            themes: None,
            disabled: Vec::new(),
        },
        path: format!("/p/{name}"),
        package_toml_path: format!("/p/{name}/package.toml"),
        layer_precedence: precedence,
    }
}

#[test]
fn system_prompt_sections() {
    let mut m = DiscoveredResourceMetadata::default();
    assert_eq!(m.format_for_system_prompt(), "");
    m.packages.push(entry("todo", Some("Todo tools"), Some("1.2.0")));
    m.skills.push(entry("review", Some("Review code"), None));
    m.diagnostics.push("bad theme".to_string());
    assert_eq!(
        m.format_for_system_prompt(),
        "Discovered packages:\n- todo: Todo tools v1.2.0\n\nDiscovered skills:\n- review: Review code\n\nResource discovery diagnostics:\n- bad theme"
    );
}

#[test]
fn extension_names_are_added_once_in_order() {
    let mut m = DiscoveredResourceMetadata::default();
    m.add_extension_name("zeta".to_string());
    m.add_extension_name("alpha".to_string());
    m.add_extension_name("zeta".to_string());
    assert_eq!(metadata_names(&m.extensions), vec!["alpha".to_string(), "zeta".to_string()]);
}

#[test]
fn installed_packages_win_at_equal_or_higher_precedence() {
    let mut ps = vec![package("a", 1, "discovered a"), package("b", 2, "discovered b")];
    merge_package_resources(
        &mut ps,
        vec![package("a", 1, "installed a"), package("b", 0, "installed b"), package("c", 0, "installed c")],
    );
    let names: Vec<(String, u32, String)> = ps
        .iter()
        .map(|p| (p.manifest.name.clone(), p.layer_precedence, p.manifest.description.clone()))
        .collect();
    assert_eq!(
        names,
        vec![
            ("c".to_string(), 0, "installed c".to_string()),
            ("a".to_string(), 1, "installed a".to_string()),
            ("b".to_string(), 2, "discovered b".to_string()),
        ]
    );
}

#[test]
fn model_specs() {
    assert_eq!(parse_model_spec("openai:gpt-4o").unwrap(), ("openai".to_string(), "gpt-4o".to_string()));
    assert_eq!(parse_model_spec("a:b:c").unwrap(), ("a".to_string(), "b:c".to_string()));
    for bad in ["nocolon", ":m", "p:"] {
        assert_eq!(parse_model_spec(bad).unwrap_err(), "invalid model spec: expected provider:model");
    }
}

fn model(id: &str, thinks: bool, max_out: u64) -> ModelLimits {
    ModelLimits { id: id.to_string(), supports_thinking: thinks, max_output_tokens: max_out }
}

#[test]
fn thinking_budgets() {
    assert_eq!(max_tokens_for_thinking_budget(10).unwrap(), 11);
    assert_eq!(
        max_tokens_for_thinking_budget(u64::MAX).unwrap_err(),
        format!("thinking budget {} cannot fit a valid max_tokens value", u64::MAX)
    );
    assert_eq!(
        validate_thinking_budget_for_model(&model("m", false, 100), 10, 11).unwrap_err(),
        "model 'm' does not support thinking"
    );
    assert_eq!(
        validate_thinking_budget_for_model(&model("m", true, 100), 200, 201).unwrap_err(),
        "thinking budget 200 requires max_tokens 201, exceeding max output tokens 100 for model 'm'"
    );
    assert!(validate_thinking_budget_for_model(&model("m", true, 100), 99, 100).is_ok());
}

#[test]
fn initial_thinking_fits_the_model() {
    assert_eq!(initial_thinking_request_config(None, false, 1000), (None, None));
    assert_eq!(
        initial_thinking_request_config(None, true, 1000),
        (Some(ThinkingRequest { enabled: true, budget_tokens: Some(1000) }), Some(1001))
    );
    let m = model("m", true, 500);
    assert_eq!(
        initial_thinking_request_config(Some(&m), true, 1000),
        (Some(ThinkingRequest { enabled: true, budget_tokens: Some(499) }), Some(500))
    );
    assert_eq!(initial_thinking_request_config(Some(&model("m", true, 1)), true, 1000), (None, None));
    assert_eq!(initial_thinking_request_config(Some(&model("m", false, 9000)), true, 1000), (None, None));
}

#[test]
fn thinking_levels() {
    assert_eq!(thinking_level_request("off", 8000, None).unwrap(), (None, None));
    assert_eq!(
        thinking_level_request("low", 8000, None).unwrap(),
        (Some(ThinkingRequest { enabled: true, budget_tokens: Some(2048) }), Some(2049))
    );
    assert_eq!(
        thinking_level_request("high", 8000, None).unwrap().1,
        Some(20001)
    );
    assert_eq!(
        thinking_level_request("extreme", 8000, None).unwrap_err(),
        "invalid thinking level 'extreme': expected off, low, medium, or high"
    );
    assert_eq!(
        thinking_level_request("medium", 8000, Some(&model("m", true, 100))).unwrap_err(),
        "thinking budget 8000 requires max_tokens 8001, exceeding max output tokens 100 for model 'm'"
    );
}

#[test]
fn model_switch_rules() {
    let off = ThinkingRequest { enabled: false, budget_tokens: None };
    assert_eq!(
        check_model_switch("b", "m", "a", None, off).unwrap_err(),
        "cannot switch provider from a to b at runtime"
    );
    assert_eq!(check_model_switch("a", "m", "a", None, off).unwrap_err(), "unknown model 'm' for provider 'a'");
    assert!(check_model_switch("a", "m", "a", Some(&model("m", false, 10)), off).is_ok());
    let on = ThinkingRequest { enabled: true, budget_tokens: Some(100) };
    assert_eq!(
        check_model_switch("a", "m", "a", Some(&model("m", false, 10)), on).unwrap_err(),
        "model 'm' does not support thinking"
    );
}

#[test]
fn small_texts() {
    assert_eq!(
        compaction_summary_text("S"),
        "[Context was compacted. Summary of earlier conversation: S]"
    );
    let d = PackageDiagnostic {
        scope: InstalledPackageScope::Project,
        source: "./x".to_string(),
        severity: PackageDiagnosticSeverity::Error,
        code: "lock_missing".to_string(),
        message: "m".to_string(),
    };
    assert_eq!(format_installed_package_diagnostic(&d), "installed package Project ./x: lock_missing (m)");
    let _hooks = InteractiveCodingHooks::new(true);
}

#[test]
fn package_metadata_reports_failures() {
    let (ps, m) = harness_package_metadata(
        Err(PackageDiscoveryError::InvalidManifest { path: "/p".to_string(), reason: "r".to_string() }),
        InstalledPackages::Resolved(Err(PackageResolverError::Failed("x".to_string()))),
    );
    assert!(ps.is_empty());
    assert_eq!(m.diagnostics.len(), 2);
    assert!(m.diagnostics[0].starts_with("package discovery failed: "));
    assert_eq!(m.diagnostics[1], "installed package resolution failed: package resolver failed: x");
    let (ps, m) = harness_package_metadata(Ok(vec![package("a", 0, "d")]), InstalledPackages::NotLooked);
    assert_eq!(ps.len(), 1);
    assert_eq!(m.packages[0].name, "a");
    assert_eq!(m.packages[0].description.as_deref(), Some("d"));
    assert_eq!(m.packages[0].version.as_deref(), Some("1.0.0"));
}

#[test]
fn finishing_metadata_records_each_failure() {
    let mut m = DiscoveredResourceMetadata::default();
    let themes = finish_resource_metadata(
        &mut m,
        vec!["layer diag".to_string()],
        Err(ResourceDiscoveryError::Io("e1".to_string())),
        Err(SkillDiscoveryError::Io("e2".to_string())),
        Err(FragmentDiscoveryError::Io("e3".to_string())),
        Err(ThemeDiscoveryError::Io("e4".to_string())),
    );
    assert!(themes.is_empty());
    assert_eq!(
        m.diagnostics,
        vec![
            "layer diag".to_string(),
            "extension discovery failed: I/O error discovering extensions: e1".to_string(),
            "skill discovery failed: I/O error discovering skills: e2".to_string(),
            "fragment discovery failed: I/O error discovering fragments: e3".to_string(),
            "theme discovery failed: I/O error discovering themes: e4".to_string(),
        ]
    );
}

#[test]
fn turn_usage_adds_up_and_saturates() {
    let a = Usage { input_tokens: 10, output_tokens: 5, cache_read_tokens: 1, cache_write_tokens: 0 };
    let b = Usage { input_tokens: u64::MAX - 3, output_tokens: 7, cache_read_tokens: 2, cache_write_tokens: 4 };
    let t = aggregate_turn_usage(&vec![a, b]);
    assert_eq!(t.input_tokens, u64::MAX);
    assert_eq!(t.output_tokens, 12);
    assert_eq!(t.cache_read_tokens, 3);
    assert_eq!(t.cache_write_tokens, 4);
    let none = aggregate_turn_usage(&Vec::new());
    assert_eq!(none.input_tokens, 0);
}

#[test]
fn extension_tools_follow_the_selection() {
    let tools = || vec![("todo".to_string(), 1), ("grep_ext".to_string(), 2), ("notes".to_string(), 3)];
    let names = |v: Vec<(String, i32)>| v.into_iter().map(|(n, _)| n).collect::<Vec<_>>();
    assert_eq!(names(filter_extension_tools(tools(), &ToolSelection::Default)).len(), 3);
    assert_eq!(names(filter_extension_tools(tools(), &ToolSelection::NoBuiltin)).len(), 3);
    assert!(filter_extension_tools(tools(), &ToolSelection::Disabled).is_empty());
    let kept = filter_extension_tools(
        tools(),
        &ToolSelection::Allowlist(vec!["notes".to_string(), "todo".to_string()]),
    );
    assert_eq!(kept, vec![("todo".to_string(), 1), ("notes".to_string(), 3)]);
}

#[test]
fn discovered_packages_merge_by_name_and_precedence() {
    let merged = merge_discovered_packages(vec![package("b", 0, "low"), package("a", 1, "a"), package("b", 2, "high")]).unwrap();
    assert_eq!(merged.iter().map(|p| (p.manifest.name.as_str(), p.layer_precedence)).collect::<Vec<_>>(), vec![("a", 1), ("b", 2)]);
    assert_eq!(merged[1].manifest.description, "high");
    match merge_discovered_packages(vec![package("x", 0, "1"), package("x", 5, "2"), package("x", 0, "3")]) {
        Err(PackageDiscoveryError::DuplicateName { name, path }) => {
            assert_eq!(name, "x");
            assert_eq!(path, "/p/x");
        }
        other => panic!("unexpected {other:?}"),
    }
}

#[test]
fn package_registry_names_are_sorted() {
    let reg = PackageRegistry::from_resources(vec![package("c", 0, "d"), package("a", 0, "d"), package("b", 1, "d")]);
    assert_eq!(reg.names(), vec!["a".to_string(), "b".to_string(), "c".to_string()]);
    let reg = PackageRegistry::from_resources(vec![package("b", 0, "d"), package("a", 0, "d"), package("b", 1, "d")]);
    assert_eq!(reg.names(), vec!["a".to_string(), "b".to_string(), "b".to_string()]);
}

fn empty_kind(exists: bool) -> KindListing {
    KindListing { dir_exists: exists, canonical_package: Ok("/p/a".to_string()), probes: Vec::new() }
}

fn listed_kind(p: &PackageResource, kind: ResourceKind, exists: bool) -> KindListing {
    let probes = p
        .listed_targets(kind)
        .unwrap()
        .into_iter()
        .map(|(name, path)| {
            Ok(ResourceProbe {
                name: Some(name),
                canonical: Ok(path.clone()),
                path,
                is_dir: exists,
                has_marker: exists,
            })
        })
        .collect();
    KindListing { dir_exists: exists, canonical_package: Ok("/p/a".to_string()), probes }
}

#[test]
fn a_listed_skill_without_its_directory_is_missing() {
    let mut p = package("a", 0, "d");
    p.manifest.skills = Some(vec!["off".to_string(), "on".to_string()]);
    p.manifest.disabled = vec!["off".to_string()];
    let listing = PackageListing {
        extensions: empty_kind(false),
        skills: listed_kind(&p, ResourceKind::Skill, false),
        fragments: empty_kind(false),
        themes: empty_kind(false),
    };
    assert!(p.listing_fits_manifest(&listing));
    match p.compose(&listing) {
        Err(PackageDiscoveryError::MissingAsset { package_name, kind, name }) => {
            assert_eq!(package_name, "a");
            assert_eq!(kind, "skill");
            assert_eq!(name, "on");
        }
        other => panic!("unexpected {other:?}"),
    }
    let listing = PackageListing {
        extensions: empty_kind(false),
        skills: listed_kind(&p, ResourceKind::Skill, true),
        fragments: empty_kind(false),
        themes: empty_kind(false),
    };
    let rs = p.compose(&listing).unwrap();
    assert_eq!(rs.len(), 1);
    assert_eq!(rs[0].name, "on");
    assert_eq!(rs[0].path, "/p/a/skills/on");
    let mut wrong = listing;
    wrong.skills.probes.pop();
    assert!(!p.listing_fits_manifest(&wrong));
}
