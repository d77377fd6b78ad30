use opi_coding_agent::prompt_fragment::{
    expand_fragment_body, fragment_md_would_panic, FragmentArgument, FragmentDiscoveryError, FragmentManifest, FragmentRegistry,
    FragmentResource,
};
use opi_coding_agent::resource::{
    add_discovered_extension, ExtensionManifest, ExtensionResource, ResourceDiscoveryError,
};
use opi_coding_agent::skill::{
    merge_discovered_skills, skill_body, skill_md_would_panic, SkillDiscoveryError, SkillManifest, SkillRegistry, SkillResource,
};
use opi_coding_agent::theme_discovery::{ThemeDiscoveryError, ThemeFile, ThemeManifest};

fn skill(name: &str, precedence: u32) -> SkillResource {
    SkillResource {
        manifest: SkillManifest { name: name.to_string(), description: "d".to_string(), disable_model_invocation: false },
        path: format!("/s/{name}"),
        skill_md_path: format!("/s/{name}/SKILL.md"),
        layer_precedence: precedence,
    }
}

#[test]
fn skill_manifests_parse() {
    let m = SkillManifest::from_skill_md(
        "---\nname: review\ndescription: \"Review code\"\ndisable-model-invocation: TRUE\n---\nBody here\n",
        "/s/review/SKILL.md",
    )
    .unwrap();
    assert_eq!(m.name, "review");
    assert_eq!(m.description, "Review code");
    assert!(m.disable_model_invocation);
    assert_eq!(skill_body("---\nname: a\n---\n\nBody here\n"), "Body here\n");
}

#[test]
fn skill_manifest_errors() {
    match SkillManifest::from_skill_md("no frontmatter", "/p") {
        Err(e @ SkillDiscoveryError::InvalidFrontmatter { .. }) => {
            assert!(e.message().starts_with("invalid frontmatter in /p: "))
        }
        other => panic!("unexpected {other:?}"),
    }
    match SkillManifest::from_skill_md("---\ndescription: d\n---\n", "/p") {
        Err(e @ SkillDiscoveryError::MissingField { .. }) => {
            assert_eq!(e.message(), "missing required field 'name' in skill at /p")
        }
        other => panic!("unexpected {other:?}"),
    }
    assert!(matches!(
        SkillManifest::from_skill_md("---\nname: Bad_Name\ndescription: d\n---\n", "/p"),
        Err(SkillDiscoveryError::InvalidName { .. })
    ));
}

#[test]
fn higher_precedence_skill_wins_and_equal_precedence_is_an_error() {
    let merged = merge_discovered_skills(vec![skill("b", 0), skill("a", 0), skill("b", 2), skill("b", 1)]).unwrap();
    assert_eq!(merged.iter().map(|s| (s.manifest.name.as_str(), s.layer_precedence)).collect::<Vec<_>>(), vec![("a", 0), ("b", 2)]);
    match merge_discovered_skills(vec![skill("b", 0), skill("a", 0), skill("b", 2), skill("a", 0)]) {
        Err(e @ SkillDiscoveryError::DuplicateName { .. }) => {
            assert_eq!(e.message(), "duplicate skill name 'a' in discovery layer at /s/a")
        }
        other => panic!("unexpected {other:?}"),
    }
}

#[test]
fn same_layer_duplicate_is_an_error_whatever_a_higher_layer_holds() {
    let r = merge_discovered_skills(vec![skill("x", 1), skill("x", 2), skill("x", 1)]);
    assert!(matches!(r, Err(SkillDiscoveryError::DuplicateName { ref name, .. }) if name == "x"));
    assert!(merge_discovered_skills(vec![skill("x", 1), skill("x", 2), skill("x", 3)]).is_ok());
}

#[test]
fn skill_registry_names_are_sorted() {
    let reg = SkillRegistry::from_resources(vec![skill("b", 0), skill("a", 0)]);
    assert_eq!(reg.names(), vec!["a".to_string(), "b".to_string()]);
}

#[test]
fn skill_registry_loads_bodies() {
    let reg = SkillRegistry::from_resources(vec![skill("a", 0)]);
    assert_eq!(reg.names(), vec!["a".to_string()]);
    assert!(reg.load_body("zzz", Ok(String::new())).is_none());
    assert_eq!(reg.load_body("a", Ok("---\nname: a\n---\nHello".to_string())).unwrap().unwrap(), "Hello");
    match reg.load_body("a", Err("denied".to_string())).unwrap() {
        Err(e) => assert_eq!(e.message(), "I/O error discovering skills: denied"),
        other => panic!("unexpected {other:?}"),
    }
}

fn arg(name: &str, required: bool, default: Option<&str>) -> FragmentArgument {
    FragmentArgument { name: name.to_string(), required, default: default.map(String::from) }
}

#[test]
fn fragment_expansion() {
    let args = vec![arg("lang", true, None), arg("tone", false, Some("calm"))];
    let values = vec![("lang".to_string(), "Rust".to_string())];
    assert_eq!(
        expand_fragment_body("Write {{lang}} in a {{tone}} tone; {{other}}", &args, &values).unwrap(),
        "Write Rust in a calm tone; {{other}}"
    );
    match expand_fragment_body("x", &args, &[]) {
        Err(e @ FragmentDiscoveryError::MissingArgument { .. }) => {
            assert_eq!(e.message(), "missing required argument 'lang' for fragment ''")
        }
        other => panic!("unexpected {other:?}"),
    }
    let last_wins = vec![("lang".to_string(), "C".to_string()), ("lang".to_string(), "Go".to_string())];
    assert_eq!(expand_fragment_body("{{lang}}", &args, &last_wins).unwrap(), "Go");
}

#[test]
fn fragment_registry_expands_loaded_bodies() {
    let reg = FragmentRegistry::from_resources(vec![FragmentResource {
        manifest: FragmentManifest {
            name: "greet".to_string(),
            description: "Greets".to_string(),
            arguments: vec![arg("who", true, None)],
        },
        path: "/f/greet".to_string(),
        fragment_md_path: "/f/greet/FRAGMENT.md".to_string(),
        layer_precedence: 0,
    }]);
    let values = vec![("who".to_string(), "Ada".to_string())];
    let r = reg.expand("greet", &values, Ok("---\nname: greet\n---\nHi {{who}}".to_string())).unwrap().unwrap();
    assert_eq!(r, "Hi Ada");
    assert!(reg.expand("nope", &values, Ok(String::new())).is_none());
    assert!(matches!(
        reg.expand("greet", &values, Err("gone".to_string())).unwrap(),
        Err(FragmentDiscoveryError::Io(_))
    ));
}

fn extension(name: &str, precedence: u32) -> ExtensionResource {
    ExtensionResource {
        manifest: ExtensionManifest { name: name.to_string(), version: None, description: None },
        path: format!("/e/{name}"),
        layer_precedence: precedence,
    }
}

#[test]
fn duplicate_extensions_in_one_layer_are_an_error() {
    let mut seen = Vec::new();
    add_discovered_extension(&mut seen, extension("x", 1)).unwrap();
    match add_discovered_extension(&mut seen, extension("x", 1)) {
        Err(e @ ResourceDiscoveryError::DuplicateName { .. }) => {
            assert_eq!(e.message(), "duplicate extension name 'x' in discovery layer at /e/x")
        }
        other => panic!("unexpected {other:?}"),
    }
    add_discovered_extension(&mut seen, extension("x", 3)).unwrap();
    assert_eq!(seen.len(), 1);
    assert_eq!(seen[0].layer_precedence, 3);
}

#[test]
fn theme_manifests() {
    let m = ThemeManifest::from_parsed(
        Ok(ThemeFile { name: Some("dark".to_string()), description: Some("Dark".to_string()) }),
        "/t/dark/theme.toml",
    )
    .unwrap();
    assert_eq!(m.name, "dark");
    match ThemeManifest::from_parsed(Err("bad toml".to_string()), "/t/x/theme.toml") {
        Err(e @ ThemeDiscoveryError::InvalidManifest { .. }) => {
            assert_eq!(e.message(), "invalid theme manifest at /t/x/theme.toml: bad toml")
        }
        other => panic!("unexpected {other:?}"),
    }
}

#[test]
fn lone_quote_fields_are_detected_before_parsing() {
    assert!(skill_md_would_panic("---\nname: \"\ndescription: d\n---\n"));
    assert!(skill_md_would_panic("---\nname: ok\ndescription: '\n---\n"));
    assert!(!skill_md_would_panic("---\nname: ok\ndescription: d\n---\n"));
    assert!(!skill_md_would_panic("no frontmatter"));
    assert!(fragment_md_would_panic("---\nname: \"\n---\n"));
    assert!(!fragment_md_would_panic("---\nname: ok\ndescription: d\n---\n"));
}
