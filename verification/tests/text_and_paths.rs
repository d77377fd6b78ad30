use opi_coding_agent::discovery::lex_less;
use opi_coding_agent::frontmatter::{
    check_name, description_too_long, extract_body, extract_frontmatter, parse_field,
    strip_yaml_quotes, FrontmatterError, NameProblem,
};
use opi_coding_agent::paths::{components_of, components_to_text, join_path, starts_with_components};
use opi_coding_agent::sorting::{apply_order, stable_sorted_order};

fn chars(s: &str) -> Vec<char> {
    s.chars().collect()
}

fn text(v: &[char]) -> String {
    v.iter().collect()
}

#[test]
fn frontmatter_between_delimiters() {
    let doc = chars("\n  ---\nname: review\ndescription: \"Review code\"\n---\n\nBody text\n");
    let fm = extract_frontmatter(&doc).unwrap();
    assert_eq!(text(&fm), "name: review\ndescription: \"Review code\"");
    assert_eq!(text(&extract_body(&doc)), "Body text\n");
    assert_eq!(text(&parse_field(&fm, "name").unwrap()), "review");
    let description = parse_field(&fm, "description").unwrap();
    assert_eq!(text(&strip_yaml_quotes(&description)), "Review code");
    assert!(parse_field(&fm, "version").is_none());
    assert_eq!(text(&strip_yaml_quotes(&chars("'x'"))), "x");
    assert_eq!(text(&strip_yaml_quotes(&chars("bare"))), "bare");
}

#[test]
fn frontmatter_errors() {
    assert_eq!(extract_frontmatter(&chars("name: x\n")), Err(FrontmatterError::MissingOpening));
    assert_eq!(extract_frontmatter(&chars("---\nname: x\n")), Err(FrontmatterError::MissingClosing));
    assert_eq!(text(&extract_body(&chars("---\nname: x\n"))), "");
}

#[test]
fn names_and_descriptions() {
    assert_eq!(check_name(&chars("code-review-2")), None);
    assert_eq!(check_name(&chars("Review")), Some(NameProblem::InvalidChar { ch: 'R' }));
    assert_eq!(check_name(&chars("a_b")), Some(NameProblem::InvalidChar { ch: '_' }));
    let long: String = std::iter::repeat('a').take(65).collect();
    assert_eq!(check_name(&chars(&long)), Some(NameProblem::TooLong { len: 65 }));
    let accented: String = std::iter::repeat('é').take(600).collect();
    assert_eq!(description_too_long(&chars(&accented)), None);
    let desc: String = std::iter::repeat('é').take(1025).collect();
    assert_eq!(description_too_long(&chars(&desc)), Some(1025));
    assert_eq!(description_too_long(&chars("short")), None);
}

#[test]
fn paths_join_and_compare() {
    assert_eq!(join_path("/home/u", ".config"), "/home/u/.config");
    assert_eq!(join_path("/home/u/", "opi"), "/home/u/opi");
    assert_eq!(join_path("/home/u", "/etc/opi"), "/etc/opi");
    let a = components_of(&chars("/pkgs/todo/bin"));
    let b = components_of(&chars("/pkgs/todo"));
    assert!(starts_with_components(&a, &b));
    assert!(!starts_with_components(&b, &a));
    assert_eq!(text(&components_to_text(&a)), "/pkgs/todo/bin");
}

#[test]
fn code_point_order_and_stable_sort() {
    assert!(lex_less(&chars("alpha"), &chars("beta")));
    assert!(lex_less(&chars("ab"), &chars("abc")));
    assert!(!lex_less(&chars("b"), &chars("b")));
    assert!(lex_less(&chars("Z"), &chars("a")));
    let keys = vec![
        (2u32, chars("b"), Vec::new()),
        (1u32, chars("z"), Vec::new()),
        (2u32, chars("a"), Vec::new()),
        (1u32, chars("z"), Vec::new()),
    ];
    let order = stable_sorted_order(&keys);
    assert_eq!(order, vec![1, 3, 2, 0]);
    assert_eq!(apply_order(vec!["b2", "z1", "a2", "z1'"], &order), vec!["z1", "z1'", "a2", "b2"]);
}
