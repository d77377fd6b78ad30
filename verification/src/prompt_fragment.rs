//! Prompt fragments: `FRAGMENT.md` manifests with declared arguments,
//! precedence-based discovery, `{{name}}` expansion and the registry.
//!
//! Arguments are declared as `arguments: text, from=en, to=fr`: a bare name
//! is required, `name=default` is optional with a default value.
use vstd::prelude::*;
use crate::text::string_views;

use crate::discovery::{
    Discovered, duplicate_at, has_duplicate, merge_discovered, merged_from, precedence_merge_law,
};
use crate::frontmatter::{
    FrontmatterError, body_spec, check_name, description_reason, description_reason_text,
    description_too_long, extract_body, extract_frontmatter, field_spec, first_disallowed,
    first_disallowed_char, frontmatter_spec, is_lone_quote, lone_quote, name_problem, name_reason,
    name_reason_text, parse_field, strip_quotes, strip_yaml_quotes,
};
use crate::text::{
    chars_eq, chars_of, extend_chars, extend_str, find_char, find_char_in, join, join_chars,
    occurs_at, matches_at, replace_all, split_char, split_chars, str_eq, string_of, subvec, trim,
    trim_chars, views,
};

verus! {

/// Errors from fragment discovery, manifest parsing and expansion.
#[derive(Debug)]
pub enum FragmentDiscoveryError {
    /// `FRAGMENT.md` has no valid frontmatter delimiters.
    InvalidFrontmatter { path: String, reason: String },
    /// A required field is missing or empty.
    MissingField { field: String, path: String },
    /// Two fragments of the same precedence use the same name.
    DuplicateName { name: String, path: String },
    /// The name holds invalid characters or is too long.
    InvalidName { path: String, reason: String },
    /// The description is too long.
    InvalidDescription { path: String, reason: String },
    /// An argument name is invalid.
    InvalidArgument { path: String, reason: String },
    /// A required argument was not given to an expansion.
    MissingArgument { fragment: String, argument: String },
    /// Reading the file system failed.
    Io(String),
}

/// The message of a fragment error error.
pub open spec fn fragment_error_message(e: FragmentDiscoveryError) -> Seq<char> {
    match e {
        FragmentDiscoveryError::InvalidFrontmatter { path, reason } => "invalid frontmatter in "@ + path@ + ": "@ + reason@,
        FragmentDiscoveryError::MissingField { field, path } => "missing required field '"@ + field@ + "' in fragment at "@ + path@,
        FragmentDiscoveryError::DuplicateName { name, path } => "duplicate fragment name '"@ + name@ + "' in discovery layer at "@ + path@,
        FragmentDiscoveryError::InvalidName { path, reason } => "invalid fragment name in "@ + path@ + ": "@ + reason@,
        FragmentDiscoveryError::InvalidDescription { path, reason } => "invalid description in fragment at "@ + path@ + ": "@ + reason@,
        FragmentDiscoveryError::InvalidArgument { path, reason } => "invalid argument name in fragment at "@ + path@ + ": "@ + reason@,
        FragmentDiscoveryError::MissingArgument { fragment, argument } => "missing required argument '"@ + argument@ + "' for fragment '"@ + fragment@ + "'"@,
        FragmentDiscoveryError::Io(m) => "I/O error discovering fragments: "@ + m@,
    }
}

impl FragmentDiscoveryError {
    /// The message of this error.
    pub fn message(&self) -> (r: String)
        ensures
            r@ == fragment_error_message(*self),
    {
        let mut v: Vec<char> = Vec::new();
        match self {
            FragmentDiscoveryError::InvalidFrontmatter { path, reason } => {
                extend_str(&mut v, "invalid frontmatter in ");
                extend_str(&mut v, path.as_str());
                extend_str(&mut v, ": ");
                extend_str(&mut v, reason.as_str());
            },
            FragmentDiscoveryError::MissingField { field, path } => {
                extend_str(&mut v, "missing required field '");
                extend_str(&mut v, field.as_str());
                extend_str(&mut v, "' in fragment at ");
                extend_str(&mut v, path.as_str());
            },
            FragmentDiscoveryError::DuplicateName { name, path } => {
                extend_str(&mut v, "duplicate fragment name '");
                extend_str(&mut v, name.as_str());
                extend_str(&mut v, "' in discovery layer at ");
                extend_str(&mut v, path.as_str());
            },
            FragmentDiscoveryError::InvalidName { path, reason } => {
                extend_str(&mut v, "invalid fragment name in ");
                extend_str(&mut v, path.as_str());
                extend_str(&mut v, ": ");
                extend_str(&mut v, reason.as_str());
            },
            FragmentDiscoveryError::InvalidDescription { path, reason } => {
                extend_str(&mut v, "invalid description in fragment at ");
                extend_str(&mut v, path.as_str());
                extend_str(&mut v, ": ");
                extend_str(&mut v, reason.as_str());
            },
            FragmentDiscoveryError::InvalidArgument { path, reason } => {
                extend_str(&mut v, "invalid argument name in fragment at ");
                extend_str(&mut v, path.as_str());
                extend_str(&mut v, ": ");
                extend_str(&mut v, reason.as_str());
            },
            FragmentDiscoveryError::MissingArgument { fragment, argument } => {
                extend_str(&mut v, "missing required argument '");
                extend_str(&mut v, argument.as_str());
                extend_str(&mut v, "' for fragment '");
                extend_str(&mut v, fragment.as_str());
                extend_str(&mut v, "'");
            },
            FragmentDiscoveryError::Io(m) => {
                extend_str(&mut v, "I/O error discovering fragments: ");
                extend_str(&mut v, m.as_str());
            },
        }
        string_of(&v)
    }
}

/// A declared fragment argument.
#[derive(Debug)]
pub struct FragmentArgument {
    /// Argument name: lowercase a-z, 0-9, hyphens and underscores.
    pub name: String,
    /// Whether the argument must be given to an expansion.
    pub required: bool,
    /// Value used when the argument is not given.
    pub default: Option<String>,
}

/// Parsed fragment manifest from `FRAGMENT.md` frontmatter.
#[derive(Debug)]
pub struct FragmentManifest {
    /// Fragment name: lowercase ASCII letters, digits and hyphens, at most 64 bytes.
    pub name: String,
    /// Description: not empty, at most 1024 characters.
    pub description: String,
    /// Declared arguments, in declaration order.
    pub arguments: Vec<FragmentArgument>,
}

/// A discovered fragment with its manifest, paths and layer precedence.
#[derive(Debug)]
pub struct FragmentResource {
    /// The parsed manifest (metadata only).
    pub manifest: FragmentManifest,
    /// The fragment directory.
    pub path: String,
    /// The `FRAGMENT.md` file, read again when the body is needed.
    pub fragment_md_path: String,
    /// Precedence of the discovery layer that produced it.
    pub layer_precedence: u32,
}

impl Discovered for FragmentResource {
    open spec fn key(&self) -> Seq<char> {
        self.manifest.name@
    }

    open spec fn rank(&self) -> u32 {
        self.layer_precedence
    }

    fn name_chars(&self) -> (r: Vec<char>) {
        chars_of(self.manifest.name.as_str())
    }

    fn precedence(&self) -> (p: u32) {
        self.layer_precedence
    }
}

/// An argument as plain values: name, required, default.
pub type ArgView = (Seq<char>, bool, Option<Seq<char>>);

/// The plain values of an argument.
pub open spec fn arg_view(a: FragmentArgument) -> ArgView {
    (
        a.name@,
        a.required,
        match a.default {
            Some(d) => Some(d@),
            None => None,
        },
    )
}

/// The plain values of a list of arguments.
pub open spec fn arg_views(s: Seq<FragmentArgument>) -> Seq<ArgView> {
    Seq::new(s.len(), |i: int| arg_view(s[i]))
}

// ---------------------------------------------------------------------------
// Arguments
// ---------------------------------------------------------------------------

/// Why an argument name is invalid, if it is.
pub open spec fn argument_name_reason(n: Seq<char>) -> Option<Seq<char>> {
    if n.len() == 0 {
        Some("argument name is empty"@)
    } else {
        match first_disallowed(n, true) {
            Some(c) => Some(
                "argument name '"@ + n + "' contains invalid character '"@ + seq![c]
                    + "': only lowercase a-z, 0-9, hyphens, and underscores are allowed"@,
            ),
            None => None,
        }
    }
}

/// One comma-separated part of an `arguments` value: nothing when blank,
/// else the argument or why its name is invalid.
pub open spec fn part_argument(raw: Seq<char>) -> Option<Result<ArgView, Seq<char>>> {
    let part = trim(raw);
    if part.len() == 0 {
        None
    } else {
        match find_char(part, '=') {
            Some(e) => {
                let n = trim(part.take(e));
                let d = trim(part.skip(e + 1));
                match argument_name_reason(n) {
                    Some(reason) => Some(Err(reason)),
                    None => Some(Ok((n, false, Some(d)))),
                }
            },
            None => match argument_name_reason(part) {
                Some(reason) => Some(Err(reason)),
                None => Some(Ok((part, true, None))),
            },
        }
    }
}

/// The arguments declared by the parts, or the first invalid name's reason.
pub open spec fn arguments_of_parts(parts: Seq<Seq<char>>) -> Result<Seq<ArgView>, Seq<char>>
    decreases parts.len(),
{
    if parts.len() == 0 {
        Ok(Seq::empty())
    } else {
        match arguments_of_parts(parts.drop_last()) {
            Err(e) => Err(e),
            Ok(prev) => match part_argument(parts.last()) {
                None => Ok(prev),
                Some(Ok(a)) => Ok(prev.push(a)),
                Some(Err(e)) => Err(e),
            },
        }
    }
}

/// The arguments declared by an `arguments` value.
pub open spec fn arguments_spec(s: Seq<char>) -> Result<Seq<ArgView>, Seq<char>> {
    arguments_of_parts(split_char(s, ','))
}

/// Once parsing the parts fails, parsing more parts fails the same way.
proof fn lemma_arguments_error_persists(ps: Seq<Seq<char>>, m: int, n: int)
    requires
        0 <= m <= n <= ps.len(),
        arguments_of_parts(ps.take(m)) is Err,
    ensures
        arguments_of_parts(ps.take(n)) == arguments_of_parts(ps.take(m)),
    decreases n - m,
{
    if n > m {
        lemma_arguments_error_persists(ps, m, n - 1);
        assert(ps.take(n).drop_last() =~= ps.take(n - 1));
    }
}

/// Why an argument name is invalid, if it is.
fn argument_name_problem(n: &[char]) -> (r: Option<String>)
    ensures
        match argument_name_reason(n@) {
            Some(x) => r matches Some(y) && y@ == x,
            None => r is None,
        },
{
    if n.len() == 0 {
        return Some(string_of(&chars_of("argument name is empty")));
    }
    match first_disallowed_char(n, true) {
        Some(c) => {
            let mut v: Vec<char> = Vec::new();
            extend_str(&mut v, "argument name '");
            extend_chars(&mut v, n);
            extend_str(&mut v, "' contains invalid character '");
            v.push(c);
            extend_str(
                &mut v,
                "': only lowercase a-z, 0-9, hyphens, and underscores are allowed",
            );
            Some(string_of(&v))
        },
        None => None,
    }
}

/// Parse a comma-separated `arguments` value.
fn parse_arguments(args: &[char], path: &str) -> (r: Result<
    Vec<FragmentArgument>,
    FragmentDiscoveryError,
>)
    ensures
        match arguments_spec(args@) {
            Ok(v) => r matches Ok(a) && arg_views(a@) == v,
            Err(reason) => r matches Err(FragmentDiscoveryError::InvalidArgument { path: p, reason: x })
                && p@ == path@ && x@ == reason,
        },
{
    let parts = split_chars(args, ',');
    let ghost ps = split_char(args@, ',');
    let mut out: Vec<FragmentArgument> = Vec::new();
    let mut k: usize = 0;
    assert(arg_views(out@) =~= Seq::<ArgView>::empty());
    assert(ps.take(0) =~= Seq::<Seq<char>>::empty());
    while k < parts.len()
        invariant
            k <= parts.len(),
            ps == views(parts@),
            ps == split_char(args@, ','),
            arguments_of_parts(ps.take(k as int)) == Ok::<Seq<ArgView>, Seq<char>>(
                arg_views(out@),
            ),
        decreases parts.len() - k,
    {
        assert(ps.take(k + 1).drop_last() =~= ps.take(k as int));
        assert(ps.take(k + 1).last() == parts@[k as int]@);
        let part = trim_chars(&parts[k]);
        if part.len() > 0 {
            match find_char_in(&part, '=') {
                Some(e) => {
                    let n = trim_chars(&subvec(&part, 0, e));
                    let d = trim_chars(&subvec(&part, e + 1, part.len()));
                    assert(part@.subrange(0, e as int) =~= part@.take(e as int));
                    assert(part@.subrange(e + 1, part@.len() as int) =~= part@.skip(e + 1));
                    match argument_name_problem(&n) {
                        Some(reason) => {
                            proof {
                                lemma_arguments_error_persists(ps, k + 1, ps.len() as int);
                                assert(ps.take(ps.len() as int) =~= ps);
                            }
                            return Err(
                                FragmentDiscoveryError::InvalidArgument {
                                    path: string_of(&chars_of(path)),
                                    reason,
                                },
                            );
                        },
                        None => {
                            let a = FragmentArgument {
                                name: string_of(&n),
                                required: false,
                                default: Some(string_of(&d)),
                            };
                            out.push(a);
                        },
                    }
                },
                None => {
                    match argument_name_problem(&part) {
                        Some(reason) => {
                            proof {
                                lemma_arguments_error_persists(ps, k + 1, ps.len() as int);
                                assert(ps.take(ps.len() as int) =~= ps);
                            }
                            return Err(
                                FragmentDiscoveryError::InvalidArgument {
                                    path: string_of(&chars_of(path)),
                                    reason,
                                },
                            );
                        },
                        None => {
                            let a = FragmentArgument {
                                name: string_of(&part),
                                required: true,
                                default: None,
                            };
                            out.push(a);
                        },
                    }
                },
            }
        }
        assert(arg_views(out@) =~= match arguments_of_parts(ps.take(k + 1)) {
            Ok(v) => v,
            Err(_) => arg_views(out@),
        });
        k += 1;
    }
    assert(ps.take(parts.len() as int) =~= ps);
    Ok(out)
}

// ---------------------------------------------------------------------------
// Manifest
// ---------------------------------------------------------------------------

/// Parsing `content` strips quotes off a lone quote character, and panics.
pub open spec fn fragment_md_panics(content: Seq<char>) -> bool {
    match frontmatter_spec(content) {
        Ok(fm) => match field_spec(fm, "name"@) {
            Some(n) => lone_quote(n) || (strip_quotes(n).len() > 0 && name_problem(
                strip_quotes(n),
            ) is None && match field_spec(fm, "description"@) {
                Some(d) => lone_quote(d),
                None => false,
            }),
            None => false,
        },
        Err(_) => false,
    }
}

/// Whether parsing `content` as a `FRAGMENT.md` would strip quotes off a
/// lone quote character (see `fragment_md_panics`); `from_fragment_md`
/// requires that it does not.
pub fn fragment_md_would_panic(content: &str) -> (r: bool)
    ensures
        r == fragment_md_panics(content@),
{
    let c = chars_of(content);
    let fm = match extract_frontmatter(&c) {
        Ok(fm) => fm,
        Err(_) => return false,
    };
    let n = match parse_field(&fm, "name") {
        Some(v) => v,
        None => return false,
    };
    if is_lone_quote(&n) {
        return true;
    }
    let name = strip_yaml_quotes(&n);
    if name.len() == 0 || check_name(&name).is_some() {
        return false;
    }
    match parse_field(&fm, "description") {
        Some(d) => is_lone_quote(&d),
        None => false,
    }
}

/// What `FragmentManifest::from_fragment_md(content, path)` returns.
pub open spec fn fragment_md_result(
    content: Seq<char>,
    path: Seq<char>,
    r: Result<FragmentManifest, FragmentDiscoveryError>,
) -> bool {
    match frontmatter_spec(content) {
        Err(FrontmatterError::MissingOpening) => r matches Err(
            FragmentDiscoveryError::InvalidFrontmatter { path: p, reason },
        ) && p@ == path && reason@ == "FRAGMENT.md must start with '---' frontmatter delimiter"@,
        Err(FrontmatterError::MissingClosing) => r matches Err(
            FragmentDiscoveryError::InvalidFrontmatter { path: p, reason },
        ) && p@ == path && reason@
            == "FRAGMENT.md frontmatter is missing closing '---' delimiter"@,
        Ok(fm) => {
            let nf = field_spec(fm, "name"@);
            if nf is None || strip_quotes(nf->0).len() == 0 {
                r matches Err(FragmentDiscoveryError::MissingField { field, path: p }) && field@
                    == "name"@ && p@ == path
            } else {
                let name = strip_quotes(nf->0);
                match name_problem(name) {
                    Some(pb) => r matches Err(
                        FragmentDiscoveryError::InvalidName { path: p, reason },
                    ) && p@ == path && reason@ == name_reason(pb),
                    None => {
                        let df = field_spec(fm, "description"@);
                        if df is None || strip_quotes(df->0).len() == 0 {
                            r matches Err(FragmentDiscoveryError::MissingField { field, path: p })
                                && field@ == "description"@ && p@ == path
                        } else {
                            let d = strip_quotes(df->0);
                            if d.len() > 1024 {
                                r matches Err(
                                    FragmentDiscoveryError::InvalidDescription { path: p, reason },
                                ) && p@ == path && reason@ == description_reason(d.len())
                            } else {
                                match field_spec(fm, "arguments"@) {
                                    None => r matches Ok(m) && m.name@ == name && m.description@
                                        == d && m.arguments@.len() == 0,
                                    Some(a) => match arguments_spec(a) {
                                        Ok(args) => r matches Ok(m) && m.name@ == name
                                            && m.description@ == d && arg_views(m.arguments@)
                                            == args,
                                        Err(reason) => r matches Err(
                                            FragmentDiscoveryError::InvalidArgument {
                                                path: p,
                                                reason: x,
                                            },
                                        ) && p@ == path && x@ == reason,
                                    },
                                }
                            }
                        }
                    },
                }
            }
        },
    }
}

/// The error for a missing required field.
fn missing_field(field: &str, path: &str) -> (r: FragmentDiscoveryError)
    ensures
        r matches FragmentDiscoveryError::MissingField { field: f, path: p } && f@ == field@ && p@
            == path@,
{
    FragmentDiscoveryError::MissingField {
        field: string_of(&chars_of(field)),
        path: string_of(&chars_of(path)),
    }
}

impl FragmentManifest {
    /// Parse a manifest from the full content of a `FRAGMENT.md` file.
    pub fn from_fragment_md(content: &str, path: &str) -> (r: Result<Self, FragmentDiscoveryError>)
        requires
            !fragment_md_panics(content@),
        ensures
            fragment_md_result(content@, path@, r),
    {
        let c = chars_of(content);
        let fm = match extract_frontmatter(&c) {
            Ok(fm) => fm,
            Err(e) => {
                let reason = match e {
                    FrontmatterError::MissingOpening => {
                        "FRAGMENT.md must start with '---' frontmatter delimiter"
                    },
                    FrontmatterError::MissingClosing => {
                        "FRAGMENT.md frontmatter is missing closing '---' delimiter"
                    },
                };
                return Err(
                    FragmentDiscoveryError::InvalidFrontmatter {
                        path: string_of(&chars_of(path)),
                        reason: string_of(&chars_of(reason)),
                    },
                );
            },
        };
        let name = match parse_field(&fm, "name") {
            Some(v) => {
                if is_lone_quote(&v) {
                    assert(false);
                }
                strip_yaml_quotes(&v)
            },
            None => return Err(missing_field("name", path)),
        };
        if name.len() == 0 {
            return Err(missing_field("name", path));
        }
        match check_name(&name) {
            Some(pb) => {
                return Err(
                    FragmentDiscoveryError::InvalidName {
                        path: string_of(&chars_of(path)),
                        reason: name_reason_text(pb),
                    },
                );
            },
            None => {},
        }
        let description = match parse_field(&fm, "description") {
            Some(v) => {
                if is_lone_quote(&v) {
                    assert(false);
                }
                strip_yaml_quotes(&v)
            },
            None => return Err(missing_field("description", path)),
        };
        if description.len() == 0 {
            return Err(missing_field("description", path));
        }
        match description_too_long(&description) {
            Some(len) => {
                return Err(
                    FragmentDiscoveryError::InvalidDescription {
                        path: string_of(&chars_of(path)),
                        reason: description_reason_text(len),
                    },
                );
            },
            None => {},
        }
        let arguments = match parse_field(&fm, "arguments") {
            Some(a) => parse_arguments(&a, path)?,
            None => Vec::new(),
        };
        Ok(
            FragmentManifest {
                name: string_of(&name),
                description: string_of(&description),
                arguments,
            },
        )
    }
}

/// The body of a `FRAGMENT.md` file: everything after the frontmatter.
pub fn fragment_body(content: &str) -> (r: String)
    ensures
        r@ == body_spec(content@),
{
    let c = chars_of(content);
    string_of(&extract_body(&c))
}

/// Merge the fragments found across discovery layers, in the order found,
/// into one per name sorted by name, keeping the one of highest precedence.
/// Two fragments of the same name and precedence are an error, whatever a
/// layer of higher precedence holds: the later of the first such pair is
/// reported.
pub fn merge_discovered_fragments(found: Vec<FragmentResource>) -> (r: Result<Vec<FragmentResource>, FragmentDiscoveryError>)
    ensures
        match r {
            Ok(v) => !has_duplicate(found@) && merged_from(found@, v@) && precedence_merge_law(
                found@,
                v@,
            ),
            Err(e) => exists|j: int|
                {
                    &&& duplicate_at(found@, j)
                    &&& forall|k: int| 0 <= k < j ==> !duplicate_at(found@, k)
                    &&& e matches FragmentDiscoveryError::DuplicateName { name, path }
                    &&& name@ == found@[j].manifest.name@
                    &&& path@ == found@[j].path@
                },
        },
{
    match merge_discovered(found) {
        Ok(v) => Ok(v),
        Err(item) => Err(FragmentDiscoveryError::DuplicateName { name: item.manifest.name, path: item.path }),
    }
}

// ---------------------------------------------------------------------------
// Expansion
// ---------------------------------------------------------------------------

/// The value given for `k`: the last pair with that key.
pub open spec fn lookup(values: Seq<(Seq<char>, Seq<char>)>, k: Seq<char>) -> Option<Seq<char>>
    decreases values.len(),
{
    if values.len() == 0 {
        None
    } else if values.last().0 == k {
        Some(values.last().1)
    } else {
        lookup(values.drop_last(), k)
    }
}

/// The value an argument takes: the given one, else its default.
pub open spec fn arg_value(a: ArgView, values: Seq<(Seq<char>, Seq<char>)>) -> Option<Seq<char>> {
    match lookup(values, a.0) {
        Some(v) => Some(v),
        None => a.2,
    }
}

/// The value that placeholder `name` is replaced by: that of the last
/// argument of that name which takes a value.
pub open spec fn resolved_value(
    args: Seq<ArgView>,
    values: Seq<(Seq<char>, Seq<char>)>,
    name: Seq<char>,
) -> Option<Seq<char>>
    decreases args.len(),
{
    if args.len() == 0 {
        None
    } else if args.last().0 == name && arg_value(args.last(), values) is Some {
        arg_value(args.last(), values)
    } else {
        resolved_value(args.drop_last(), values, name)
    }
}

/// The first required argument that is not given a value.
pub open spec fn first_missing(args: Seq<ArgView>, values: Seq<(Seq<char>, Seq<char>)>) -> Option<
    Seq<char>,
>
    decreases args.len(),
{
    if args.len() == 0 {
        None
    } else if args[0].1 && lookup(values, args[0].0) is None {
        Some(args[0].0)
    } else {
        first_missing(args.drop_first(), values)
    }
}

/// The placeholder of an argument.
pub open spec fn placeholder(name: Seq<char>) -> Seq<char> {
    seq!['{', '{'] + name + seq!['}', '}']
}

/// `body` with the placeholders of `args[..k]` replaced, in order.
pub open spec fn expand_prefix(
    body: Seq<char>,
    args: Seq<ArgView>,
    values: Seq<(Seq<char>, Seq<char>)>,
    k: int,
) -> Seq<char>
    decreases k,
{
    if k <= 0 {
        body
    } else {
        let prev = expand_prefix(body, args, values, k - 1);
        match resolved_value(args, values, args[k - 1].0) {
            Some(v) => replace_all(prev, placeholder(args[k - 1].0), v),
            None => prev,
        }
    }
}

/// The plain values of the given argument values.
pub open spec fn value_views(values: Seq<(String, String)>) -> Seq<(Seq<char>, Seq<char>)> {
    Seq::new(values.len(), |i: int| (values[i].0@, values[i].1@))
}

/// `s` with every occurrence of `pat` replaced by `rep`.
pub fn replace_chars(s: &[char], pat: &[char], rep: &[char]) -> (r: Vec<char>)
    ensures
        r@ == replace_all(s@, pat@, rep@),
{
    if pat.len() == 0 {
        assert(s@.subrange(0, s.len() as int) =~= s@);
        return subvec(s, 0, s.len());
    }
    let mut out: Vec<char> = Vec::new();
    let mut i: usize = 0;
    assert(s@.skip(0) =~= s@);
    while i < s.len()
        invariant
            i <= s.len(),
            pat@.len() > 0,
            replace_all(s@, pat@, rep@) == out@ + replace_all(s@.skip(i as int), pat@, rep@),
        decreases s.len() - i,
    {
        let ghost t = s@.skip(i as int);
        if matches_at(s, pat, i) {
            assert(t.take(pat@.len() as int) =~= s@.subrange(i as int, i + pat@.len()));
            assert(t.skip(pat@.len() as int) =~= s@.skip(i + pat@.len()));
            extend_chars(&mut out, rep);
            i = i + pat.len();
        } else {
            proof {
                if t.len() >= pat@.len() {
                    assert(t.take(pat@.len() as int) =~= s@.subrange(i as int, i + pat@.len()));
                }
            }
            assert(t.drop_first() =~= s@.skip(i + 1));
            proof {
                if t.len() < pat@.len() {
                    assert(replace_all(t, pat@, rep@) == t);
                    assert(replace_all(t.drop_first(), pat@, rep@) == t.drop_first());
                    assert(t =~= seq![t[0]] + t.drop_first());
                }
            }
            out.push(s[i]);
            i += 1;
        }
    }
    assert(s@.skip(i as int) =~= Seq::<char>::empty());
    out
}

/// The value given for `k`, if any.
fn lookup_value(values: &[(String, String)], k: &str) -> (r: Option<Vec<char>>)
    ensures
        match lookup(value_views(values@), k@) {
            Some(v) => r matches Some(x) && x@ == v,
            None => r is None,
        },
{
    let ghost vs = value_views(values@);
    let mut j: usize = values.len();
    assert(vs.take(values.len() as int) =~= vs);
    while j > 0
        invariant
            j <= values.len(),
            vs == value_views(values@),
            lookup(vs, k@) == lookup(vs.take(j as int), k@),
        decreases j,
    {
        assert(vs.take(j as int).drop_last() =~= vs.take(j - 1));
        if str_eq(values[j - 1].0.as_str(), k) {
            return Some(chars_of(values[j - 1].1.as_str()));
        }
        j -= 1;
    }
    None
}

/// The value that an argument takes.
fn argument_value(a: &FragmentArgument, values: &[(String, String)]) -> (r: Option<Vec<char>>)
    ensures
        match arg_value(arg_view(*a), value_views(values@)) {
            Some(v) => r matches Some(x) && x@ == v,
            None => r is None,
        },
{
    match lookup_value(values, a.name.as_str()) {
        Some(v) => Some(v),
        None => match &a.default {
            Some(d) => Some(chars_of(d.as_str())),
            None => None,
        },
    }
}

/// The value that placeholder `name` is replaced by.
fn resolve_value(args: &[FragmentArgument], values: &[(String, String)], name: &[char]) -> (r:
    Option<Vec<char>>)
    ensures
        match resolved_value(arg_views(args@), value_views(values@), name@) {
            Some(v) => r matches Some(x) && x@ == v,
            None => r is None,
        },
{
    let ghost av = arg_views(args@);
    let mut j: usize = args.len();
    assert(av.take(args.len() as int) =~= av);
    while j > 0
        invariant
            j <= args.len(),
            av == arg_views(args@),
            resolved_value(av, value_views(values@), name@) == resolved_value(
                av.take(j as int),
                value_views(values@),
                name@,
            ),
        decreases j,
    {
        assert(av.take(j as int).drop_last() =~= av.take(j - 1));
        assert(av.take(j as int).last() == arg_view(args@[j - 1]));
        let a = &args[j - 1];
        if chars_eq(&chars_of(a.name.as_str()), name) {
            match argument_value(a, values) {
                Some(v) => {
                    return Some(v);
                },
                None => {},
            }
        }
        j -= 1;
    }
    None
}

/// Expand `{{name}}` placeholders in a fragment body.
///
/// A required argument without a value is an error. An optional argument
/// without a value takes its default. Placeholders of undeclared names stay
/// as they are, and values for undeclared names are ignored. When `values`
/// gives a name more than once, the last pair counts.
pub fn expand_fragment_body(
    body: &str,
    arguments: &[FragmentArgument],
    values: &[(String, String)],
) -> (r: Result<String, FragmentDiscoveryError>)
    ensures
        match first_missing(arg_views(arguments@), value_views(values@)) {
            Some(m) => r matches Err(FragmentDiscoveryError::MissingArgument { fragment, argument })
                && fragment@.len() == 0 && argument@ == m,
            None => r matches Ok(s) && s@ == expand_prefix(
                body@,
                arg_views(arguments@),
                value_views(values@),
                arguments@.len() as int,
            ),
        },
{
    let ghost av = arg_views(arguments@);
    let ghost vv = value_views(values@);
    let mut i: usize = 0;
    assert(av.skip(0) =~= av);
    while i < arguments.len()
        invariant
            i <= arguments.len(),
            av == arg_views(arguments@),
            vv == value_views(values@),
            first_missing(av, vv) == first_missing(av.skip(i as int), vv),
        decreases arguments.len() - i,
    {
        assert(av.skip(i as int).drop_first() =~= av.skip(i + 1));
        assert(av.skip(i as int)[0] == arg_view(arguments@[i as int]));
        let a = &arguments[i];
        if a.required && lookup_value(values, a.name.as_str()).is_none() {
            return Err(
                FragmentDiscoveryError::MissingArgument {
                    fragment: String::new(),
                    argument: a.name.clone(),
                },
            );
        }
        i += 1;
    }
    let mut result = chars_of(body);
    let mut k: usize = 0;
    while k < arguments.len()
        invariant
            k <= arguments.len(),
            av == arg_views(arguments@),
            vv == value_views(values@),
            result@ == expand_prefix(body@, av, vv, k as int),
        decreases arguments.len() - k,
    {
        let name = chars_of(arguments[k].name.as_str());
        assert(av[k as int].0 == name@);
        match resolve_value(arguments, values, &name) {
            Some(v) => {
                let mut ph: Vec<char> = vec!['{', '{'];
                extend_chars(&mut ph, &name);
                ph.push('}');
                ph.push('}');
                assert(ph@ =~= placeholder(name@));
                result = replace_chars(&result, &ph, &v);
            },
            None => {},
        }
        k += 1;
    }
    Ok(string_of(&result))
}

// ---------------------------------------------------------------------------
// Registry
// ---------------------------------------------------------------------------

/// A registry of discovered fragments.
pub struct FragmentRegistry {
    resources: Vec<FragmentResource>,
}

/// The argument names of a fragment, joined with `", "`.
pub open spec fn argument_names(r: FragmentResource) -> Seq<char> {
    join(
        Seq::new(r.manifest.arguments@.len(), |i: int| r.manifest.arguments@[i].name@),
        ", "@,
    )
}

/// The prompt line of a fragment.
pub open spec fn fragment_line(r: FragmentResource) -> Seq<char> {
    "- "@ + r.manifest.name@ + ": "@ + r.manifest.description@ + if r.manifest.arguments@.len()
        == 0 {
        ""@
    } else {
        " ["@ + argument_names(r) + "]"@
    }
}

/// The RPC metadata text of one argument.
pub open spec fn argument_entry(a: FragmentArgument) -> Seq<char> {
    if a.required {
        " "@ + a.name@ + " (required)"@
    } else {
        " "@ + a.name@ + " (default: "@ + match a.default {
            Some(d) => d@,
            None => ""@,
        } + ")"@
    }
}

/// The RPC metadata text of the first `k` arguments.
pub open spec fn argument_entries(args: Seq<FragmentArgument>, k: int) -> Seq<char>
    decreases k,
{
    if k <= 0 {
        Seq::empty()
    } else {
        argument_entries(args, k - 1) + argument_entry(args[k - 1])
    }
}

/// The RPC metadata line of a fragment.
pub open spec fn fragment_rpc_line(r: FragmentResource) -> Seq<char> {
    r.manifest.name@ + ": "@ + r.manifest.description@ + if r.manifest.arguments@.len() == 0 {
        ""@
    } else {
        " | arguments:"@ + argument_entries(
            r.manifest.arguments@,
            r.manifest.arguments@.len() as int,
        )
    }
}

/// The index of the first fragment named `name`.
pub open spec fn first_named(s: Seq<FragmentResource>, name: Seq<char>) -> Option<int>
    decreases s.len(),
{
    if s.len() == 0 {
        None
    } else if s[0].manifest.name@ == name {
        Some(0)
    } else {
        match first_named(s.drop_first(), name) {
            Some(i) => Some(i + 1),
            None => None,
        }
    }
}

/// The prompt line of a fragment.
fn fragment_line_of(r: &FragmentResource) -> (line: Vec<char>)
    ensures
        line@ == fragment_line(*r),
{
    let mut line: Vec<char> = Vec::new();
    extend_str(&mut line, "- ");
    extend_str(&mut line, r.manifest.name.as_str());
    extend_str(&mut line, ": ");
    extend_str(&mut line, r.manifest.description.as_str());
    if r.manifest.arguments.len() == 0 {
        extend_str(&mut line, "");
    } else {
        let mut names: Vec<Vec<char>> = Vec::new();
        let ghost target = Seq::new(
            r.manifest.arguments@.len(),
            |i: int| r.manifest.arguments@[i].name@,
        );
        let mut i: usize = 0;
        while i < r.manifest.arguments.len()
            invariant
                i <= r.manifest.arguments@.len(),
                names@.len() == i,
                target == Seq::new(
                    r.manifest.arguments@.len(),
                    |i: int| r.manifest.arguments@[i].name@,
                ),
                views(names@) == target.take(i as int),
            decreases r.manifest.arguments.len() - i,
        {
            let ghost prev = names@;
            names.push(chars_of(r.manifest.arguments[i].name.as_str()));
            assert forall|j: int| 0 <= j < i implies #[trigger] names@[j]@ == target[j] by {
                assert(names@[j] == prev[j]);
                assert(views(prev)[j] == target.take(i as int)[j]);
            }
            assert(views(names@) =~= target.take(i + 1));
            i += 1;
        }
        assert(target.take(r.manifest.arguments.len() as int) =~= target);
        extend_str(&mut line, " [");
        let joined = join_chars(&names, ", ");
        extend_chars(&mut line, &joined);
        extend_str(&mut line, "]");
    }
    line
}

/// The RPC metadata line of a fragment.
fn fragment_rpc_line_of(r: &FragmentResource) -> (line: Vec<char>)
    ensures
        line@ == fragment_rpc_line(*r),
{
    let mut line: Vec<char> = Vec::new();
    extend_str(&mut line, r.manifest.name.as_str());
    extend_str(&mut line, ": ");
    extend_str(&mut line, r.manifest.description.as_str());
    if r.manifest.arguments.len() == 0 {
        extend_str(&mut line, "");
    } else {
        let mut entries: Vec<char> = Vec::new();
        let mut i: usize = 0;
        while i < r.manifest.arguments.len()
            invariant
                i <= r.manifest.arguments@.len(),
                entries@ == argument_entries(r.manifest.arguments@, i as int),
            decreases r.manifest.arguments.len() - i,
        {
            let a = &r.manifest.arguments[i];
            let ghost before = entries@;
            if a.required {
                extend_str(&mut entries, " ");
                extend_str(&mut entries, a.name.as_str());
                extend_str(&mut entries, " (required)");
            } else {
                extend_str(&mut entries, " ");
                extend_str(&mut entries, a.name.as_str());
                extend_str(&mut entries, " (default: ");
                match &a.default {
                    Some(d) => extend_str(&mut entries, d.as_str()),
                    None => extend_str(&mut entries, ""),
                }
                extend_str(&mut entries, ")");
            }
            assert(entries@ =~= before + argument_entry(*a));
            i += 1;
        }
        extend_str(&mut line, " | arguments:");
        extend_chars(&mut line, &entries);
    }
    line
}

impl FragmentRegistry {
    /// The fragments, in registry order.
    pub closed spec fn view(&self) -> Seq<FragmentResource> {
        self.resources@
    }

    /// Build a registry from discovered fragment resources.
    pub fn from_resources(resources: Vec<FragmentResource>) -> (r: Self)
        ensures
            r.view() == resources@,
    {
        FragmentRegistry { resources }
    }

    /// The names of all fragments, sorted in code point order (distinct names,
    /// as discovery gives them, come out strictly ascending).
    pub fn names(&self) -> (r: Vec<String>)
        ensures
            crate::sorting::sorted_le(string_views(r@)),
            crate::sorting::is_reordering(
                string_views(r@),
                Seq::new(self.view().len(), |i: int| self.view()[i].manifest.name@),
            ),
            crate::sorting::all_distinct(
                Seq::new(self.view().len(), |i: int| self.view()[i].manifest.name@),
            ) ==> crate::sorting::strictly_sorted(string_views(r@)),
    {
        let mut out: Vec<String> = Vec::new();
        let mut i: usize = 0;
        while i < self.resources.len()
            invariant
                i <= self.resources@.len(),
                out@.len() == i,
                forall|j: int| 0 <= j < i ==> #[trigger] out@[j]@
                    == self.resources@[j].manifest.name@,
            decreases self.resources.len() - i,
        {
            out.push(self.resources[i].manifest.name.clone());
            i += 1;
        }
        assert(string_views(out@) =~= Seq::new(self.view().len(), |i: int| self.view()[i].manifest.name@));
        crate::sorting::sorted_names(out)
    }

    /// The first fragment named `name`.
    pub fn get(&self, name: &str) -> (r: Option<&FragmentResource>)
        ensures
            match first_named(self.view(), name@) {
                Some(i) => r == Some(&self.view()[i]),
                None => r is None,
            },
    {
        let mut i: usize = 0;
        assert(self.resources@.skip(0) =~= self.resources@);
        while i < self.resources.len()
            invariant
                i <= self.resources@.len(),
                first_named(self.resources@, name@) == match first_named(
                    self.resources@.skip(i as int),
                    name@,
                ) {
                    Some(j) => Some(j + i),
                    None => None,
                },
            decreases self.resources.len() - i,
        {
            assert(self.resources@.skip(i as int).drop_first() =~= self.resources@.skip(i + 1));
            if str_eq(self.resources[i].manifest.name.as_str(), name) {
                return Some(&self.resources[i]);
            }
            i += 1;
        }
        None
    }

    /// The body of the fragment named `name`, given the outcome of reading its
    /// `FRAGMENT.md` (the file's text, or why reading it failed); `None` when
    /// no fragment has that name.
    pub fn load_body(&self, name: &str, read: Result<String, String>) -> (r: Option<
        Result<String, FragmentDiscoveryError>,
    >)
        ensures
            first_named(self.view(), name@) is None ==> r is None,
            first_named(self.view(), name@) is Some ==> match read {
                Ok(content) => r matches Some(Ok(b)) && b@ == body_spec(content@),
                Err(reason) => r matches Some(Err(FragmentDiscoveryError::Io(m))) && m@
                    == reason@,
            },
    {
        match self.get(name) {
            None => None,
            Some(_) => match read {
                Ok(content) => Some(Ok(fragment_body(content.as_str()))),
                Err(reason) => Some(Err(FragmentDiscoveryError::Io(reason))),
            },
        }
    }

    /// Expand the fragment named `name` with `values`, given the outcome of
    /// reading its `FRAGMENT.md`; `None` when no fragment has that name.
    pub fn expand(&self, name: &str, values: &[(String, String)], read: Result<String, String>) -> (r:
        Option<Result<String, FragmentDiscoveryError>>)
        ensures
            match first_named(self.view(), name@) {
                Some(i) => r matches Some(x) && match read {
                    Err(reason) => x matches Err(FragmentDiscoveryError::Io(m)) && m@ == reason@,
                    Ok(content) => match first_missing(
                        arg_views(self.view()[i].manifest.arguments@),
                        value_views(values@),
                    ) {
                        Some(m) => x matches Err(
                            FragmentDiscoveryError::MissingArgument { fragment, argument },
                        ) && fragment@.len() == 0 && argument@ == m,
                        None => x matches Ok(s) && s@ == expand_prefix(
                            body_spec(content@),
                            arg_views(self.view()[i].manifest.arguments@),
                            value_views(values@),
                            self.view()[i].manifest.arguments@.len() as int,
                        ),
                    },
                },
                None => r is None,
            },
    {
        match self.get(name) {
            Some(res) => match read {
                Err(reason) => Some(Err(FragmentDiscoveryError::Io(reason))),
                Ok(content) => {
                    let body = fragment_body(content.as_str());
                    Some(
                        expand_fragment_body(
                            body.as_str(),
                            res.manifest.arguments.as_slice(),
                            values,
                        ),
                    )
                },
            },
            None => None,
        }
    }

    /// The fragments as prompt text: one `- name: description` line each,
    /// followed by ` [arg, ...]` when the fragment declares arguments.
    pub fn format_for_prompt(&self) -> (r: String)
        ensures
            r@ == join(
                Seq::new(self.view().len(), |i: int| fragment_line(self.view()[i])),
                "\n"@,
            ),
    {
        let ghost lines = Seq::new(self.resources@.len(), |i: int| fragment_line(self.resources@[i]));
        let mut parts: Vec<Vec<char>> = Vec::new();
        let mut i: usize = 0;
        while i < self.resources.len()
            invariant
                i <= self.resources@.len(),
                lines == Seq::new(self.resources@.len(), |i: int| fragment_line(self.resources@[i])),
                views(parts@) == lines.take(i as int),
                parts@.len() == i,
            decreases self.resources.len() - i,
        {
            let line = fragment_line_of(&self.resources[i]);
            let ghost prev = parts@;
            parts.push(line);
            assert forall|j: int| 0 <= j < i implies #[trigger] parts@[j]@ == lines[j] by {
                assert(parts@[j] == prev[j]);
                assert(views(prev)[j] == lines.take(i as int)[j]);
            }
            assert(views(parts@) =~= lines.take(i + 1));
            i += 1;
        }
        assert(lines.take(self.resources.len() as int) =~= lines);
        string_of(&join_chars(&parts, "\n"))
    }

    /// The fragments as RPC metadata: one `name: description` line each,
    /// followed by ` | arguments:` and each argument with ` (required)` or
    /// ` (default: value)`.
    pub fn format_for_rpc_metadata(&self) -> (r: String)
        ensures
            r@ == join(
                Seq::new(self.view().len(), |i: int| fragment_rpc_line(self.view()[i])),
                "\n"@,
            ),
    {
        let ghost lines = Seq::new(
            self.resources@.len(),
            |i: int| fragment_rpc_line(self.resources@[i]),
        );
        let mut parts: Vec<Vec<char>> = Vec::new();
        let mut i: usize = 0;
        while i < self.resources.len()
            invariant
                i <= self.resources@.len(),
                lines == Seq::new(
                    self.resources@.len(),
                    |i: int| fragment_rpc_line(self.resources@[i]),
                ),
                views(parts@) == lines.take(i as int),
                parts@.len() == i,
            decreases self.resources.len() - i,
        {
            let line = fragment_rpc_line_of(&self.resources[i]);
            let ghost prev = parts@;
            parts.push(line);
            assert forall|j: int| 0 <= j < i implies #[trigger] parts@[j]@ == lines[j] by {
                assert(parts@[j] == prev[j]);
                assert(views(prev)[j] == lines.take(i as int)[j]);
            }
            assert(views(parts@) =~= lines.take(i + 1));
            i += 1;
        }
        assert(lines.take(self.resources.len() as int) =~= lines);
        string_of(&join_chars(&parts, "\n"))
    }
}

/// `name` is the name of one of `args`.
pub open spec fn declared(args: Seq<ArgView>, name: Seq<char>) -> bool {
    exists|i: int| 0 <= i < args.len() && #[trigger] args[i].0 == name
}

/// `values` and `w` give the same value (or none) to every declared name.
pub open spec fn same_declared_values(
    args: Seq<ArgView>,
    values: Seq<(Seq<char>, Seq<char>)>,
    w: Seq<(Seq<char>, Seq<char>)>,
) -> bool {
    forall|n: Seq<char>| declared(args, n) ==> #[trigger] lookup(values, n) == lookup(w, n)
}

proof fn lemma_first_missing_law(args: Seq<ArgView>, values: Seq<(Seq<char>, Seq<char>)>)
    ensures
        first_missing(args, values) matches Some(m) ==> exists|i: int|
            0 <= i < args.len() && (#[trigger] args[i]).1 && lookup(values, args[i].0) is None
                && args[i].0 == m && forall|j: int|
                0 <= j < i ==> !((#[trigger] args[j]).1 && lookup(values, args[j].0) is None),
        first_missing(args, values) is None ==> forall|i: int|
            0 <= i < args.len() && (#[trigger] args[i]).1 ==> lookup(values, args[i].0) is Some,
    decreases args.len(),
{
    if args.len() > 0 {
        let t = args.drop_first();
        lemma_first_missing_law(t, values);
        if !(args[0].1 && lookup(values, args[0].0) is None) {
            if let Some(m) = first_missing(args, values) {
                let i = choose|i: int|
                    0 <= i < t.len() && (#[trigger] t[i]).1 && lookup(values, t[i].0) is None && t[i].0 == m
                        && forall|j: int| 0 <= j < i ==> !((#[trigger] t[j]).1 && lookup(values, t[j].0) is None);
                assert(args[i + 1] == t[i]);
                assert forall|j: int| 0 <= j < i + 1 implies !((#[trigger] args[j]).1 && lookup(values, args[j].0) is None) by {
                    if j > 0 {
                        assert(args[j] == t[j - 1]);
                    }
                }
            } else {
                assert forall|i: int| 0 <= i < args.len() && (#[trigger] args[i]).1 implies lookup(values, args[i].0) is Some by {
                    if i > 0 {
                        assert(args[i] == t[i - 1]);
                    }
                }
            }
        } else {
            assert forall|j: int| 0 <= j < 0 implies !((#[trigger] args[j]).1 && lookup(values, args[j].0) is None) by {}
        }
    }
}

proof fn lemma_values_only_declared(
    args: Seq<ArgView>,
    all: Seq<ArgView>,
    values: Seq<(Seq<char>, Seq<char>)>,
    w: Seq<(Seq<char>, Seq<char>)>,
    name: Seq<char>,
)
    requires
        same_declared_values(all, values, w),
        forall|i: int| 0 <= i < args.len() ==> declared(all, #[trigger] args[i].0),
    ensures
        resolved_value(args, values, name) == resolved_value(args, w, name),
        first_missing(args, values) == first_missing(args, w),
    decreases args.len(),
{
    if args.len() > 0 {
        let q = args.drop_last();
        assert forall|i: int| 0 <= i < q.len() implies declared(all, #[trigger] q[i].0) by {
            assert(q[i] == args[i]);
        }
        lemma_values_only_declared(q, all, values, w, name);
        let t = args.drop_first();
        assert forall|i: int| 0 <= i < t.len() implies declared(all, #[trigger] t[i].0) by {
            assert(t[i] == args[i + 1]);
        }
        lemma_values_only_declared(t, all, values, w, name);
        assert(declared(all, args[0].0));
        assert(declared(all, args[args.len() - 1].0));
        assert(lookup(values, args[0].0) == lookup(w, args[0].0));
        assert(lookup(values, args.last().0) == lookup(w, args.last().0));
    }
}

proof fn lemma_expand_only_declared(
    body: Seq<char>,
    args: Seq<ArgView>,
    values: Seq<(Seq<char>, Seq<char>)>,
    w: Seq<(Seq<char>, Seq<char>)>,
    k: int,
)
    requires
        same_declared_values(args, values, w),
        k <= args.len(),
    ensures
        expand_prefix(body, args, values, k) == expand_prefix(body, args, w, k),
    decreases k,
{
    if k > 0 {
        lemma_expand_only_declared(body, args, values, w, k - 1);
        assert forall|i: int| 0 <= i < args.len() implies declared(args, #[trigger] args[i].0) by {}
        lemma_values_only_declared(args, args, values, w, args[k - 1].0);
    }
}

proof fn lemma_no_value_no_change(
    body: Seq<char>,
    args: Seq<ArgView>,
    values: Seq<(Seq<char>, Seq<char>)>,
    k: int,
)
    requires
        forall|i: int| 0 <= i < args.len() ==> arg_value(#[trigger] args[i], values) is None,
        k <= args.len(),
    ensures
        expand_prefix(body, args, values, k) == body,
    decreases k,
{
    if k > 0 {
        lemma_no_value_no_change(body, args, values, k - 1);
        lemma_resolved_none(args, values, args[k - 1].0);
    }
}

proof fn lemma_resolved_none(args: Seq<ArgView>, values: Seq<(Seq<char>, Seq<char>)>, name: Seq<char>)
    requires
        forall|i: int| 0 <= i < args.len() ==> arg_value(#[trigger] args[i], values) is None,
    ensures
        resolved_value(args, values, name) is None,
    decreases args.len(),
{
    if args.len() > 0 {
        let q = args.drop_last();
        assert forall|i: int| 0 <= i < q.len() implies arg_value(#[trigger] q[i], values) is None by {
            assert(q[i] == args[i]);
        }
        lemma_resolved_none(q, values, name);
        assert(arg_value(args[args.len() - 1], values) is None);
    }
}

/// The law of expanding a fragment body: expansion fails exactly when a
/// required argument has no value, naming the first such argument; values
/// given for names no argument declares are ignored; and a body none of
/// whose arguments takes a value (given or default) comes back unchanged.
pub proof fn lemma_fragment_expansion_law(
    body: Seq<char>,
    args: Seq<ArgView>,
    values: Seq<(Seq<char>, Seq<char>)>,
    w: Seq<(Seq<char>, Seq<char>)>,
)
    ensures
        first_missing(args, values) matches Some(m) ==> exists|i: int|
            0 <= i < args.len() && (#[trigger] args[i]).1 && lookup(values, args[i].0) is None
                && args[i].0 == m && forall|j: int|
                0 <= j < i ==> !((#[trigger] args[j]).1 && lookup(values, args[j].0) is None),
        first_missing(args, values) is None ==> forall|i: int|
            0 <= i < args.len() && (#[trigger] args[i]).1 ==> lookup(values, args[i].0) is Some,
        same_declared_values(args, values, w) ==> first_missing(args, values) == first_missing(args, w)
            && expand_prefix(body, args, values, args.len() as int) == expand_prefix(
            body,
            args,
            w,
            args.len() as int,
        ),
        (forall|i: int| 0 <= i < args.len() ==> arg_value(#[trigger] args[i], values) is None)
            ==> expand_prefix(body, args, values, args.len() as int) == body,
{
    lemma_first_missing_law(args, values);
    if same_declared_values(args, values, w) {
        assert forall|i: int| 0 <= i < args.len() implies declared(args, #[trigger] args[i].0) by {}
        lemma_values_only_declared(args, args, values, w, Seq::empty());
        lemma_expand_only_declared(body, args, values, w, args.len() as int);
    }
    if forall|i: int| 0 <= i < args.len() ==> arg_value(#[trigger] args[i], values) is None {
        lemma_no_value_no_change(body, args, values, args.len() as int);
    }
}

/// The value given for a name is that of the last pair of that name.
pub proof fn lemma_lookup_last_pair(values: Seq<(Seq<char>, Seq<char>)>, name: Seq<char>)
    ensures
        lookup(values, name) matches Some(v) ==> exists|i: int|
            0 <= i < values.len() && #[trigger] values[i] == (name, v) && forall|j: int|
                i < j < values.len() ==> (#[trigger] values[j]).0 != name,
        (exists|i: int| 0 <= i < values.len() && (#[trigger] values[i]).0 == name) ==> lookup(values, name) is Some,
        lookup(values, name) is None ==> forall|i: int| 0 <= i < values.len() ==> (#[trigger] values[i]).0 != name,
    decreases values.len(),
{
    if values.len() > 0 {
        let q = values.drop_last();
        lemma_lookup_last_pair(q, name);
        let n = values.len() - 1;
        if values.last().0 == name {
            assert(values[n] == (name, values.last().1));
        } else {
            if let Some(v) = lookup(values, name) {
                let i = choose|i: int|
                    0 <= i < q.len() && #[trigger] q[i] == (name, v) && forall|j: int|
                        i < j < q.len() ==> (#[trigger] q[j]).0 != name;
                assert(values[i] == q[i]);
                assert forall|j: int| i < j < values.len() implies (#[trigger] values[j]).0 != name by {
                    if j < n {
                        assert(values[j] == q[j]);
                    }
                }
            }
            if exists|i: int| 0 <= i < values.len() && (#[trigger] values[i]).0 == name {
                let i = choose|i: int| 0 <= i < values.len() && (#[trigger] values[i]).0 == name;
                assert(q[i] == values[i]);
            }
            if lookup(values, name) is None {
                assert forall|i: int| 0 <= i < values.len() implies (#[trigger] values[i]).0 != name by {
                    if i < n {
                        assert(q[i] == values[i]);
                    }
                }
            }
        }
    }
}

/// A value given for a declared argument is the one its placeholders take,
/// whatever default the argument has.
pub proof fn lemma_given_value_wins(
    args: Seq<ArgView>,
    values: Seq<(Seq<char>, Seq<char>)>,
    name: Seq<char>,
    v: Seq<char>,
)
    requires
        declared(args, name),
        lookup(values, name) == Some(v),
    ensures
        resolved_value(args, values, name) == Some(v),
    decreases args.len(),
{
    if args.len() > 0 {
        if !(args.last().0 == name) {
            let i = choose|i: int| 0 <= i < args.len() && #[trigger] args[i].0 == name;
            assert(args.drop_last()[i] == args[i]);
            lemma_given_value_wins(args.drop_last(), values, name, v);
        }
    }
}

/// Expanding with one argument: every placeholder of it is replaced by the
/// value given for it; with no value given, by its default; with neither,
/// the body comes back unchanged.
pub proof fn lemma_single_argument_expansion(
    body: Seq<char>,
    a: ArgView,
    values: Seq<(Seq<char>, Seq<char>)>,
)
    ensures
        lookup(values, a.0) matches Some(v) ==> expand_prefix(body, seq![a], values, 1) == replace_all(
            body,
            placeholder(a.0),
            v,
        ),
        (lookup(values, a.0) is None && a.2 is Some) ==> expand_prefix(body, seq![a], values, 1)
            == replace_all(body, placeholder(a.0), a.2->0),
        (lookup(values, a.0) is None && a.2 is None) ==> expand_prefix(body, seq![a], values, 1) == body,
{
    let args = seq![a];
    assert(args[0] == a);
    assert(args.last() == a);
    assert(args.drop_last() =~= Seq::<ArgView>::empty());
    assert(resolved_value(args.drop_last(), values, a.0) is None);
    assert(expand_prefix(body, args, values, 0) == body);
    if let Some(v) = lookup(values, a.0) {
        assert(declared(args, a.0));
        lemma_given_value_wins(args, values, a.0, v);
    }
    assert(resolved_value(args, values, a.0) == arg_value(a, values));
    assert(expand_prefix(body, args, values, 1) == match resolved_value(args, values, args[0].0) {
        Some(v) => replace_all(body, placeholder(args[0].0), v),
        None => body,
    });
}

/// A name no argument declares resolves to nothing, whatever values are
/// given: its placeholders stay as they are.
pub proof fn lemma_undeclared_name_unresolved(
    args: Seq<ArgView>,
    values: Seq<(Seq<char>, Seq<char>)>,
    name: Seq<char>,
)
    requires
        !declared(args, name),
    ensures
        resolved_value(args, values, name) is None,
    decreases args.len(),
{
    if args.len() > 0 {
        assert(args[args.len() - 1] == args.last());
        assert forall|i: int| 0 <= i < args.drop_last().len() implies #[trigger] args.drop_last()[i].0 != name by {
            assert(args.drop_last()[i] == args[i]);
        }
        lemma_undeclared_name_unresolved(args.drop_last(), values, name);
    }
}

} // verus!
