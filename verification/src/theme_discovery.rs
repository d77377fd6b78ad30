//! Themes: `theme.toml` manifests, precedence-based discovery and the
//! registry.
//!
//! A theme is a directory holding `theme.toml` with a `name`, a
//! `description` and a `[colors]` table; only the metadata is read during
//! discovery.
use vstd::prelude::*;
use crate::text::string_views;

use crate::discovery::{
    Discovered, duplicate_at, has_duplicate, merge_discovered, merged_from, precedence_merge_law,
};
use crate::frontmatter::{
    check_name, description_reason, description_reason_text, description_too_long, name_problem,
    name_reason, name_reason_text,
};
use crate::paths::path_join;
use crate::text::{chars_of, extend_str, join, join_chars, str_eq, string_of, trim, trim_chars, views};

verus! {

/// Errors from theme discovery and loading.
#[derive(Debug)]
pub enum ThemeDiscoveryError {
    /// `theme.toml` is not valid TOML.
    InvalidManifest { path: String, reason: String },
    /// A required field is missing or blank.
    MissingField { field: String, path: String },
    /// Two themes of the same precedence use the same name.
    DuplicateName { name: String, path: String },
    /// The name holds invalid characters or is too long.
    InvalidName { path: String, reason: String },
    /// The description is too long.
    InvalidDescription { path: String, reason: String },
    /// A color value could not be parsed.
    InvalidColor { token: String, path: String, reason: String },
    /// A color token is not known.
    UnknownToken { token: String, path: String },
    /// Reading the file system failed.
    Io(String),
}

/// The message of a theme error error.
pub open spec fn theme_error_message(e: ThemeDiscoveryError) -> Seq<char> {
    match e {
        ThemeDiscoveryError::InvalidManifest { path, reason } => "invalid theme manifest at "@ + path@ + ": "@ + reason@,
        ThemeDiscoveryError::MissingField { field, path } => "missing required field '"@ + field@ + "' in theme at "@ + path@,
        ThemeDiscoveryError::DuplicateName { name, path } => "duplicate theme name '"@ + name@ + "' in discovery layer at "@ + path@,
        ThemeDiscoveryError::InvalidName { path, reason } => "invalid theme name in "@ + path@ + ": "@ + reason@,
        ThemeDiscoveryError::InvalidDescription { path, reason } => "invalid description in theme at "@ + path@ + ": "@ + reason@,
        ThemeDiscoveryError::InvalidColor { token, path, reason } => "invalid color for token '"@ + token@ + "' in theme at "@ + path@ + ": "@ + reason@,
        ThemeDiscoveryError::UnknownToken { token, path } => "unknown color token '"@ + token@ + "' in theme at "@ + path@,
        ThemeDiscoveryError::Io(m) => "I/O error discovering themes: "@ + m@,
    }
}

impl ThemeDiscoveryError {
    /// The message of this error.
    pub fn message(&self) -> (r: String)
        ensures
            r@ == theme_error_message(*self),
    {
        let mut v: Vec<char> = Vec::new();
        match self {
            ThemeDiscoveryError::InvalidManifest { path, reason } => {
                extend_str(&mut v, "invalid theme manifest at ");
                extend_str(&mut v, path.as_str());
                extend_str(&mut v, ": ");
                extend_str(&mut v, reason.as_str());
            },
            ThemeDiscoveryError::MissingField { field, path } => {
                extend_str(&mut v, "missing required field '");
                extend_str(&mut v, field.as_str());
                extend_str(&mut v, "' in theme at ");
                extend_str(&mut v, path.as_str());
            },
            ThemeDiscoveryError::DuplicateName { name, path } => {
                extend_str(&mut v, "duplicate theme name '");
                extend_str(&mut v, name.as_str());
                extend_str(&mut v, "' in discovery layer at ");
                extend_str(&mut v, path.as_str());
            },
            ThemeDiscoveryError::InvalidName { path, reason } => {
                extend_str(&mut v, "invalid theme name in ");
                extend_str(&mut v, path.as_str());
                extend_str(&mut v, ": ");
                extend_str(&mut v, reason.as_str());
            },
            ThemeDiscoveryError::InvalidDescription { path, reason } => {
                extend_str(&mut v, "invalid description in theme at ");
                extend_str(&mut v, path.as_str());
                extend_str(&mut v, ": ");
                extend_str(&mut v, reason.as_str());
            },
            ThemeDiscoveryError::InvalidColor { token, path, reason } => {
                extend_str(&mut v, "invalid color for token '");
                extend_str(&mut v, token.as_str());
                extend_str(&mut v, "' in theme at ");
                extend_str(&mut v, path.as_str());
                extend_str(&mut v, ": ");
                extend_str(&mut v, reason.as_str());
            },
            ThemeDiscoveryError::UnknownToken { token, path } => {
                extend_str(&mut v, "unknown color token '");
                extend_str(&mut v, token.as_str());
                extend_str(&mut v, "' in theme at ");
                extend_str(&mut v, path.as_str());
            },
            ThemeDiscoveryError::Io(m) => {
                extend_str(&mut v, "I/O error discovering themes: ");
                extend_str(&mut v, m.as_str());
            },
        }
        string_of(&v)
    }
}

/// The metadata fields of `theme.toml`, as read.
#[derive(Debug)]
pub struct ThemeFile {
    pub name: Option<String>,
    pub description: Option<String>,
}

/// A validated theme manifest.
#[derive(Debug)]
pub struct ThemeManifest {
    /// Lowercase ASCII letters, digits and hyphens, at most 64 bytes.
    pub name: String,
    /// Not blank, at most 1024 characters.
    pub description: String,
}

/// `parsed` is a valid manifest.
pub open spec fn theme_accepts(parsed: Result<ThemeFile, String>) -> bool {
    match parsed {
        Err(_) => false,
        Ok(f) => {
            &&& f.name is Some && trim(f.name->0@).len() > 0
            &&& name_problem(f.name->0@) is None
            &&& f.description is Some && trim(f.description->0@).len() > 0
            &&& f.description->0@.len() <= 1024
        },
    }
}

/// What `ThemeManifest::from_parsed(parsed, path)` returns.
pub open spec fn theme_manifest_result(
    parsed: Result<ThemeFile, String>,
    path: Seq<char>,
    r: Result<ThemeManifest, ThemeDiscoveryError>,
) -> bool {
    match parsed {
        Err(reason) => r matches Err(ThemeDiscoveryError::InvalidManifest { path: p, reason: x })
            && p@ == path && x@ == reason@,
        Ok(f) => if f.name is None || trim(f.name->0@).len() == 0 {
            r matches Err(ThemeDiscoveryError::MissingField { field, path: p }) && field@ == "name"@
                && p@ == path
        } else if name_problem(f.name->0@) is Some {
            r matches Err(ThemeDiscoveryError::InvalidName { path: p, reason }) && p@ == path
                && reason@ == name_reason(name_problem(f.name->0@)->0)
        } else if f.description is None || trim(f.description->0@).len() == 0 {
            r matches Err(ThemeDiscoveryError::MissingField { field, path: p }) && field@
                == "description"@ && p@ == path
        } else if f.description->0@.len() > 1024 {
            r matches Err(ThemeDiscoveryError::InvalidDescription { path: p, reason }) && p@ == path
                && reason@ == description_reason(f.description->0@.len())
        } else {
            r matches Ok(m) && m.name == f.name->0 && m.description == f.description->0
        },
    }
}

/// The error for a missing required field.
fn missing_field(field: &str, path: &str) -> (e: ThemeDiscoveryError)
    ensures
        e matches ThemeDiscoveryError::MissingField { field: f, path: p } && f@ == field@ && p@
            == path@,
{
    ThemeDiscoveryError::MissingField {
        field: string_of(&chars_of(field)),
        path: string_of(&chars_of(path)),
    }
}

impl ThemeManifest {
    /// Validate the parsed metadata of a `theme.toml` (or the reason it could
    /// not be parsed) found at `path`.
    pub fn from_parsed(parsed: Result<ThemeFile, String>, path: &str) -> (r: Result<
        Self,
        ThemeDiscoveryError,
    >)
        ensures
            theme_manifest_result(parsed, path@, r),
    {
        let f = match parsed {
            Err(reason) => {
                return Err(
                    ThemeDiscoveryError::InvalidManifest { path: string_of(&chars_of(path)), reason },
                );
            },
            Ok(f) => f,
        };
        let ThemeFile { name, description } = f;
        let name = match name {
            Some(n) => n,
            None => return Err(missing_field("name", path)),
        };
        let nc = chars_of(name.as_str());
        if trim_chars(&nc).len() == 0 {
            return Err(missing_field("name", path));
        }
        match check_name(&nc) {
            Some(pb) => {
                return Err(
                    ThemeDiscoveryError::InvalidName {
                        path: string_of(&chars_of(path)),
                        reason: name_reason_text(pb),
                    },
                );
            },
            None => {},
        }
        let description = match description {
            Some(d) => d,
            None => return Err(missing_field("description", path)),
        };
        let dc = chars_of(description.as_str());
        if trim_chars(&dc).len() == 0 {
            return Err(missing_field("description", path));
        }
        match description_too_long(&dc) {
            Some(len) => {
                return Err(
                    ThemeDiscoveryError::InvalidDescription {
                        path: string_of(&chars_of(path)),
                        reason: description_reason_text(len),
                    },
                );
            },
            None => {},
        }
        Ok(ThemeManifest { name, description })
    }
}

/// A discovered theme.
#[derive(Debug)]
pub struct ThemeResource {
    pub manifest: ThemeManifest,
    /// The canonical theme directory.
    pub path: String,
    /// Its `theme.toml`, read again when the theme is loaded.
    pub theme_toml_path: String,
    /// Precedence of the layer that produced it.
    pub layer_precedence: u32,
}

impl Discovered for ThemeResource {
    open spec fn key(&self) -> Seq<char> {
        self.manifest.name@
    }

    open spec fn rank(&self) -> u32 {
        self.layer_precedence
    }

    fn name_chars(&self) -> (r: Vec<char>) {
        chars_of(self.manifest.name.as_str())
    }

    fn precedence(&self) -> (p: u32) {
        self.layer_precedence
    }
}

/// Merge the themes found across discovery layers, in the order found,
/// into one per name sorted by name, keeping the one of highest precedence.
/// Two themes of the same name and precedence are an error, whatever a
/// layer of higher precedence holds: the later of the first such pair is
/// reported.
pub fn merge_discovered_themes(found: Vec<ThemeResource>) -> (r: Result<Vec<ThemeResource>, ThemeDiscoveryError>)
    ensures
        match r {
            Ok(v) => !has_duplicate(found@) && merged_from(found@, v@) && precedence_merge_law(
                found@,
                v@,
            ),
            Err(e) => exists|j: int|
                {
                    &&& duplicate_at(found@, j)
                    &&& forall|k: int| 0 <= k < j ==> !duplicate_at(found@, k)
                    &&& e matches ThemeDiscoveryError::DuplicateName { name, path }
                    &&& name@ == found@[j].manifest.name@
                    &&& path@ == found@[j].path@
                },
        },
{
    match merge_discovered(found) {
        Ok(v) => Ok(v),
        Err(item) => Err(ThemeDiscoveryError::DuplicateName { name: item.manifest.name, path: item.path }),
    }
}

/// The theme found in directory `dir` of a layer of precedence
/// `layer_precedence`, given the parsed metadata of its `theme.toml` (or the
/// reason it could not be parsed) and its canonical path (or the I/O error
/// from resolving it).
pub fn theme_at(
    dir: &str,
    layer_precedence: u32,
    parsed: Result<ThemeFile, String>,
    canonical: Result<String, String>,
) -> (r: Result<ThemeResource, ThemeDiscoveryError>)
    ensures
        !theme_accepts(parsed) ==> (r matches Err(e) && theme_manifest_result(
            parsed,
            path_join(dir@, "theme.toml"@),
            Err(e),
        )),
        theme_accepts(parsed) ==> match canonical {
            Err(x) => r matches Err(ThemeDiscoveryError::Io(y)) && y@ == x@,
            Ok(c) => r matches Ok(t) && t.manifest.name == parsed->Ok_0.name->0
                && t.manifest.description == parsed->Ok_0.description->0 && t.path == c
                && t.theme_toml_path@ == path_join(dir@, "theme.toml"@) && t.layer_precedence
                == layer_precedence,
        },
{
    let toml = crate::paths::join_path(dir, "theme.toml");
    let manifest = ThemeManifest::from_parsed(parsed, toml.as_str())?;
    let path = match canonical {
        Err(e) => return Err(ThemeDiscoveryError::Io(e)),
        Ok(c) => c,
    };
    Ok(ThemeResource { manifest, path, theme_toml_path: toml, layer_precedence })
}

// ---------------------------------------------------------------------------
// Registry
// ---------------------------------------------------------------------------

/// A registry of discovered themes.
pub struct ThemeRegistry {
    resources: Vec<ThemeResource>,
}

/// The prompt line of a theme.
pub open spec fn theme_line(t: ThemeResource) -> Seq<char> {
    "- "@ + t.manifest.name@ + ": "@ + t.manifest.description@
}

/// The index of the first theme named `name`.
pub open spec fn first_theme_named(s: Seq<ThemeResource>, name: Seq<char>) -> Option<int>
    decreases s.len(),
{
    if s.len() == 0 {
        None
    } else if s[0].manifest.name@ == name {
        Some(0)
    } else {
        match first_theme_named(s.drop_first(), name) {
            Some(i) => Some(i + 1),
            None => None,
        }
    }
}

impl ThemeRegistry {
    /// The themes, in registry order.
    pub closed spec fn view(&self) -> Seq<ThemeResource> {
        self.resources@
    }

    /// Build a registry from discovered themes.
    pub fn from_resources(resources: Vec<ThemeResource>) -> (r: Self)
        ensures
            r.view() == resources@,
    {
        ThemeRegistry { resources }
    }

    /// The names of all themes, sorted in code point order (distinct names,
    /// as discovery gives them, come out strictly ascending).
    pub fn names(&self) -> (r: Vec<String>)
        ensures
            crate::sorting::sorted_le(string_views(r@)),
            crate::sorting::is_reordering(
                string_views(r@),
                Seq::new(self.view().len(), |i: int| self.view()[i].manifest.name@),
            ),
            crate::sorting::all_distinct(
                Seq::new(self.view().len(), |i: int| self.view()[i].manifest.name@),
            ) ==> crate::sorting::strictly_sorted(string_views(r@)),
    {
        let mut out: Vec<String> = Vec::new();
        let mut i: usize = 0;
        while i < self.resources.len()
            invariant
                i <= self.resources@.len(),
                out@.len() == i,
                forall|j: int| 0 <= j < i ==> #[trigger] out@[j]@
                    == self.resources@[j].manifest.name@,
            decreases self.resources.len() - i,
        {
            out.push(self.resources[i].manifest.name.clone());
            i += 1;
        }
        assert(string_views(out@) =~= Seq::new(self.view().len(), |i: int| self.view()[i].manifest.name@));
        crate::sorting::sorted_names(out)
    }

    /// The first theme named `name`.
    pub fn get(&self, name: &str) -> (r: Option<&ThemeResource>)
        ensures
            match first_theme_named(self.view(), name@) {
                Some(i) => r == Some(&self.view()[i]),
                None => r is None,
            },
    {
        let mut i: usize = 0;
        assert(self.resources@.skip(0) =~= self.resources@);
        while i < self.resources.len()
            invariant
                i <= self.resources@.len(),
                first_theme_named(self.resources@, name@) == match first_theme_named(
                    self.resources@.skip(i as int),
                    name@,
                ) {
                    Some(j) => Some(j + i),
                    None => None,
                },
            decreases self.resources.len() - i,
        {
            assert(self.resources@.skip(i as int).drop_first() =~= self.resources@.skip(i + 1));
            if str_eq(self.resources[i].manifest.name.as_str(), name) {
                return Some(&self.resources[i]);
            }
            i += 1;
        }
        None
    }

    /// The themes as prompt text: one `- name: description` line each.
    pub fn format_for_prompt(&self) -> (r: String)
        ensures
            r@ == join(Seq::new(self.view().len(), |i: int| theme_line(self.view()[i])), "\n"@),
    {
        let ghost lines = Seq::new(self.resources@.len(), |i: int| theme_line(self.resources@[i]));
        let mut parts: Vec<Vec<char>> = Vec::new();
        let mut i: usize = 0;
        while i < self.resources.len()
            invariant
                i <= self.resources@.len(),
                lines == Seq::new(self.resources@.len(), |i: int| theme_line(self.resources@[i])),
                views(parts@) == lines.take(i as int),
                parts@.len() == i,
            decreases self.resources.len() - i,
        {
            let t = &self.resources[i];
            let mut line: Vec<char> = Vec::new();
            extend_str(&mut line, "- ");
            extend_str(&mut line, t.manifest.name.as_str());
            extend_str(&mut line, ": ");
            extend_str(&mut line, t.manifest.description.as_str());
            assert(line@ == theme_line(self.resources@[i as int]));
            let ghost prev = parts@;
            parts.push(line);
            assert forall|j: int| 0 <= j < i implies #[trigger] parts@[j]@ == lines[j] by {
                assert(parts@[j] == prev[j]);
                assert(views(prev)[j] == lines.take(i as int)[j]);
            }
            assert(views(parts@) =~= lines.take(i + 1));
            i += 1;
        }
        assert(lines.take(self.resources.len() as int) =~= lines);
        string_of(&join_chars(&parts, "\n"))
    }
}

} // verus!
