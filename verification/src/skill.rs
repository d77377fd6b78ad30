//! Skills: `SKILL.md` manifests, precedence-based discovery and the registry.
//!
//! A skill is a directory holding a `SKILL.md` file whose YAML frontmatter
//! gives `name`, `description` and, optionally, `disable-model-invocation`.
//! The body after the frontmatter is read only when the skill is used.
use vstd::prelude::*;
use crate::text::string_views;

use crate::discovery::{
    Discovered, duplicate_at, has_duplicate, merge_discovered, merged_from, precedence_merge_law,
};
use crate::frontmatter::{
    FrontmatterError, NameProblem, allowed_char, body_spec, check_name, description_reason,
    description_reason_text, description_too_long, extract_body, extract_frontmatter,
    field_spec, frontmatter_spec, is_lone_quote, lone_quote, name_problem, name_reason,
    lemma_valid_name, name_reason_text, parse_field, strip_quotes, strip_yaml_quotes,
};
use crate::text::{
    chars_of, eq_ignore_ascii_case, eq_ignore_case, extend_chars, extend_str, join, join_chars,
    lemma_join_take, str_eq, string_of, views,
};

verus! {

/// Errors from skill discovery and manifest parsing.
#[derive(Debug)]
pub enum SkillDiscoveryError {
    /// `SKILL.md` has no valid frontmatter delimiters.
    InvalidFrontmatter { path: String, reason: String },
    /// A required field is missing or empty.
    MissingField { field: String, path: String },
    /// Two skills of the same precedence use the same name.
    DuplicateName { name: String, path: String },
    /// The name holds invalid characters or is too long.
    InvalidName { path: String, reason: String },
    /// The description is too long.
    InvalidDescription { path: String, reason: String },
    /// Reading the file system failed.
    Io(String),
}

/// The message of a skill error error.
pub open spec fn skill_error_message(e: SkillDiscoveryError) -> Seq<char> {
    match e {
        SkillDiscoveryError::InvalidFrontmatter { path, reason } => "invalid frontmatter in "@ + path@ + ": "@ + reason@,
        SkillDiscoveryError::MissingField { field, path } => "missing required field '"@ + field@ + "' in skill at "@ + path@,
        SkillDiscoveryError::DuplicateName { name, path } => "duplicate skill name '"@ + name@ + "' in discovery layer at "@ + path@,
        SkillDiscoveryError::InvalidName { path, reason } => "invalid skill name in "@ + path@ + ": "@ + reason@,
        SkillDiscoveryError::InvalidDescription { path, reason } => "invalid description in skill at "@ + path@ + ": "@ + reason@,
        SkillDiscoveryError::Io(m) => "I/O error discovering skills: "@ + m@,
    }
}

impl SkillDiscoveryError {
    /// The message of this error.
    pub fn message(&self) -> (r: String)
        ensures
            r@ == skill_error_message(*self),
    {
        let mut v: Vec<char> = Vec::new();
        match self {
            SkillDiscoveryError::InvalidFrontmatter { path, reason } => {
                extend_str(&mut v, "invalid frontmatter in ");
                extend_str(&mut v, path.as_str());
                extend_str(&mut v, ": ");
                extend_str(&mut v, reason.as_str());
            },
            SkillDiscoveryError::MissingField { field, path } => {
                extend_str(&mut v, "missing required field '");
                extend_str(&mut v, field.as_str());
                extend_str(&mut v, "' in skill at ");
                extend_str(&mut v, path.as_str());
            },
            SkillDiscoveryError::DuplicateName { name, path } => {
                extend_str(&mut v, "duplicate skill name '");
                extend_str(&mut v, name.as_str());
                extend_str(&mut v, "' in discovery layer at ");
                extend_str(&mut v, path.as_str());
            },
            SkillDiscoveryError::InvalidName { path, reason } => {
                extend_str(&mut v, "invalid skill name in ");
                extend_str(&mut v, path.as_str());
                extend_str(&mut v, ": ");
                extend_str(&mut v, reason.as_str());
            },
            SkillDiscoveryError::InvalidDescription { path, reason } => {
                extend_str(&mut v, "invalid description in skill at ");
                extend_str(&mut v, path.as_str());
                extend_str(&mut v, ": ");
                extend_str(&mut v, reason.as_str());
            },
            SkillDiscoveryError::Io(m) => {
                extend_str(&mut v, "I/O error discovering skills: ");
                extend_str(&mut v, m.as_str());
            },
        }
        string_of(&v)
    }
}

/// Parsed skill manifest from `SKILL.md` frontmatter.
#[derive(Debug)]
pub struct SkillManifest {
    /// Skill name: lowercase ASCII letters, digits and hyphens, at most 64 bytes.
    pub name: String,
    /// Description: not empty, at most 1024 characters.
    pub description: String,
    /// When set, the model does not invoke the skill on its own.
    pub disable_model_invocation: bool,
}

/// A discovered skill with its manifest, paths and layer precedence.
#[derive(Debug)]
pub struct SkillResource {
    /// The parsed manifest (metadata only).
    pub manifest: SkillManifest,
    /// The skill directory.
    pub path: String,
    /// The `SKILL.md` file, read again when the body is needed.
    pub skill_md_path: String,
    /// Precedence of the discovery layer that produced it.
    pub layer_precedence: u32,
}

impl Discovered for SkillResource {
    open spec fn key(&self) -> Seq<char> {
        self.manifest.name@
    }

    open spec fn rank(&self) -> u32 {
        self.layer_precedence
    }

    fn name_chars(&self) -> (r: Vec<char>) {
        chars_of(self.manifest.name.as_str())
    }

    fn precedence(&self) -> (p: u32) {
        self.layer_precedence
    }
}

// ---------------------------------------------------------------------------
// Manifest
// ---------------------------------------------------------------------------

/// The value of `disable-model-invocation` in frontmatter `fm`.
pub open spec fn disable_flag(fm: Seq<char>) -> bool {
    match field_spec(fm, "disable-model-invocation"@) {
        Some(v) => eq_ignore_ascii_case(strip_quotes(v), "true"@),
        None => false,
    }
}

/// Parsing `content` strips quotes off a lone quote character, and panics.
pub open spec fn skill_md_panics(content: Seq<char>) -> bool {
    match frontmatter_spec(content) {
        Ok(fm) => match field_spec(fm, "name"@) {
            Some(n) => lone_quote(n) || (strip_quotes(n).len() > 0 && name_problem(
                strip_quotes(n),
            ) is None && match field_spec(fm, "description"@) {
                Some(d) => lone_quote(d) || (strip_quotes(d).len() > 0 && strip_quotes(d).len() <= 1024 && match field_spec(fm, "disable-model-invocation"@) {
                    Some(f) => lone_quote(f),
                    None => false,
                }),
                None => false,
            }),
            None => false,
        },
        Err(_) => false,
    }
}

/// Whether parsing `content` as a `SKILL.md` would strip quotes off a lone
/// quote character (see `skill_md_panics`); `from_skill_md` requires that
/// it does not.
pub fn skill_md_would_panic(content: &str) -> (r: bool)
    ensures
        r == skill_md_panics(content@),
{
    let c = chars_of(content);
    let fm = match extract_frontmatter(&c) {
        Ok(fm) => fm,
        Err(_) => return false,
    };
    let n = match parse_field(&fm, "name") {
        Some(v) => v,
        None => return false,
    };
    if is_lone_quote(&n) {
        return true;
    }
    let name = strip_yaml_quotes(&n);
    if name.len() == 0 || check_name(&name).is_some() {
        return false;
    }
    let d = match parse_field(&fm, "description") {
        Some(v) => v,
        None => return false,
    };
    if is_lone_quote(&d) {
        return true;
    }
    let desc = strip_yaml_quotes(&d);
    if desc.len() == 0 || description_too_long(&desc).is_some() {
        return false;
    }
    match parse_field(&fm, "disable-model-invocation") {
        Some(f) => is_lone_quote(&f),
        None => false,
    }
}

/// What `SkillManifest::from_skill_md(content, path)` returns.
pub open spec fn skill_md_result(
    content: Seq<char>,
    path: Seq<char>,
    r: Result<SkillManifest, SkillDiscoveryError>,
) -> bool {
    match frontmatter_spec(content) {
        Err(FrontmatterError::MissingOpening) => r matches Err(
            SkillDiscoveryError::InvalidFrontmatter { path: p, reason },
        ) && p@ == path && reason@ == "SKILL.md must start with '---' frontmatter delimiter"@,
        Err(FrontmatterError::MissingClosing) => r matches Err(
            SkillDiscoveryError::InvalidFrontmatter { path: p, reason },
        ) && p@ == path && reason@ == "SKILL.md frontmatter is missing closing '---' delimiter"@,
        Ok(fm) => {
            let nf = field_spec(fm, "name"@);
            if nf is None || strip_quotes(nf->0).len() == 0 {
                r matches Err(SkillDiscoveryError::MissingField { field, path: p }) && field@
                    == "name"@ && p@ == path
            } else {
                let name = strip_quotes(nf->0);
                match name_problem(name) {
                    Some(pb) => r matches Err(SkillDiscoveryError::InvalidName { path: p, reason })
                        && p@ == path && reason@ == name_reason(pb),
                    None => {
                        let df = field_spec(fm, "description"@);
                        if df is None || strip_quotes(df->0).len() == 0 {
                            r matches Err(SkillDiscoveryError::MissingField { field, path: p })
                                && field@ == "description"@ && p@ == path
                        } else {
                            let d = strip_quotes(df->0);
                            if d.len() > 1024 {
                                r matches Err(
                                    SkillDiscoveryError::InvalidDescription { path: p, reason },
                                ) && p@ == path && reason@ == description_reason(d.len())
                            } else {
                                r matches Ok(m) && m.name@ == name && m.description@ == d
                                    && m.disable_model_invocation == disable_flag(fm)
                            }
                        }
                    },
                }
            }
        },
    }
}

/// The error for a frontmatter problem of a `SKILL.md` file.
fn frontmatter_error(e: FrontmatterError, path: &str) -> (r: SkillDiscoveryError)
    ensures
        e is MissingOpening ==> (r matches SkillDiscoveryError::InvalidFrontmatter { path: p, reason }
            && p@ == path@ && reason@ == "SKILL.md must start with '---' frontmatter delimiter"@),
        e is MissingClosing ==> (r matches SkillDiscoveryError::InvalidFrontmatter { path: p, reason }
            && p@ == path@ && reason@
            == "SKILL.md frontmatter is missing closing '---' delimiter"@),
{
    let reason = match e {
        FrontmatterError::MissingOpening => "SKILL.md must start with '---' frontmatter delimiter",
        FrontmatterError::MissingClosing => "SKILL.md frontmatter is missing closing '---' delimiter",
    };
    SkillDiscoveryError::InvalidFrontmatter {
        path: string_of(&chars_of(path)),
        reason: string_of(&chars_of(reason)),
    }
}

/// The error for a missing required field.
fn missing_field(field: &str, path: &str) -> (r: SkillDiscoveryError)
    ensures
        r matches SkillDiscoveryError::MissingField { field: f, path: p } && f@ == field@ && p@
            == path@,
{
    SkillDiscoveryError::MissingField {
        field: string_of(&chars_of(field)),
        path: string_of(&chars_of(path)),
    }
}

impl SkillManifest {
    /// Parse a manifest from the full content of a `SKILL.md` file.
    ///
    /// The content must start with YAML frontmatter between `---` lines.
    /// Only the frontmatter is read; the body is ignored.
    pub fn from_skill_md(content: &str, path: &str) -> (r: Result<Self, SkillDiscoveryError>)
        requires
            !skill_md_panics(content@),
        ensures
            skill_md_result(content@, path@, r),
    {
        let c = chars_of(content);
        let fm = match extract_frontmatter(&c) {
            Ok(fm) => fm,
            Err(e) => return Err(frontmatter_error(e, path)),
        };
        let name = match parse_field(&fm, "name") {
            Some(v) => {
                if is_lone_quote(&v) {
                    assert(false);
                }
                strip_yaml_quotes(&v)
            },
            None => return Err(missing_field("name", path)),
        };
        if name.len() == 0 {
            return Err(missing_field("name", path));
        }
        match check_name(&name) {
            Some(pb) => {
                return Err(
                    SkillDiscoveryError::InvalidName {
                        path: string_of(&chars_of(path)),
                        reason: name_reason_text(pb),
                    },
                );
            },
            None => {},
        }
        let description = match parse_field(&fm, "description") {
            Some(v) => {
                if is_lone_quote(&v) {
                    assert(false);
                }
                strip_yaml_quotes(&v)
            },
            None => return Err(missing_field("description", path)),
        };
        if description.len() == 0 {
            return Err(missing_field("description", path));
        }
        match description_too_long(&description) {
            Some(len) => {
                return Err(
                    SkillDiscoveryError::InvalidDescription {
                        path: string_of(&chars_of(path)),
                        reason: description_reason_text(len),
                    },
                );
            },
            None => {},
        }
        let disable_model_invocation = match parse_field(&fm, "disable-model-invocation") {
            Some(v) => {
                if is_lone_quote(&v) {
                    assert(false);
                }
                let stripped = strip_yaml_quotes(&v);
                let t = chars_of("true");
                eq_ignore_case(&stripped, &t)
            },
            None => false,
        };
        Ok(SkillManifest {
            name: string_of(&name),
            description: string_of(&description),
            disable_model_invocation,
        })
    }
}

/// The body of a `SKILL.md` file: everything after the frontmatter.
pub fn skill_body(content: &str) -> (r: String)
    ensures
        r@ == body_spec(content@),
{
    let c = chars_of(content);
    string_of(&extract_body(&c))
}

impl SkillResource {
    /// The body of this skill, given the current content of its `SKILL.md`.
    pub fn body_from(&self, content: &str) -> (r: String)
        ensures
            r@ == body_spec(content@),
    {
        skill_body(content)
    }
}

// ---------------------------------------------------------------------------
// Discovery
// ---------------------------------------------------------------------------

/// Merge the skills found across discovery layers, in the order found,
/// into one per name sorted by name, keeping the one of highest precedence.
/// Two skills of the same name and precedence are an error, whatever a
/// layer of higher precedence holds: the later of the first such pair is
/// reported.
pub fn merge_discovered_skills(found: Vec<SkillResource>) -> (r: Result<Vec<SkillResource>, SkillDiscoveryError>)
    ensures
        match r {
            Ok(v) => !has_duplicate(found@) && merged_from(found@, v@) && precedence_merge_law(
                found@,
                v@,
            ),
            Err(e) => exists|j: int|
                {
                    &&& duplicate_at(found@, j)
                    &&& forall|k: int| 0 <= k < j ==> !duplicate_at(found@, k)
                    &&& e matches SkillDiscoveryError::DuplicateName { name, path }
                    &&& name@ == found@[j].manifest.name@
                    &&& path@ == found@[j].path@
                },
        },
{
    match merge_discovered(found) {
        Ok(v) => Ok(v),
        Err(item) => Err(SkillDiscoveryError::DuplicateName { name: item.manifest.name, path: item.path }),
    }
}

// ---------------------------------------------------------------------------
// Registry
// ---------------------------------------------------------------------------

/// A registry of discovered skills.
pub struct SkillRegistry {
    resources: Vec<SkillResource>,
}

/// The prompt line of a skill.
pub open spec fn skill_line(r: SkillResource) -> Seq<char> {
    "- "@ + r.manifest.name@ + ": "@ + r.manifest.description@ + if r.manifest.disable_model_invocation {
        " [manual-only]"@
    } else {
        ""@
    }
}

/// The index of the first resource named `name`.
pub open spec fn first_named(s: Seq<SkillResource>, name: Seq<char>) -> Option<int>
    decreases s.len(),
{
    if s.len() == 0 {
        None
    } else if s[0].manifest.name@ == name {
        Some(0)
    } else {
        match first_named(s.drop_first(), name) {
            Some(i) => Some(i + 1),
            None => None,
        }
    }
}

impl SkillRegistry {
    /// The skills, in registry order.
    pub closed spec fn view(&self) -> Seq<SkillResource> {
        self.resources@
    }

    /// Build a registry from discovered skill resources.
    pub fn from_resources(resources: Vec<SkillResource>) -> (r: Self)
        ensures
            r.view() == resources@,
    {
        SkillRegistry { resources }
    }

    /// The names of all skills, sorted in code point order (distinct names,
    /// as discovery gives them, come out strictly ascending).
    pub fn names(&self) -> (r: Vec<String>)
        ensures
            crate::sorting::sorted_le(string_views(r@)),
            crate::sorting::is_reordering(
                string_views(r@),
                Seq::new(self.view().len(), |i: int| self.view()[i].manifest.name@),
            ),
            crate::sorting::all_distinct(
                Seq::new(self.view().len(), |i: int| self.view()[i].manifest.name@),
            ) ==> crate::sorting::strictly_sorted(string_views(r@)),
    {
        let mut out: Vec<String> = Vec::new();
        let mut i: usize = 0;
        while i < self.resources.len()
            invariant
                i <= self.resources@.len(),
                out@.len() == i,
                forall|j: int| 0 <= j < i ==> #[trigger] out@[j]@
                    == self.resources@[j].manifest.name@,
            decreases self.resources.len() - i,
        {
            out.push(self.resources[i].manifest.name.clone());
            i += 1;
        }
        assert(string_views(out@) =~= Seq::new(self.view().len(), |i: int| self.view()[i].manifest.name@));
        crate::sorting::sorted_names(out)
    }

    /// The first skill named `name`.
    pub fn get(&self, name: &str) -> (r: Option<&SkillResource>)
        ensures
            match first_named(self.view(), name@) {
                Some(i) => r == Some(&self.view()[i]),
                None => r is None,
            },
    {
        let mut i: usize = 0;
        assert(self.resources@.skip(0) =~= self.resources@);
        while i < self.resources.len()
            invariant
                i <= self.resources@.len(),
                first_named(self.resources@, name@) == match first_named(
                    self.resources@.skip(i as int),
                    name@,
                ) {
                    Some(j) => Some(j + i),
                    None => None,
                },
            decreases self.resources.len() - i,
        {
            assert(self.resources@.skip(i as int).drop_first() =~= self.resources@.skip(i + 1));
            if str_eq(self.resources[i].manifest.name.as_str(), name) {
                return Some(&self.resources[i]);
            }
            i += 1;
        }
        None
    }

    /// The body of the skill named `name`, given the outcome of reading its
    /// `SKILL.md` (the file's text, or why reading it failed); `None` when no
    /// skill has that name.
    pub fn load_body(&self, name: &str, read: Result<String, String>) -> (r: Option<
        Result<String, SkillDiscoveryError>,
    >)
        ensures
            first_named(self.view(), name@) is None ==> r is None,
            first_named(self.view(), name@) is Some ==> match read {
                Ok(content) => r matches Some(Ok(b)) && b@ == body_spec(content@),
                Err(reason) => r matches Some(Err(SkillDiscoveryError::Io(m))) && m@ == reason@,
            },
    {
        match self.get(name) {
            None => None,
            Some(res) => match read {
                Ok(content) => Some(Ok(res.body_from(content.as_str()))),
                Err(reason) => Some(Err(SkillDiscoveryError::Io(reason))),
            },
        }
    }

    /// The skills the model may invoke on its own, in registry order.
    pub fn auto_invocable(&self) -> (r: Vec<&SkillResource>)
        ensures
            r@.len() == self.view().filter(|s: SkillResource| !s.manifest.disable_model_invocation).len(),
            forall|j: int|
                0 <= j < r@.len() ==> *r@[j] == self.view().filter(
                    |s: SkillResource| !s.manifest.disable_model_invocation,
                )[j],
    {
        let mut out: Vec<&SkillResource> = Vec::new();
        let ghost pred = |s: SkillResource| !s.manifest.disable_model_invocation;
        let mut i: usize = 0;
        while i < self.resources.len()
            invariant
                i <= self.resources@.len(),
                pred == (|s: SkillResource| !s.manifest.disable_model_invocation),
                out@.len() == self.resources@.take(i as int).filter(pred).len(),
                forall|j: int|
                    0 <= j < out@.len() ==> *out@[j] == self.resources@.take(i as int).filter(
                        pred,
                    )[j],
            decreases self.resources.len() - i,
        {
            reveal_with_fuel(Seq::<_>::filter, 1);
            assert(self.resources@.take(i + 1).drop_last() =~= self.resources@.take(i as int));
            if !self.resources[i].manifest.disable_model_invocation {
                out.push(&self.resources[i]);
            }
            i += 1;
        }
        assert(self.resources@.take(self.resources.len() as int) =~= self.resources@);
        out
    }

    /// The skills as prompt text: one `- name: description` line each, with
    /// ` [manual-only]` after skills the model may not invoke.
    pub fn format_for_prompt(&self) -> (r: String)
        ensures
            r@ == join(Seq::new(self.view().len(), |i: int| skill_line(self.view()[i])), "\n"@),
    {
        let ghost lines = Seq::new(self.resources@.len(), |i: int| skill_line(self.resources@[i]));
        let mut parts: Vec<Vec<char>> = Vec::new();
        let mut i: usize = 0;
        while i < self.resources.len()
            invariant
                i <= self.resources@.len(),
                lines == Seq::new(self.resources@.len(), |i: int| skill_line(self.resources@[i])),
                views(parts@) == lines.take(i as int),
                parts@.len() == i,
            decreases self.resources.len() - i,
        {
            let r = &self.resources[i];
            let mut line: Vec<char> = Vec::new();
            extend_str(&mut line, "- ");
            extend_str(&mut line, r.manifest.name.as_str());
            extend_str(&mut line, ": ");
            extend_str(&mut line, r.manifest.description.as_str());
            if r.manifest.disable_model_invocation {
                extend_str(&mut line, " [manual-only]");
            } else {
                extend_str(&mut line, "");
            }
            assert(line@ == skill_line(self.resources@[i as int]));
            let ghost prev = parts@;
            parts.push(line);
            assert forall|j: int| 0 <= j < i implies #[trigger] parts@[j]@ == lines[j] by {
                assert(parts@[j] == prev[j]);
                assert(views(prev)[j] == lines.take(i as int)[j]);
            }
            assert(views(parts@) =~= lines.take(i + 1));
            i += 1;
        }
        assert(lines.take(self.resources.len() as int) =~= lines);
        string_of(&join_chars(&parts, "\n"))
    }
}

/// What `from_skill_md` accepts and refuses: content without frontmatter
/// is refused for its frontmatter; a missing or empty name is a missing
/// field; and an accepted manifest has a nonempty name of at most 64
/// characters, each a lowercase letter, a digit or a hyphen, and a
/// nonempty description of at most 1024 characters.
pub proof fn lemma_skill_manifest_law(content: Seq<char>, path: Seq<char>, r: Result<SkillManifest, SkillDiscoveryError>)
    requires
        skill_md_result(content, path, r),
    ensures
        frontmatter_spec(content) is Err ==> r matches Err(SkillDiscoveryError::InvalidFrontmatter { .. }),
        (frontmatter_spec(content) matches Ok(fm) && (field_spec(fm, "name"@) is None || strip_quotes(
            field_spec(fm, "name"@)->0,
        ).len() == 0)) ==> r matches Err(SkillDiscoveryError::MissingField { .. }),
        r matches Ok(m) ==> {
            &&& 0 < m.name@.len() <= 64
            &&& forall|i: int| 0 <= i < m.name@.len() ==> allowed_char(#[trigger] m.name@[i], false)
            &&& 0 < m.description@.len() <= 1024
        },
{
    if let Ok(fm) = frontmatter_spec(content) {
        let nf = field_spec(fm, "name"@);
        if !(nf is None || strip_quotes(nf->0).len() == 0) {
            let name = strip_quotes(nf->0);
            if name_problem(name) is None {
                lemma_valid_name(name);
            }
        }
    }
}

} // verus!
