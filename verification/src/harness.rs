//! What the coding harness decides around the agent: the metadata of the
//! discovered resources and its place in the system prompt, how installed
//! packages join the discovered ones, model switches and thinking budgets.
use vstd::prelude::*;

use crate::policy::ToolSelection;
use crate::package_discovery::{PackageDiscoveryError, PackageResource, discovery_error_message};
use crate::package_resolver::{
    InstalledPackageResolution, PackageDiagnostic, PackageResolverError, ResolvedInstalledPackage,
    scope_debug,
};
use crate::prompt_fragment::{FragmentDiscoveryError, FragmentResource, fragment_error_message};
use crate::resource::{ExtensionResource, ResourceDiscoveryError, extension_error_message};
use crate::skill::{SkillDiscoveryError, SkillResource, skill_error_message};
use crate::theme_discovery::{ThemeDiscoveryError, ThemeResource, theme_error_message};
use crate::sorting::{ExecSortKey, SortKey, key_views, reordered, stable_sort_spec};
use crate::text::{
    chars_of, decimal, decimal_chars, extend_chars, extend_str, find_char, find_char_in, join,
    join_chars, str_eq, string_of, string_views, subvec, views,
};

verus! {

// ---------------------------------------------------------------------------
// Resource metadata
// ---------------------------------------------------------------------------

/// One entry of resource metadata, shown in prompts and to RPC clients.
#[derive(Debug, Clone)]
pub struct ResourceMetadataEntry {
    pub name: String,
    pub description: Option<String>,
    pub version: Option<String>,
}

/// The metadata of the resources the harness discovered.
#[derive(Debug)]
pub struct DiscoveredResourceMetadata {
    pub extensions: Vec<ResourceMetadataEntry>,
    pub packages: Vec<ResourceMetadataEntry>,
    pub skills: Vec<ResourceMetadataEntry>,
    pub fragments: Vec<ResourceMetadataEntry>,
    pub themes: Vec<ResourceMetadataEntry>,
    pub diagnostics: Vec<String>,
}

impl Default for DiscoveredResourceMetadata {
    fn default() -> (r: Self)
        ensures
            r.extensions@.len() == 0,
            r.packages@.len() == 0,
            r.skills@.len() == 0,
            r.fragments@.len() == 0,
            r.themes@.len() == 0,
            r.diagnostics@.len() == 0,
    {
        DiscoveredResourceMetadata {
            extensions: Vec::new(),
            packages: Vec::new(),
            skills: Vec::new(),
            fragments: Vec::new(),
            themes: Vec::new(),
            diagnostics: Vec::new(),
        }
    }
}

/// `prefix` and the text of `o`, or nothing.
pub open spec fn opt_suffix(prefix: Seq<char>, o: Option<String>) -> Seq<char> {
    match o {
        Some(x) => prefix + x@,
        None => Seq::empty(),
    }
}

/// The line of an entry: `- name`, then `: description` and ` vversion`
/// where they are given.
pub open spec fn entry_line(e: ResourceMetadataEntry) -> Seq<char> {
    "- "@ + e.name@ + opt_suffix(": "@, e.description) + opt_suffix(" v"@, e.version)
}

/// The lines of the entries.
pub open spec fn entry_lines(es: Seq<ResourceMetadataEntry>) -> Seq<Seq<char>> {
    Seq::new(es.len(), |i: int| entry_line(es[i]))
}

/// The section of a non-empty list of entries: the title, a colon, then
/// one line per entry.
pub open spec fn section_list(title: Seq<char>, es: Seq<ResourceMetadataEntry>) -> Seq<Seq<char>> {
    if es.len() == 0 {
        Seq::empty()
    } else {
        seq![title + ":\n"@ + join(entry_lines(es), "\n"@)]
    }
}

/// The section listing the diagnostics, when there are any.
pub open spec fn diagnostics_list(ds: Seq<String>) -> Seq<Seq<char>> {
    if ds.len() == 0 {
        Seq::empty()
    } else {
        seq![
            "Resource discovery diagnostics:\n"@ + join(
                Seq::new(ds.len(), |i: int| "- "@ + ds[i]@),
                "\n"@,
            ),
        ]
    }
}

/// The sections of the system prompt that describe the resources:
/// packages, extensions, skills, prompt fragments, themes, then the
/// diagnostics, each present only when it lists something.
pub open spec fn prompt_sections(m: DiscoveredResourceMetadata) -> Seq<Seq<char>> {
    section_list("Discovered packages"@, m.packages@) + section_list(
        "Discovered extensions"@,
        m.extensions@,
    ) + section_list("Discovered skills"@, m.skills@) + section_list(
        "Discovered prompt fragments"@,
        m.fragments@,
    ) + section_list("Discovered themes"@, m.themes@) + diagnostics_list(m.diagnostics@)
}

/// The line of an entry.
fn entry_line_of(e: &ResourceMetadataEntry) -> (r: Vec<char>)
    ensures
        r@ == entry_line(*e),
{
    let mut line = chars_of("- ");
    extend_str(&mut line, e.name.as_str());
    match &e.description {
        Some(d) => {
            extend_str(&mut line, ": ");
            extend_str(&mut line, d.as_str());
        },
        None => {},
    }
    match &e.version {
        Some(v) => {
            extend_str(&mut line, " v");
            extend_str(&mut line, v.as_str());
        },
        None => {},
    }
    line
}

/// Add the section of `entries` under `title` to `sections`, unless there
/// are no entries.
pub fn push_metadata_section(
    sections: &mut Vec<String>,
    title: &str,
    entries: &[ResourceMetadataEntry],
)
    ensures
        string_views(final(sections)@) == string_views(old(sections)@) + section_list(
            title@,
            entries@,
        ),
{
    if entries.len() == 0 {
        assert(string_views(sections@) =~= string_views(sections@) + section_list(
            title@,
            entries@,
        ));
        return;
    }
    let mut lines: Vec<Vec<char>> = Vec::new();
    let mut i: usize = 0;
    while i < entries.len()
        invariant
            i <= entries@.len(),
            lines@.len() == i,
            forall|k: int| 0 <= k < i ==> #[trigger] lines@[k]@ == entry_line(entries@[k]),
        decreases entries.len() - i,
    {
        lines.push(entry_line_of(&entries[i]));
        i += 1;
    }
    assert(views(lines@) =~= entry_lines(entries@));
    let mut text = chars_of(title);
    extend_str(&mut text, ":\n");
    let body = join_chars(&lines, "\n");
    extend_chars(&mut text, &body);
    let ghost before = sections@;
    sections.push(string_of(&text));
    assert(string_views(sections@) =~= string_views(before) + section_list(title@, entries@));
}

/// The names of the entries, in order.
pub fn metadata_names(entries: &[ResourceMetadataEntry]) -> (r: Vec<String>)
    ensures
        string_views(r@) == Seq::new(entries@.len(), |i: int| entries@[i].name@),
{
    let mut out: Vec<String> = Vec::new();
    let mut i: usize = 0;
    while i < entries.len()
        invariant
            i <= entries@.len(),
            out@.len() == i,
            forall|k: int| 0 <= k < i ==> #[trigger] out@[k]@ == entries@[k].name@,
        decreases entries.len() - i,
    {
        out.push(string_of(&chars_of(entries[i].name.as_str())));
        i += 1;
    }
    assert(string_views(out@) =~= Seq::new(entries@.len(), |i: int| entries@[i].name@));
    out
}

/// The sort keys of entries: by name.
pub open spec fn entry_keys(es: Seq<ResourceMetadataEntry>) -> Seq<SortKey> {
    es.map_values(|e: ResourceMetadataEntry| (0u32, e.name@, Seq::<char>::empty()))
}

/// Some entry is named `name`.
pub open spec fn has_entry_named(es: Seq<ResourceMetadataEntry>, name: Seq<char>) -> bool {
    exists|i: int| 0 <= i < es.len() && #[trigger] es[i].name@ == name
}

impl DiscoveredResourceMetadata {
    /// The resource sections of the system prompt, separated by blank
    /// lines; empty when nothing was discovered.
    pub fn format_for_system_prompt(&self) -> (r: String)
        ensures
            r@ == join(prompt_sections(*self), "\n\n"@),
    {
        let mut sections: Vec<String> = Vec::new();
        push_metadata_section(&mut sections, "Discovered packages", self.packages.as_slice());
        push_metadata_section(&mut sections, "Discovered extensions", self.extensions.as_slice());
        push_metadata_section(&mut sections, "Discovered skills", self.skills.as_slice());
        push_metadata_section(
            &mut sections,
            "Discovered prompt fragments",
            self.fragments.as_slice(),
        );
        push_metadata_section(&mut sections, "Discovered themes", self.themes.as_slice());
        if self.diagnostics.len() > 0 {
            let mut lines: Vec<Vec<char>> = Vec::new();
            let mut i: usize = 0;
            while i < self.diagnostics.len()
                invariant
                    i <= self.diagnostics@.len(),
                    lines@.len() == i,
                    forall|k: int|
                        0 <= k < i ==> #[trigger] lines@[k]@ == "- "@ + self.diagnostics@[k]@,
                decreases self.diagnostics.len() - i,
            {
                let mut l = chars_of("- ");
                extend_str(&mut l, self.diagnostics[i].as_str());
                lines.push(l);
                i += 1;
            }
            assert(views(lines@) =~= Seq::new(
                self.diagnostics@.len(),
                |i: int| "- "@ + self.diagnostics@[i]@,
            ));
            let mut text = chars_of("Resource discovery diagnostics:\n");
            let body = join_chars(&lines, "\n");
            extend_chars(&mut text, &body);
            sections.push(string_of(&text));
        }
        let mut parts: Vec<Vec<char>> = Vec::new();
        let mut j: usize = 0;
        while j < sections.len()
            invariant
                j <= sections@.len(),
                parts@.len() == j,
                forall|k: int| 0 <= k < j ==> #[trigger] parts@[k]@ == sections@[k]@,
            decreases sections.len() - j,
        {
            parts.push(chars_of(sections[j].as_str()));
            j += 1;
        }
        assert(views(parts@) =~= string_views(sections@));
        assert(string_views(sections@) =~= prompt_sections(*self));
        string_of(&join_chars(&parts, "\n\n"))
    }

    /// Record an extension known only by name (one that an extension
    /// registry provides): nothing changes when an entry of that name
    /// exists; otherwise it is added and the extensions are ordered by name.
    pub fn add_extension_name(&mut self, name: String)
        ensures
            has_entry_named(old(self).extensions@, name@) ==> final(self).extensions@ == old(
                self,
            ).extensions@,
            !has_entry_named(old(self).extensions@, name@) ==> final(self).extensions@
                == reordered(
                old(self).extensions@.push((ResourceMetadataEntry { name, description: None, version: None })),
                stable_sort_spec(
                    entry_keys(
                        old(self).extensions@.push((ResourceMetadataEntry { name, description: None, version: None })),
                    ),
                ),
            ),
            has_entry_named(final(self).extensions@, name@),
            final(self).packages@ == old(self).packages@,
            final(self).skills@ == old(self).skills@,
            final(self).fragments@ == old(self).fragments@,
            final(self).themes@ == old(self).themes@,
            final(self).diagnostics@ == old(self).diagnostics@,
    {
        let mut i: usize = 0;
        while i < self.extensions.len()
            invariant
                i <= self.extensions@.len(),
                forall|k: int| 0 <= k < i ==> #[trigger] self.extensions@[k].name@ != name@,
            decreases self.extensions.len() - i,
        {
            if str_eq(self.extensions[i].name.as_str(), name.as_str()) {
                return;
            }
            i += 1;
        }
        let mut v: Vec<ResourceMetadataEntry> = Vec::new();
        std::mem::swap(&mut v, &mut self.extensions);
        v.push(ResourceMetadataEntry { name, description: None, version: None });
        let keys = entry_keys_of(&v);
        let order = crate::sorting::stable_sorted_order(&keys);
        let ghost n = (v@.len() - 1) as int;
        assert(v@[n].name@ == name@);
        proof {
            crate::sorting::lemma_permutation_covers(order@, v@.len(), n);
        }
        let ghost w = v@;
        self.extensions = crate::sorting::apply_order(v, &order);
        proof {
            let j = choose|j: int| 0 <= j < w.len() && order@[j] == n;
            assert(self.extensions@[j] == w[n]);
        }
    }
}

/// The sort keys of entries.
fn entry_keys_of(es: &Vec<ResourceMetadataEntry>) -> (r: Vec<ExecSortKey>)
    ensures
        key_views(r@) == entry_keys(es@),
{
    let mut keys: Vec<ExecSortKey> = Vec::new();
    let mut i: usize = 0;
    while i < es.len()
        invariant
            i <= es@.len(),
            keys@.len() == i,
            forall|k: int|
                0 <= k < i ==> (#[trigger] keys@[k]).0 == 0 && keys@[k].1@ == es@[k].name@
                    && keys@[k].2@ == Seq::<char>::empty(),
        decreases es.len() - i,
    {
        keys.push((0, chars_of(es[i].name.as_str()), Vec::new()));
        i += 1;
    }
    assert(key_views(keys@) =~= entry_keys(es@));
    keys
}

// ---------------------------------------------------------------------------
// Installed packages
// ---------------------------------------------------------------------------

/// The index of the first package named `name`.
pub open spec fn first_package_named(ps: Seq<PackageResource>, name: Seq<char>) -> Option<int>
    decreases ps.len(),
{
    if ps.len() == 0 {
        None
    } else if ps[0].manifest.name@ == name {
        Some(0)
    } else {
        match first_package_named(ps.drop_first(), name) {
            Some(i) => Some(i + 1),
            None => None,
        }
    }
}

/// Merge one installed package: it replaces the first package of its name
/// when its precedence is at least that one's, is dropped when lower, and is
/// added when no package has its name.
pub open spec fn merge_one(ps: Seq<PackageResource>, p: PackageResource) -> Seq<PackageResource> {
    match first_package_named(ps, p.manifest.name@) {
        Some(i) => if p.layer_precedence >= ps[i].layer_precedence {
            ps.update(i, p)
        } else {
            ps
        },
        None => ps.push(p),
    }
}

/// Merge the installed packages, in order.
pub open spec fn merge_all(ps: Seq<PackageResource>, installed: Seq<PackageResource>) -> Seq<
    PackageResource,
>
    decreases installed.len(),
{
    if installed.len() == 0 {
        ps
    } else {
        merge_one(merge_all(ps, installed.drop_last()), installed.last())
    }
}

/// The sort keys of packages: precedence, then name.
pub open spec fn package_keys(ps: Seq<PackageResource>) -> Seq<SortKey> {
    ps.map_values(|p: PackageResource| (p.layer_precedence, p.manifest.name@, Seq::<char>::empty()))
}

proof fn lemma_first_named_bound(ps: Seq<PackageResource>, name: Seq<char>)
    ensures
        first_package_named(ps, name) matches Some(i) ==> 0 <= i < ps.len()
            && ps[i].manifest.name@ == name,
    decreases ps.len(),
{
    if ps.len() > 0 && ps[0].manifest.name@ != name {
        lemma_first_named_bound(ps.drop_first(), name);
    }
}

/// The index of the first package named `name`.
fn first_named_index(ps: &Vec<PackageResource>, name: &str) -> (r: Option<usize>)
    ensures
        r is None <==> first_package_named(ps@, name@) is None,
        r matches Some(i) ==> first_package_named(ps@, name@) == Some(i as int) && i < ps@.len(),
{
    let mut i: usize = 0;
    assert(ps@.skip(0) =~= ps@);
    while i < ps.len()
        invariant
            i <= ps@.len(),
            first_package_named(ps@, name@) == match first_package_named(ps@.skip(i as int), name@) {
                Some(j) => Some(j + i),
                None => None,
            },
        decreases ps.len() - i,
    {
        assert(ps@.skip(i as int).drop_first() =~= ps@.skip(i + 1));
        if str_eq(ps[i].manifest.name.as_str(), name) {
            return Some(i);
        }
        i += 1;
    }
    None
}

/// The sort keys of packages.
fn package_keys_of(ps: &Vec<PackageResource>) -> (r: Vec<ExecSortKey>)
    ensures
        key_views(r@) == package_keys(ps@),
{
    let mut keys: Vec<ExecSortKey> = Vec::new();
    let mut i: usize = 0;
    while i < ps.len()
        invariant
            i <= ps@.len(),
            keys@.len() == i,
            forall|k: int|
                0 <= k < i ==> (#[trigger] keys@[k]).0 == ps@[k].layer_precedence && keys@[k].1@
                    == ps@[k].manifest.name@ && keys@[k].2@ == Seq::<char>::empty(),
        decreases ps.len() - i,
    {
        keys.push((ps[i].layer_precedence, chars_of(ps[i].manifest.name.as_str()), Vec::new()));
        i += 1;
    }
    assert(key_views(keys@) =~= package_keys(ps@));
    keys
}

/// Merge installed packages into the discovered ones (see `merge_one`),
/// then order them by precedence and name.
pub fn merge_package_resources(packages: &mut Vec<PackageResource>, installed: Vec<PackageResource>)
    ensures
        final(packages)@ == reordered(
            merge_all(old(packages)@, installed@),
            stable_sort_spec(package_keys(merge_all(old(packages)@, installed@))),
        ),
{
    let ghost inst = installed@;
    let ghost start = packages@;
    let n = installed.len();
    let mut installed = installed;
    let mut rev: Vec<PackageResource> = Vec::new();
    while installed.len() > 0
        invariant
            installed@.len() + rev@.len() == n,
            n == inst.len(),
            forall|k: int| 0 <= k < installed@.len() ==> #[trigger] installed@[k] == inst[k],
            forall|k: int| 0 <= k < rev@.len() ==> #[trigger] rev@[k] == inst[n - 1 - k],
        decreases installed.len(),
    {
        let x = installed.pop().unwrap();
        rev.push(x);
    }
    let mut merged: Vec<PackageResource> = Vec::new();
    std::mem::swap(&mut merged, packages);
    let mut t: usize = 0;
    assert(inst.take(0) =~= Seq::<PackageResource>::empty());
    while rev.len() > 0
        invariant
            rev@.len() + t == n,
            n == inst.len(),
            forall|k: int| 0 <= k < rev@.len() ==> #[trigger] rev@[k] == inst[n - 1 - k],
            merged@ == merge_all(start, inst.take(t as int)),
        decreases rev.len(),
    {
        let p = rev.pop().unwrap();
        assert(p == inst[t as int]);
        assert(inst.take(t + 1).drop_last() =~= inst.take(t as int));
        assert(inst.take(t + 1).last() == p);
        proof {
            lemma_first_named_bound(merged@, p.manifest.name@);
        }
        let ghost before = merged@;
        assert(merge_all(start, inst.take(t + 1)) == merge_one(
            merge_all(start, inst.take(t as int)),
            p,
        ));
        match first_named_index(&merged, p.manifest.name.as_str()) {
            Some(i) => {
                assert(first_package_named(before, p.manifest.name@) == Some(i as int));
                if p.layer_precedence >= merged[i].layer_precedence {
                    let ghost q = p;
                    merged.set(i, p);
                    assert(merged@ =~= before.update(i as int, q));
                    assert(merged@ == merge_one(before, q));
                } else {
                    assert(merged@ == merge_one(before, p));
                }
            },
            None => {
                let ghost q = p;
                merged.push(p);
                assert(merged@ == merge_one(before, q));
            },
        }
        t += 1;
    }
    assert(inst.take(n as int) =~= inst);
    let keys = package_keys_of(&merged);
    let order = crate::sorting::stable_sorted_order(&keys);
    *packages = crate::sorting::apply_order(merged, &order);
}

// ---------------------------------------------------------------------------
// Models and thinking
// ---------------------------------------------------------------------------

/// The thinking level the harness runs with after a change.
#[derive(Debug)]
pub struct RuntimeThinkingState {
    pub level: String,
    pub enabled: bool,
    pub budget_tokens: Option<u64>,
}

/// What a provider request asks of thinking.
#[derive(Debug, Clone, Copy, PartialEq, Eq, Structural)]
pub struct ThinkingRequest {
    pub enabled: bool,
    pub budget_tokens: Option<u64>,
}

/// What the harness reads of a model's description.
#[derive(Debug)]
pub struct ModelLimits {
    pub id: String,
    pub supports_thinking: bool,
    pub max_output_tokens: u64,
}

/// The error of a model spec without a provider and a model.
pub open spec fn bad_model_spec() -> Seq<char> {
    "invalid model spec: expected provider:model"@
}

/// A `provider:model` spec split at its first colon; both parts must be
/// non-empty.
pub open spec fn model_spec_parts(spec: Seq<char>) -> Option<(Seq<char>, Seq<char>)> {
    match find_char(spec, ':') {
        Some(i) => if i > 0 && i + 1 < spec.len() {
            Some((spec.take(i), spec.skip(i + 1)))
        } else {
            None
        },
        None => None,
    }
}

/// Split a `provider:model` spec into its provider and model.
pub fn parse_model_spec(spec: &str) -> (r: Result<(String, String), String>)
    ensures
        match model_spec_parts(spec@) {
            Some((p, m)) => r matches Ok((a, b)) && a@ == p && b@ == m,
            None => r matches Err(e) && e@ == bad_model_spec(),
        },
{
    let s = chars_of(spec);
    match find_char_in(&s, ':') {
        Some(i) => {
            if i > 0 && i < s.len() - 1 {
                let p = subvec(&s, 0, i);
                let m = subvec(&s, i + 1, s.len());
                assert(p@ =~= s@.take(i as int));
                assert(m@ =~= s@.skip(i + 1));
                Ok((string_of(&p), string_of(&m)))
            } else {
                Err(string_of(&chars_of("invalid model spec: expected provider:model")))
            }
        },
        None => Err(string_of(&chars_of("invalid model spec: expected provider:model"))),
    }
}

/// The error of a thinking budget that leaves no room for `max_tokens`.
pub open spec fn budget_overflow_message(budget: u64) -> Seq<char> {
    "thinking budget "@ + decimal(budget as nat) + " cannot fit a valid max_tokens value"@
}

/// The `max_tokens` a thinking budget needs: one more than the budget.
pub fn max_tokens_for_thinking_budget(budget_tokens: u64) -> (r: Result<u64, String>)
    ensures
        budget_tokens < u64::MAX ==> r == Ok::<u64, String>((budget_tokens + 1) as u64),
        budget_tokens == u64::MAX ==> (r matches Err(e) && e@ == budget_overflow_message(
            budget_tokens,
        )),
{
    match budget_tokens.checked_add(1) {
        Some(m) => Ok(m),
        None => {
            let mut v = chars_of("thinking budget ");
            let d = decimal_chars(budget_tokens as u128);
            extend_chars(&mut v, &d);
            extend_str(&mut v, " cannot fit a valid max_tokens value");
            Err(string_of(&v))
        },
    }
}

/// The thinking request and `max_tokens` for a budget.
pub fn request_config_for_thinking_budget(budget_tokens: u64) -> (r: Result<
    (ThinkingRequest, u64),
    String,
>)
    ensures
        budget_tokens < u64::MAX ==> r == Ok::<(ThinkingRequest, u64), String>(
            (
                ThinkingRequest { enabled: true, budget_tokens: Some(budget_tokens) },
                (budget_tokens + 1) as u64,
            ),
        ),
        budget_tokens == u64::MAX ==> (r matches Err(e) && e@ == budget_overflow_message(
            budget_tokens,
        )),
{
    match max_tokens_for_thinking_budget(budget_tokens) {
        Ok(m) => Ok((ThinkingRequest { enabled: true, budget_tokens: Some(budget_tokens) }, m)),
        Err(e) => Err(e),
    }
}

/// Why a thinking budget does not suit a model, if it does not: the model
/// does not think, or `max_tokens` exceeds its output limit.
pub open spec fn budget_problem(model: ModelLimits, budget: u64, max_tokens: u64) -> Option<
    Seq<char>,
> {
    if !model.supports_thinking {
        Some("model '"@ + model.id@ + "' does not support thinking"@)
    } else if max_tokens > model.max_output_tokens {
        Some(
            "thinking budget "@ + decimal(budget as nat) + " requires max_tokens "@ + decimal(
                max_tokens as nat,
            ) + ", exceeding max output tokens "@ + decimal(model.max_output_tokens as nat)
                + " for model '"@ + model.id@ + "'"@,
        )
    } else {
        None
    }
}

/// Check that a thinking budget and its `max_tokens` suit a model.
pub fn validate_thinking_budget_for_model(model: &ModelLimits, budget_tokens: u64, max_tokens: u64) -> (r:
    Result<(), String>)
    ensures
        match budget_problem(*model, budget_tokens, max_tokens) {
            Some(m) => r matches Err(e) && e@ == m,
            None => r is Ok,
        },
{
    if !model.supports_thinking {
        let mut v = chars_of("model '");
        extend_str(&mut v, model.id.as_str());
        extend_str(&mut v, "' does not support thinking");
        return Err(string_of(&v));
    }
    if max_tokens > model.max_output_tokens {
        let mut v = chars_of("thinking budget ");
        extend_chars(&mut v, &decimal_chars(budget_tokens as u128));
        extend_str(&mut v, " requires max_tokens ");
        extend_chars(&mut v, &decimal_chars(max_tokens as u128));
        extend_str(&mut v, ", exceeding max output tokens ");
        extend_chars(&mut v, &decimal_chars(model.max_output_tokens as u128));
        extend_str(&mut v, " for model '");
        extend_str(&mut v, model.id.as_str());
        extend_str(&mut v, "'");
        return Err(string_of(&v));
    }
    Ok(())
}

/// The thinking a session starts with: none when thinking is off or the
/// model does not think; otherwise the configured budget, lowered to fit
/// a model whose output limit is smaller (none when the limit is at most
/// one token). A model that is not known is not checked.
pub open spec fn initial_thinking_spec(model: Option<ModelLimits>, enabled: bool, budget: u32) -> (
    Option<ThinkingRequest>,
    Option<u64>,
) {
    if !enabled {
        (None, None)
    } else {
        match model {
            None => (
                Some(ThinkingRequest { enabled: true, budget_tokens: Some(budget as u64) }),
                Some((budget + 1) as u64),
            ),
            Some(m) => if !m.supports_thinking {
                (None, None)
            } else if budget + 1 > m.max_output_tokens {
                if m.max_output_tokens <= 1 {
                    (None, None)
                } else {
                    (
                        Some(
                            ThinkingRequest {
                                enabled: true,
                                budget_tokens: Some((m.max_output_tokens - 1) as u64),
                            },
                        ),
                        Some(m.max_output_tokens),
                    )
                }
            } else {
                (
                    Some(ThinkingRequest { enabled: true, budget_tokens: Some(budget as u64) }),
                    Some((budget + 1) as u64),
                )
            },
        }
    }
}

/// The thinking request and `max_tokens` a session starts with, given the
/// configuration and what is known of the model.
pub fn initial_thinking_request_config(model: Option<&ModelLimits>, enabled: bool, budget_tokens: u32) -> (r: (
    Option<ThinkingRequest>,
    Option<u64>,
))
    ensures
        r == initial_thinking_spec(
            match model {
                Some(m) => Some(*m),
                None => None,
            },
            enabled,
            budget_tokens,
        ),
{
    if !enabled {
        return (None, None);
    }
    let budget = budget_tokens as u64;
    let (mut thinking, mut max_tokens) = match request_config_for_thinking_budget(budget) {
        Ok(x) => x,
        Err(_) => return (None, None),
    };
    match model {
        Some(m) => {
            if !m.supports_thinking {
                return (None, None);
            }
            if max_tokens > m.max_output_tokens {
                if m.max_output_tokens <= 1 {
                    return (None, None);
                }
                let adjusted = m.max_output_tokens - 1;
                match request_config_for_thinking_budget(adjusted) {
                    Ok((t, x)) => {
                        thinking = t;
                        max_tokens = x;
                    },
                    Err(_) => return (None, None),
                }
            }
        },
        None => {},
    }
    (Some(thinking), Some(max_tokens))
}

/// The budget of a thinking level: none for `off`, 2048 for `low`, the
/// configured budget for `medium`, at least 20000 for `high`.
pub open spec fn level_budget(level: Seq<char>, default_budget: u64) -> Option<Option<u64>> {
    if level == "off"@ {
        Some(None)
    } else if level == "low"@ {
        Some(Some(2048))
    } else if level == "medium"@ {
        Some(Some(default_budget))
    } else if level == "high"@ {
        Some(Some(if default_budget >= 20000 { default_budget } else { 20000 }))
    } else {
        None
    }
}

/// The thinking request and `max_tokens` that a level asks for, checked
/// against the active model where it is known.
pub open spec fn thinking_level_spec(level: Seq<char>, default_budget: u64, model: Option<ModelLimits>) -> Result<
    (Option<ThinkingRequest>, Option<u64>),
    Seq<char>,
> {
    match level_budget(level, default_budget) {
        None => Err(
            "invalid thinking level '"@ + level + "': expected off, low, medium, or high"@,
        ),
        Some(None) => Ok((None, None)),
        Some(Some(b)) => if b == u64::MAX {
            Err(budget_overflow_message(b))
        } else {
            match model {
                Some(m) => match budget_problem(m, b, (b + 1) as u64) {
                    Some(e) => Err(e),
                    None => Ok(
                        (
                            Some(ThinkingRequest { enabled: true, budget_tokens: Some(b) }),
                            Some((b + 1) as u64),
                        ),
                    ),
                },
                None => Ok(
                    (
                        Some(ThinkingRequest { enabled: true, budget_tokens: Some(b) }),
                        Some((b + 1) as u64),
                    ),
                ),
            }
        },
    }
}

/// The thinking request and `max_tokens` for a thinking level named by the
/// user; `default_budget` is the configured budget, and `model` the active
/// model where it is known.
pub fn thinking_level_request(level: &str, default_budget: u64, model: Option<&ModelLimits>) -> (r:
    Result<(Option<ThinkingRequest>, Option<u64>), String>)
    ensures
        match thinking_level_spec(
            level@,
            default_budget,
            match model {
                Some(m) => Some(*m),
                None => None,
            },
        ) {
            Ok(x) => r == Ok::<(Option<ThinkingRequest>, Option<u64>), String>(x),
            Err(e) => r matches Err(m) && m@ == e,
        },
{
    let budget: Option<u64> = if str_eq(level, "off") {
        None
    } else if str_eq(level, "low") {
        Some(2048)
    } else if str_eq(level, "medium") {
        Some(default_budget)
    } else if str_eq(level, "high") {
        Some(if default_budget >= 20000 { default_budget } else { 20000 })
    } else {
        let mut v = chars_of("invalid thinking level '");
        extend_str(&mut v, level);
        extend_str(&mut v, "': expected off, low, medium, or high");
        return Err(string_of(&v));
    };
    match budget {
        None => Ok((None, None)),
        Some(b) => {
            let (thinking, max_tokens) = match request_config_for_thinking_budget(b) {
                Ok(x) => x,
                Err(e) => return Err(e),
            };
            match model {
                Some(m) => match validate_thinking_budget_for_model(m, b, max_tokens) {
                    Ok(()) => {},
                    Err(e) => return Err(e),
                },
                None => {},
            }
            Ok((Some(thinking), Some(max_tokens)))
        },
    }
}

/// Why the current thinking does not suit a model, if it does not.
pub open spec fn thinking_problem(thinking: ThinkingRequest, model: ModelLimits) -> Option<Seq<char>> {
    if !thinking.enabled {
        None
    } else {
        match thinking.budget_tokens {
            None => None,
            Some(b) => if b == u64::MAX {
                Some(budget_overflow_message(b))
            } else {
                budget_problem(model, b, (b + 1) as u64)
            },
        }
    }
}

/// Check that the current thinking suits a model.
pub fn validate_current_thinking_for_model(thinking: ThinkingRequest, model: &ModelLimits) -> (r:
    Result<(), String>)
    ensures
        match thinking_problem(thinking, *model) {
            Some(m) => r matches Err(e) && e@ == m,
            None => r is Ok,
        },
{
    if !thinking.enabled {
        return Ok(());
    }
    match thinking.budget_tokens {
        None => Ok(()),
        Some(b) => {
            let max_tokens = match max_tokens_for_thinking_budget(b) {
                Ok(m) => m,
                Err(e) => return Err(e),
            };
            validate_thinking_budget_for_model(model, b, max_tokens)
        },
    }
}

/// Why switching to `requested_model` of `requested_provider` is refused,
/// if it is: only models of the current provider can be chosen, the model
/// must be known (`requested`), and the current thinking must suit it.
pub open spec fn model_switch_problem(
    requested_provider: Seq<char>,
    requested_model: Seq<char>,
    current_provider: Seq<char>,
    requested: Option<ModelLimits>,
    thinking: ThinkingRequest,
) -> Option<Seq<char>> {
    if requested_provider != current_provider {
        Some(
            "cannot switch provider from "@ + current_provider + " to "@ + requested_provider
                + " at runtime"@,
        )
    } else {
        match requested {
            None => Some(
                "unknown model '"@ + requested_model + "' for provider '"@ + requested_provider
                    + "'"@,
            ),
            Some(m) => thinking_problem(thinking, m),
        }
    }
}

/// Check a model switch requested at runtime.
pub fn check_model_switch(
    requested_provider: &str,
    requested_model: &str,
    current_provider: &str,
    requested: Option<&ModelLimits>,
    thinking: ThinkingRequest,
) -> (r: Result<(), String>)
    ensures
        match model_switch_problem(
            requested_provider@,
            requested_model@,
            current_provider@,
            match requested {
                Some(m) => Some(*m),
                None => None,
            },
            thinking,
        ) {
            Some(m) => r matches Err(e) && e@ == m,
            None => r is Ok,
        },
{
    if !str_eq(requested_provider, current_provider) {
        let mut v = chars_of("cannot switch provider from ");
        extend_str(&mut v, current_provider);
        extend_str(&mut v, " to ");
        extend_str(&mut v, requested_provider);
        extend_str(&mut v, " at runtime");
        return Err(string_of(&v));
    }
    match requested {
        None => {
            let mut v = chars_of("unknown model '");
            extend_str(&mut v, requested_model);
            extend_str(&mut v, "' for provider '");
            extend_str(&mut v, requested_provider);
            extend_str(&mut v, "'");
            Err(string_of(&v))
        },
        Some(m) => validate_current_thinking_for_model(thinking, m),
    }
}

// ---------------------------------------------------------------------------
// Hooks and messages
// ---------------------------------------------------------------------------

/// The default hooks of the coding agent: messages pass to the provider
/// as they are.
#[derive(Debug)]
pub struct CodingAgentHooks;

/// The hooks of interactive sessions. Tool safety comes from the active
/// tool selection and extension hooks, not from a permission prompt.
#[derive(Debug)]
pub struct InteractiveCodingHooks;

impl InteractiveCodingHooks {
    /// The interactive hooks; whether mutating tools are allowed does not
    /// change them.
    pub fn new(_allow_mutating: bool) -> (r: Self) {
        InteractiveCodingHooks
    }
}

/// Token usage of a model turn.
#[derive(Debug, Clone, Copy, PartialEq, Eq, Structural)]
pub struct Usage {
    pub input_tokens: u64,
    pub output_tokens: u64,
    pub cache_read_tokens: u64,
    pub cache_write_tokens: u64,
}

/// `a + b`, saturating at `u64::MAX`.
pub open spec fn sat_add(a: u64, b: u64) -> u64 {
    if a + b > u64::MAX {
        u64::MAX
    } else {
        (a + b) as u64
    }
}

/// The usage of the turns added up, each count saturating at `u64::MAX`.
pub open spec fn total_usage(us: Seq<Usage>) -> Usage
    decreases us.len(),
{
    if us.len() == 0 {
        Usage { input_tokens: 0, output_tokens: 0, cache_read_tokens: 0, cache_write_tokens: 0 }
    } else {
        let t = total_usage(us.drop_last());
        let u = us.last();
        Usage {
            input_tokens: sat_add(t.input_tokens, u.input_tokens),
            output_tokens: sat_add(t.output_tokens, u.output_tokens),
            cache_read_tokens: sat_add(t.cache_read_tokens, u.cache_read_tokens),
            cache_write_tokens: sat_add(t.cache_write_tokens, u.cache_write_tokens),
        }
    }
}

/// The usage of a turn's assistant messages added up, saturating.
pub fn aggregate_turn_usage(usages: &Vec<Usage>) -> (r: Usage)
    ensures
        r == total_usage(usages@),
{
    let mut total = Usage { input_tokens: 0, output_tokens: 0, cache_read_tokens: 0, cache_write_tokens: 0 };
    let mut i: usize = 0;
    while i < usages.len()
        invariant
            i <= usages@.len(),
            total == total_usage(usages@.take(i as int)),
        decreases usages.len() - i,
    {
        assert(usages@.take(i + 1).drop_last() =~= usages@.take(i as int));
        let u = usages[i];
        total = Usage {
            input_tokens: total.input_tokens.saturating_add(u.input_tokens),
            output_tokens: total.output_tokens.saturating_add(u.output_tokens),
            cache_read_tokens: total.cache_read_tokens.saturating_add(u.cache_read_tokens),
            cache_write_tokens: total.cache_write_tokens.saturating_add(u.cache_write_tokens),
        };
        i += 1;
    }
    assert(usages@.take(usages@.len() as int) =~= usages@);
    total
}

/// An extension tool is kept under a selection: all of them by default and
/// without built-ins, none when tools are disabled, the named ones with an
/// allowlist.
pub open spec fn keeps_extension_tool(selection: ToolSelection, name: Seq<char>) -> bool {
    match selection {
        ToolSelection::Default => true,
        ToolSelection::NoBuiltin => true,
        ToolSelection::Disabled => false,
        ToolSelection::Allowlist(names) => string_views(names@).contains(name),
    }
}

/// The named tools kept under a selection, in order.
pub open spec fn kept_extension_tools<T>(tools: Seq<(String, T)>, selection: ToolSelection) -> Seq<
    (String, T),
>
    decreases tools.len(),
{
    if tools.len() == 0 {
        Seq::empty()
    } else {
        let rest = kept_extension_tools(tools.drop_last(), selection);
        if keeps_extension_tool(selection, tools.last().0@) {
            rest.push(tools.last())
        } else {
            rest
        }
    }
}

/// Whether a name is among the allowed ones.
fn allowed(names: &Vec<String>, name: &str) -> (r: bool)
    ensures
        r == string_views(names@).contains(name@),
{
    let mut i: usize = 0;
    while i < names.len()
        invariant
            i <= names@.len(),
            forall|j: int| 0 <= j < i ==> string_views(names@)[j] != name@,
        decreases names.len() - i,
    {
        if str_eq(names[i].as_str(), name) {
            assert(string_views(names@)[i as int] == name@);
            return true;
        }
        i += 1;
    }
    false
}

/// Keep the extension tools (each with its name) that the tool selection
/// allows, in order.
pub fn filter_extension_tools<T>(tools: Vec<(String, T)>, selection: &ToolSelection) -> (r: Vec<
    (String, T),
>)
    ensures
        r@ == kept_extension_tools(tools@, *selection),
{
    let ghost all = tools@;
    let n: usize = tools.len();
    assert(all.len() == n);
    let mut rest = tools;
    let mut rev: Vec<(String, T)> = Vec::new();
    while rest.len() > 0
        invariant
            rest@.len() + rev@.len() == all.len(),
            forall|k: int| 0 <= k < rest@.len() ==> #[trigger] rest@[k] == all[k],
            forall|k: int| 0 <= k < rev@.len() ==> #[trigger] rev@[k] == all[all.len() - 1 - k],
        decreases rest.len(),
    {
        let t = rest.pop().unwrap();
        rev.push(t);
    }
    let mut out: Vec<(String, T)> = Vec::new();
    let mut i: usize = 0;
    while rev.len() > 0
        invariant
            rev@.len() + i == all.len(),
            all.len() <= usize::MAX,
            forall|k: int| 0 <= k < rev@.len() ==> #[trigger] rev@[k] == all[all.len() - 1 - k],
            out@ == kept_extension_tools(all.take(i as int), *selection),
        decreases rev.len(),
    {
        let t = rev.pop().unwrap();
        assert(t == all[i as int]);
        assert(all.take(i + 1).drop_last() =~= all.take(i as int));
        assert(all.take(i + 1).last() == all[i as int]);
        let keep = match selection {
            ToolSelection::Default => true,
            ToolSelection::NoBuiltin => true,
            ToolSelection::Disabled => false,
            ToolSelection::Allowlist(names) => allowed(names, t.0.as_str()),
        };
        if keep {
            out.push(t);
        }
        i += 1;
    }
    assert(all.take(all.len() as int) =~= all);
    out
}

/// The user message that stands for compacted context.
pub fn compaction_summary_text(summary: &str) -> (r: String)
    ensures
        r@ == "[Context was compacted. Summary of earlier conversation: "@ + summary@ + "]"@,
{
    let mut v = chars_of("[Context was compacted. Summary of earlier conversation: ");
    extend_str(&mut v, summary);
    extend_str(&mut v, "]");
    string_of(&v)
}

/// An installed-package diagnostic as a resource discovery diagnostic.
pub fn format_installed_package_diagnostic(d: &PackageDiagnostic) -> (r: String)
    ensures
        r@ == "installed package "@ + scope_debug(d.scope) + " "@ + d.source@ + ": "@ + d.code@
            + " ("@ + d.message@ + ")"@,
{
    let mut v = chars_of("installed package ");
    extend_str(&mut v, match d.scope {
        crate::package_resolver::InstalledPackageScope::Global => "Global",
        crate::package_resolver::InstalledPackageScope::Project => "Project",
    });
    extend_str(&mut v, " ");
    extend_str(&mut v, d.source.as_str());
    extend_str(&mut v, ": ");
    extend_str(&mut v, d.code.as_str());
    extend_str(&mut v, " (");
    extend_str(&mut v, d.message.as_str());
    extend_str(&mut v, ")");
    string_of(&v)
}

// ---------------------------------------------------------------------------
// Assembling the resource metadata
// ---------------------------------------------------------------------------

/// An entry as plain values: name, description, version.
pub type EntryView = (Seq<char>, Option<Seq<char>>, Option<Seq<char>>);

/// An optional string as plain values.
pub open spec fn opt_text(o: Option<String>) -> Option<Seq<char>> {
    match o {
        Some(x) => Some(x@),
        None => None,
    }
}

/// An entry as plain values.
pub open spec fn entry_view(e: ResourceMetadataEntry) -> EntryView {
    (e.name@, opt_text(e.description), opt_text(e.version))
}

/// Entries as plain values.
pub open spec fn entry_views(es: Seq<ResourceMetadataEntry>) -> Seq<EntryView> {
    es.map_values(|e: ResourceMetadataEntry| entry_view(e))
}

/// The entry of a package: name, description and version.
pub open spec fn package_entry(p: PackageResource) -> EntryView {
    (p.manifest.name@, Some(p.manifest.description@), opt_text(p.manifest.version))
}

/// The entry of an extension: name, description and version as given.
pub open spec fn extension_entry(e: ExtensionResource) -> EntryView {
    (e.manifest.name@, opt_text(e.manifest.description), opt_text(e.manifest.version))
}

/// A copy of an optional string.
fn opt_copy(o: &Option<String>) -> (r: Option<String>)
    ensures
        opt_text(r) == opt_text(*o),
{
    match o {
        Some(x) => Some(string_of(&chars_of(x.as_str()))),
        None => None,
    }
}

/// A copy of a string.
fn text_copy(s: &String) -> (r: String)
    ensures
        r@ == s@,
{
    string_of(&chars_of(s.as_str()))
}

/// The entries of packages.
pub fn package_entries(ps: &Vec<PackageResource>) -> (r: Vec<ResourceMetadataEntry>)
    ensures
        entry_views(r@) == Seq::new(ps@.len(), |i: int| package_entry(ps@[i])),
{
    let mut out: Vec<ResourceMetadataEntry> = Vec::new();
    let mut i: usize = 0;
    while i < ps.len()
        invariant
            i <= ps@.len(),
            out@.len() == i,
            forall|k: int| 0 <= k < i ==> entry_view(#[trigger] out@[k]) == package_entry(ps@[k]),
        decreases ps.len() - i,
    {
        let m = &ps[i].manifest;
        out.push(
            ResourceMetadataEntry {
                name: text_copy(&m.name),
                description: Some(text_copy(&m.description)),
                version: opt_copy(&m.version),
            },
        );
        i += 1;
    }
    assert(entry_views(out@) =~= Seq::new(ps@.len(), |i: int| package_entry(ps@[i])));
    out
}

/// The entries of extensions.
pub fn extension_entries(es: &Vec<ExtensionResource>) -> (r: Vec<ResourceMetadataEntry>)
    ensures
        entry_views(r@) == Seq::new(es@.len(), |i: int| extension_entry(es@[i])),
{
    let mut out: Vec<ResourceMetadataEntry> = Vec::new();
    let mut i: usize = 0;
    while i < es.len()
        invariant
            i <= es@.len(),
            out@.len() == i,
            forall|k: int| 0 <= k < i ==> entry_view(#[trigger] out@[k]) == extension_entry(es@[k]),
        decreases es.len() - i,
    {
        let m = &es[i].manifest;
        out.push(
            ResourceMetadataEntry {
                name: text_copy(&m.name),
                description: opt_copy(&m.description),
                version: opt_copy(&m.version),
            },
        );
        i += 1;
    }
    assert(entry_views(out@) =~= Seq::new(es@.len(), |i: int| extension_entry(es@[i])));
    out
}

/// The entry of a resource with a name and a description and no version.
pub open spec fn described_entry(name: Seq<char>, description: Seq<char>) -> EntryView {
    (name, Some(description), None)
}

/// The entries of skills.
pub fn skill_entries(rs: &Vec<SkillResource>) -> (r: Vec<ResourceMetadataEntry>)
    ensures
        entry_views(r@) == Seq::new(rs@.len(), |i: int| described_entry(rs@[i].manifest.name@, rs@[i].manifest.description@)),
{
    let mut out: Vec<ResourceMetadataEntry> = Vec::new();
    let mut i: usize = 0;
    while i < rs.len()
        invariant
            i <= rs@.len(),
            out@.len() == i,
            forall|k: int|
                0 <= k < i ==> entry_view(#[trigger] out@[k]) == described_entry(
                    rs@[k].manifest.name@,
                    rs@[k].manifest.description@,
                ),
        decreases rs.len() - i,
    {
        let m = &rs[i].manifest;
        out.push(
            ResourceMetadataEntry {
                name: text_copy(&m.name),
                description: Some(text_copy(&m.description)),
                version: None,
            },
        );
        i += 1;
    }
    assert(entry_views(out@) =~= Seq::new(
        rs@.len(),
        |i: int| described_entry(rs@[i].manifest.name@, rs@[i].manifest.description@),
    ));
    out
}

/// The entries of prompt fragments.
pub fn fragment_entries(rs: &Vec<FragmentResource>) -> (r: Vec<ResourceMetadataEntry>)
    ensures
        entry_views(r@) == Seq::new(rs@.len(), |i: int| described_entry(rs@[i].manifest.name@, rs@[i].manifest.description@)),
{
    let mut out: Vec<ResourceMetadataEntry> = Vec::new();
    let mut i: usize = 0;
    while i < rs.len()
        invariant
            i <= rs@.len(),
            out@.len() == i,
            forall|k: int|
                0 <= k < i ==> entry_view(#[trigger] out@[k]) == described_entry(
                    rs@[k].manifest.name@,
                    rs@[k].manifest.description@,
                ),
        decreases rs.len() - i,
    {
        let m = &rs[i].manifest;
        out.push(
            ResourceMetadataEntry {
                name: text_copy(&m.name),
                description: Some(text_copy(&m.description)),
                version: None,
            },
        );
        i += 1;
    }
    assert(entry_views(out@) =~= Seq::new(
        rs@.len(),
        |i: int| described_entry(rs@[i].manifest.name@, rs@[i].manifest.description@),
    ));
    out
}

/// The entries of themes.
pub fn theme_entries(rs: &Vec<ThemeResource>) -> (r: Vec<ResourceMetadataEntry>)
    ensures
        entry_views(r@) == Seq::new(rs@.len(), |i: int| described_entry(rs@[i].manifest.name@, rs@[i].manifest.description@)),
{
    let mut out: Vec<ResourceMetadataEntry> = Vec::new();
    let mut i: usize = 0;
    while i < rs.len()
        invariant
            i <= rs@.len(),
            out@.len() == i,
            forall|k: int|
                0 <= k < i ==> entry_view(#[trigger] out@[k]) == described_entry(
                    rs@[k].manifest.name@,
                    rs@[k].manifest.description@,
                ),
        decreases rs.len() - i,
    {
        let m = &rs[i].manifest;
        out.push(
            ResourceMetadataEntry {
                name: text_copy(&m.name),
                description: Some(text_copy(&m.description)),
                version: None,
            },
        );
        i += 1;
    }
    assert(entry_views(out@) =~= Seq::new(
        rs@.len(),
        |i: int| described_entry(rs@[i].manifest.name@, rs@[i].manifest.description@),
    ));
    out
}

/// How installed packages were found.
#[derive(Debug)]
pub enum InstalledPackages {
    /// Given by the embedder.
    Given(Vec<PackageResource>),
    /// Resolved from the package stores.
    Resolved(Result<InstalledPackageResolution, PackageResolverError>),
    /// Not looked for: there is no user configuration directory.
    NotLooked,
}

/// The packages of the resolution.
pub open spec fn resolved_packages(r: InstalledPackageResolution) -> Seq<PackageResource> {
    r.packages@.map_values(|p: ResolvedInstalledPackage| p.package)
}

/// The packages of a harness: those discovered (none when discovery
/// failed), joined by the installed ones.
pub open spec fn harness_packages(
    discovered: Result<Vec<PackageResource>, PackageDiscoveryError>,
    installed: InstalledPackages,
) -> Seq<PackageResource> {
    let ps = match discovered {
        Ok(v) => v@,
        Err(_) => Seq::empty(),
    };
    let merge = |inst: Seq<PackageResource>|
        reordered(merge_all(ps, inst), stable_sort_spec(package_keys(merge_all(ps, inst))));
    match installed {
        InstalledPackages::Given(v) => merge(v@),
        InstalledPackages::Resolved(Ok(r)) => merge(resolved_packages(r)),
        _ => ps,
    }
}

/// The diagnostics of finding a harness's packages: a failed discovery,
/// then those of the installed packages or of their failed resolution.
pub open spec fn harness_package_diagnostics(
    discovered: Result<Vec<PackageResource>, PackageDiscoveryError>,
    installed: InstalledPackages,
) -> Seq<Seq<char>> {
    let first = match discovered {
        Ok(_) => Seq::empty(),
        Err(e) => seq!["package discovery failed: "@ + discovery_error_message(e)],
    };
    first + match installed {
        InstalledPackages::Resolved(Ok(r)) => Seq::new(
            r.diagnostics@.len(),
            |i: int| installed_diagnostic_text(r.diagnostics@[i]),
        ),
        InstalledPackages::Resolved(Err(e)) => seq![
            "installed package resolution failed: "@ + resolver_error_message(e),
        ],
        _ => Seq::empty(),
    }
}

/// The text of an installed-package diagnostic.
pub open spec fn installed_diagnostic_text(d: PackageDiagnostic) -> Seq<char> {
    "installed package "@ + scope_debug(d.scope) + " "@ + d.source@ + ": "@ + d.code@ + " ("@
        + d.message@ + ")"@
}

/// The message of a resolver error.
pub open spec fn resolver_error_message(e: PackageResolverError) -> Seq<char> {
    "package resolver failed: "@ + match e {
        PackageResolverError::Failed(m) => m@,
    }
}

/// The packages of a harness and the metadata so far: their entries and
/// the diagnostics of finding them.
pub fn harness_package_metadata(
    discovered: Result<Vec<PackageResource>, PackageDiscoveryError>,
    installed: InstalledPackages,
) -> (r: (Vec<PackageResource>, DiscoveredResourceMetadata))
    ensures
        r.0@ == harness_packages(discovered, installed),
        entry_views(r.1.packages@) == Seq::new(r.0@.len(), |i: int| package_entry(r.0@[i])),
        string_views(r.1.diagnostics@) == harness_package_diagnostics(discovered, installed),
        r.1.extensions@.len() == 0,
        r.1.skills@.len() == 0,
        r.1.fragments@.len() == 0,
        r.1.themes@.len() == 0,
{
    let mut metadata = DiscoveredResourceMetadata::default();
    let ghost d0 = discovered;
    let ghost i0 = installed;
    let mut packages = match discovered {
        Ok(v) => v,
        Err(e) => {
            let mut v = chars_of("package discovery failed: ");
            extend_str(&mut v, e.message().as_str());
            metadata.diagnostics.push(string_of(&v));
            Vec::new()
        },
    };
    let ghost first = string_views(metadata.diagnostics@);
    assert(first == match d0 {
        Ok(_) => Seq::<Seq<char>>::empty(),
        Err(e) => seq!["package discovery failed: "@ + discovery_error_message(e)],
    });
    match installed {
        InstalledPackages::Given(v) => {
            merge_package_resources(&mut packages, v);
            assert(string_views(metadata.diagnostics@) =~= first + Seq::<Seq<char>>::empty());
        },
        InstalledPackages::Resolved(Ok(res)) => {
            let InstalledPackageResolution { packages: resolved, diagnostics } = res;
            let mut k: usize = 0;
            while k < diagnostics.len()
                invariant
                    k <= diagnostics@.len(),
                    string_views(metadata.diagnostics@) == first + Seq::new(
                        k as nat,
                        |i: int| installed_diagnostic_text(diagnostics@[i]),
                    ),
                    metadata.extensions@.len() == 0,
                    metadata.skills@.len() == 0,
                    metadata.fragments@.len() == 0,
                    metadata.themes@.len() == 0,
                    metadata.packages@.len() == 0,
                decreases diagnostics.len() - k,
            {
                let ghost before = metadata.diagnostics@;
                let line = format_installed_package_diagnostic(&diagnostics[k]);
                assert(line@ == installed_diagnostic_text(diagnostics@[k as int]));
                metadata.diagnostics.push(line);
                assert(string_views(metadata.diagnostics@) =~= string_views(before).push(
                    installed_diagnostic_text(diagnostics@[k as int]),
                ));
                assert(string_views(metadata.diagnostics@) =~= first + Seq::new(
                    (k + 1) as nat,
                    |i: int| installed_diagnostic_text(diagnostics@[i]),
                ));
                k += 1;
            }
            let ghost rv = resolved@;
            let mut inst: Vec<PackageResource> = Vec::new();
            let mut resolved = resolved;
            let n = resolved.len();
            let mut rev: Vec<ResolvedInstalledPackage> = Vec::new();
            while resolved.len() > 0
                invariant
                    resolved@.len() + rev@.len() == n,
                    n == rv.len(),
                    forall|x: int| 0 <= x < resolved@.len() ==> #[trigger] resolved@[x] == rv[x],
                    forall|x: int| 0 <= x < rev@.len() ==> #[trigger] rev@[x] == rv[n - 1 - x],
                decreases resolved.len(),
            {
                let x = resolved.pop().unwrap();
                rev.push(x);
            }
            while rev.len() > 0
                invariant
                    rev@.len() + inst@.len() == n,
                    n == rv.len(),
                    forall|x: int| 0 <= x < rev@.len() ==> #[trigger] rev@[x] == rv[n - 1 - x],
                    forall|x: int| 0 <= x < inst@.len() ==> #[trigger] inst@[x] == rv[x].package,
                decreases rev.len(),
            {
                let x = rev.pop().unwrap();
                inst.push(x.package);
            }
            assert(inst@ =~= rv.map_values(|p: ResolvedInstalledPackage| p.package));
            merge_package_resources(&mut packages, inst);
        },
        InstalledPackages::Resolved(Err(e)) => {
            let mut v = chars_of("installed package resolution failed: ");
            extend_str(&mut v, e.message().as_str());
            metadata.diagnostics.push(string_of(&v));
            assert(string_views(metadata.diagnostics@) =~= first + seq![
                "installed package resolution failed: "@ + resolver_error_message(e),
            ]);
        },
        InstalledPackages::NotLooked => {
            assert(string_views(metadata.diagnostics@) =~= first + Seq::<Seq<char>>::empty());
        },
    }
    metadata.packages = package_entries(&packages);
    (packages, metadata)
}

/// The diagnostic of a failed discovery, if it failed.
pub open spec fn failure_line<T, E>(prefix: Seq<char>, r: Result<T, E>, message: Seq<char>) -> Seq<
    Seq<char>,
> {
    match r {
        Ok(_) => Seq::empty(),
        Err(_) => seq![prefix + message],
    }
}

/// The message of a discovery error, where the result is one.
pub open spec fn ext_failure(r: Result<Vec<ExtensionResource>, ResourceDiscoveryError>) -> Seq<char> {
    match r {
        Err(e) => extension_error_message(e),
        Ok(_) => Seq::empty(),
    }
}

/// The message of a discovery error, where the result is one.
pub open spec fn skill_failure(r: Result<Vec<SkillResource>, SkillDiscoveryError>) -> Seq<char> {
    match r {
        Err(e) => skill_error_message(e),
        Ok(_) => Seq::empty(),
    }
}

/// The message of a discovery error, where the result is one.
pub open spec fn fragment_failure(r: Result<Vec<FragmentResource>, FragmentDiscoveryError>) -> Seq<char> {
    match r {
        Err(e) => fragment_error_message(e),
        Ok(_) => Seq::empty(),
    }
}

/// The message of a discovery error, where the result is one.
pub open spec fn theme_failure(r: Result<Vec<ThemeResource>, ThemeDiscoveryError>) -> Seq<char> {
    match r {
        Err(e) => theme_error_message(e),
        Ok(_) => Seq::empty(),
    }
}

/// Complete the resource metadata once the packages' resources and the
/// other layers have been searched: the diagnostics of composing the
/// packages' resources come first, then, for each kind (extensions,
/// skills, prompt fragments, themes), the entries of what was found or the
/// diagnostic of the failed discovery. The themes found are returned.
pub fn finish_resource_metadata(
    metadata: &mut DiscoveredResourceMetadata,
    package_layer_diagnostics: Vec<String>,
    extensions: Result<Vec<ExtensionResource>, ResourceDiscoveryError>,
    skills: Result<Vec<SkillResource>, SkillDiscoveryError>,
    fragments: Result<Vec<FragmentResource>, FragmentDiscoveryError>,
    themes: Result<Vec<ThemeResource>, ThemeDiscoveryError>,
) -> (r: Vec<ThemeResource>)
    ensures
        final(metadata).packages@ == old(metadata).packages@,
        string_views(final(metadata).diagnostics@) == string_views(old(metadata).diagnostics@)
            + string_views(package_layer_diagnostics@) + failure_line(
            "extension discovery failed: "@,
            extensions,
            ext_failure(extensions),
        ) + failure_line("skill discovery failed: "@, skills, skill_failure(skills)) + failure_line(
            "fragment discovery failed: "@,
            fragments,
            fragment_failure(fragments),
        ) + failure_line("theme discovery failed: "@, themes, theme_failure(themes)),
        match extensions {
            Ok(v) => entry_views(final(metadata).extensions@) == Seq::new(
                v@.len(),
                |i: int| extension_entry(v@[i]),
            ),
            Err(_) => final(metadata).extensions@ == old(metadata).extensions@,
        },
        match skills {
            Ok(v) => entry_views(final(metadata).skills@) == Seq::new(
                v@.len(),
                |i: int| described_entry(v@[i].manifest.name@, v@[i].manifest.description@),
            ),
            Err(_) => final(metadata).skills@ == old(metadata).skills@,
        },
        match fragments {
            Ok(v) => entry_views(final(metadata).fragments@) == Seq::new(
                v@.len(),
                |i: int| described_entry(v@[i].manifest.name@, v@[i].manifest.description@),
            ),
            Err(_) => final(metadata).fragments@ == old(metadata).fragments@,
        },
        match themes {
            Ok(v) => entry_views(final(metadata).themes@) == Seq::new(
                v@.len(),
                |i: int| described_entry(v@[i].manifest.name@, v@[i].manifest.description@),
            ) && r@ == v@,
            Err(_) => final(metadata).themes@ == old(metadata).themes@ && r@.len() == 0,
        },
{
    let ghost d0 = string_views(metadata.diagnostics@);
    let mut k: usize = 0;
    while k < package_layer_diagnostics.len()
        invariant
            k <= package_layer_diagnostics@.len(),
            string_views(metadata.diagnostics@) == d0 + string_views(
                package_layer_diagnostics@.take(k as int),
            ),
            metadata.packages@ == old(metadata).packages@,
            metadata.extensions@ == old(metadata).extensions@,
            metadata.skills@ == old(metadata).skills@,
            metadata.fragments@ == old(metadata).fragments@,
            metadata.themes@ == old(metadata).themes@,
        decreases package_layer_diagnostics.len() - k,
    {
        let ghost before = metadata.diagnostics@;
        metadata.diagnostics.push(text_copy(&package_layer_diagnostics[k]));
        assert(string_views(package_layer_diagnostics@.take(k + 1)) =~= string_views(
            package_layer_diagnostics@.take(k as int),
        ).push(package_layer_diagnostics@[k as int]@));
        assert(string_views(metadata.diagnostics@) =~= string_views(before).push(
            package_layer_diagnostics@[k as int]@,
        ));
        k += 1;
    }
    assert(package_layer_diagnostics@.take(package_layer_diagnostics@.len() as int)
        =~= package_layer_diagnostics@);
    let ghost d1 = string_views(metadata.diagnostics@);
    match &extensions {
        Ok(v) => {
            metadata.extensions = extension_entries(v);
        },
        Err(e) => {
            let mut t = chars_of("extension discovery failed: ");
            extend_str(&mut t, e.message().as_str());
            metadata.diagnostics.push(string_of(&t));
        },
    }
    let ghost d2 = string_views(metadata.diagnostics@);
    assert(d2 =~= d1 + failure_line("extension discovery failed: "@, extensions, ext_failure(extensions)));
    match &skills {
        Ok(v) => {
            metadata.skills = skill_entries(v);
        },
        Err(e) => {
            let mut t = chars_of("skill discovery failed: ");
            extend_str(&mut t, e.message().as_str());
            metadata.diagnostics.push(string_of(&t));
        },
    }
    let ghost d3 = string_views(metadata.diagnostics@);
    assert(d3 =~= d2 + failure_line("skill discovery failed: "@, skills, skill_failure(skills)));
    match &fragments {
        Ok(v) => {
            metadata.fragments = fragment_entries(v);
        },
        Err(e) => {
            let mut t = chars_of("fragment discovery failed: ");
            extend_str(&mut t, e.message().as_str());
            metadata.diagnostics.push(string_of(&t));
        },
    }
    let ghost d4 = string_views(metadata.diagnostics@);
    assert(d4 =~= d3 + failure_line("fragment discovery failed: "@, fragments, fragment_failure(fragments)));
    let ghost th = themes;
    let found = match themes {
        Ok(v) => {
            metadata.themes = theme_entries(&v);
            v
        },
        Err(e) => {
            let mut t = chars_of("theme discovery failed: ");
            extend_str(&mut t, e.message().as_str());
            metadata.diagnostics.push(string_of(&t));
            Vec::new()
        },
    };
    assert(string_views(metadata.diagnostics@) =~= d4 + failure_line(
        "theme discovery failed: "@,
        th,
        theme_failure(th),
    ));
    found
}

} // verus!
