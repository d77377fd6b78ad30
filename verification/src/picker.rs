//! The items of the TUI's pickers: models, session branches and sessions.
//!
//! A model item is identified by its `provider:model` spec. A branch item
//! is identified by its tip entry and named `Trunk` or `Branch N`. A session
//! item shows the session's working directory, cut to its last 37 bytes
//! (after `...`) when it is longer than 40.
use vstd::prelude::*;

use crate::model_listing::ModelEntry;
use crate::session_cli::SessionInfo;
use crate::text::{chars_of, decimal, decimal_chars, extend_chars, extend_str, string_of, subvec, utf8_len, utf8_len_of, utf8_width};

verus! {

/// One item of a picker.
#[derive(Debug)]
pub struct SelectItem {
    pub id: String,
    pub display: String,
    pub metadata: String,
}

/// An item as plain values.
pub open spec fn item_view(i: SelectItem) -> (Seq<char>, Seq<char>, Seq<char>) {
    (i.id@, i.display@, i.metadata@)
}

/// Items as plain values.
pub open spec fn item_views(is: Seq<SelectItem>) -> Seq<(Seq<char>, Seq<char>, Seq<char>)> {
    is.map_values(|i: SelectItem| item_view(i))
}

/// The item of a model: its spec, its display name, its provider.
pub open spec fn model_item(m: ModelEntry) -> (Seq<char>, Seq<char>, Seq<char>) {
    (m.provider_id@ + ":"@ + m.model_id@, m.display_name@, m.provider_id@)
}

/// The items of the models, in order.
pub fn model_picker_items(models: &Vec<ModelEntry>) -> (r: Vec<SelectItem>)
    ensures
        item_views(r@) == Seq::new(models@.len(), |i: int| model_item(models@[i])),
{
    let mut out: Vec<SelectItem> = Vec::new();
    let mut i: usize = 0;
    while i < models.len()
        invariant
            i <= models@.len(),
            out@.len() == i,
            forall|k: int| 0 <= k < i ==> item_view(#[trigger] out@[k]) == model_item(models@[k]),
        decreases models.len() - i,
    {
        let m = &models[i];
        let mut id = chars_of(m.provider_id.as_str());
        extend_str(&mut id, ":");
        extend_str(&mut id, m.model_id.as_str());
        out.push(
            SelectItem {
                id: string_of(&id),
                display: string_of(&chars_of(m.display_name.as_str())),
                metadata: string_of(&chars_of(m.provider_id.as_str())),
            },
        );
        i += 1;
    }
    assert(item_views(out@) =~= Seq::new(models@.len(), |i: int| model_item(models@[i])));
    out
}

/// What the picker shows of a session branch.
#[derive(Debug)]
pub struct BranchInfo {
    /// The entry the branch forked from; none for the trunk.
    pub fork_point: Option<String>,
    pub summary: Option<String>,
    pub entry_count: u64,
    pub depth: u64,
    /// The last entry of the branch.
    pub tip_id: String,
}

/// The name of the branch at `index`: `Trunk` for a first branch that did
/// not fork, else `Branch <index + 1>`.
pub open spec fn branch_name(b: BranchInfo, index: nat) -> Seq<char> {
    if index == 0 && b.fork_point is None {
        "Trunk"@
    } else {
        "Branch "@ + decimal(index + 1)
    }
}

/// The item of a branch: its tip, its name with the summary when there is
/// a non-empty one, and its size, depth and tip (marked active when it is).
pub open spec fn branch_item(b: BranchInfo, index: nat, is_active: bool) -> (Seq<char>, Seq<char>, Seq<char>) {
    let name = branch_name(b, index);
    (
        b.tip_id@,
        match b.summary {
            Some(s) => if s@.len() > 0 {
                name + ": "@ + s@
            } else {
                name
            },
            None => name,
        },
        decimal(b.entry_count as nat) + " entries, depth "@ + decimal(b.depth as nat) + ", tip "@
            + b.tip_id@ + if is_active {
            ", active"@
        } else {
            Seq::empty()
        },
    )
}

/// The item of the branch at `index`.
pub fn branch_picker_item(b: &BranchInfo, index: usize, is_active: bool) -> (r: SelectItem)
    requires
        index < usize::MAX,
    ensures
        item_view(r) == branch_item(*b, index as nat, is_active),
{
    let mut name = if index == 0 && b.fork_point.is_none() {
        chars_of("Trunk")
    } else {
        let mut v = chars_of("Branch ");
        extend_chars(&mut v, &decimal_chars((index + 1) as u128));
        v
    };
    let display = match &b.summary {
        Some(s) => {
            let sc = chars_of(s.as_str());
            if sc.len() > 0 {
                extend_str(&mut name, ": ");
                extend_chars(&mut name, &sc);
            }
            name
        },
        None => name,
    };
    let mut meta = decimal_chars(b.entry_count as u128);
    extend_str(&mut meta, " entries, depth ");
    extend_chars(&mut meta, &decimal_chars(b.depth as u128));
    extend_str(&mut meta, ", tip ");
    extend_str(&mut meta, b.tip_id.as_str());
    if is_active {
        extend_str(&mut meta, ", active");
    }
    SelectItem {
        id: string_of(&chars_of(b.tip_id.as_str())),
        display: string_of(&display),
        metadata: string_of(&meta),
    }
}

/// The items of the branches; `active` is the index of the active one.
pub fn branch_picker_items(branches: &Vec<BranchInfo>, active: Option<usize>) -> (r: Vec<SelectItem>)
    requires
        branches@.len() < usize::MAX,
    ensures
        item_views(r@) == Seq::new(
            branches@.len(),
            |i: int| branch_item(branches@[i], i as nat, active == Some(i as usize)),
        ),
{
    let mut out: Vec<SelectItem> = Vec::new();
    let mut i: usize = 0;
    while i < branches.len()
        invariant
            i <= branches@.len(),
            branches@.len() < usize::MAX,
            out@.len() == i,
            forall|k: int|
                0 <= k < i ==> item_view(#[trigger] out@[k]) == branch_item(
                    branches@[k],
                    k as nat,
                    active == Some(k as usize),
                ),
        decreases branches.len() - i,
    {
        let is_active = match active {
            Some(a) => a == i,
            None => false,
        };
        out.push(branch_picker_item(&branches[i], i, is_active));
        i += 1;
    }
    assert(item_views(out@) =~= Seq::new(
        branches@.len(),
        |i: int| branch_item(branches@[i], i as nat, active == Some(i as usize)),
    ));
    out
}

/// The number of leading characters of `s` that fit in `budget` bytes
/// (`str::floor_char_boundary`, counted in characters).
pub open spec fn chars_within(s: Seq<char>, budget: int) -> nat
    decreases s.len(),
{
    if s.len() == 0 || utf8_width(s[0]) > budget {
        0
    } else {
        1 + chars_within(s.drop_first(), budget - utf8_width(s[0]))
    }
}

/// A working directory as a session item shows it: when it is longer than
/// 40 bytes, `...` and what follows the last character boundary at or
/// before 37 bytes from the end.
pub open spec fn short_cwd(cwd: Seq<char>) -> Seq<char> {
    if utf8_len(cwd) > 40 {
        "..."@ + cwd.skip(chars_within(cwd, utf8_len(cwd) - 37) as int)
    } else {
        cwd
    }
}

/// The item of a session: its id, its (shortened) directory, its time.
pub open spec fn session_item(s: SessionInfo) -> (Seq<char>, Seq<char>, Seq<char>) {
    (s.id@, short_cwd(s.cwd@), s.timestamp@)
}

/// The number of leading characters of `s` within `budget` bytes.
fn chars_within_of(s: &[char], budget: u128) -> (r: usize)
    ensures
        r == chars_within(s@, budget as int),
        r <= s@.len(),
{
    let mut k: usize = 0;
    let mut left: u128 = budget;
    assert(s@.skip(0) =~= s@);
    while k < s.len()
        invariant
            k <= s@.len(),
            left <= budget,
            chars_within(s@, budget as int) == k + chars_within(s@.skip(k as int), left as int),
        decreases s.len() - k,
    {
        assert(s@.skip(k as int).drop_first() =~= s@.skip(k + 1));
        assert(s@.skip(k as int)[0] == s@[k as int]);
        let u = s[k] as u32;
        let w: u128 = if u < 0x80 {
            1
        } else if u < 0x800 {
            2
        } else if u < 0x10000 {
            3
        } else {
            4
        };
        if w > left {
            return k;
        }
        left = left - w;
        k += 1;
    }
    assert(s@.skip(k as int).len() == 0);
    k
}

/// A working directory as a session item shows it.
pub fn short_cwd_of(cwd: &str) -> (r: String)
    ensures
        r@ == short_cwd(cwd@),
{
    let c = chars_of(cwd);
    let n = utf8_len_of(&c);
    if n > 40 {
        let k = chars_within_of(&c, n - 37);
        let mut v = chars_of("...");
        extend_chars(&mut v, &subvec(&c, k, c.len()));
        assert(c@.subrange(k as int, c@.len() as int) =~= c@.skip(k as int));
        string_of(&v)
    } else {
        string_of(&c)
    }
}

/// The items of the sessions, in order.
pub fn session_picker_items(sessions: &Vec<SessionInfo>) -> (r: Vec<SelectItem>)
    ensures
        item_views(r@) == Seq::new(sessions@.len(), |i: int| session_item(sessions@[i])),
{
    let mut out: Vec<SelectItem> = Vec::new();
    let mut i: usize = 0;
    while i < sessions.len()
        invariant
            i <= sessions@.len(),
            out@.len() == i,
            forall|k: int| 0 <= k < i ==> item_view(#[trigger] out@[k]) == session_item(sessions@[k]),
        decreases sessions.len() - i,
    {
        let s = &sessions[i];
        out.push(
            SelectItem {
                id: string_of(&chars_of(s.id.as_str())),
                display: short_cwd_of(s.cwd.as_str()),
                metadata: string_of(&chars_of(s.timestamp.as_str())),
            },
        );
        i += 1;
    }
    assert(item_views(out@) =~= Seq::new(sessions@.len(), |i: int| session_item(sessions@[i])));
    out
}

} // verus!
