//! Precedence-based collection of discovered resources.
//!
//! Resources found in several discovery layers are kept in a vector sorted
//! by name, one entry per name. A resource from a layer of higher precedence
//! replaces one of lower precedence; equal precedence is either an error
//! (skills, fragments, themes, packages) or keeps the first one (extensions).
//!
//! Names are ordered by their characters' code points, which is the order
//! `String::cmp` gives (UTF-8 preserves code point order byte by byte).
use vstd::prelude::*;

verus! {

/// A discovered resource: a name and the precedence of its layer.
pub trait Discovered {
    /// The resource name.
    spec fn key(&self) -> Seq<char>;

    /// The precedence of the layer the resource came from.
    spec fn rank(&self) -> u32;

    /// The resource name, as characters.
    fn name_chars(&self) -> (r: Vec<char>)
        ensures
            r@ == self.key(),
    ;

    /// The precedence of the layer the resource came from.
    fn precedence(&self) -> (p: u32)
        ensures
            p == self.rank(),
    ;
}

/// `a` comes strictly before `b` in code point order.
pub open spec fn lex_lt(a: Seq<char>, b: Seq<char>) -> bool
    decreases a.len(),
{
    if a.len() == 0 {
        b.len() > 0
    } else if b.len() == 0 {
        false
    } else if a[0] != b[0] {
        a[0] < b[0]
    } else {
        lex_lt(a.drop_first(), b.drop_first())
    }
}

/// The names of `s` are strictly increasing (so each occurs once).
pub open spec fn sorted_by_key<T: Discovered>(s: Seq<T>) -> bool {
    forall|i: int, j: int| 0 <= i < j < s.len() ==> lex_lt(#[trigger] s[i].key(), #[trigger] s[j].key())
}

/// The index of the entry named `k`.
pub open spec fn find_key<T: Discovered>(s: Seq<T>, k: Seq<char>) -> Option<int>
    decreases s.len(),
{
    if s.len() == 0 {
        None
    } else if s.last().key() == k {
        Some(s.len() - 1)
    } else {
        find_key(s.drop_last(), k)
    }
}

/// Where `item` goes when it is merged into `s`.
pub enum Placement {
    /// No entry had its name: it is inserted.
    Inserted,
    /// It replaces the entry at this index, of lower precedence.
    Replaced(usize),
    /// The entry at this index stays: its precedence is higher, or equal when
    /// equal precedence keeps the first.
    Kept(usize),
    /// The entry at this index has equal precedence, which is an error.
    SamePrecedence(usize),
}

/// The outcome of merging an item of name `k` and precedence `p` into `s`.
pub open spec fn placement_spec<T: Discovered>(
    s: Seq<T>,
    k: Seq<char>,
    p: u32,
    same_is_error: bool,
) -> Placement {
    match find_key(s, k) {
        None => Placement::Inserted,
        Some(e) => if s[e].rank() == p {
            if same_is_error {
                Placement::SamePrecedence(e as usize)
            } else {
                Placement::Kept(e as usize)
            }
        } else if s[e].rank() > p {
            Placement::Kept(e as usize)
        } else {
            Placement::Replaced(e as usize)
        },
    }
}

// ---------------------------------------------------------------------------
// Lemmas on the order
// ---------------------------------------------------------------------------

/// Code point order is irreflexive.
pub proof fn lemma_lex_irreflexive(a: Seq<char>)
    ensures
        !lex_lt(a, a),
    decreases a.len(),
{
    if a.len() > 0 {
        lemma_lex_irreflexive(a.drop_first());
    }
}

/// Code point order is transitive.
pub proof fn lemma_lex_transitive(a: Seq<char>, b: Seq<char>, c: Seq<char>)
    requires
        lex_lt(a, b),
        lex_lt(b, c),
    ensures
        lex_lt(a, c),
    decreases a.len(),
{
    if a.len() > 0 && b.len() > 0 && c.len() > 0 && a[0] == b[0] && b[0] == c[0] {
        lemma_lex_transitive(a.drop_first(), b.drop_first(), c.drop_first());
    }
}

/// Code point order is total.
pub proof fn lemma_lex_total(a: Seq<char>, b: Seq<char>)
    ensures
        a == b || lex_lt(a, b) || lex_lt(b, a),
    decreases a.len(),
{
    if a.len() > 0 && b.len() > 0 && a[0] == b[0] {
        lemma_lex_total(a.drop_first(), b.drop_first());
        if a.drop_first() == b.drop_first() {
            assert(a =~= seq![a[0]] + a.drop_first());
            assert(b =~= seq![b[0]] + b.drop_first());
        }
    } else if a.len() == 0 && b.len() == 0 {
        assert(a =~= b);
    }
}

/// In a sorted sequence the entry named `k` is the only one with that name.
pub proof fn lemma_find_key_sorted<T: Discovered>(s: Seq<T>, k: Seq<char>)
    requires
        sorted_by_key(s),
    ensures
        find_key(s, k) matches Some(e) ==> 0 <= e < s.len() && s[e].key() == k,
        find_key(s, k) is None ==> forall|i: int| 0 <= i < s.len() ==> s[i].key() != k,
        forall|i: int| 0 <= i < s.len() && s[i].key() == k ==> find_key(s, k) == Some(i),
    decreases s.len(),
{
    if s.len() > 0 {
        let t = s.drop_last();
        assert(sorted_by_key(t)) by {
            assert forall|i: int, j: int| 0 <= i < j < t.len() implies lex_lt(
                #[trigger] t[i].key(),
                #[trigger] t[j].key(),
            ) by {
                assert(t[i] == s[i] && t[j] == s[j]);
            }
        }
        lemma_find_key_sorted(t, k);
        assert forall|i: int| 0 <= i < s.len() && s[i].key() == k implies find_key(s, k) == Some(
            i,
        ) by {
            if i < s.len() - 1 {
                assert(t[i] == s[i]);
                if s.last().key() == k {
                    assert(lex_lt(s[i].key(), s[s.len() - 1].key()));
                    lemma_lex_irreflexive(k);
                }
            }
        }
    }
}

// ---------------------------------------------------------------------------
// Exec
// ---------------------------------------------------------------------------

/// `a` comes strictly before `b` in code point order.
pub fn lex_less(a: &[char], b: &[char]) -> (r: bool)
    ensures
        r == lex_lt(a@, b@),
{
    let mut i: usize = 0;
    assert(a@.skip(0) =~= a@);
    assert(b@.skip(0) =~= b@);
    while i < a.len() && i < b.len()
        invariant
            i <= a.len(),
            i <= b.len(),
            lex_lt(a@, b@) == lex_lt(a@.skip(i as int), b@.skip(i as int)),
        decreases a.len() - i,
    {
        assert(a@.skip(i as int).drop_first() =~= a@.skip(i + 1));
        assert(b@.skip(i as int).drop_first() =~= b@.skip(i + 1));
        if a[i] != b[i] {
            return a[i] < b[i];
        }
        i += 1;
    }
    i == a.len() && i < b.len()
}

/// Where `item` goes when merged into `seen`, which is sorted by name.
pub fn placement_of<T: Discovered>(seen: &Vec<T>, item: &T, same_is_error: bool) -> (r: (
    Placement,
    usize,
))
    requires
        sorted_by_key(seen@),
    ensures
        r.0 == placement_spec(seen@, item.key(), item.rank(), same_is_error),
        r.1 <= seen@.len(),
        forall|j: int| 0 <= j < r.1 ==> lex_lt(#[trigger] seen@[j].key(), item.key()),
        r.1 < seen@.len() ==> !lex_lt(seen@[r.1 as int].key(), item.key()),
        r.0 is Inserted ==> r.1 == seen@.len() || lex_lt(item.key(), seen@[r.1 as int].key()),
{
    let k = item.name_chars();
    let p = item.precedence();
    let mut i: usize = 0;
    while i < seen.len() && lex_less(&seen[i].name_chars(), &k)
        invariant
            i <= seen@.len(),
            k@ == item.key(),
            forall|j: int| 0 <= j < i ==> lex_lt(#[trigger] seen@[j].key(), k@),
        decreases seen.len() - i,
    {
        i += 1;
    }
    proof {
        lemma_find_key_sorted(seen@, k@);
    }
    if i < seen.len() {
        let name_i = seen[i].name_chars();
        if crate::text::chars_eq(&name_i, &k) {
            let q = seen[i].precedence();
            if q == p {
                if same_is_error {
                    return (Placement::SamePrecedence(i), i);
                } else {
                    return (Placement::Kept(i), i);
                }
            } else if q > p {
                return (Placement::Kept(i), i);
            } else {
                return (Placement::Replaced(i), i);
            }
        }
        proof {
            lemma_lex_total(seen@[i as int].key(), k@);
            assert forall|j: int| 0 <= j < seen@.len() implies seen@[j].key() != k@ by {
                if j < i {
                    lemma_lex_irreflexive(k@);
                } else if j > i {
                    assert(lex_lt(seen@[i as int].key(), seen@[j].key()));
                    if seen@[j].key() == k@ {
                        lemma_lex_irreflexive(k@);
                        lemma_lex_transitive(k@, seen@[i as int].key(), k@);
                    }
                }
            }
        }
    } else {
        proof {
            assert forall|j: int| 0 <= j < seen@.len() implies seen@[j].key() != k@ by {
                lemma_lex_irreflexive(k@);
            }
        }
    }
    (Placement::Inserted, i)
}

/// Merge `item` into `seen`, sorted by name, by precedence. Returns the item
/// back when an entry of equal precedence exists and that is an error.
pub fn merge_by_precedence<T: Discovered>(seen: &mut Vec<T>, item: T, same_is_error: bool) -> (r:
    Result<(), T>)
    requires
        sorted_by_key(old(seen)@),
    ensures
        sorted_by_key(final(seen)@),
        match placement_spec(old(seen)@, item.key(), item.rank(), same_is_error) {
            Placement::Inserted => r is Ok && exists|p: int|
                0 <= p <= old(seen)@.len() && final(seen)@ == old(seen)@.insert(p, item),
            Placement::Replaced(e) => r is Ok && final(seen)@ == old(seen)@.update(e as int, item),
            Placement::Kept(_) => r is Ok && final(seen)@ == old(seen)@,
            Placement::SamePrecedence(_) => r == Err::<(), T>(item) && final(seen)@ == old(
                seen,
            )@,
        },
{
    let ghost s0 = seen@;
    let (placement, i) = placement_of(seen, &item, same_is_error);
    proof {
        lemma_find_key_sorted(s0, item.key());
    }
    match placement {
        Placement::Inserted => {
            seen.insert(i, item);
            assert(seen@ == s0.insert(i as int, item));
            assert forall|a: int, b: int| 0 <= a < b < seen@.len() implies lex_lt(
                #[trigger] seen@[a].key(),
                #[trigger] seen@[b].key(),
            ) by {
                if b < i {
                    assert(seen@[a] == s0[a] && seen@[b] == s0[b]);
                } else if b == i {
                    assert(seen@[a] == s0[a]);
                } else if a == i {
                    assert(seen@[b] == s0[b - 1]);
                    if b - 1 > i {
                        assert(lex_lt(s0[i as int].key(), s0[b - 1].key()));
                        lemma_lex_transitive(item.key(), s0[i as int].key(), s0[b - 1].key());
                    }
                } else if a < i {
                    assert(seen@[a] == s0[a] && seen@[b] == s0[b - 1]);
                } else {
                    assert(seen@[a] == s0[a - 1] && seen@[b] == s0[b - 1]);
                }
            }
            Ok(())
        },
        Placement::Replaced(e) => {
            seen.set(e, item);
            assert forall|a: int, b: int| 0 <= a < b < seen@.len() implies lex_lt(
                #[trigger] seen@[a].key(),
                #[trigger] seen@[b].key(),
            ) by {
                assert(seen@[a].key() == s0[a].key());
                assert(seen@[b].key() == s0[b].key());
            }
            Ok(())
        },
        Placement::Kept(_) => Ok(()),
        Placement::SamePrecedence(_) => Err(item),
    }
}

/// Entry `j` of `s` repeats the name and precedence of an earlier entry.
pub open spec fn duplicate_at<T: Discovered>(s: Seq<T>, j: int) -> bool {
    0 <= j < s.len() && exists|i: int|
        0 <= i < j && #[trigger] s[i].key() == s[j].key() && s[i].rank() == s[j].rank()
}

/// Two entries of `s` share a name and a precedence.
pub open spec fn has_duplicate<T: Discovered>(s: Seq<T>) -> bool {
    exists|j: int| duplicate_at(s, j)
}

/// Each entry of `v` is one of `found` from index `lo` on.
#[verifier::opaque]
pub open spec fn drawn_from<T: Discovered>(v: Seq<T>, found: Seq<T>, lo: int) -> bool {
    forall|e: int|
        #![trigger v[e]]
        0 <= e < v.len() ==> exists|i: int| lo <= i < found.len() && v[e] == #[trigger] found[i]
}

/// Each entry of `found` from index `lo` on has an entry of its name and of
/// at least its precedence in `v`.
#[verifier::opaque]
pub open spec fn covers<T: Discovered>(v: Seq<T>, found: Seq<T>, lo: int) -> bool {
    forall|i: int|
        #![trigger found[i]]
        lo <= i < found.len() ==> exists|e: int|
            0 <= e < v.len() && #[trigger] v[e].key() == found[i].key() && v[e].rank()
                >= found[i].rank()
}

/// `v` is what merging `found` by precedence gives: one entry per name,
/// sorted by name, each entry one of `found`, and for each found resource
/// an entry of its name and of at least its precedence.
pub open spec fn merged_from<T: Discovered>(found: Seq<T>, v: Seq<T>) -> bool {
    &&& sorted_by_key(v)
    &&& drawn_from(v, found, 0)
    &&& covers(v, found, 0)
}

/// Inserting `found[k]` keeps `drawn_from`, one index lower.
proof fn lemma_inserted_drawn<T: Discovered>(s0: Seq<T>, s1: Seq<T>, found: Seq<T>, k: int, p: int)
    requires
        0 <= k < found.len(),
        0 <= p <= s0.len(),
        s1 == s0.insert(p, found[k]),
        drawn_from(s0, found, k + 1),
    ensures
        drawn_from(s1, found, k),
{
    reveal(drawn_from);
    assert forall|e: int| #![trigger s1[e]] 0 <= e < s1.len() implies exists|i: int|
        k <= i < found.len() && s1[e] == #[trigger] found[i] by {
        if e < p {
            assert(s1[e] == s0[e]);
        } else if e == p {
            assert(s1[e] == found[k]);
        } else {
            assert(s1[e] == s0[e - 1]);
        }
    }
}

/// Inserting `found[k]` keeps `covers`, one index lower.
proof fn lemma_inserted_covers<T: Discovered>(s0: Seq<T>, s1: Seq<T>, found: Seq<T>, k: int, p: int)
    requires
        0 <= k < found.len(),
        0 <= p <= s0.len(),
        s1 == s0.insert(p, found[k]),
        covers(s0, found, k + 1),
    ensures
        covers(s1, found, k),
{
    reveal(covers);
    assert forall|i: int| #![trigger found[i]] k <= i < found.len() implies exists|e: int|
        0 <= e < s1.len() && #[trigger] s1[e].key() == found[i].key() && s1[e].rank()
            >= found[i].rank() by {
        if i == k {
            assert(s1[p].key() == found[i].key());
        } else {
            let e0 = choose|e: int|
                0 <= e < s0.len() && #[trigger] s0[e].key() == found[i].key() && s0[e].rank()
                    >= found[i].rank();
            if e0 < p {
                assert(s1[e0] == s0[e0]);
            } else {
                assert(s1[e0 + 1] == s0[e0]);
            }
        }
    }
}

/// Replacing entry `r` by `found[k]` keeps `drawn_from`, one index lower.
proof fn lemma_replaced_drawn<T: Discovered>(s0: Seq<T>, s1: Seq<T>, found: Seq<T>, k: int, r: int)
    requires
        0 <= k < found.len(),
        0 <= r < s0.len(),
        s1 == s0.update(r, found[k]),
        drawn_from(s0, found, k + 1),
    ensures
        drawn_from(s1, found, k),
{
    reveal(drawn_from);
    assert forall|e: int| #![trigger s1[e]] 0 <= e < s1.len() implies exists|i: int|
        k <= i < found.len() && s1[e] == #[trigger] found[i] by {
        if e != r {
            assert(s1[e] == s0[e]);
        } else {
            assert(s1[e] == found[k]);
        }
    }
}

/// Replacing entry `r`, of `found[k]`'s name and lower precedence, by
/// `found[k]` keeps `covers`, one index lower.
proof fn lemma_replaced_covers<T: Discovered>(s0: Seq<T>, s1: Seq<T>, found: Seq<T>, k: int, r: int)
    requires
        0 <= k < found.len(),
        0 <= r < s0.len(),
        s0[r].key() == found[k].key(),
        s0[r].rank() < found[k].rank(),
        s1 == s0.update(r, found[k]),
        covers(s0, found, k + 1),
    ensures
        covers(s1, found, k),
{
    reveal(covers);
    assert forall|i: int| #![trigger found[i]] k <= i < found.len() implies exists|e: int|
        0 <= e < s1.len() && #[trigger] s1[e].key() == found[i].key() && s1[e].rank()
            >= found[i].rank() by {
        if i == k {
            assert(s1[r].key() == found[i].key());
        } else {
            let e0 = choose|e: int|
                0 <= e < s0.len() && #[trigger] s0[e].key() == found[i].key() && s0[e].rank()
                    >= found[i].rank();
            if e0 != r {
                assert(s1[e0] == s0[e0]);
            } else {
                assert(s1[e0].key() == found[i].key());
            }
        }
    }
}

/// Keeping `s0`, which has an entry of `found[k]`'s name and at least its
/// precedence, keeps `drawn_from` and `covers`, one index lower.
proof fn lemma_merge_kept<T: Discovered>(s0: Seq<T>, found: Seq<T>, k: int, e: int)
    requires
        0 <= k < found.len(),
        0 <= e < s0.len(),
        s0[e].key() == found[k].key(),
        s0[e].rank() >= found[k].rank(),
        drawn_from(s0, found, k + 1),
        covers(s0, found, k + 1),
    ensures
        drawn_from(s0, found, k),
        covers(s0, found, k),
{
    assert(drawn_from(s0, found, k)) by {
        reveal(drawn_from);
        assert forall|d: int| #![trigger s0[d]] 0 <= d < s0.len() implies exists|i: int|
            k <= i < found.len() && s0[d] == #[trigger] found[i] by {
            let i0 = choose|i: int| k + 1 <= i < found.len() && s0[d] == #[trigger] found[i];
            assert(s0[d] == found[i0]);
        }
    }
    assert(covers(s0, found, k)) by {
        reveal(covers);
        assert(s0[e].key() == found[k].key());
    }
}

/// One step of the merge keeps `drawn_from` and `covers`, one index lower.
proof fn lemma_merge_step<T: Discovered>(s0: Seq<T>, s1: Seq<T>, found: Seq<T>, k: int)
    requires
        sorted_by_key(s0),
        s0.len() <= usize::MAX,
        0 <= k < found.len(),
        drawn_from(s0, found, k + 1),
        covers(s0, found, k + 1),
        match placement_spec(s0, found[k].key(), found[k].rank(), false) {
            Placement::Inserted => exists|p: int| 0 <= p <= s0.len() && s1 == s0.insert(p, found[k]),
            Placement::Replaced(e) => s1 == s0.update(e as int, found[k]),
            Placement::Kept(_) => s1 == s0,
            Placement::SamePrecedence(_) => false,
        },
    ensures
        drawn_from(s1, found, k),
        covers(s1, found, k),
{
    lemma_find_key_sorted(s0, found[k].key());
    match find_key(s0, found[k].key()) {
        None => {
            let p = choose|p: int| 0 <= p <= s0.len() && s1 == s0.insert(p, found[k]);
            lemma_inserted_drawn(s0, s1, found, k, p);
            lemma_inserted_covers(s0, s1, found, k, p);
        },
        Some(e) => {
            assert((e as usize) as int == e);
            if s0[e].rank() >= found[k].rank() {
                lemma_merge_kept(s0, found, k, e);
            } else {
                lemma_replaced_drawn(s0, s1, found, k, e);
                lemma_replaced_covers(s0, s1, found, k, e);
            }
        },
    }
}

/// Found resource `i` has the highest precedence among those of its name.
pub open spec fn highest_of_its_name<T: Discovered>(found: Seq<T>, i: int) -> bool {
    forall|j: int|
        0 <= j < found.len() && #[trigger] found[j].key() == found[i].key() ==> found[j].rank()
            <= found[i].rank()
}

/// `x` is a found resource of the highest precedence among those of its
/// name.
pub open spec fn highest_found<T: Discovered>(found: Seq<T>, x: T) -> bool {
    exists|i: int| 0 <= i < found.len() && x == found[i] && #[trigger] highest_of_its_name(found, i)
}

/// Some entry of `v` has name `k`.
pub open spec fn has_name<T: Discovered>(v: Seq<T>, k: Seq<char>) -> bool {
    exists|e: int| 0 <= e < v.len() && #[trigger] v[e].key() == k
}

/// The law of merging by precedence: the names of `v` are sorted and
/// distinct; each entry is a found resource of the highest precedence
/// among those of its name; every found name has an entry.
pub open spec fn precedence_merge_law<T: Discovered>(found: Seq<T>, v: Seq<T>) -> bool {
    &&& forall|a: int, b: int| 0 <= a < b < v.len() ==> lex_lt(#[trigger] v[a].key(), #[trigger] v[b].key())
    &&& forall|e: int| 0 <= e < v.len() ==> highest_found(found, #[trigger] v[e])
    &&& forall|i: int| 0 <= i < found.len() ==> has_name(v, #[trigger] found[i].key())
}

/// A merge by precedence obeys its law.
pub proof fn lemma_merged_law<T: Discovered>(found: Seq<T>, v: Seq<T>)
    requires
        merged_from(found, v),
    ensures
        precedence_merge_law(found, v),
{
    assert forall|e: int| 0 <= e < v.len() implies highest_found(found, #[trigger] v[e]) by {
        let i = lemma_drawn_witness(found, v, e);
        assert forall|j: int| 0 <= j < found.len() && #[trigger] found[j].key() == found[i].key() implies found[j].rank()
            <= found[i].rank() by {
            let w = lemma_covers_witness(found, v, j);
            if w < e {
                assert(lex_lt(v[w].key(), v[e].key()));
                lemma_lex_irreflexive(v[e].key());
            } else if w > e {
                assert(lex_lt(v[e].key(), v[w].key()));
                lemma_lex_irreflexive(v[e].key());
            }
        }
        assert(highest_of_its_name(found, i));
    }
    assert forall|i: int| 0 <= i < found.len() implies has_name(v, #[trigger] found[i].key()) by {
        let w = lemma_covers_witness(found, v, i);
    }
}

proof fn lemma_drawn_witness<T: Discovered>(found: Seq<T>, v: Seq<T>, e: int) -> (i: int)
    requires
        drawn_from(v, found, 0),
        0 <= e < v.len(),
    ensures
        0 <= i < found.len(),
        v[e] == found[i],
{
    reveal(drawn_from);
    choose|i: int| 0 <= i < found.len() && v[e] == #[trigger] found[i]
}

proof fn lemma_covers_witness<T: Discovered>(found: Seq<T>, v: Seq<T>, j: int) -> (w: int)
    requires
        covers(v, found, 0),
        0 <= j < found.len(),
    ensures
        0 <= w < v.len(),
        v[w].key() == found[j].key(),
        v[w].rank() >= found[j].rank(),
{
    reveal(covers);
    assert(found[j] == found[j]);
    choose|w: int| 0 <= w < v.len() && #[trigger] v[w].key() == found[j].key() && v[w].rank() >= found[j].rank()
}

/// The first entry of `found` that repeats the name and precedence of an
/// earlier one.
pub fn first_duplicate<T: Discovered>(found: &Vec<T>) -> (r: Option<usize>)
    ensures
        match r {
            Some(j) => duplicate_at(found@, j as int) && forall|k: int|
                0 <= k < j ==> !duplicate_at(found@, k),
            None => !has_duplicate(found@),
        },
{
    let mut j: usize = 0;
    while j < found.len()
        invariant
            j <= found@.len(),
            forall|k: int| 0 <= k < j ==> !duplicate_at(found@, k),
        decreases found.len() - j,
    {
        let kj = found[j].name_chars();
        let pj = found[j].precedence();
        let mut i: usize = 0;
        while i < j
            invariant
                i <= j < found@.len(),
                kj@ == found@[j as int].key(),
                pj == found@[j as int].rank(),
                forall|k: int| 0 <= k < j ==> !duplicate_at(found@, k),
                forall|a: int|
                    0 <= a < i ==> !(#[trigger] found@[a].key() == found@[j as int].key()
                        && found@[a].rank() == found@[j as int].rank()),
            decreases j - i,
        {
            if found[i].precedence() == pj && crate::text::chars_eq(&found[i].name_chars(), &kj) {
                assert(found@[i as int].key() == found@[j as int].key());
                return Some(j);
            }
            i += 1;
        }
        j += 1;
    }
    None
}

/// Merge resources found across layers, in the order found, into one entry
/// per name sorted by name, keeping the one of highest precedence. Two of
/// the same name and precedence are an error, whatever else was found: the
/// later of the first such pair is handed back.
pub fn merge_discovered<T: Discovered>(found: Vec<T>) -> (r: Result<Vec<T>, T>)
    ensures
        match r {
            Ok(v) => !has_duplicate(found@) && merged_from(found@, v@) && precedence_merge_law(
                found@,
                v@,
            ),
            Err(x) => exists|j: int|
                {
                    &&& duplicate_at(found@, j)
                    &&& forall|k: int| 0 <= k < j ==> !duplicate_at(found@, k)
                    &&& x == found@[j]
                },
        },
{
    match first_duplicate(&found) {
        Some(j) => {
            let mut items = found;
            let x = items.remove(j);
            return Err(x);
        },
        None => {},
    }
    let ghost all = found@;
    let n = found.len();
    let mut items = found;
    let mut seen: Vec<T> = Vec::new();
    proof {
        reveal(drawn_from);
        reveal(covers);
    }
    while items.len() > 0
        invariant
            all.len() == n,
            items@.len() <= n,
            items@ == all.subrange(0, items@.len() as int),
            sorted_by_key(seen@),
            drawn_from(seen@, all, items@.len() as int),
            covers(seen@, all, items@.len() as int),
        decreases items.len(),
    {
        let ghost s0 = seen@;
        let ghost k = (items@.len() - 1) as int;
        let x = items.pop().unwrap();
        assert(x == all[k]);
        assert(s0.len() == seen.len());
        let _ = merge_by_precedence(&mut seen, x, false);
        proof {
            lemma_merge_step(s0, seen@, all, k);
        }
    }
    assert(items@.len() == 0);
    proof {
        lemma_merged_law(all, seen@);
    }
    Ok(seen)
}

} // verus!
