//! Stable ordering of entries by a rank and a name.
//!
//! Entries are ordered by rank, then by name, then by a second name, names
//! in code point order (the order `String::cmp` gives); entries with equal
//! keys keep their relative order, as a stable sort leaves them.
use vstd::prelude::*;

use crate::discovery::{lemma_lex_irreflexive, lemma_lex_total, lemma_lex_transitive, lex_less, lex_lt};
use crate::text::{chars_of, string_of, string_views};

verus! {

/// A sort key: a rank, a name and a second name.
pub type SortKey = (u32, Seq<char>, Seq<char>);

/// Key `a` comes strictly before key `b`.
pub open spec fn key_lt(a: SortKey, b: SortKey) -> bool {
    a.0 < b.0 || (a.0 == b.0 && (lex_lt(a.1, b.1) || (a.1 == b.1 && lex_lt(a.2, b.2))))
}

/// Entry `(a, ia)` comes before entry `(b, ib)`: by key, then by position.
pub open spec fn entry_before(a: SortKey, ia: int, b: SortKey, ib: int) -> bool {
    key_lt(a, b) || (a == b && ia < ib)
}

/// `p` lists each index below `n` exactly once.
pub open spec fn is_permutation(p: Seq<usize>, n: nat) -> bool {
    &&& p.len() == n
    &&& forall|i: int| 0 <= i < p.len() ==> #[trigger] p[i] < n
    &&& forall|i: int, j: int| 0 <= i < j < p.len() ==> #[trigger] p[i] != #[trigger] p[j]
}

/// `p` lists the entries of `keys` in stable sorted order.
pub open spec fn stable_order(keys: Seq<SortKey>, p: Seq<usize>) -> bool {
    &&& is_permutation(p, keys.len())
    &&& forall|k: int, l: int|
        0 <= k < l < p.len() ==> entry_before(
            keys[#[trigger] p[k] as int],
            p[k] as int,
            keys[#[trigger] p[l] as int],
            p[l] as int,
        )
}

/// An executable sort key.
pub type ExecSortKey = (u32, Vec<char>, Vec<char>);

/// The keys as plain values.
pub open spec fn key_views(keys: Seq<ExecSortKey>) -> Seq<SortKey> {
    keys.map_values(|k: ExecSortKey| (k.0, k.1@, k.2@))
}

/// The order of keys is transitive.
pub proof fn lemma_key_lt_transitive(a: SortKey, b: SortKey, c: SortKey)
    requires
        key_lt(a, b),
        key_lt(b, c),
    ensures
        key_lt(a, c),
{
    if a.0 == b.0 && b.0 == c.0 {
        if lex_lt(a.1, b.1) && lex_lt(b.1, c.1) {
            lemma_lex_transitive(a.1, b.1, c.1);
        }
        if a.1 == b.1 && b.1 == c.1 && lex_lt(a.2, b.2) && lex_lt(b.2, c.2) {
            lemma_lex_transitive(a.2, b.2, c.2);
        }
    }
}

/// The order of keys is total and irreflexive.
pub proof fn lemma_key_lt_total(a: SortKey, b: SortKey)
    ensures
        !key_lt(a, a),
        a == b || key_lt(a, b) || key_lt(b, a),
        !(key_lt(a, b) && key_lt(b, a)),
{
    lemma_lex_irreflexive(a.1);
    lemma_lex_irreflexive(a.2);
    lemma_lex_total(a.1, b.1);
    lemma_lex_total(a.2, b.2);
    if lex_lt(a.1, b.1) && lex_lt(b.1, a.1) {
        lemma_lex_transitive(a.1, b.1, a.1);
    }
    if lex_lt(a.2, b.2) && lex_lt(b.2, a.2) {
        lemma_lex_transitive(a.2, b.2, a.2);
    }
    if a.0 == b.0 && a.1 == b.1 && a.2 == b.2 {
        assert(a == b);
    }
}

/// Key `a` comes strictly before key `b`.
pub fn key_less(a: &ExecSortKey, b: &ExecSortKey) -> (r: bool)
    ensures
        r == key_lt((a.0, a.1@, a.2@), (b.0, b.1@, b.2@)),
{
    a.0 < b.0 || (a.0 == b.0 && (lex_less(a.1.as_slice(), b.1.as_slice()) || (
    crate::text::chars_eq(a.1.as_slice(), b.1.as_slice()) && lex_less(a.2.as_slice(), b.2.as_slice()))))
}

/// The positions of `keys` in stable sorted order.
pub fn stable_sorted_order(keys: &Vec<ExecSortKey>) -> (p: Vec<usize>)
    ensures
        stable_order(key_views(keys@), p@),
        p@ == stable_sort_spec(key_views(keys@)),
{
    let ghost kv = key_views(keys@);
    let mut p: Vec<usize> = Vec::new();
    let mut i: usize = 0;
    while i < keys.len()
        invariant
            i <= keys@.len(),
            kv == key_views(keys@),
            kv.len() == keys@.len(),
            is_permutation(p@, i as nat),
            forall|k: int, l: int|
                0 <= k < l < p@.len() ==> entry_before(
                    kv[#[trigger] p@[k] as int],
                    p@[k] as int,
                    kv[#[trigger] p@[l] as int],
                    p@[l] as int,
                ),
        decreases keys.len() - i,
    {
        assert(kv[i as int] == (keys@[i as int].0, keys@[i as int].1@, keys@[i as int].2@));
        let mut pos: usize = 0;
        while pos < p.len() && !key_less(&keys[i], &keys[p[pos]])
            invariant
                pos <= p@.len(),
                i < keys@.len(),
                kv == key_views(keys@),
                kv.len() == keys@.len(),
                is_permutation(p@, i as nat),
                forall|q: int| 0 <= q < pos ==> !key_lt(kv[i as int], kv[#[trigger] p@[q] as int]),
            decreases p@.len() - pos,
        {
            assert(kv[p@[pos as int] as int] == (keys@[p@[pos as int] as int].0, keys@[p@[
                pos as int] as int].1@, keys@[p@[pos as int] as int].2@));
            pos += 1;
        }
        if pos < p.len() {
            assert(kv[p@[pos as int] as int] == (keys@[p@[pos as int] as int].0, keys@[p@[
                pos as int] as int].1@, keys@[p@[pos as int] as int].2@));
            assert(key_lt(kv[i as int], kv[p@[pos as int] as int]));
        }
        let ghost old_p = p@;
        p.insert(pos, i);
        assert(p@ == old_p.insert(pos as int, i));
        assert forall|a: int| 0 <= a < p@.len() implies #[trigger] p@[a] < i + 1 by {
            if a < pos {
                assert(p@[a] == old_p[a]);
            } else if a > pos {
                assert(p@[a] == old_p[a - 1]);
            }
        }
        assert forall|a: int, b: int| 0 <= a < b < p@.len() implies #[trigger] p@[a]
            != #[trigger] p@[b] by {
            if a < pos && b < pos {
                assert(p@[a] == old_p[a] && p@[b] == old_p[b]);
            } else if a < pos && b == pos {
                assert(p@[a] == old_p[a]);
            } else if a < pos {
                assert(p@[a] == old_p[a] && p@[b] == old_p[b - 1]);
            } else if a == pos {
                assert(p@[b] == old_p[b - 1]);
            } else {
                assert(p@[a] == old_p[a - 1] && p@[b] == old_p[b - 1]);
            }
        }
        assert forall|a: int, b: int| 0 <= a < b < p@.len() implies entry_before(
            kv[#[trigger] p@[a] as int],
            p@[a] as int,
            kv[#[trigger] p@[b] as int],
            p@[b] as int,
        ) by {
            let ki = kv[i as int];
            if b < pos {
                assert(p@[a] == old_p[a] && p@[b] == old_p[b]);
            } else if b == pos {
                assert(p@[a] == old_p[a]);
                let ka = kv[old_p[a] as int];
                lemma_key_lt_total(ka, ki);
                assert(!key_lt(ki, ka));
            } else if a < pos {
                assert(p@[a] == old_p[a] && p@[b] == old_p[b - 1]);
            } else if a == pos {
                assert(p@[b] == old_p[b - 1]);
                let kp = kv[old_p[pos as int] as int];
                let kb = kv[old_p[b - 1] as int];
                assert(key_lt(ki, kp));
                if b - 1 > pos {
                    assert(entry_before(kp, old_p[pos as int] as int, kb, old_p[b - 1] as int));
                    if key_lt(kp, kb) {
                        lemma_key_lt_transitive(ki, kp, kb);
                    }
                }
            } else {
                assert(p@[a] == old_p[a - 1] && p@[b] == old_p[b - 1]);
            }
        }
        i += 1;
    }
    proof {
        lemma_stable_order_is_spec(kv, p@);
    }
    p
}

/// The stable sorted order of `keys` (there is exactly one; see
/// `lemma_stable_order_unique`).
pub open spec fn stable_sort_spec(keys: Seq<SortKey>) -> Seq<usize> {
    choose|p: Seq<usize>| stable_order(keys, p)
}

/// A permutation of `0..n` lists every index below `n`.
pub proof fn lemma_permutation_covers(p: Seq<usize>, n: nat, x: int)
    requires
        is_permutation(p, n),
        0 <= x < n,
    ensures
        exists|i: int| 0 <= i < n && p[i] == x,
{
    broadcast use vstd::set::group_set_axioms, vstd::seq_lib::group_seq_properties;

    let ip = p.map_values(|v: usize| v as int);
    assert forall|i: int, j: int| 0 <= i < ip.len() && 0 <= j < ip.len() && i != j implies ip[i]
        != ip[j] by {
        if i < j {
            assert(p[i] != p[j]);
        } else {
            assert(p[j] != p[i]);
        }
    }
    assert(ip.no_duplicates());
    ip.unique_seq_to_set();
    vstd::set_lib::lemma_int_range(0, n as int);
    if !(exists|i: int| 0 <= i < n && p[i] == x) {
        let r = vstd::set_lib::set_int_range(0, n as int).remove(x);
        assert forall|v: int| ip.to_set().contains(v) implies r.contains(v) by {
            assert(ip.contains(v));
            let i = choose|i: int| 0 <= i < ip.len() && ip[i] == v;
            assert(p[i] < n);
            assert(p[i] != x);
        }
        assert(ip.to_set().subset_of(r));
        vstd::set_lib::lemma_len_subset(ip.to_set(), r);
        assert(vstd::set_lib::set_int_range(0, n as int).contains(x));
        assert(false);
    }
}

/// Entry order is asymmetric.
pub proof fn lemma_entry_before_asymmetric(a: SortKey, ia: int, b: SortKey, ib: int)
    ensures
        !(entry_before(a, ia, b, ib) && entry_before(b, ib, a, ia)),
{
    lemma_key_lt_total(a, b);
    lemma_key_lt_total(b, a);
}

/// Two stable orders of the same keys agree at position `k` when they agree
/// before it.
proof fn lemma_stable_orders_agree_at(keys: Seq<SortKey>, p: Seq<usize>, q: Seq<usize>, k: int)
    requires
        stable_order(keys, p),
        stable_order(keys, q),
        0 <= k < keys.len(),
        forall|j: int| 0 <= j < k ==> p[j] == q[j],
    ensures
        p[k] == q[k],
{
    let n = keys.len();
    let a = p[k];
    let b = q[k];
    if a != b {
        lemma_permutation_covers(p, n, b as int);
        let l = choose|i: int| 0 <= i < n && p[i] == b;
        if l < k {
            assert(q[l] == b);
            assert(false);
        }
        assert(l > k);
        assert(entry_before(keys[p[k] as int], p[k] as int, keys[p[l] as int], p[l] as int));
        lemma_permutation_covers(q, n, a as int);
        let m = choose|i: int| 0 <= i < n && q[i] == a;
        if m < k {
            assert(p[m] == a);
            assert(false);
        }
        assert(m > k);
        assert(entry_before(keys[q[k] as int], q[k] as int, keys[q[m] as int], q[m] as int));
        lemma_entry_before_asymmetric(keys[a as int], a as int, keys[b as int], b as int);
    }
}

/// Two stable orders of the same keys agree before position `k`.
proof fn lemma_stable_orders_agree_upto(keys: Seq<SortKey>, p: Seq<usize>, q: Seq<usize>, k: int)
    requires
        stable_order(keys, p),
        stable_order(keys, q),
        0 <= k <= keys.len(),
    ensures
        forall|j: int| 0 <= j < k ==> p[j] == q[j],
    decreases k,
{
    if k > 0 {
        lemma_stable_orders_agree_upto(keys, p, q, k - 1);
        lemma_stable_orders_agree_at(keys, p, q, k - 1);
    }
}

/// The stable sorted order of a sequence of keys is unique.
pub proof fn lemma_stable_order_unique(keys: Seq<SortKey>, p: Seq<usize>, q: Seq<usize>)
    requires
        stable_order(keys, p),
        stable_order(keys, q),
    ensures
        p == q,
{
    lemma_stable_orders_agree_upto(keys, p, q, keys.len() as int);
    assert(p =~= q);
}

/// A stable order is the stable sorted order.
pub proof fn lemma_stable_order_is_spec(keys: Seq<SortKey>, p: Seq<usize>)
    requires
        stable_order(keys, p),
    ensures
        p == stable_sort_spec(keys),
{
    let q = stable_sort_spec(keys);
    assert(stable_order(keys, q));
    lemma_stable_order_unique(keys, p, q);
}

/// `s` reordered by the positions in `order`.
pub open spec fn reordered<T>(s: Seq<T>, order: Seq<usize>) -> Seq<T> {
    Seq::new(order.len(), |j: int| s[order[j] as int])
}

/// Move the items into the order given by a permutation of their positions.
pub fn apply_order<T>(items: Vec<T>, order: &Vec<usize>) -> (r: Vec<T>)
    requires
        is_permutation(order@, items@.len()),
    ensures
        r@ == reordered(items@, order@),
{
    let ghost orig = items@;
    let n = items.len();
    let mut items = items;
    let mut rev: Vec<T> = Vec::new();
    while items.len() > 0
        invariant
            items@.len() + rev@.len() == n,
            n == orig.len(),
            forall|k: int| 0 <= k < items@.len() ==> #[trigger] items@[k] == orig[k],
            forall|k: int| 0 <= k < rev@.len() ==> #[trigger] rev@[k] == orig[n - 1 - k],
        decreases items.len(),
    {
        let x = items.pop().unwrap();
        rev.push(x);
    }
    let mut slots: Vec<Option<T>> = Vec::new();
    while rev.len() > 0
        invariant
            rev@.len() + slots@.len() == n,
            n == orig.len(),
            forall|k: int| 0 <= k < rev@.len() ==> #[trigger] rev@[k] == orig[n - 1 - k],
            forall|k: int| 0 <= k < slots@.len() ==> #[trigger] slots@[k] == Some(orig[k]),
        decreases rev.len(),
    {
        let x = rev.pop().unwrap();
        slots.push(Some(x));
    }
    let mut out: Vec<T> = Vec::new();
    let mut t: usize = 0;
    while t < order.len()
        invariant
            t <= order@.len(),
            is_permutation(order@, orig.len()),
            slots@.len() == orig.len(),
            out@.len() == t,
            forall|k: int| 0 <= k < t ==> #[trigger] out@[k] == orig[order@[k] as int],
            forall|k: int| t <= k < order@.len() ==> slots@[#[trigger] order@[k] as int] == Some(
                orig[order@[k] as int],
            ),
        decreases order.len() - t,
    {
        let idx = order[t];
        let ghost before = slots@;
        let mut tmp: Option<T> = None;
        std::mem::swap(&mut tmp, &mut slots[idx]);
        assert forall|k: int| t + 1 <= k < order@.len() implies slots@[#[trigger] order@[k] as int]
            == Some(orig[order@[k] as int]) by {
            assert(order@[k] != order@[t as int]);
            assert(slots@[order@[k] as int] == before[order@[k] as int]);
        }
        assert(tmp == Some(orig[idx as int]));
        let x = tmp.unwrap();
        out.push(x);
        t += 1;
    }
    assert(out@ =~= reordered(orig, order@));
    out
}


/// The names are strictly ascending in code point order (so distinct).
pub open spec fn strictly_sorted(v: Seq<Seq<char>>) -> bool {
    forall|i: int, j: int| 0 <= i < j < v.len() ==> lex_lt(#[trigger] v[i], #[trigger] v[j])
}

/// The names are ascending in code point order (equal names side by side).
pub open spec fn sorted_le(v: Seq<Seq<char>>) -> bool {
    forall|i: int, j: int| 0 <= i < j < v.len() ==> !lex_lt(#[trigger] v[j], #[trigger] v[i])
}

/// No name occurs twice.
pub open spec fn all_distinct(v: Seq<Seq<char>>) -> bool {
    forall|i: int, j: int| 0 <= i < j < v.len() ==> #[trigger] v[i] != #[trigger] v[j]
}

/// `v` holds the entries of `of`, each once, in some order.
pub open spec fn is_reordering(v: Seq<Seq<char>>, of: Seq<Seq<char>>) -> bool {
    exists|p: Seq<usize>| is_permutation(p, of.len()) && v == reordered(of, p)
}

/// The names, sorted in code point order (a stable sort).
pub fn sorted_names(names: Vec<String>) -> (r: Vec<String>)
    ensures
        sorted_le(string_views(r@)),
        is_reordering(string_views(r@), string_views(names@)),
        all_distinct(string_views(names@)) ==> strictly_sorted(string_views(r@)),
{
    let ghost nv = string_views(names@);
    let mut keys: Vec<ExecSortKey> = Vec::new();
    let mut i: usize = 0;
    while i < names.len()
        invariant
            i <= names@.len(),
            nv == string_views(names@),
            keys@.len() == i,
            forall|j: int| 0 <= j < i ==> (#[trigger] keys@[j]).0 == 0 && keys@[j].1@ == nv[j]
                && keys@[j].2@ == Seq::<char>::empty(),
        decreases names.len() - i,
    {
        keys.push((0u32, chars_of(names[i].as_str()), Vec::new()));
        i += 1;
    }
    let ghost kv = key_views(keys@);
    assert forall|j: int| 0 <= j < kv.len() implies #[trigger] kv[j] == (0u32, nv[j], Seq::<char>::empty()) by {}
    let order = stable_sorted_order(&keys);
    let ghost p = order@;
    let r = apply_order(names, &order);
    proof {
        let rv = string_views(r@);
        assert(rv =~= reordered(nv, p));
        lemma_lex_irreflexive(Seq::<char>::empty());
        assert forall|a: int, b: int| 0 <= a < b < rv.len() implies !lex_lt(#[trigger] rv[b], #[trigger] rv[a])
            && (all_distinct(nv) ==> lex_lt(rv[a], rv[b])) by {
            let x = p[a] as int;
            let y = p[b] as int;
            assert(entry_before(kv[x], x, kv[y], y));
            assert(rv[a] == nv[x] && rv[b] == nv[y]);
            if lex_lt(nv[x], nv[y]) {
                if lex_lt(nv[y], nv[x]) {
                    lemma_lex_transitive(nv[x], nv[y], nv[x]);
                    lemma_lex_irreflexive(nv[x]);
                }
            } else {
                assert(nv[x] == nv[y]);
                lemma_lex_irreflexive(nv[x]);
                if all_distinct(nv) {
                    assert(x != y);
                    if x < y {
                        assert(nv[x] != nv[y]);
                    } else {
                        assert(nv[y] != nv[x]);
                    }
                }
            }
        }
    }
    r
}

} // verus!
