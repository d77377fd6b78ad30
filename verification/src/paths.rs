//! Lexical path operations with Unix semantics (`/` separates components).
//!
//! A path is held as text. Its components are the root `/` (for an absolute
//! path) followed by the non-empty parts between separators other than `.`;
//! `..` stands for the parent directory.
use vstd::prelude::*;

use crate::text::{chars_eq, chars_of, extend_chars, join, join_chars, split_char, split_chars, views};

verus! {

/// `p` is absolute: it starts with the root.
pub open spec fn is_absolute(p: Seq<char>) -> bool {
    p.len() > 0 && p[0] == '/'
}

/// `base` joined with `p` (`Path::join`): an absolute `p` replaces `base`,
/// otherwise a separator is added unless `base` is empty or ends in one.
pub open spec fn path_join(base: Seq<char>, p: Seq<char>) -> Seq<char> {
    if is_absolute(p) {
        p
    } else if base.len() == 0 || base.last() == '/' {
        base + p
    } else {
        base + seq!['/'] + p
    }
}

/// A part between separators that names something (not empty, not `.`).
pub open spec fn is_named_part(x: Seq<char>) -> bool {
    x.len() > 0 && x != seq!['.']
}

/// The components of `p`: `"/"` for the root, `".."` for a parent, and the
/// names (`Path::components`, current-directory parts left out).
pub open spec fn components(p: Seq<char>) -> Seq<Seq<char>> {
    let body = split_char(p, '/').filter(|x: Seq<char>| is_named_part(x));
    if is_absolute(p) {
        seq![seq!['/']] + body
    } else {
        body
    }
}

/// The text of a path with the given components.
pub open spec fn from_components(cs: Seq<Seq<char>>) -> Seq<char> {
    if cs.len() > 0 && cs[0] == seq!['/'] {
        seq!['/'] + join(cs.drop_first(), seq!['/'])
    } else {
        join(cs, seq!['/'])
    }
}

/// `b` is a prefix of `a`, component by component (`Path::starts_with`).
pub open spec fn components_start_with(a: Seq<Seq<char>>, b: Seq<Seq<char>>) -> bool {
    b.len() <= a.len() && a.take(b.len() as int) == b
}

/// `base` joined with `p`.
pub fn join_path(base: &str, p: &str) -> (r: String)
    ensures
        r@ == path_join(base@, p@),
{
    let b = chars_of(base);
    let q = chars_of(p);
    let mut out: Vec<char> = Vec::new();
    if q.len() > 0 && q[0] == '/' {
        extend_chars(&mut out, &q);
    } else if b.len() == 0 || b[b.len() - 1] == '/' {
        extend_chars(&mut out, &b);
        extend_chars(&mut out, &q);
    } else {
        extend_chars(&mut out, &b);
        out.push('/');
        extend_chars(&mut out, &q);
    }
    crate::text::string_of(&out)
}

/// The components of `p`.
pub fn components_of(p: &[char]) -> (cs: Vec<Vec<char>>)
    ensures
        views(cs@) == components(p@),
{
    let parts = split_chars(p, '/');
    let ghost ps = split_char(p@, '/');
    let ghost pred = |x: Seq<char>| is_named_part(x);
    let mut cs: Vec<Vec<char>> = Vec::new();
    let absolute = p.len() > 0 && p[0] == '/';
    if absolute {
        let root = vec!['/'];
        assert(root@ =~= seq!['/']);
        cs.push(root);
    }
    let ghost start: Seq<Seq<char>> = if absolute {
        seq![seq!['/']]
    } else {
        Seq::empty()
    };
    assert(views(cs@) =~= start);
    let dot = vec!['.'];
    assert(dot@ =~= seq!['.']);
    let mut k: usize = 0;
    while k < parts.len()
        invariant
            k <= parts.len(),
            ps == views(parts@),
            ps == split_char(p@, '/'),
            pred == (|x: Seq<char>| is_named_part(x)),
            dot@ == seq!['.'],
            views(cs@) == start + ps.take(k as int).filter(pred),
            cs@.len() == start.len() + ps.take(k as int).filter(pred).len(),
        decreases parts.len() - k,
    {
        reveal_with_fuel(Seq::<_>::filter, 1);
        assert(ps.take(k + 1).drop_last() =~= ps.take(k as int));
        assert(ps.take(k + 1).last() == parts@[k as int]@);
        let ghost prev = cs@;
        if parts[k].len() > 0 && !chars_eq(&parts[k], &dot) {
            let piece = crate::text::subvec(&parts[k], 0, parts[k].len());
            assert(parts@[k as int]@.subrange(0, parts@[k as int]@.len() as int) =~= parts@[
                k as int]@);
            cs.push(piece);
            assert forall|j: int| 0 <= j < prev.len() implies #[trigger] cs@[j]@ == views(prev)[j] by {
                assert(cs@[j] == prev[j]);
            }
            assert(views(cs@) =~= views(prev).push(parts@[k as int]@));
        }
        assert(views(cs@) =~= start + ps.take(k + 1).filter(pred));
        k += 1;
    }
    assert(ps.take(parts.len() as int) =~= ps);
    cs
}

/// The text of a path with the given components.
pub fn components_to_text(cs: &Vec<Vec<char>>) -> (r: Vec<char>)
    ensures
        r@ == from_components(views(cs@)),
{
    let slash = vec!['/'];
    assert(slash@ =~= seq!['/']);
    proof {
        reveal_strlit("/");
        assert("/"@ =~= seq!['/']);
    }
    if cs.len() > 0 && chars_eq(&cs[0], &slash) {
        let mut rest: Vec<Vec<char>> = Vec::new();
        let mut i: usize = 1;
        while i < cs.len()
            invariant
                1 <= i <= cs@.len(),
                rest@.len() == i - 1,
                forall|j: int| 0 <= j < rest@.len() ==> #[trigger] rest@[j]@ == cs@[j + 1]@,
            decreases cs.len() - i,
        {
            let piece = crate::text::subvec(&cs[i], 0, cs[i].len());
            assert(cs@[i as int]@.subrange(0, cs@[i as int]@.len() as int) =~= cs@[i as int]@);
            rest.push(piece);
            i += 1;
        }
        assert(views(rest@) =~= views(cs@).drop_first());
        let mut out = vec!['/'];
        assert(out@ =~= seq!['/']);
        let joined = join_chars(&rest, "/");
        extend_chars(&mut out, &joined);
        out
    } else {
        join_chars(cs, "/")
    }
}

/// `a` starts with `b`, component by component.
pub fn starts_with_components(a: &Vec<Vec<char>>, b: &Vec<Vec<char>>) -> (r: bool)
    ensures
        r == components_start_with(views(a@), views(b@)),
{
    if b.len() > a.len() {
        return false;
    }
    let mut i: usize = 0;
    while i < b.len()
        invariant
            i <= b.len() <= a.len(),
            forall|j: int| 0 <= j < i ==> #[trigger] a@[j]@ == b@[j]@,
        decreases b.len() - i,
    {
        if !chars_eq(&a[i], &b[i]) {
            assert(views(a@).take(b@.len() as int)[i as int] == a@[i as int]@);
            return false;
        }
        i += 1;
    }
    assert(views(a@).take(b@.len() as int) =~= views(b@));
    true
}

} // verus!
