//! `opi --list-models`: the models of the configured providers as a table.
//!
//! Each column is as wide as its widest value, counted in bytes as
//! `str::len` counts them; values are padded with spaces, counted in
//! characters as `format!("{:<w$}")` counts them.
use vstd::prelude::*;

use crate::text::{chars_of, extend_chars, extend_str, string_of, utf8_len, utf8_len_of};

verus! {

/// One row of the model listing.
#[derive(Debug)]
pub struct ModelEntry {
    pub provider_id: String,
    pub model_id: String,
    pub display_name: String,
}

/// The largest of the numbers, or 0.
pub open spec fn max_of(ws: Seq<nat>) -> nat
    decreases ws.len(),
{
    if ws.len() == 0 {
        0
    } else {
        let m = max_of(ws.drop_last());
        if ws.last() > m {
            ws.last()
        } else {
            m
        }
    }
}

/// The width of the provider column.
pub open spec fn provider_width(es: Seq<ModelEntry>) -> nat {
    max_of(Seq::new(es.len(), |i: int| utf8_len(es[i].provider_id@)))
}

/// The width of the model column.
pub open spec fn model_width(es: Seq<ModelEntry>) -> nat {
    max_of(Seq::new(es.len(), |i: int| utf8_len(es[i].model_id@)))
}

/// The width of the display-name column's rule.
pub open spec fn name_width(es: Seq<ModelEntry>) -> nat {
    max_of(Seq::new(es.len(), |i: int| utf8_len(es[i].display_name@)))
}

/// `s` padded with spaces on the right to at least `w` characters.
pub open spec fn pad_right(s: Seq<char>, w: nat) -> Seq<char> {
    if s.len() >= w {
        s
    } else {
        s + Seq::new((w - s.len()) as nat, |i: int| ' ')
    }
}

/// `n` dashes.
pub open spec fn dashes(n: nat) -> Seq<char> {
    Seq::new(n, |i: int| '-')
}

/// The lines of the table: a header, a rule, then one row per model.
pub open spec fn model_table_spec(es: Seq<ModelEntry>) -> Seq<Seq<char>> {
    let p = provider_width(es);
    let m = model_width(es);
    seq![
        pad_right("PROVIDER"@, p) + "  "@ + pad_right("MODEL ID"@, m) + "  DISPLAY NAME"@,
        dashes(p) + "  "@ + dashes(m) + "  "@ + dashes(name_width(es)),
    ] + Seq::new(
        es.len(),
        |i: int|
            pad_right(es[i].provider_id@, p) + "  "@ + pad_right(es[i].model_id@, m) + "  "@
                + es[i].display_name@,
    )
}

/// Pad `s` with spaces to at least `w` characters.
fn pad_right_chars(s: &[char], w: u128) -> (r: Vec<char>)
    ensures
        r@ == pad_right(s@, w as nat),
{
    let mut v: Vec<char> = Vec::new();
    extend_chars(&mut v, s);
    let mut n: u128 = s.len() as u128;
    while n < w
        invariant
            n >= s@.len(),
            s@.len() >= w ==> n == s@.len(),
            s@.len() < w ==> n <= w,
            v@ == s@ + Seq::new((n - s@.len()) as nat, |i: int| ' '),
        decreases w - n,
    {
        v.push(' ');
        n += 1;
        assert(v@ =~= s@ + Seq::new((n - s@.len()) as nat, |i: int| ' '));
    }
    proof {
        if s@.len() >= w {
            assert(v@ =~= s@);
        }
    }
    v
}

/// `n` dashes.
fn dashes_chars(n: u128) -> (r: Vec<char>)
    ensures
        r@ == dashes(n as nat),
{
    let mut v: Vec<char> = Vec::new();
    let mut k: u128 = 0;
    while k < n
        invariant
            k <= n,
            v@ == dashes(k as nat),
        decreases n - k,
    {
        v.push('-');
        k += 1;
        assert(v@ =~= dashes(k as nat));
    }
    v
}

/// The widths of the three columns.
fn column_widths(es: &Vec<ModelEntry>) -> (r: (u128, u128, u128))
    ensures
        r.0 == provider_width(es@),
        r.1 == model_width(es@),
        r.2 == name_width(es@),
{
    let ghost pw = Seq::new(es@.len(), |i: int| utf8_len(es@[i].provider_id@));
    let ghost mw = Seq::new(es@.len(), |i: int| utf8_len(es@[i].model_id@));
    let ghost nw = Seq::new(es@.len(), |i: int| utf8_len(es@[i].display_name@));
    let mut p: u128 = 0;
    let mut m: u128 = 0;
    let mut d: u128 = 0;
    let mut i: usize = 0;
    while i < es.len()
        invariant
            i <= es@.len(),
            pw == Seq::new(es@.len(), |i: int| utf8_len(es@[i].provider_id@)),
            mw == Seq::new(es@.len(), |i: int| utf8_len(es@[i].model_id@)),
            nw == Seq::new(es@.len(), |i: int| utf8_len(es@[i].display_name@)),
            p == max_of(pw.take(i as int)),
            m == max_of(mw.take(i as int)),
            d == max_of(nw.take(i as int)),
        decreases es.len() - i,
    {
        assert(pw.take(i + 1).drop_last() =~= pw.take(i as int));
        assert(mw.take(i + 1).drop_last() =~= mw.take(i as int));
        assert(nw.take(i + 1).drop_last() =~= nw.take(i as int));
        let a = utf8_len_of(&chars_of(es[i].provider_id.as_str()));
        let b = utf8_len_of(&chars_of(es[i].model_id.as_str()));
        let c = utf8_len_of(&chars_of(es[i].display_name.as_str()));
        if a > p {
            p = a;
        }
        if b > m {
            m = b;
        }
        if c > d {
            d = c;
        }
        i += 1;
    }
    assert(pw.take(es@.len() as int) =~= pw);
    assert(mw.take(es@.len() as int) =~= mw);
    assert(nw.take(es@.len() as int) =~= nw);
    (p, m, d)
}

/// The lines of the model table.
pub fn model_table_lines(entries: &Vec<ModelEntry>) -> (r: Vec<String>)
    ensures
        r@.len() == entries@.len() + 2,
        forall|i: int| 0 <= i < r@.len() ==> #[trigger] r@[i]@ == model_table_spec(entries@)[i],
{
    let (p, m, d) = column_widths(entries);
    let mut out: Vec<String> = Vec::new();
    let mut h = pad_right_chars(&chars_of("PROVIDER"), p);
    extend_str(&mut h, "  ");
    extend_chars(&mut h, &pad_right_chars(&chars_of("MODEL ID"), m));
    extend_str(&mut h, "  DISPLAY NAME");
    out.push(string_of(&h));
    let mut rule = dashes_chars(p);
    extend_str(&mut rule, "  ");
    extend_chars(&mut rule, &dashes_chars(m));
    extend_str(&mut rule, "  ");
    extend_chars(&mut rule, &dashes_chars(d));
    out.push(string_of(&rule));
    let ghost spec = model_table_spec(entries@);
    let mut i: usize = 0;
    while i < entries.len()
        invariant
            i <= entries@.len(),
            spec == model_table_spec(entries@),
            p == provider_width(entries@),
            m == model_width(entries@),
            out@.len() == i + 2,
            forall|k: int| 0 <= k < i + 2 ==> #[trigger] out@[k]@ == spec[k],
        decreases entries.len() - i,
    {
        let e = &entries[i];
        let mut row = pad_right_chars(&chars_of(e.provider_id.as_str()), p);
        extend_str(&mut row, "  ");
        extend_chars(&mut row, &pad_right_chars(&chars_of(e.model_id.as_str()), m));
        extend_str(&mut row, "  ");
        extend_str(&mut row, e.display_name.as_str());
        out.push(string_of(&row));
        i += 1;
    }
    out
}

} // verus!
