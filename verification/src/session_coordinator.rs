//! Session bookkeeping: entry ids, session ids and timestamps.
//!
//! Entry ids are `<prefix>-<n>` with a process-wide sequence number `n`; a
//! resumed session moves the sequence past every id it already holds. Session
//! ids are the creation time in milliseconds, in lowercase hexadecimal.
//! Timestamps are UTC, `YYYY-MM-DDTHH:MM:SSZ`.
use vstd::prelude::*;

use crate::text::{
    chars_of, decimal, decimal_chars, extend_chars, extend_str, find_char, find_char_in, hex,
    hex_chars, parse_u64, parse_u64_spec, string_of, string_views, subvec, zero_pad,
    zero_pad_chars,
};

verus! {

// ---------------------------------------------------------------------------
// Entry ids
// ---------------------------------------------------------------------------

/// The sequence number of an entry id: the number after its first `-`, or
/// 0 when there is none.
pub open spec fn entry_seq_spec(id: Seq<char>) -> u64 {
    match find_char(id, '-') {
        Some(i) => match parse_u64_spec(id.skip(i + 1)) {
            Some(v) => v,
            None => 0,
        },
        None => 0,
    }
}

/// The sequence number of an entry id.
pub fn entry_seq(id: &str) -> (r: u64)
    ensures
        r == entry_seq_spec(id@),
{
    let c = chars_of(id);
    match find_char_in(&c, '-') {
        Some(i) => {
            let n = c.len();
            assert(i < n);
            let rest = subvec(&c, i + 1, n);
            assert(c@.subrange(i + 1, n as int) =~= c@.skip(i + 1));
            match parse_u64(&rest) {
                Some(v) => v,
                None => 0,
            }
        },
        None => 0,
    }
}

/// The largest sequence number among `ids` (0 for none).
pub open spec fn max_seq(ids: Seq<Seq<char>>) -> u64
    decreases ids.len(),
{
    if ids.len() == 0 {
        0
    } else {
        let m = max_seq(ids.drop_last());
        let s = entry_seq_spec(ids.last());
        if s > m {
            s
        } else {
            m
        }
    }
}

/// The next sequence number once a session holding entries `ids` is resumed
/// while the sequence stands at `current`: past the largest number found.
pub open spec fn seq_after_spec(current: u64, ids: Seq<Seq<char>>) -> u64 {
    let m = max_seq(ids);
    if m > 0 && m + 1 > current {
        (m + 1) as u64
    } else {
        current
    }
}

/// The largest sequence number bounds every one.
proof fn lemma_max_seq_bounds(ids: Seq<Seq<char>>)
    ensures
        forall|i: int| 0 <= i < ids.len() ==> entry_seq_spec(#[trigger] ids[i]) <= max_seq(ids),
    decreases ids.len(),
{
    if ids.len() > 0 {
        lemma_max_seq_bounds(ids.drop_last());
        assert forall|i: int| 0 <= i < ids.len() implies entry_seq_spec(#[trigger] ids[i])
            <= max_seq(ids) by {
            if i < ids.len() - 1 {
                assert(ids[i] == ids.drop_last()[i]);
            }
        }
    }
}

/// Advance the sequence `current` past the entry ids of a resumed session.
pub fn seq_after_entries(current: u64, ids: &Vec<String>) -> (r: u64)
    requires
        max_seq(string_views(ids@)) < u64::MAX,
    ensures
        r == seq_after_spec(current, string_views(ids@)),
{
    let ghost iv = string_views(ids@);
    let mut m: u64 = 0;
    let mut i: usize = 0;
    assert(iv.take(0) =~= Seq::<Seq<char>>::empty());
    while i < ids.len()
        invariant
            i <= ids@.len(),
            iv == string_views(ids@),
            m == max_seq(iv.take(i as int)),
        decreases ids.len() - i,
    {
        assert(iv.take(i + 1).drop_last() =~= iv.take(i as int));
        assert(iv.take(i + 1).last() == ids@[i as int]@);
        let s = entry_seq(ids[i].as_str());
        if s > m {
            m = s;
        }
        i += 1;
    }
    assert(iv.take(ids@.len() as int) =~= iv);
    if m > 0 && m + 1 > current {
        m + 1
    } else {
        current
    }
}

/// Every entry id of a resumed session is below the sequence after it, so
/// the ids made from then on are new.
pub proof fn lemma_seq_after_is_fresh(current: u64, ids: Seq<Seq<char>>, i: int)
    requires
        0 <= i < ids.len(),
        entry_seq_spec(ids[i]) > 0,
        max_seq(ids) < u64::MAX,
    ensures
        entry_seq_spec(ids[i]) < seq_after_spec(current, ids),
{
    lemma_max_seq_bounds(ids);
}

/// The entry id `<prefix>-<seq>`.
pub fn entry_id(prefix: &str, seq: u64) -> (r: String)
    ensures
        r@ == prefix@ + seq!['-'] + decimal(seq as nat),
{
    let mut v = chars_of(prefix);
    v.push('-');
    let d = decimal_chars(seq as u128);
    extend_chars(&mut v, &d);
    string_of(&v)
}

// ---------------------------------------------------------------------------
// Session ids
// ---------------------------------------------------------------------------

/// A new session id: the creation time `unix_millis`, in lowercase
/// hexadecimal.
pub fn generate_session_id(unix_millis: u128) -> (r: String)
    ensures
        r@ == hex(unix_millis as nat),
{
    string_of(&hex_chars(unix_millis))
}

// ---------------------------------------------------------------------------
// Calendar
// ---------------------------------------------------------------------------

/// `y` is a leap year of the Gregorian calendar.
pub open spec fn is_leap_year(y: int) -> bool {
    (y % 4 == 0 && y % 100 != 0) || y % 400 == 0
}

/// The days of year `y`.
pub open spec fn year_len(y: int) -> int {
    if is_leap_year(y) {
        366
    } else {
        365
    }
}

/// The days of month `m` (0 for January) of year `y`.
pub open spec fn month_len(y: int, m: int) -> int {
    if m == 1 {
        if is_leap_year(y) {
            29
        } else {
            28
        }
    } else if m == 3 || m == 5 || m == 8 || m == 10 {
        30
    } else {
        31
    }
}

/// The month (0 for January) and day offset of the `days`-th day of year `y`,
/// counting months from `m`.
pub open spec fn civil_month(days: int, y: int, m: int) -> (int, int)
    decreases 12 - m,
{
    if m >= 12 || days < month_len(y, m) {
        (m, days)
    } else {
        civil_month(days - month_len(y, m), y, m + 1)
    }
}

/// The year, month and day (both from 1) of the `days`-th day from the
/// first day of year `y`.
pub open spec fn civil_from(days: int, y: int) -> (int, int, int)
    decreases days,
{
    if days < year_len(y) {
        let (m, d) = civil_month(days, y, 0);
        (y, m + 1, d + 1)
    } else {
        civil_from(days - year_len(y), y + 1)
    }
}

/// The date of day `days` since 1970-01-01.
pub open spec fn civil(days: int) -> (int, int, int) {
    civil_from(days, 1970)
}

/// The days from 1970-01-01 to the first day of year `y`.
pub open spec fn days_until_year(y: int) -> int
    decreases y - 1970,
{
    if y <= 1970 {
        0
    } else {
        days_until_year(y - 1) + year_len(y - 1)
    }
}

/// The days from the first day of year `y` to the first day of month `m`.
pub open spec fn days_until_month(y: int, m: int) -> int
    decreases m,
{
    if m <= 0 {
        0
    } else {
        days_until_month(y, m - 1) + month_len(y, m - 1)
    }
}

/// The twelve months make up the year.
proof fn lemma_months_fill_year(y: int)
    ensures
        days_until_month(y, 12) == year_len(y),
{
    reveal_with_fuel(days_until_month, 13);
}

/// The month search finds the month holding the day.
proof fn lemma_civil_month(days: int, y: int, m: int)
    requires
        0 <= m <= 12,
        0 <= days,
        days_until_month(y, m) + days < year_len(y),
    ensures
        m <= civil_month(days, y, m).0 < 12,
        0 <= civil_month(days, y, m).1 < month_len(y, civil_month(days, y, m).0),
        days_until_month(y, civil_month(days, y, m).0) + civil_month(days, y, m).1
            == days_until_month(y, m) + days,
    decreases 12 - m,
{
    lemma_months_fill_year(y);
    if m >= 12 {
        assert(false);
    } else if days >= month_len(y, m) {
        lemma_civil_month(days - month_len(y, m), y, m + 1);
    }
}

/// The year search finds the year holding the day.
proof fn lemma_civil_from(days: int, y: int)
    requires
        0 <= days,
        1970 <= y,
    ensures
        civil_from(days, y).0 >= y,
        1 <= civil_from(days, y).1 <= 12,
        1 <= civil_from(days, y).2 <= month_len(civil_from(days, y).0, civil_from(days, y).1 - 1),
        days_until_year(civil_from(days, y).0) + days_until_month(
            civil_from(days, y).0,
            civil_from(days, y).1 - 1,
        ) + civil_from(days, y).2 - 1 == days_until_year(y) + days,
    decreases days,
{
    if days < year_len(y) {
        lemma_civil_month(days, y, 0);
    } else {
        lemma_civil_from(days - year_len(y), y + 1);
    }
}

/// `days_to_ymd` gives a valid date, and counting the days up to that date
/// from 1970-01-01 gives back `days`.
pub proof fn lemma_civil_round_trip(days: int)
    requires
        0 <= days,
    ensures
        civil(days).0 >= 1970,
        1 <= civil(days).1 <= 12,
        1 <= civil(days).2 <= month_len(civil(days).0, civil(days).1 - 1),
        days_until_year(civil(days).0) + days_until_month(civil(days).0, civil(days).1 - 1)
            + civil(days).2 - 1 == days,
{
    lemma_civil_from(days, 1970);
}

/// `y` is a leap year.
pub fn is_leap(y: u64) -> (r: bool)
    ensures
        r == is_leap_year(y as int),
{
    (y % 4 == 0 && y % 100 != 0) || y % 400 == 0
}

/// The days of month `m` (0 for January) of year `y`.
fn month_days(y: u64, m: u64) -> (r: u64)
    ensures
        r == month_len(y as int, m as int),
{
    if m == 1 {
        if is_leap(y) { 29 } else { 28 }
    } else if m == 3 || m == 5 || m == 8 || m == 10 {
        30
    } else {
        31
    }
}

/// The date of day `days` since 1970-01-01: year, month and day (both from
/// 1).
pub fn days_to_ymd(days: u64) -> (r: (u64, u64, u64))
    ensures
        (r.0 as int, r.1 as int, r.2 as int) == civil(days as int),
{
    let mut days = days;
    let ghost days0 = days as int;
    let mut year: u64 = 1970;
    loop
        invariant
            1970 <= year,
            365 * (year - 1970) <= days0 - days,
            days <= days0,
            days0 <= u64::MAX,
            civil(days0) == civil_from(days as int, year as int),
        ensures
            1970 <= year,
            days < year_len(year as int),
            civil(days0) == civil_from(days as int, year as int),
        decreases days,
    {
        let diy: u64 = if is_leap(year) { 366 } else { 365 };
        assert(diy == year_len(year as int));
        if days < diy {
            break;
        }
        days = days - diy;
        year = year + 1;
    }
    let ghost target = civil_month(days as int, year as int, 0);
    let mut month: u64 = 0;
    loop
        invariant
            month <= 12,
            days < 366,
            civil_month(days as int, year as int, month as int) == target,
        ensures
            month <= 12,
            days < 366,
            target == (month as int, days as int),
        decreases 12 - month,
    {
        if month >= 12 {
            break;
        }
        let d = month_days(year, month);
        if days < d {
            break;
        }
        days = days - d;
        month = month + 1;
    }
    (year, month + 1, days + 1)
}

/// `n` in decimal, zero-padded to `width` digits.
pub open spec fn padded(n: int, width: nat) -> Seq<char> {
    zero_pad(decimal(n as nat), width)
}

/// The UTC timestamp `YYYY-MM-DDTHH:MM:SSZ` of `secs` seconds since the
/// Unix epoch.
pub open spec fn iso_spec(secs: int) -> Seq<char> {
    let days = secs / 86400;
    let tod = secs % 86400;
    let date = civil(days);
    padded(date.0, 4) + seq!['-'] + padded(date.1, 2) + seq!['-'] + padded(date.2, 2) + seq!['T']
        + padded(tod / 3600, 2) + seq![':'] + padded((tod % 3600) / 60, 2) + seq![':'] + padded(
        tod % 60,
        2,
    ) + seq!['Z']
}

/// `n` in decimal, zero-padded to `width` digits, appended to `v`.
fn push_padded(v: &mut Vec<char>, n: u64, width: usize)
    ensures
        final(v)@ == old(v)@ + padded(n as int, width as nat),
{
    let d = decimal_chars(n as u128);
    let p = zero_pad_chars(&d, width);
    extend_chars(v, &p);
}

/// The UTC timestamp of `unix_secs` (the current time, as the caller reads
/// it), as `YYYY-MM-DDTHH:MM:SSZ`.
pub fn now_iso(unix_secs: u64) -> (r: String)
    ensures
        r@ == iso_spec(unix_secs as int),
{
    let days = unix_secs / 86400;
    let tod = unix_secs % 86400;
    let h = tod / 3600;
    let m = (tod % 3600) / 60;
    let sec = tod % 60;
    let (y, mo, d) = days_to_ymd(days);
    let mut v: Vec<char> = Vec::new();
    push_padded(&mut v, y, 4);
    v.push('-');
    push_padded(&mut v, mo, 2);
    v.push('-');
    push_padded(&mut v, d, 2);
    v.push('T');
    push_padded(&mut v, h, 2);
    v.push(':');
    push_padded(&mut v, m, 2);
    v.push(':');
    push_padded(&mut v, sec, 2);
    v.push('Z');
    assert(v@ =~= iso_spec(unix_secs as int));
    string_of(&v)
}

} // verus!
