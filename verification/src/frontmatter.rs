//! Markdown frontmatter parsing and the name and description rules shared by
//! skills, prompt fragments, themes and packages.
use vstd::prelude::*;

use crate::text::{
    chars_of, decimal, decimal_chars, extend_chars, extend_str, find, find_chars, find_from,
    lines, lines_of, occurs_at, starts_with, starts_with_chars, starts_with_str, string_of, subvec,
    trim, trim_chars, trim_start, trim_start_chars, trim_start_newlines, trim_start_newlines_chars,
    utf8_len, utf8_len_of, utf8_width, views, ends_with, lemma_find_from_occurs,
};

verus! {

/// Maximum byte length of a resource name.
pub const MAX_NAME_LEN: usize = 64;

/// Maximum byte length of a resource description.
pub const MAX_DESCRIPTION_LEN: usize = 1024;

/// Why a manifest file has no frontmatter.
#[derive(Debug, Clone, Copy, PartialEq, Eq)]
pub enum FrontmatterError {
    /// The content (after leading whitespace) does not start with `---`.
    MissingOpening,
    /// No closing `---` line follows the opening one.
    MissingClosing,
}

/// What is wrong with a resource name.
#[derive(Debug, Clone, Copy, PartialEq, Eq)]
pub enum NameProblem {
    /// The name is longer than 64 bytes; `len` is its byte length.
    TooLong { len: u128 },
    /// The name holds a character outside `a-z`, `0-9` and `-`.
    InvalidChar { ch: char },
}

// ---------------------------------------------------------------------------
// Spec
// ---------------------------------------------------------------------------

/// The rest of `s` after its first `n` UTF-8 bytes (`str::get(n..)`), or
/// `None` when byte `n` is past the end or inside a character.
pub open spec fn skip_bytes(s: Seq<char>, n: int) -> Option<Seq<char>>
    decreases s.len(),
{
    if n == 0 {
        Some(s)
    } else if n < 0 || s.len() == 0 {
        None
    } else {
        skip_bytes(s.drop_first(), n - utf8_width(s[0]))
    }
}

/// The text after the opening `---` (whatever the first three bytes are),
/// without the line breaks that follow it.
pub open spec fn after_opening(content: Seq<char>) -> Seq<char> {
    let t = trim_start(content);
    let rest = match skip_bytes(t, 3) {
        Some(r) => r,
        None => Seq::<char>::empty(),
    };
    trim_start_newlines(rest)
}

/// Where the closing delimiter starts in `a`, and where the body starts.
pub open spec fn closing_delimiter(a: Seq<char>) -> Option<(int, int)> {
    match find(a, "\n---"@) {
        Some(p) => Some((p, p + 4)),
        None => match find(a, "\r\n---"@) {
            Some(p) => Some((p, p + 5)),
            None => None,
        },
    }
}

/// The frontmatter of a markdown manifest: the text between the opening
/// `---` and the closing `---`.
pub open spec fn frontmatter_spec(content: Seq<char>) -> Result<Seq<char>, FrontmatterError> {
    if !starts_with(trim_start(content), "---"@) {
        Err(FrontmatterError::MissingOpening)
    } else {
        let a = after_opening(content);
        match closing_delimiter(a) {
            Some((p, _)) => Ok(a.take(p)),
            None => Err(FrontmatterError::MissingClosing),
        }
    }
}

/// The body of a markdown manifest: what follows the closing `---`,
/// without the line breaks right after it; empty without a closing line.
pub open spec fn body_spec(content: Seq<char>) -> Seq<char> {
    let a = after_opening(content);
    match closing_delimiter(a) {
        Some((_, b)) => trim_start_newlines(a.skip(b)),
        None => Seq::<char>::empty(),
    }
}

/// The value of the first line of `ls` that, trimmed, starts with `prefix`.
pub open spec fn field_in(ls: Seq<Seq<char>>, prefix: Seq<char>) -> Option<Seq<char>>
    decreases ls.len(),
{
    if ls.len() == 0 {
        None
    } else if starts_with(trim(ls[0]), prefix) {
        Some(trim(trim(ls[0]).skip(prefix.len() as int)))
    } else {
        field_in(ls.drop_first(), prefix)
    }
}

/// The value of the `key: value` line for `key` in frontmatter `fm`.
pub open spec fn field_spec(fm: Seq<char>, key: Seq<char>) -> Option<Seq<char>> {
    field_in(lines(fm), key.push(':'))
}

/// `v` begins and ends with the same quote character.
pub open spec fn quoted(v: Seq<char>) -> bool {
    ||| (starts_with(v, seq!['"']) && ends_with(v, seq!['"']))
    ||| (starts_with(v, seq!['\'']) && ends_with(v, seq!['\'']))
}

/// `v` is a single quote character, on which quote stripping fails.
pub open spec fn lone_quote(v: Seq<char>) -> bool {
    quoted(v) && v.len() < 2
}

/// `v` without its surrounding quotes.
pub open spec fn strip_quotes(v: Seq<char>) -> Seq<char> {
    if quoted(v) {
        v.subrange(1, v.len() - 1)
    } else {
        v
    }
}

/// `c` may stand in a name; with `underscore`, `'_'` may too.
pub open spec fn allowed_char(c: char, underscore: bool) -> bool {
    ||| ('a' <= c && c <= 'z')
    ||| ('0' <= c && c <= '9')
    ||| c == '-'
    ||| (underscore && c == '_')
}

/// The first character of `s` that may not stand in a name.
pub open spec fn first_disallowed(s: Seq<char>, underscore: bool) -> Option<char>
    decreases s.len(),
{
    if s.len() == 0 {
        None
    } else if !allowed_char(s[0], underscore) {
        Some(s[0])
    } else {
        first_disallowed(s.drop_first(), underscore)
    }
}

/// The first problem with a resource name, if any.
pub open spec fn name_problem(s: Seq<char>) -> Option<NameProblem> {
    if utf8_len(s) > MAX_NAME_LEN {
        Some(NameProblem::TooLong { len: utf8_len(s) as u128 })
    } else {
        match first_disallowed(s, false) {
            Some(c) => Some(NameProblem::InvalidChar { ch: c }),
            None => None,
        }
    }
}

/// The reason text for a name problem.
pub open spec fn name_reason(p: NameProblem) -> Seq<char> {
    match p {
        NameProblem::TooLong { len } => "name exceeds maximum length of 64 characters ("@
            + decimal(len as nat) + " found)"@,
        NameProblem::InvalidChar { ch } => "name contains invalid character '"@ + seq![ch]
            + "': only lowercase a-z, 0-9, and hyphens are allowed"@,
    }
}

/// The reason text for a description of `len` characters that is too long.
pub open spec fn description_reason(len: nat) -> Seq<char> {
    "description exceeds maximum length of 1024 characters ("@ + decimal(len) + " found)"@
}

// ---------------------------------------------------------------------------
// Exec
// ---------------------------------------------------------------------------

/// The rest of `s` after its first `n` UTF-8 bytes.
pub fn skip_bytes_chars(s: &[char], n: usize) -> (r: Option<Vec<char>>)
    ensures
        r is Some <==> skip_bytes(s@, n as int) is Some,
        r matches Some(v) ==> skip_bytes(s@, n as int) == Some(v@),
{
    let mut i: usize = 0;
    let mut left: usize = n;
    assert(s@.skip(0) =~= s@);
    while left > 0 && i < s.len()
        invariant
            i <= s.len(),
            skip_bytes(s@, n as int) == skip_bytes(s@.skip(i as int), left as int),
        decreases s.len() - i,
    {
        assert(s@.skip(i as int).drop_first() =~= s@.skip(i + 1));
        let u = s[i] as u32;
        let w: usize = if u < 0x80 {
            1
        } else if u < 0x800 {
            2
        } else if u < 0x10000 {
            3
        } else {
            4
        };
        if w > left {
            assert(skip_bytes(s@.skip(i + 1), left - w) is None) by {
                reveal_with_fuel(skip_bytes, 2);
            }
            return None;
        }
        left = left - w;
        i += 1;
    }
    if left > 0 {
        return None;
    }
    assert(s@.skip(i as int) =~= s@.subrange(i as int, s.len() as int));
    Some(subvec(s, i, s.len()))
}

/// The text after the opening delimiter of `content`.
pub fn after_opening_chars(content: &[char]) -> (a: Vec<char>)
    ensures
        a@ == after_opening(content@),
{
    let t = trim_start_chars(content);
    let rest = match skip_bytes_chars(&t, 3) {
        Some(r) => r,
        None => Vec::new(),
    };
    trim_start_newlines_chars(&rest)
}

/// Where the closing delimiter starts, and where the body starts.
pub fn closing_delimiter_of(a: &[char]) -> (r: Option<(usize, usize)>)
    ensures
        r is Some <==> closing_delimiter(a@) is Some,
        r matches Some((p, b)) ==> closing_delimiter(a@) == Some((p as int, b as int)) && p
            <= a.len() && b <= a.len(),
{
    let nl = chars_of("\n---");
    proof {
        reveal_strlit("\n---");
        reveal_strlit("\r\n---");
    }
    match find_chars(a, &nl) {
        Some(p) => {
            proof {
                lemma_find_from_occurs(a@, nl@, 0);
            }
            assert(occurs_at(a@, nl@, p as int));
            assert(nl@.len() == 4);
            assert(p + 4 <= a.len());
            let b: usize = p + 4;
            Some((p, b))
        },
        None => {
            let crnl = chars_of("\r\n---");
            match find_chars(a, &crnl) {
                Some(p) => {
                    proof {
                        lemma_find_from_occurs(a@, crnl@, 0);
                    }
                    assert(occurs_at(a@, crnl@, p as int));
                    assert(crnl@.len() == 5);
                    assert(p + 5 <= a.len());
                    let b: usize = p + 5;
                    Some((p, b))
                },
                None => None,
            }
        },
    }
}

/// The frontmatter of a markdown manifest.
pub fn extract_frontmatter(content: &[char]) -> (r: Result<Vec<char>, FrontmatterError>)
    ensures
        r matches Ok(v) ==> frontmatter_spec(content@) == Ok::<Seq<char>, FrontmatterError>(
            v@,
        ),
        r matches Err(e) ==> frontmatter_spec(content@) == Err::<Seq<char>, FrontmatterError>(
            e,
        ),
{
    let t = trim_start_chars(content);
    if !starts_with_str(&t, "---") {
        return Err(FrontmatterError::MissingOpening);
    }
    let a = after_opening_chars(content);
    match closing_delimiter_of(&a) {
        Some((p, _)) => {
            assert(a@.subrange(0, p as int) =~= a@.take(p as int));
            Ok(subvec(&a, 0, p))
        },
        None => Err(FrontmatterError::MissingClosing),
    }
}

/// The body of a markdown manifest.
pub fn extract_body(content: &[char]) -> (v: Vec<char>)
    ensures
        v@ == body_spec(content@),
{
    let a = after_opening_chars(content);
    match closing_delimiter_of(&a) {
        Some((_, b)) => {
            let rest = subvec(&a, b, a.len());
            assert(a@.subrange(b as int, a.len() as int) =~= a@.skip(b as int));
            trim_start_newlines_chars(&rest)
        },
        None => Vec::new(),
    }
}

/// The value of the `key: value` line for `key` in frontmatter `fm`.
pub fn parse_field(fm: &[char], key: &str) -> (r: Option<Vec<char>>)
    ensures
        r is Some <==> field_spec(fm@, key@) is Some,
        r matches Some(v) ==> field_spec(fm@, key@) == Some(v@),
{
    let ls = lines_of(fm);
    let mut prefix = chars_of(key);
    prefix.push(':');
    let ghost lsv = views(ls@);
    let mut k: usize = 0;
    assert(lsv.skip(0) =~= lsv);
    while k < ls.len()
        invariant
            k <= ls.len(),
            lsv == views(ls@),
            lsv == lines(fm@),
            prefix@ == key@.push(':'),
            field_in(lsv, prefix@) == field_in(lsv.skip(k as int), prefix@),
        decreases ls.len() - k,
    {
        assert(lsv.skip(k as int)[0] == ls@[k as int]@);
        assert(lsv.skip(k as int).drop_first() =~= lsv.skip(k + 1));
        let line = trim_chars(&ls[k]);
        if starts_with_chars(&line, &prefix) {
            let rest = subvec(&line, prefix.len(), line.len());
            assert(line@.subrange(prefix.len() as int, line.len() as int) =~= line@.skip(
                prefix.len() as int,
            ));
            return Some(trim_chars(&rest));
        }
        k += 1;
    }
    None
}

/// `v` is a single quote character.
pub fn is_lone_quote(v: &[char]) -> (b: bool)
    ensures
        b == lone_quote(v@),
{
    proof {
        if v@.len() == 1 {
            assert(v@.take(1) =~= seq![v@[0]]);
            assert(v@.skip(0) =~= seq![v@[0]]);
        }
    }
    let b = v.len() == 1 && (v[0] == '"' || v[0] == '\'');
    proof {
        if !b && v@.len() == 1 {
            assert(v@.take(1)[0] == v@[0]);
            assert(v@.skip(0)[0] == v@[0]);
            assert(!starts_with(v@, seq!['"']));
            assert(!starts_with(v@, seq!['\'']));
        }
        if b {
            assert(starts_with(v@, seq![v@[0]]));
            assert(ends_with(v@, seq![v@[0]]));
            assert(quoted(v@));
        }
    }
    b
}

/// `v` without its surrounding quotes.
pub fn strip_yaml_quotes(v: &[char]) -> (r: Vec<char>)
    requires
        !lone_quote(v@),
    ensures
        r@ == strip_quotes(v@),
{
    let n = v.len();
    let is_quoted = n > 0 && ((v[0] == '"' && v[n - 1] == '"') || (v[0] == '\'' && v[n - 1]
        == '\''));
    proof {
        if n > 0 {
            assert(v@.take(1) =~= seq![v@[0]]);
            assert(v@.skip(n - 1) =~= seq![v@[n - 1]]);
        }
    }
    if is_quoted {
        subvec(v, 1, n - 1)
    } else {
        assert(v@.subrange(0, n as int) =~= v@);
        subvec(v, 0, n)
    }
}

/// The first character of `s` that may not stand in a name.
pub fn first_disallowed_char(s: &[char], underscore: bool) -> (r: Option<char>)
    ensures
        r == first_disallowed(s@, underscore),
{
    let mut i: usize = 0;
    assert(s@.skip(0) =~= s@);
    while i < s.len()
        invariant
            i <= s.len(),
            first_disallowed(s@, underscore) == first_disallowed(s@.skip(i as int), underscore),
        decreases s.len() - i,
    {
        let c = s[i];
        assert(s@.skip(i as int).drop_first() =~= s@.skip(i + 1));
        let ok = ('a' <= c && c <= 'z') || ('0' <= c && c <= '9') || c == '-' || (underscore && c
            == '_');
        if !ok {
            return Some(c);
        }
        i += 1;
    }
    None
}

/// The first problem with a resource name, if any.
pub fn check_name(s: &[char]) -> (r: Option<NameProblem>)
    ensures
        r == name_problem(s@),
{
    let len = utf8_len_of(s);
    if len > 64 {
        return Some(NameProblem::TooLong { len });
    }
    match first_disallowed_char(s, false) {
        Some(c) => Some(NameProblem::InvalidChar { ch: c }),
        None => None,
    }
}

/// The reason text for a name problem.
pub fn name_reason_text(p: NameProblem) -> (r: String)
    ensures
        r@ == name_reason(p),
{
    let mut v: Vec<char> = Vec::new();
    match p {
        NameProblem::TooLong { len } => {
            extend_str(&mut v, "name exceeds maximum length of 64 characters (");
            let d = decimal_chars(len);
            extend_chars(&mut v, &d);
            extend_str(&mut v, " found)");
        },
        NameProblem::InvalidChar { ch } => {
            extend_str(&mut v, "name contains invalid character '");
            v.push(ch);
            extend_str(&mut v, "': only lowercase a-z, 0-9, and hyphens are allowed");
        },
    }
    string_of(&v)
}

/// The number of characters of `desc` when it has more than 1024.
pub fn description_too_long(desc: &[char]) -> (r: Option<u128>)
    ensures
        r is Some <==> desc@.len() > MAX_DESCRIPTION_LEN,
        r matches Some(n) ==> n == desc@.len(),
{
    let len = desc.len();
    if len > 1024 {
        Some(len as u128)
    } else {
        None
    }
}

/// The reason text for a description of `len` characters that is too long.
pub fn description_reason_text(len: u128) -> (r: String)
    ensures
        r@ == description_reason(len as nat),
{
    let mut v: Vec<char> = Vec::new();
    extend_str(&mut v, "description exceeds maximum length of 1024 characters (");
    let d = decimal_chars(len);
    extend_chars(&mut v, &d);
    extend_str(&mut v, " found)");
    string_of(&v)
}

/// A name without a problem is at most 64 characters long, and made of lowercase letters, digits and hyphens only.
pub proof fn lemma_valid_name(s: Seq<char>)
    requires
        name_problem(s) is None,
    ensures
        s.len() <= MAX_NAME_LEN,
        forall|i: int| 0 <= i < s.len() ==> allowed_char(#[trigger] s[i], false),
{
    lemma_utf8_len_at_least(s);
    lemma_first_disallowed_none(s, false);
}

proof fn lemma_utf8_len_at_least(s: Seq<char>)
    ensures
        utf8_len(s) >= s.len(),
    decreases s.len(),
{
    if s.len() > 0 {
        lemma_utf8_len_at_least(s.drop_last());
    }
}

proof fn lemma_first_disallowed_none(s: Seq<char>, underscore: bool)
    requires
        first_disallowed(s, underscore) is None,
    ensures
        forall|i: int| 0 <= i < s.len() ==> allowed_char(#[trigger] s[i], underscore),
    decreases s.len(),
{
    if s.len() > 0 {
        lemma_first_disallowed_none(s.drop_first(), underscore);
        assert forall|i: int| 0 <= i < s.len() implies allowed_char(#[trigger] s[i], underscore) by {
            if i > 0 {
                assert(s[i] == s.drop_first()[i - 1]);
            }
        }
    }
}

} // verus!
