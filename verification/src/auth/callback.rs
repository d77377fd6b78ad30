//! The loopback OAuth callback: what each request to the local server is
//! answered, and when the login finishes.
//!
//! Only `GET /auth/callback?...` is considered. An `error` parameter ends
//! the login with that error; otherwise the `state` must match the one the
//! login started with (CSRF protection) and a `code` must be present.
use vstd::prelude::*;

use crate::text::{
    chars_of, contains, decimal, decimal_chars, extend_chars, extend_str, find_char, find_char_in,
    lines, lines_of, split_char, split_chars, split_whitespace_chars, starts_with, starts_with_str,
    str_eq, string_of, subvec, utf8_len, utf8_len_of, views, words,
};

verus! {

/// The outcome of a successful callback.
#[derive(Debug)]
pub struct CallbackResult {
    pub code: String,
    pub state: String,
}

/// What `percent_encoding::percent_decode_str(s).decode_utf8_lossy()` gives.
pub uninterp spec fn percent_decoded(s: Seq<char>) -> Seq<char>;

/// Percent-decode a query value (`%` and two hex digits become that byte;
/// invalid UTF-8 in the result becomes U+FFFD).
///
/// Calls `percent_encoding::percent_decode_str` and `decode_utf8_lossy`. The
/// contract names the result, and states that a value without `%` comes
/// back unchanged: the decoder passes every other byte through, and the
/// bytes of a `&str` are valid UTF-8.
#[verifier::external_body]
fn percent_decode(s: &str) -> (r: String)
    ensures
        r@ == percent_decoded(s@),
        !contains(s@, seq!['%']) ==> r@ == s@,
{
    percent_encoding::percent_decode_str(s).decode_utf8_lossy().into_owned()
}

/// The parameters of a query string, in order: each `&`-separated part
/// holding `=` gives the text before the first `=` and the decoded text
/// after it; parts without `=` are ignored.
pub open spec fn query_pairs(parts: Seq<Seq<char>>) -> Seq<(Seq<char>, Seq<char>)>
    decreases parts.len(),
{
    if parts.len() == 0 {
        Seq::empty()
    } else {
        let prev = query_pairs(parts.drop_last());
        let p = parts.last();
        match find_char(p, '=') {
            Some(i) => prev.push((p.take(i), percent_decoded(p.skip(i + 1)))),
            None => prev,
        }
    }
}

/// The value of the last parameter named `k` (later ones win).
pub open spec fn lookup_last(pairs: Seq<(Seq<char>, Seq<char>)>, k: Seq<char>) -> Option<Seq<char>>
    decreases pairs.len(),
{
    if pairs.len() == 0 {
        None
    } else if pairs.last().0 == k {
        Some(pairs.last().1)
    } else {
        lookup_last(pairs.drop_last(), k)
    }
}

/// The plain values of parameters.
pub open spec fn pair_views(pairs: Seq<(String, String)>) -> Seq<(Seq<char>, Seq<char>)> {
    pairs.map_values(|p: (String, String)| (p.0@, p.1@))
}

/// Parse a query string into its parameters, in order.
pub fn parse_query_string(query: &str) -> (r: Vec<(String, String)>)
    ensures
        pair_views(r@) == query_pairs(split_char(query@, '&')),
{
    let c = chars_of(query);
    let parts = split_chars(&c, '&');
    let ghost ps = views(parts@);
    let mut out: Vec<(String, String)> = Vec::new();
    let mut i: usize = 0;
    assert(ps.take(0) =~= Seq::<Seq<char>>::empty());
    assert(pair_views(out@) =~= query_pairs(ps.take(0)));
    while i < parts.len()
        invariant
            i <= parts@.len(),
            ps == views(parts@),
            pair_views(out@) == query_pairs(ps.take(i as int)),
        decreases parts.len() - i,
    {
        assert(ps.take(i + 1).drop_last() =~= ps.take(i as int));
        assert(ps.take(i + 1).last() == parts@[i as int]@);
        match find_char_in(&parts[i], '=') {
            Some(eq) => {
                let plen = parts[i].len();
                assert(eq < plen);
                let k = subvec(&parts[i], 0, eq);
                let v = subvec(&parts[i], eq + 1, parts[i].len());
                assert(parts@[i as int]@.subrange(0, eq as int) =~= parts@[i as int]@.take(eq as int));
                assert(parts@[i as int]@.subrange(eq + 1, parts@[i as int]@.len() as int)
                    =~= parts@[i as int]@.skip(eq + 1));
                let vs = string_of(&v);
                let decoded = percent_decode(vs.as_str());
                let ghost prev = out@;
                out.push((string_of(&k), decoded));
                assert(pair_views(out@) =~= pair_views(prev).push((k@, decoded@)));
            },
            None => {},
        }
        i += 1;
    }
    assert(ps.take(parts@.len() as int) =~= ps);
    out
}

/// The value of the last parameter named `key`.
pub fn query_get(pairs: &Vec<(String, String)>, key: &str) -> (r: Option<String>)
    ensures
        match lookup_last(pair_views(pairs@), key@) {
            Some(v) => r matches Some(s) && s@ == v,
            None => r is None,
        },
{
    let ghost pv = pair_views(pairs@);
    let mut i: usize = pairs.len();
    assert(pv.take(i as int) =~= pv);
    while i > 0
        invariant
            i <= pairs@.len(),
            pv == pair_views(pairs@),
            lookup_last(pv, key@) == lookup_last(pv.take(i as int), key@),
        decreases i,
    {
        assert(pv.take(i as int).drop_last() =~= pv.take(i - 1));
        assert(pv.take(i as int).last() == (pairs@[i - 1].0@, pairs@[i - 1].1@));
        if str_eq(pairs[i - 1].0.as_str(), key) {
            return Some(pairs[i - 1].1.clone());
        }
        i -= 1;
    }
    None
}

// ---------------------------------------------------------------------------
// Pages
// ---------------------------------------------------------------------------

/// The page shown after a successful login.
pub const SUCCESS_HTML: &'static str = r#"<!DOCTYPE html>
<html>
<head>
    <meta charset="utf-8">
    <title>Opi Login Successful</title>
    <style>
        body {
            font-family: -apple-system, BlinkMacSystemFont, "Segoe UI", Roboto, Helvetica, Arial, sans-serif;
            background-color: #0d1117;
            color: #c9d1d9;
            display: flex;
            justify-content: center;
            align-items: center;
            height: 100vh;
            margin: 0;
        }
        .container {
            text-align: center;
            padding: 30px;
            background-color: #161b22;
            border: 1px solid #30363d;
            border-radius: 8px;
            box-shadow: 0 4px 10px rgba(0, 0, 0, 0.3);
            max-width: 400px;
        }
        h1 {
            color: #2ea44f;
            margin-bottom: 15px;
        }
        p {
            font-size: 16px;
            line-height: 1.5;
        }
        .footer {
            margin-top: 20px;
            font-size: 12px;
            color: #8b949e;
        }
    </style>
</head>
<body>
    <div class="container">
        <h1>Login Successful</h1>
        <p>You have successfully logged in to OpenAI Codex for <strong>opi</strong>.</p>
        <p>You can close this browser window and return to your terminal.</p>
        <div class="footer">Opi AI Coding Agent</div>
    </div>
</body>
</html>"#;

/// The failure page, before the escaped details.
pub const ERROR_HTML_HEAD: &'static str = r#"<!DOCTYPE html>
<html>
<head>
    <meta charset="utf-8">
    <title>Opi Login Failed</title>
    <style>
        body {
            font-family: -apple-system, BlinkMacSystemFont, "Segoe UI", Roboto, Helvetica, Arial, sans-serif;
            background-color: #0d1117;
            color: #c9d1d9;
            display: flex;
            justify-content: center;
            align-items: center;
            height: 100vh;
            margin: 0;
        }
        .container {
            text-align: center;
            padding: 30px;
            background-color: #161b22;
            border: 1px solid #f85149;
            border-radius: 8px;
            box-shadow: 0 4px 10px rgba(0, 0, 0, 0.3);
            max-width: 400px;
        }
        h1 {
            color: #f85149;
            margin-bottom: 15px;
        }
        p {
            font-size: 16px;
            line-height: 1.5;
        }
        .error-details {
            background-color: #21262d;
            border: 1px solid #30363d;
            padding: 10px;
            border-radius: 4px;
            font-family: monospace;
            text-align: left;
            margin: 15px 0;
            overflow-x: auto;
            color: #ff7b72;
        }
        .footer {
            margin-top: 20px;
            font-size: 12px;
            color: #8b949e;
        }
    </style>
</head>
<body>
    <div class="container">
        <h1>Login Failed</h1>
        <p>An error occurred during authentication:</p>
        <div class="error-details">"#;

/// The failure page, after the escaped details.
pub const ERROR_HTML_TAIL: &'static str = r#"</div>
        <p>Please try logging in again from your terminal.</p>
        <div class="footer">Opi AI Coding Agent</div>
    </div>
</body>
</html>"#;

/// The HTML escape of one character.
pub open spec fn escape_char(c: char) -> Seq<char> {
    if c == '&' {
        "&amp;"@
    } else if c == '<' {
        "&lt;"@
    } else if c == '>' {
        "&gt;"@
    } else if c == '"' {
        "&quot;"@
    } else if c == '\'' {
        "&#x27;"@
    } else {
        seq![c]
    }
}

/// `s` with `&`, `<`, `>`, `"` and `'` escaped for HTML.
pub open spec fn escape_html(s: Seq<char>) -> Seq<char>
    decreases s.len(),
{
    if s.len() == 0 {
        Seq::empty()
    } else {
        escape_html(s.drop_last()) + escape_char(s.last())
    }
}

/// Escape `&`, `<`, `>`, `"` and `'` for HTML.
pub fn html_escape(s: &str) -> (r: String)
    ensures
        r@ == escape_html(s@),
{
    let c = chars_of(s);
    let mut out: Vec<char> = Vec::new();
    let mut i: usize = 0;
    assert(c@.take(0) =~= Seq::<char>::empty());
    while i < c.len()
        invariant
            i <= c@.len(),
            c@ == s@,
            out@ == escape_html(c@.take(i as int)),
        decreases c.len() - i,
    {
        assert(c@.take(i + 1).drop_last() =~= c@.take(i as int));
        assert(c@.take(i + 1).last() == c@[i as int]);
        let ch = c[i];
        if ch == '&' {
            extend_str(&mut out, "&amp;");
        } else if ch == '<' {
            extend_str(&mut out, "&lt;");
        } else if ch == '>' {
            extend_str(&mut out, "&gt;");
        } else if ch == '"' {
            extend_str(&mut out, "&quot;");
        } else if ch == '\'' {
            extend_str(&mut out, "&#x27;");
        } else {
            let ghost prev = out@;
            out.push(ch);
            assert(out@ =~= prev + seq![ch]);
        }
        i += 1;
    }
    assert(c@.take(c@.len() as int) =~= c@);
    string_of(&out)
}

/// The page shown after a successful login.
pub fn success_html() -> (r: String)
    ensures
        r@ == SUCCESS_HTML@,
{
    string_of(&chars_of(SUCCESS_HTML))
}

/// The failure page with the given details.
pub open spec fn error_html_spec(details: Seq<char>) -> Seq<char> {
    ERROR_HTML_HEAD@ + escape_html(details) + ERROR_HTML_TAIL@
}

/// The failure page with the given details, escaped.
pub fn error_html(details: &str) -> (r: String)
    ensures
        r@ == error_html_spec(details@),
{
    let mut v = chars_of(ERROR_HTML_HEAD);
    let e = html_escape(details);
    extend_str(&mut v, e.as_str());
    extend_str(&mut v, ERROR_HTML_TAIL);
    string_of(&v)
}

// ---------------------------------------------------------------------------
// Requests
// ---------------------------------------------------------------------------

/// An HTTP response carrying an HTML page.
pub open spec fn page_response(status: Seq<char>, html: Seq<char>) -> Seq<char> {
    "HTTP/1.1 "@ + status + "\r\nContent-Type: text/html\r\nContent-Length: "@ + decimal(
        utf8_len(html),
    ) + "\r\nConnection: close\r\n\r\n"@ + html
}

/// An HTTP response carrying an HTML page.
fn page_response_of(status: &str, html: &str) -> (r: String)
    ensures
        r@ == page_response(status@, html@),
{
    let h = chars_of(html);
    let mut v = chars_of("HTTP/1.1 ");
    extend_str(&mut v, status);
    extend_str(&mut v, "\r\nContent-Type: text/html\r\nContent-Length: ");
    let n = decimal_chars(utf8_len_of(&h));
    extend_chars(&mut v, &n);
    extend_str(&mut v, "\r\nConnection: close\r\n\r\n");
    extend_chars(&mut v, &h);
    string_of(&v)
}

/// What the callback server does with one request.
#[derive(Debug)]
pub enum CallbackStep {
    /// Nothing to answer; wait for the next request.
    Ignore,
    /// Answer and wait for the next request.
    Reject { response: String },
    /// Answer and finish the login with this outcome.
    Finish { response: String, outcome: Result<CallbackResult, String> },
}

/// `r` finishes with a failure page of `status` showing `details`, and the
/// error `error`.
pub open spec fn finishes_with_error(
    r: CallbackStep,
    status: Seq<char>,
    details: Seq<char>,
    error: Seq<char>,
) -> bool {
    r matches CallbackStep::Finish { response, outcome: Err(e) } && response@ == page_response(
        status,
        error_html_spec(details),
    ) && e@ == error
}

/// What the server does with request `request` when the login started with
/// state `expected`.
pub open spec fn callback_step_spec(request: Seq<char>, expected: Seq<char>, r: CallbackStep) -> bool {
    let ls = lines(request);
    if ls.len() == 0 {
        r is Ignore
    } else {
        let ws = words(ls[0]);
        if ws.len() < 2 || ws[0] != "GET"@ {
            r matches CallbackStep::Reject { response } && response@
                == "HTTP/1.1 400 Bad Request\r\nConnection: close\r\n\r\n"@
        } else if !starts_with(ws[1], "/auth/callback"@) {
            r matches CallbackStep::Reject { response } && response@
                == "HTTP/1.1 404 Not Found\r\nConnection: close\r\n\r\n"@
        } else {
            match find_char(ws[1], '?') {
                None => finishes_with_error(
                    r,
                    "400 Bad Request"@,
                    "Missing query parameters in callback"@,
                    "Missing query parameters in callback"@,
                ),
                Some(q) => {
                    let params = query_pairs(split_char(ws[1].skip(q + 1), '&'));
                    match lookup_last(params, "error"@) {
                        Some(e) => {
                            let desc = match lookup_last(params, "error_description"@) {
                                Some(d) => d,
                                None => e,
                            };
                            finishes_with_error(
                                r,
                                "200 OK"@,
                                desc,
                                "Auth error from callback: "@ + desc,
                            )
                        },
                        None => match lookup_last(params, "state"@) {
                            None => finishes_with_error(
                                r,
                                "400 Bad Request"@,
                                "Missing state parameter"@,
                                "Missing state parameter"@,
                            ),
                            Some(st) => if st != expected {
                                finishes_with_error(
                                    r,
                                    "400 Bad Request"@,
                                    "State parameter mismatch (CSRF protection)"@,
                                    "CSRF state mismatch"@,
                                )
                            } else {
                                match lookup_last(params, "code"@) {
                                    None => finishes_with_error(
                                        r,
                                        "400 Bad Request"@,
                                        "Missing code parameter"@,
                                        "Missing code parameter"@,
                                    ),
                                    Some(code) => r matches CallbackStep::Finish {
                                        response,
                                        outcome: Ok(c),
                                    } && response@ == page_response("200 OK"@, SUCCESS_HTML@)
                                        && c.code@ == code && c.state@ == st,
                                }
                            },
                        },
                    }
                },
            }
        }
    }
}

/// Finish with a failure page and an error.
fn finish_error(status: &str, details: &str, error: &str) -> (r: CallbackStep)
    ensures
        finishes_with_error(r, status@, details@, error@),
{
    let html = error_html(details);
    CallbackStep::Finish {
        response: page_response_of(status, html.as_str()),
        outcome: Err(string_of(&chars_of(error))),
    }
}

/// Decide what to do with one request (its text, decoded lossily) to the
/// callback server of a login that started with state `expected_state`.
pub fn callback_step(request: &str, expected_state: &str) -> (r: CallbackStep)
    ensures
        callback_step_spec(request@, expected_state@, r),
{
    let c = chars_of(request);
    let ls = lines_of(&c);
    if ls.len() == 0 {
        return CallbackStep::Ignore;
    }
    assert(views(ls@)[0] == ls@[0]@);
    let ws = split_whitespace_chars(&ls[0]);
    let get = chars_of("GET");
    if ws.len() < 2 || !crate::text::chars_eq(&ws[0], &get) {
        if ws.len() >= 2 {
            assert(views(ws@)[0] == ws@[0]@);
        }
        return CallbackStep::Reject {
            response: string_of(&chars_of("HTTP/1.1 400 Bad Request\r\nConnection: close\r\n\r\n")),
        };
    }
    assert(views(ws@)[0] == ws@[0]@ && views(ws@)[1] == ws@[1]@);
    let pq = &ws[1];
    if !starts_with_str(pq, "/auth/callback") {
        return CallbackStep::Reject {
            response: string_of(&chars_of("HTTP/1.1 404 Not Found\r\nConnection: close\r\n\r\n")),
        };
    }
    let q = match find_char_in(pq, '?') {
        None => {
            return finish_error(
                "400 Bad Request",
                "Missing query parameters in callback",
                "Missing query parameters in callback",
            );
        },
        Some(q) => q,
    };
    let pqlen = pq.len();
    assert(q < pqlen);
    let query = subvec(pq, q + 1, pqlen);
    assert(pq@.subrange(q + 1, pq@.len() as int) =~= pq@.skip(q + 1));
    let params = parse_query_string(string_of(&query).as_str());
    match query_get(&params, "error") {
        Some(e) => {
            let desc = match query_get(&params, "error_description") {
                Some(d) => d,
                None => e,
            };
            let mut msg = chars_of("Auth error from callback: ");
            extend_str(&mut msg, desc.as_str());
            let m = string_of(&msg);
            return finish_error("200 OK", desc.as_str(), m.as_str());
        },
        None => {},
    }
    let state = match query_get(&params, "state") {
        None => {
            return finish_error("400 Bad Request", "Missing state parameter", "Missing state parameter");
        },
        Some(s) => s,
    };
    if !str_eq(state.as_str(), expected_state) {
        return finish_error(
            "400 Bad Request",
            "State parameter mismatch (CSRF protection)",
            "CSRF state mismatch",
        );
    }
    let code = match query_get(&params, "code") {
        None => {
            return finish_error("400 Bad Request", "Missing code parameter", "Missing code parameter");
        },
        Some(c) => c,
    };
    let html = success_html();
    CallbackStep::Finish {
        response: page_response_of("200 OK", html.as_str()),
        outcome: Ok(CallbackResult { code, state }),
    }
}

/// A login finishes successfully only with the state it started with: a
/// callback whose `state` differs never yields a code.
pub proof fn lemma_callback_state_checked(request: Seq<char>, expected: Seq<char>, r: CallbackStep)
    requires
        callback_step_spec(request, expected, r),
    ensures
        r matches CallbackStep::Finish { outcome: Ok(c), .. } ==> c.state@ == expected,
{
}

} // verus!
