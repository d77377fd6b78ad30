//! Stored OpenAI Codex credentials: their shape and where they live.
//!
//! Credentials are kept in `auth.json` in the auth directory:
//! `$OPI_AUTH_DIR` when set, else `~/.local/share/opi/auth`, else
//! `.opi/auth`. Writers hold `auth.json.lock` and replace the file through
//! `auth.json.tmp`.
use base64::Engine;
use serde_json::Value;
use vstd::prelude::*;

use crate::paths::path_join;
use crate::text::{chars_of, extend_str, split_char, split_chars, str_eq, string_of, views};

verus! {

/// Errors from credential storage and refresh.
#[derive(Debug)]
pub enum AuthError {
    /// No credentials are stored.
    NotLoggedIn,
    /// The credentials file is malformed.
    MalformedCredentials(String),
    /// Reading or writing the credentials failed.
    Io(String),
    /// A token could not be decoded.
    Jwt(String),
    /// An HTTP request failed.
    Http(String),
    /// The authorization server refused.
    Auth(String),
}

/// The message of an auth error.
pub open spec fn auth_error_message(e: AuthError) -> Seq<char> {
    match e {
        AuthError::NotLoggedIn => "No OpenAI Codex credentials found. Run `opi login` first."@,
        AuthError::MalformedCredentials(_) =>
            "Malformed credentials file. Please run `opi login` to re-authenticate."@,
        AuthError::Io(m) => "I/O error reading/writing credentials: "@ + m@,
        AuthError::Jwt(m) => "JWT error: "@ + m@,
        AuthError::Http(m) => "HTTP request failed: "@ + m@,
        AuthError::Auth(m) => "Authentication failed: "@ + m@,
    }
}

impl AuthError {
    /// The message of this error.
    pub fn message(&self) -> (r: String)
        ensures
            r@ == auth_error_message(*self),
    {
        let mut v: Vec<char> = Vec::new();
        match self {
            AuthError::NotLoggedIn => {
                extend_str(&mut v, "No OpenAI Codex credentials found. Run `opi login` first.");
            },
            AuthError::MalformedCredentials(_) => {
                extend_str(
                    &mut v,
                    "Malformed credentials file. Please run `opi login` to re-authenticate.",
                );
            },
            AuthError::Io(m) => {
                extend_str(&mut v, "I/O error reading/writing credentials: ");
                extend_str(&mut v, m.as_str());
            },
            AuthError::Jwt(m) => {
                extend_str(&mut v, "JWT error: ");
                extend_str(&mut v, m.as_str());
            },
            AuthError::Http(m) => {
                extend_str(&mut v, "HTTP request failed: ");
                extend_str(&mut v, m.as_str());
            },
            AuthError::Auth(m) => {
                extend_str(&mut v, "Authentication failed: ");
                extend_str(&mut v, m.as_str());
            },
        }
        string_of(&v)
    }
}

/// The OAuth tokens of a login.
pub struct OauthPayload {
    pub access_token: String,
    pub refresh_token: String,
    pub id_token: Option<String>,
    /// Expiry, in Unix milliseconds.
    pub expires_at: i64,
    pub account_id: String,
}

/// The stored credentials of a provider.
pub struct AuthConfig {
    /// `"oauth"`.
    pub auth_type: String,
    pub oauth: OauthPayload,
    pub issuer: String,
    pub client_id: String,
}

/// The credentials file.
pub struct AuthFile {
    /// The `openai-codex` entry.
    pub openai_codex: Option<AuthConfig>,
}

/// The auth directory: the override when given, else
/// `<home>/.local/share/opi/auth`, else `.opi/auth`.
pub open spec fn auth_dir_spec(override_dir: Option<Seq<char>>, home: Option<Seq<char>>) -> Seq<char> {
    match override_dir {
        Some(d) => d,
        None => match home {
            Some(h) => path_join(
                path_join(path_join(path_join(h, ".local"@), "share"@), "opi"@),
                "auth"@,
            ),
            None => path_join(".opi"@, "auth"@),
        },
    }
}

/// The auth directory, given `$OPI_AUTH_DIR` and `$HOME`.
pub fn auth_dir_from(override_dir: Option<&str>, home: Option<&str>) -> (r: String)
    ensures
        r@ == auth_dir_spec(
            match override_dir {
                Some(d) => Some(d@),
                None => None,
            },
            match home {
                Some(h) => Some(h@),
                None => None,
            },
        ),
{
    match override_dir {
        Some(d) => string_of(&chars_of(d)),
        None => match home {
            Some(h) => {
                let a = crate::paths::join_path(h, ".local");
                let b = crate::paths::join_path(a.as_str(), "share");
                let c = crate::paths::join_path(b.as_str(), "opi");
                crate::paths::join_path(c.as_str(), "auth")
            },
            None => crate::paths::join_path(".opi", "auth"),
        },
    }
}

/// The credentials file in the auth directory.
pub fn auth_file_path(auth_dir: &str) -> (r: String)
    ensures
        r@ == path_join(auth_dir@, "auth.json"@),
{
    crate::paths::join_path(auth_dir, "auth.json")
}

/// The lock file guarding the credentials.
pub fn auth_lock_path(auth_dir: &str) -> (r: String)
    ensures
        r@ == path_join(auth_dir@, "auth.json.lock"@),
{
    crate::paths::join_path(auth_dir, "auth.json.lock")
}

/// The temporary file through which the credentials are replaced.
pub fn auth_tmp_path(auth_dir: &str) -> (r: String)
    ensures
        r@ == path_join(auth_dir@, "auth.json.tmp"@),
{
    crate::paths::join_path(auth_dir, "auth.json.tmp")
}

// ---------------------------------------------------------------------------
// Token claims
// ---------------------------------------------------------------------------

/// The claims of an access token's payload that the login reads, as plain
/// values.
#[derive(Debug)]
pub struct ClaimFields {
    /// `chatgpt_account_id`, where it is a string.
    pub account_id: Option<String>,
    /// `https://api.openai.com/auth`, where present: its
    /// `chatgpt_account_id`, where that is a string.
    pub auth_account_id: Option<Option<String>>,
    /// `organizations`, where it is an array: the `id` of its first
    /// element, where there is one and the id is a string.
    pub first_organization_id: Option<Option<String>>,
    /// `exp`, where it is an integer that fits in an `i64`.
    pub exp: Option<i64>,
}

/// The claim fields as plain values.
pub type ClaimView = (
    Option<Seq<char>>,
    Option<Option<Seq<char>>>,
    Option<Option<Seq<char>>>,
    Option<i64>,
);

/// An optional string as an optional sequence of characters.
pub open spec fn opt_view(s: Option<String>) -> Option<Seq<char>> {
    match s {
        Some(x) => Some(x@),
        None => None,
    }
}

/// An optional optional string as plain values.
pub open spec fn opt_opt_view(s: Option<Option<String>>) -> Option<Option<Seq<char>>> {
    match s {
        Some(x) => Some(opt_view(x)),
        None => None,
    }
}

/// The claim fields as plain values.
pub open spec fn claim_view(f: ClaimFields) -> ClaimView {
    (opt_view(f.account_id), opt_opt_view(f.auth_account_id), opt_opt_view(f.first_organization_id), f.exp)
}

/// What `URL_SAFE_NO_PAD.decode` returns for `s`: the bytes, or the
/// decoding error's message.
pub uninterp spec fn base64_url_decoded(s: Seq<char>) -> Result<Seq<u8>, Seq<char>>;

/// Decodes unpadded URL-safe base64 (`URL_SAFE_NO_PAD.decode`); the
/// contract names the result.
#[verifier::external_body]
fn base64_url_decode(s: &str) -> (r: Result<Vec<u8>, String>)
    ensures
        match base64_url_decoded(s@) {
            Ok(b) => r matches Ok(x) && x@ == b,
            Err(m) => r matches Err(x) && x@ == m,
        },
{
    base64::engine::general_purpose::URL_SAFE_NO_PAD.decode(s).map_err(|e| e.to_string())
}

/// One JSON value, its children kept as their own JSON text (which
/// `parse_json` reads in turn).
#[derive(Debug)]
pub enum JsonNode {
    Null,
    Bool(bool),
    /// A number, with its value where it is an integer that fits in an
    /// `i64`.
    Number(Option<i64>),
    Str(String),
    /// The elements, each as JSON text.
    Array(Vec<Vec<u8>>),
    /// The members: each key and its value as JSON text.
    Object(Vec<(String, Vec<u8>)>),
}

/// A JSON node as plain values.
pub enum JsonNodeView {
    Null,
    Bool(bool),
    Number(Option<i64>),
    Str(Seq<char>),
    Array(Seq<Seq<u8>>),
    Object(Seq<(Seq<char>, Seq<u8>)>),
}

/// A JSON node as plain values.
pub open spec fn node_view(n: JsonNode) -> JsonNodeView {
    match n {
        JsonNode::Null => JsonNodeView::Null,
        JsonNode::Bool(b) => JsonNodeView::Bool(b),
        JsonNode::Number(i) => JsonNodeView::Number(i),
        JsonNode::Str(s) => JsonNodeView::Str(s@),
        JsonNode::Array(a) => JsonNodeView::Array(Seq::new(a@.len(), |i: int| a@[i]@)),
        JsonNode::Object(o) => JsonNodeView::Object(
            Seq::new(o@.len(), |i: int| (o@[i].0@, o@[i].1@)),
        ),
    }
}

/// What `serde_json::from_slice::<serde_json::Value>` makes of `payload`:
/// its top node (children as the JSON text `Value` writes for them), or the
/// parse error's message.
pub uninterp spec fn json_parsed(payload: Seq<u8>) -> Result<JsonNodeView, Seq<char>>;

/// `serde_json::from_slice::<serde_json::Value>`, the value's top node
/// converted variant for variant (a number by `as_i64`, children by
/// `Value`'s `to_string`); the contract names the result.
#[verifier::external_body]
fn parse_json(payload: &[u8]) -> (r: Result<JsonNode, String>)
    ensures
        match json_parsed(payload@) {
            Ok(n) => r matches Ok(x) && node_view(x) == n,
            Err(m) => r matches Err(x) && x@ == m,
        },
{
    let v = serde_json::from_slice::<Value>(payload).map_err(|e| e.to_string())?;
    Ok(match v {
        Value::Null => JsonNode::Null,
        Value::Bool(b) => JsonNode::Bool(b),
        Value::Number(n) => JsonNode::Number(n.as_i64()),
        Value::String(s) => JsonNode::Str(s),
        Value::Array(a) => JsonNode::Array(a.iter().map(|x| x.to_string().into_bytes()).collect()),
        Value::Object(o) => JsonNode::Object(o.iter().map(|(k, x)| (k.clone(), x.to_string().into_bytes())).collect()),
    })
}

/// The node that JSON text holds, when it parses.
pub open spec fn node_of(b: Seq<u8>) -> Option<JsonNodeView> {
    match json_parsed(b) {
        Ok(n) => Some(n),
        Err(_) => None,
    }
}

/// The text of the first member of `fs` named `key`.
pub open spec fn member_text(fs: Seq<(Seq<char>, Seq<u8>)>, key: Seq<char>) -> Option<Seq<u8>>
    decreases fs.len(),
{
    if fs.len() == 0 {
        None
    } else if fs[0].0 == key {
        Some(fs[0].1)
    } else {
        member_text(fs.drop_first(), key)
    }
}

/// The member `key` of an object node (`Value::get`), when it parses.
pub open spec fn field_node(n: JsonNodeView, key: Seq<char>) -> Option<JsonNodeView> {
    match n {
        JsonNodeView::Object(fs) => match member_text(fs, key) {
            Some(t) => node_of(t),
            None => None,
        },
        _ => None,
    }
}

/// A string node's text (`Value::as_str`).
pub open spec fn node_str(n: Option<JsonNodeView>) -> Option<Seq<char>> {
    match n {
        Some(JsonNodeView::Str(s)) => Some(s),
        _ => None,
    }
}

/// An integer node's value, when it fits in an `i64` (`Value::as_i64`).
pub open spec fn node_i64(n: Option<JsonNodeView>) -> Option<i64> {
    match n {
        Some(JsonNodeView::Number(i)) => i,
        _ => None,
    }
}

/// The claim fields of a token payload's top node.
pub open spec fn claims_of(n: JsonNodeView) -> ClaimView {
    (
        node_str(field_node(n, "chatgpt_account_id"@)),
        match field_node(n, "https://api.openai.com/auth"@) {
            Some(a) => Some(node_str(field_node(a, "chatgpt_account_id"@))),
            None => None,
        },
        match field_node(n, "organizations"@) {
            Some(JsonNodeView::Array(items)) => Some(
                if items.len() > 0 {
                    match node_of(items[0]) {
                        Some(first) => node_str(field_node(first, "id"@)),
                        None => None,
                    }
                } else {
                    None
                },
            ),
            _ => None,
        },
        node_i64(field_node(n, "exp"@)),
    )
}

/// The member `key` of an object node, parsed.
fn field_node_of(n: &JsonNode, key: &str) -> (r: Option<JsonNode>)
    ensures
        match field_node(node_view(*n), key@) {
            Some(c) => r matches Some(x) && node_view(x) == c,
            None => r is None,
        },
{
    let fields = match n {
        JsonNode::Object(fields) => fields,
        _ => return None,
    };
    let ghost fs = Seq::new(fields@.len(), |i: int| (fields@[i].0@, fields@[i].1@));
    assert(node_view(*n) == JsonNodeView::Object(fs));
    let mut i: usize = 0;
    assert(fs.skip(0) =~= fs);
    while i < fields.len()
        invariant
            i <= fields@.len(),
            fs == Seq::new(fields@.len(), |i: int| (fields@[i].0@, fields@[i].1@)),
            node_view(*n) == JsonNodeView::Object(fs),
            member_text(fs, key@) == member_text(fs.skip(i as int), key@),
        decreases fields.len() - i,
    {
        assert(fs.skip(i as int).drop_first() =~= fs.skip(i + 1));
        assert(fs.skip(i as int)[0] == fs[i as int]);
        if str_eq(fields[i].0.as_str(), key) {
            assert(member_text(fs, key@) == Some(fields@[i as int].1@));
            let text: &[u8] = fields[i].1.as_slice();
            assert(text@ == fs[i as int].1);
            let parsed = parse_json(text);
            return match parsed {
                Ok(c) => Some(c),
                Err(_) => None,
            };
        }
        i += 1;
    }
    assert(fs.skip(i as int) =~= Seq::<(Seq<char>, Seq<u8>)>::empty());
    None
}

/// The text of a string node.
fn str_of(n: &Option<JsonNode>) -> (r: Option<String>)
    ensures
        opt_view(r) == node_str(
            match n {
                Some(x) => Some(node_view(*x)),
                None => None,
            },
        ),
{
    match n {
        Some(JsonNode::Str(s)) => Some(string_of(&chars_of(s.as_str()))),
        _ => None,
    }
}

/// The claim fields of a token payload's top node.
pub fn claim_fields_of(n: &JsonNode) -> (r: ClaimFields)
    ensures
        claim_view(r) == claims_of(node_view(*n)),
{
    let account_id = str_of(&field_node_of(n, "chatgpt_account_id"));
    let auth_account_id = match field_node_of(n, "https://api.openai.com/auth") {
        Some(a) => Some(str_of(&field_node_of(&a, "chatgpt_account_id"))),
        None => None,
    };
    let first_organization_id = match field_node_of(n, "organizations") {
        Some(JsonNode::Array(items)) => Some(
            if items.len() > 0 {
                match parse_json(items[0].as_slice()) {
                    Ok(first) => str_of(&field_node_of(&first, "id")),
                    Err(_) => None,
                }
            } else {
                None
            },
        ),
        _ => None,
    };
    let exp = match field_node_of(n, "exp") {
        Some(JsonNode::Number(i)) => i,
        _ => None,
    };
    ClaimFields { account_id, auth_account_id, first_organization_id, exp }
}

/// The account id of the claims: `chatgpt_account_id`; else, where the
/// `https://api.openai.com/auth` claim is present, its
/// `chatgpt_account_id`; else, where `organizations` is an array, the id of
/// its first element.
pub open spec fn claims_account(c: ClaimView) -> Option<Seq<char>> {
    match c.0 {
        Some(id) => Some(id),
        None => match c.1 {
            Some(a) => a,
            None => match c.2 {
                Some(o) => o,
                None => None,
            },
        },
    }
}

/// The account id and expiry of the claims, or why they cannot be read.
pub open spec fn claims_result(c: ClaimView) -> Result<(Seq<char>, i64), Seq<char>> {
    match claims_account(c) {
        None => Err("Failed to extract chatgpt_account_id or organizations[0].id from JWT claims"@),
        Some(id) => match c.3 {
            Some(exp) => Ok((id, exp)),
            None => Err("Failed to extract exp from JWT claims"@),
        },
    }
}

/// A result of `extract_claims` as plain values.
pub open spec fn claims_view(r: Result<(String, i64), String>) -> Result<(Seq<char>, i64), Seq<char>> {
    match r {
        Ok((id, exp)) => Ok((id@, exp)),
        Err(m) => Err(m@),
    }
}

/// The account id and expiry (Unix seconds) given by claim fields.
pub fn claims_from_fields(fields: ClaimFields) -> (r: Result<(String, i64), String>)
    ensures
        claims_view(r) == claims_result(claim_view(fields)),
{
    let account = match fields.account_id {
        Some(id) => Some(id),
        None => match fields.auth_account_id {
            Some(a) => a,
            None => match fields.first_organization_id {
                Some(o) => o,
                None => None,
            },
        },
    };
    match account {
        None => Err(
            string_of(
                &chars_of(
                    "Failed to extract chatgpt_account_id or organizations[0].id from JWT claims",
                ),
            ),
        ),
        Some(id) => match fields.exp {
            Some(exp) => Ok((id, exp)),
            None => Err(string_of(&chars_of("Failed to extract exp from JWT claims"))),
        },
    }
}

/// What `extract_claims` gives for `token`.
pub open spec fn extract_claims_spec(token: Seq<char>) -> Result<(Seq<char>, i64), Seq<char>> {
    let parts = split_char(token, '.');
    if parts.len() < 2 {
        Err("Invalid JWT: expected at least two dot-separated parts"@)
    } else {
        match base64_url_decoded(parts[1]) {
            Err(e) => Err("Failed to decode JWT base64: "@ + e),
            Ok(payload) => match json_parsed(payload) {
                Err(e) => Err("Failed to parse JWT claims JSON: "@ + e),
                Ok(n) => claims_result(claims_of(n)),
            },
        }
    }
}

/// The ChatGPT account id and the expiry (Unix seconds) of a JWT access
/// token, read from its payload (the second dot-separated part), which is
/// not verified.
pub fn extract_claims(token: &str) -> (r: Result<(String, i64), String>)
    ensures
        claims_view(r) == extract_claims_spec(token@),
{
    let parts = split_chars(&chars_of(token), '.');
    if parts.len() < 2 {
        return Err(string_of(&chars_of("Invalid JWT: expected at least two dot-separated parts")));
    }
    let payload_b64 = string_of(&parts[1]);
    let payload = match base64_url_decode(payload_b64.as_str()) {
        Ok(p) => p,
        Err(e) => {
            let mut v = chars_of("Failed to decode JWT base64: ");
            extend_str(&mut v, e.as_str());
            return Err(string_of(&v));
        },
    };
    match parse_json(payload.as_slice()) {
        Ok(node) => claims_from_fields(claim_fields_of(&node)),
        Err(e) => {
            let mut v = chars_of("Failed to parse JWT claims JSON: ");
            extend_str(&mut v, e.as_str());
            Err(string_of(&v))
        },
    }
}

} // verus!
