//! The decisions of the OpenAI Codex login flows.
//!
//! The browser flow sends the user to the issuer's authorize page with a
//! PKCE challenge and takes the code from the loopback callback or from what
//! the user pastes. The device flow polls the issuer until the user has
//! authorized, waiting longer when told to slow down. Both then exchange the
//! code for tokens and store them; a stored token is refreshed once it is
//! within a minute of expiry.
use vstd::prelude::*;

use crate::auth::storage::{AuthConfig, AuthError, OauthPayload};
use crate::text::{
    chars_of, contains, contains_str, occurs_at, decimal, decimal_chars, extend_chars, extend_str, find,
    find_char, find_char_in, find_chars, parse_u64, parse_u64_spec, str_eq, string_of, subvec,
    trim, trim_chars,
};

verus! {

/// The issuer used when none is configured.
pub const DEFAULT_ISSUER: &'static str = "https://auth.openai.com";

/// The client id used when none is configured.
pub const DEFAULT_CLIENT_ID: &'static str = "app_EMoamEEZ73f0CkXaXp7hrann";

/// The loopback redirect of the browser flow.
pub const REDIRECT_URI: &'static str = "http://127.0.0.1:1455/auth/callback";

/// The token endpoint, below the issuer.
pub const TOKEN_PATH: &'static str = "/oauth/token";

/// The token revocation endpoint, below the issuer.
pub const REVOKE_PATH: &'static str = "/oauth/revoke";

/// The device flow's user-code endpoint, below the issuer.
pub const DEVICE_USERCODE_PATH: &'static str = "/api/accounts/deviceauth/usercode";

/// The device flow's page where the user enters the code, below the issuer.
pub const DEVICE_VERIFICATION_PATH: &'static str = "/deviceauth/callback";

/// The device flow's polling endpoint, below the issuer.
pub const DEVICE_TOKEN_PATH: &'static str = "/api/accounts/deviceauth/token";

/// How long the device flow waits for the user, in seconds.
pub const DEVICE_AUTH_TIMEOUT_SECS: u64 = 900;

/// Seconds between device polls when the issuer gives no usable interval.
pub const DEFAULT_POLL_INTERVAL_SECS: u64 = 5;

/// A stored token is refreshed once it expires within this many seconds.
pub const REFRESH_MARGIN_SECS: i64 = 60;

/// The token endpoint's answer to a code exchange.
#[derive(Debug, Clone)]
pub struct OauthResponse {
    pub access_token: String,
    pub refresh_token: String,
    pub id_token: Option<String>,
    pub expires_in: Option<i64>,
}

/// The token endpoint's answer to a refresh.
#[derive(Debug, Clone)]
pub struct RefreshResponse {
    pub access_token: String,
    pub refresh_token: Option<String>,
    pub id_token: Option<String>,
    pub expires_in: Option<i64>,
}

/// An endpoint of the issuer: `issuer` followed by `path`.
pub fn issuer_endpoint(issuer: &str, path: &str) -> (r: String)
    ensures
        r@ == issuer@ + path@,
{
    let mut v = chars_of(issuer);
    extend_str(&mut v, path);
    string_of(&v)
}

/// The authorize page of the browser flow.
pub open spec fn authorize_url_spec(
    issuer: Seq<char>,
    client_id: Seq<char>,
    redirect_uri: Seq<char>,
    code_challenge: Seq<char>,
    state: Seq<char>,
) -> Seq<char> {
    issuer + "/oauth/authorize?response_type=code&client_id="@ + client_id + "&redirect_uri="@
        + redirect_uri + "&code_challenge="@ + code_challenge
        + "&code_challenge_method=S256&state="@ + state
        + "&scope=openid+profile+email+offline_access&id_token_add_organizations=true&codex_cli_simplified_flow=true&originator=pi"@
}

/// The authorize page of the browser flow, for a PKCE challenge and state.
pub fn authorize_url(
    issuer: &str,
    client_id: &str,
    redirect_uri: &str,
    code_challenge: &str,
    state: &str,
) -> (r: String)
    ensures
        r@ == authorize_url_spec(issuer@, client_id@, redirect_uri@, code_challenge@, state@),
{
    let mut v = chars_of(issuer);
    extend_str(&mut v, "/oauth/authorize?response_type=code&client_id=");
    extend_str(&mut v, client_id);
    extend_str(&mut v, "&redirect_uri=");
    extend_str(&mut v, redirect_uri);
    extend_str(&mut v, "&code_challenge=");
    extend_str(&mut v, code_challenge);
    extend_str(&mut v, "&code_challenge_method=S256&state=");
    extend_str(&mut v, state);
    extend_str(
        &mut v,
        "&scope=openid+profile+email+offline_access&id_token_add_organizations=true&codex_cli_simplified_flow=true&originator=pi",
    );
    string_of(&v)
}

/// The code in what the user pasted: the value after the first `code=` up
/// to the next `&`, or, without `code=`, the whole input.
pub open spec fn code_from_input_spec(input: Seq<char>) -> Seq<char> {
    match find(input, "code="@) {
        Some(p) => {
            let rest = input.skip(p + 5);
            match find_char(rest, '&') {
                Some(e) => rest.take(e),
                None => rest,
            }
        },
        None => input,
    }
}

/// The authorization code in a pasted callback URL or code (already
/// trimmed).
pub fn code_from_input(input: &str) -> (r: String)
    ensures
        r@ == code_from_input_spec(input@),
{
    let s = chars_of(input);
    let pat = chars_of("code=");
    proof {
        reveal_strlit("code=");
        assert(pat@.len() == 5);
    }
    match find_chars(&s, &pat) {
        Some(p) => {
            assert(occurs_at(s@, pat@, p as int));
            assert(p + pat@.len() <= s@.len());
            assert(p + 5 <= s.len());
            let rest = subvec(&s, p + 5, s.len());
            assert(rest@ =~= s@.skip(p + 5));
            match find_char_in(&rest, '&') {
                Some(e) => {
                    let c = subvec(&rest, 0, e);
                    assert(c@ =~= rest@.take(e as int));
                    string_of(&c)
                },
                None => string_of(&rest),
            }
        },
        None => string_of(&s),
    }
}

/// The credentials stored after a login: the tokens, the account and
/// expiry read from the access token, and where they came from.
pub open spec fn login_config_spec(
    c: AuthConfig,
    token: OauthResponse,
    account_id: Seq<char>,
    expires_at: i64,
    issuer: Seq<char>,
    client_id: Seq<char>,
) -> bool {
    &&& c.auth_type@ == "oauth"@
    &&& c.oauth.access_token == token.access_token
    &&& c.oauth.refresh_token == token.refresh_token
    &&& c.oauth.id_token == token.id_token
    &&& c.oauth.expires_at == expires_at
    &&& c.oauth.account_id@ == account_id
    &&& c.issuer@ == issuer
    &&& c.client_id@ == client_id
}

/// The credentials to store after a login.
pub fn login_auth_config(
    token: OauthResponse,
    account_id: String,
    expires_at: i64,
    issuer: &str,
    client_id: &str,
) -> (r: AuthConfig)
    ensures
        login_config_spec(r, token, account_id@, expires_at, issuer@, client_id@),
{
    AuthConfig {
        auth_type: string_of(&chars_of("oauth")),
        oauth: OauthPayload {
            access_token: token.access_token,
            refresh_token: token.refresh_token,
            id_token: token.id_token,
            expires_at,
            account_id,
        },
        issuer: string_of(&chars_of(issuer)),
        client_id: string_of(&chars_of(client_id)),
    }
}

// ---------------------------------------------------------------------------
// Device flow
// ---------------------------------------------------------------------------

/// The `interval` of the device flow's user-code answer, as plain values.
#[derive(Debug)]
pub enum IntervalValue {
    /// A JSON number: its value where it is a non-negative integer that fits
    /// in a `u64` (`as_u64`).
    Number(Option<u64>),
    /// A JSON string.
    Text(String),
    /// Anything else.
    Other,
}

/// The poll interval, in seconds: the number, or the trimmed string's
/// number, else the default of 5.
pub open spec fn poll_interval_spec(v: IntervalValue) -> u64 {
    match v {
        IntervalValue::Number(Some(n)) => n,
        IntervalValue::Text(s) => match parse_u64_spec(trim(s@)) {
            Some(n) => n,
            None => 5,
        },
        _ => 5,
    }
}

/// The poll interval the issuer asked for, in seconds.
pub fn poll_interval(v: &IntervalValue) -> (r: u64)
    ensures
        r == poll_interval_spec(*v),
{
    match v {
        IntervalValue::Number(Some(n)) => *n,
        IntervalValue::Text(s) => {
            let t = trim_chars(&chars_of(s.as_str()));
            match parse_u64(&t) {
                Some(n) => n,
                None => DEFAULT_POLL_INTERVAL_SECS,
            }
        },
        _ => DEFAULT_POLL_INTERVAL_SECS,
    }
}

/// How the polling endpoint answered, as plain values.
#[derive(Debug)]
pub enum DevicePollResponse {
    /// A success status whose body gave the authorization code and the
    /// code verifier.
    Authorized { authorization_code: String, code_verifier: String },
    /// A success status whose body could not be read.
    Unparsable,
    /// A failure status whose body is JSON, with its `error.type` and
    /// `error.message` where they are strings.
    Refused { error_type: Option<String>, error_message: Option<String> },
    /// A failure status (as displayed) whose body (as given) is not JSON.
    Failed { status: String, body: String },
    /// The request did not complete.
    NetworkError(String),
}

/// What to do after a poll.
#[derive(Debug)]
pub enum DevicePollStep {
    /// The user authorized: exchange this code with this verifier.
    Authorized { authorization_code: String, code_verifier: String },
    /// Wait `interval` seconds and poll again.
    Wait { interval: u64 },
    /// Give up with this error.
    Fail(AuthError),
}

/// An optional string, or the empty one.
pub open spec fn or_empty(s: Option<String>) -> Seq<char> {
    match s {
        Some(x) => x@,
        None => Seq::empty(),
    }
}

/// The refusal only says that the user has not authorized yet.
pub open spec fn still_pending(error_type: Seq<char>, error_message: Seq<char>) -> bool {
    error_type == "authorization_pending"@ || error_type == "invalid_request_error"@ || contains(
        error_message,
        "pending"@,
    )
}

/// The refusal asks to poll less often.
pub open spec fn slow_down(error_type: Seq<char>, error_message: Seq<char>) -> bool {
    !still_pending(error_type, error_message) && error_type == "slow_down"@
}

/// The poll interval may grow by 5 seconds without overflow where the
/// answer asks to slow down.
pub open spec fn poll_interval_fits(response: DevicePollResponse, interval: u64) -> bool {
    match response {
        DevicePollResponse::Refused { error_type, error_message } => slow_down(
            or_empty(error_type),
            or_empty(error_message),
        ) ==> interval + 5 <= u64::MAX,
        _ => true,
    }
}

/// The step after a poll answered with `response`, polling every
/// `interval` seconds so far.
pub open spec fn device_poll_spec(response: DevicePollResponse, interval: u64, step: DevicePollStep) -> bool {
    match response {
        DevicePollResponse::Authorized { authorization_code, code_verifier } => step
            == (DevicePollStep::Authorized { authorization_code, code_verifier }),
        DevicePollResponse::Unparsable => step matches DevicePollStep::Fail(AuthError::Auth(m))
            && m@ == "Failed to parse poll success response"@,
        DevicePollResponse::Refused { error_type, error_message } => {
            let t = or_empty(error_type);
            let m = or_empty(error_message);
            if still_pending(t, m) {
                step == (DevicePollStep::Wait { interval })
            } else if t == "slow_down"@ {
                step == (DevicePollStep::Wait { interval: (interval + 5) as u64 })
            } else {
                step matches DevicePollStep::Fail(AuthError::Auth(x)) && x@
                    == "Device auth failed: "@ + m + " ("@ + t + ")"@
            }
        },
        DevicePollResponse::Failed { status, body } => step matches DevicePollStep::Fail(
            AuthError::Auth(x),
        ) && x@ == "Poll request failed with status "@ + status@ + ": "@ + body@,
        DevicePollResponse::NetworkError(_) => step == (DevicePollStep::Wait { interval }),
    }
}

/// Decide what to do after one poll of the device flow.
pub fn device_poll_step(response: DevicePollResponse, interval: u64) -> (r: DevicePollStep)
    requires
        poll_interval_fits(response, interval),
    ensures
        device_poll_spec(response, interval, r),
{
    match response {
        DevicePollResponse::Authorized { authorization_code, code_verifier } => {
            DevicePollStep::Authorized { authorization_code, code_verifier }
        },
        DevicePollResponse::Unparsable => DevicePollStep::Fail(
            AuthError::Auth(string_of(&chars_of("Failed to parse poll success response"))),
        ),
        DevicePollResponse::Refused { error_type, error_message } => {
            let t = match &error_type {
                Some(x) => chars_of(x.as_str()),
                None => Vec::new(),
            };
            let m = match &error_message {
                Some(x) => chars_of(x.as_str()),
                None => Vec::new(),
            };
            let ts = string_of(&t);
            if str_eq(ts.as_str(), "authorization_pending") || str_eq(
                ts.as_str(),
                "invalid_request_error",
            ) || contains_str(&m, "pending") {
                DevicePollStep::Wait { interval }
            } else if str_eq(ts.as_str(), "slow_down") {
                DevicePollStep::Wait { interval: interval + 5 }
            } else {
                let mut v = chars_of("Device auth failed: ");
                extend_chars(&mut v, &m);
                extend_str(&mut v, " (");
                extend_chars(&mut v, &t);
                extend_str(&mut v, ")");
                DevicePollStep::Fail(AuthError::Auth(string_of(&v)))
            }
        },
        DevicePollResponse::Failed { status, body } => {
            let mut v = chars_of("Poll request failed with status ");
            extend_str(&mut v, status.as_str());
            extend_str(&mut v, ": ");
            extend_str(&mut v, body.as_str());
            DevicePollStep::Fail(AuthError::Auth(string_of(&v)))
        },
        DevicePollResponse::NetworkError(_) => DevicePollStep::Wait { interval },
    }
}

/// A request to the issuer whose failure status is reported with its body.
#[derive(Debug, Clone, Copy, PartialEq, Eq, Structural)]
pub enum IssuerRequest {
    /// Exchanging an authorization code for tokens.
    TokenExchange,
    /// Asking for a device user code.
    DeviceCode,
    /// Refreshing an access token.
    TokenRefresh,
}

/// The message of a request the issuer answered with a failure status.
pub open spec fn request_failed_text(k: IssuerRequest, status: Seq<char>, body: Seq<char>) -> Seq<char> {
    let what = match k {
        IssuerRequest::TokenExchange => "Token exchange failed (status "@,
        IssuerRequest::DeviceCode => "Device code request failed (status "@,
        IssuerRequest::TokenRefresh => "Token refresh failed (status "@,
    };
    what + status + "): "@ + body
}

/// The error of a request the issuer answered with a failure status (as
/// displayed), with the body it sent.
pub fn request_failed(k: IssuerRequest, status: &str, body: &str) -> (r: AuthError)
    ensures
        r matches AuthError::Auth(m) && m@ == request_failed_text(k, status@, body@),
{
    let mut v = match k {
        IssuerRequest::TokenExchange => chars_of("Token exchange failed (status "),
        IssuerRequest::DeviceCode => chars_of("Device code request failed (status "),
        IssuerRequest::TokenRefresh => chars_of("Token refresh failed (status "),
    };
    extend_str(&mut v, status);
    extend_str(&mut v, "): ");
    extend_str(&mut v, body);
    AuthError::Auth(string_of(&v))
}

/// Form fields as plain values.
pub open spec fn form_views(f: Seq<(String, String)>) -> Seq<(Seq<char>, Seq<char>)> {
    f.map_values(|e: (String, String)| (e.0@, e.1@))
}

/// A form field.
fn field(name: &str, value: &str) -> (r: (String, String))
    ensures
        r.0@ == name@,
        r.1@ == value@,
{
    (string_of(&chars_of(name)), string_of(&chars_of(value)))
}

/// The form that exchanges an authorization code (with its PKCE verifier)
/// for tokens.
pub fn code_exchange_form(client_id: &str, code: &str, code_verifier: &str, redirect_uri: &str) -> (r:
    Vec<(String, String)>)
    ensures
        form_views(r@) == seq![
            ("grant_type"@, "authorization_code"@),
            ("client_id"@, client_id@),
            ("code"@, code@),
            ("code_verifier"@, code_verifier@),
            ("redirect_uri"@, redirect_uri@),
        ],
{
    let mut r: Vec<(String, String)> = Vec::new();
    r.push(field("grant_type", "authorization_code"));
    r.push(field("client_id", client_id));
    r.push(field("code", code));
    r.push(field("code_verifier", code_verifier));
    r.push(field("redirect_uri", redirect_uri));
    assert(form_views(r@) =~= seq![
        ("grant_type"@, "authorization_code"@),
        ("client_id"@, client_id@),
        ("code"@, code@),
        ("code_verifier"@, code_verifier@),
        ("redirect_uri"@, redirect_uri@),
    ]);
    r
}

/// The form that refreshes an access token.
pub fn refresh_form(client_id: &str, refresh_token: &str) -> (r: Vec<(String, String)>)
    ensures
        form_views(r@) == seq![
            ("grant_type"@, "refresh_token"@),
            ("client_id"@, client_id@),
            ("refresh_token"@, refresh_token@),
        ],
{
    let mut r: Vec<(String, String)> = Vec::new();
    r.push(field("grant_type", "refresh_token"));
    r.push(field("client_id", client_id));
    r.push(field("refresh_token", refresh_token));
    assert(form_views(r@) =~= seq![
        ("grant_type"@, "refresh_token"@),
        ("client_id"@, client_id@),
        ("refresh_token"@, refresh_token@),
    ]);
    r
}

/// The error when the user did not authorize in time.
pub fn device_timeout_error() -> (r: AuthError)
    ensures
        r matches AuthError::Auth(m) && m@ == "Device authentication timed out after 15 minutes"@,
{
    AuthError::Auth(string_of(&chars_of("Device authentication timed out after 15 minutes")))
}

// ---------------------------------------------------------------------------
// Refresh and status
// ---------------------------------------------------------------------------

/// A token expiring at `expires_at` (Unix seconds) can still be used at
/// `now`: it expires more than a minute later.
pub fn token_is_fresh(expires_at: i64, now: i64) -> (r: bool)
    ensures
        r == (expires_at > now + 60),
{
    (expires_at as i128) > (now as i128) + 60
}

/// The credentials after a refresh: the new access token, the new refresh
/// and id tokens where the answer has them (else the stored ones), and the
/// account and expiry read from the new access token.
pub open spec fn refreshed_spec(
    r: AuthConfig,
    stored: AuthConfig,
    refresh: RefreshResponse,
    account_id: Seq<char>,
    expires_at: i64,
) -> bool {
    &&& r.auth_type@ == "oauth"@
    &&& r.oauth.access_token == refresh.access_token
    &&& r.oauth.refresh_token == match refresh.refresh_token {
        Some(t) => t,
        None => stored.oauth.refresh_token,
    }
    &&& r.oauth.id_token == match refresh.id_token {
        Some(t) => Some(t),
        None => stored.oauth.id_token,
    }
    &&& r.oauth.expires_at == expires_at
    &&& r.oauth.account_id@ == account_id
    &&& r.issuer == stored.issuer
    &&& r.client_id == stored.client_id
}

/// The credentials to store after a refresh.
pub fn refreshed_config(
    stored: AuthConfig,
    refresh: RefreshResponse,
    account_id: String,
    expires_at: i64,
) -> (r: AuthConfig)
    ensures
        refreshed_spec(r, stored, refresh, account_id@, expires_at),
{
    let AuthConfig { auth_type: _, oauth, issuer, client_id } = stored;
    let refresh_token = match refresh.refresh_token {
        Some(t) => t,
        None => oauth.refresh_token,
    };
    let id_token = match refresh.id_token {
        Some(t) => Some(t),
        None => oauth.id_token,
    };
    AuthConfig {
        auth_type: string_of(&chars_of("oauth")),
        oauth: OauthPayload {
            access_token: refresh.access_token,
            refresh_token,
            id_token,
            expires_at,
            account_id,
        },
        issuer,
        client_id,
    }
}

/// What `opi login status` prints for stored credentials at `now` (Unix
/// seconds).
pub open spec fn status_lines_spec(account_id: Seq<char>, expires_at: i64, now: i64) -> Seq<Seq<char>> {
    let remaining = expires_at - now;
    seq![
        "Logged in to OpenAI Codex."@,
        "Account ID: "@ + account_id,
        if remaining <= 0 {
            "Status: Expired (requires refresh)"@
        } else {
            "Status: Active (expires in "@ + decimal(remaining as nat) + " seconds)"@
        },
    ]
}

/// What `opi login status` prints, and whether it succeeds: without stored
/// credentials it says so and fails with `NotLoggedIn`.
pub fn login_status_report(config: Option<&AuthConfig>, now: i64) -> (r: (
    Vec<String>,
    Result<(), AuthError>,
))
    ensures
        match config {
            Some(c) => r.1 is Ok && r.0@.len() == 3 && forall|i: int|
                0 <= i < 3 ==> #[trigger] r.0@[i]@ == status_lines_spec(
                    c.oauth.account_id@,
                    c.oauth.expires_at,
                    now,
                )[i],
            None => r.1 matches Err(AuthError::NotLoggedIn) && r.0@.len() == 1 && r.0@[0]@
                == "Not logged in. Run `opi login` to authenticate."@,
        },
{
    match config {
        Some(c) => {
            let mut lines: Vec<String> = Vec::new();
            lines.push(string_of(&chars_of("Logged in to OpenAI Codex.")));
            let mut a = chars_of("Account ID: ");
            extend_str(&mut a, c.oauth.account_id.as_str());
            lines.push(string_of(&a));
            let remaining: i128 = (c.oauth.expires_at as i128) - (now as i128);
            if remaining <= 0 {
                lines.push(string_of(&chars_of("Status: Expired (requires refresh)")));
            } else {
                let mut v = chars_of("Status: Active (expires in ");
                let d = decimal_chars(remaining as u128);
                extend_chars(&mut v, &d);
                extend_str(&mut v, " seconds)");
                lines.push(string_of(&v));
            }
            (lines, Ok(()))
        },
        None => {
            let mut lines: Vec<String> = Vec::new();
            lines.push(string_of(&chars_of("Not logged in. Run `opi login` to authenticate.")));
            (lines, Err(AuthError::NotLoggedIn))
        },
    }
}

} // verus!
