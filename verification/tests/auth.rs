use base64::Engine;
use sha2::Digest;
use opi_coding_agent::auth::callback::{callback_step, html_escape, parse_query_string, query_get, CallbackStep};
use opi_coding_agent::auth::login::{
    code_exchange_form, refresh_form, request_failed, IssuerRequest,
    authorize_url, code_from_input, device_poll_step, issuer_endpoint, login_status_report,
    poll_interval, refreshed_config, token_is_fresh, DevicePollResponse, DevicePollStep,
    IntervalValue, OauthResponse, RefreshResponse, DEFAULT_ISSUER, TOKEN_PATH,
};
use opi_coding_agent::auth::pkce::{generate_pkce, pkce_session_from};
use opi_coding_agent::auth::storage::{
    auth_dir_from, auth_file_path, claim_fields_of, claims_from_fields, extract_claims, AuthConfig,
    AuthError, ClaimFields, JsonNode, OauthPayload,
};

fn make_jwt(payload_json: &str) -> String {
    let header = base64::engine::general_purpose::URL_SAFE_NO_PAD.encode(r#"{"alg":"none","typ":"JWT"}"#);
    let payload = base64::engine::general_purpose::URL_SAFE_NO_PAD.encode(payload_json);
    format!("{}.{}.signature", header, payload)
}

#[test]
fn test_extract_claims_direct() {
    let jwt = make_jwt(r#"{"chatgpt_account_id":"acc-direct","exp":123456789}"#);
    let (account_id, exp) = extract_claims(&jwt).unwrap();
    assert_eq!(account_id, "acc-direct");
    assert_eq!(exp, 123456789);
}

#[test]
fn test_extract_claims_nested() {
    let jwt = make_jwt(
        r#"{"https://api.openai.com/auth":{"chatgpt_account_id":"acc-nested"},"exp":123456789}"#,
    );
    let (account_id, exp) = extract_claims(&jwt).unwrap();
    assert_eq!(account_id, "acc-nested");
    assert_eq!(exp, 123456789);
}

#[test]
fn test_extract_claims_organizations() {
    let jwt = make_jwt(r#"{"organizations":[{"id":"acc-org"}],"exp":123456789}"#);
    let (account_id, exp) = extract_claims(&jwt).unwrap();
    assert_eq!(account_id, "acc-org");
    assert_eq!(exp, 123456789);
}

#[test]
fn extract_claims_needs_two_parts() {
    assert_eq!(
        extract_claims("nodots").unwrap_err(),
        "Invalid JWT: expected at least two dot-separated parts"
    );
}

#[test]
fn extract_claims_reports_bad_base64_and_json() {
    let e = extract_claims("a.!!!.c").unwrap_err();
    assert!(e.starts_with("Failed to decode JWT base64: "));
    let not_json = format!("h.{}.s", base64::engine::general_purpose::URL_SAFE_NO_PAD.encode("not json"));
    let e = extract_claims(&not_json).unwrap_err();
    assert!(e.starts_with("Failed to parse JWT claims JSON: "));
}

#[test]
fn extract_claims_auth_claim_without_id_does_not_fall_back() {
    let jwt = make_jwt(r#"{"https://api.openai.com/auth":{},"organizations":[{"id":"x"}],"exp":1}"#);
    assert_eq!(
        extract_claims(&jwt).unwrap_err(),
        "Failed to extract chatgpt_account_id or organizations[0].id from JWT claims"
    );
}

#[test]
fn extract_claims_needs_exp() {
    let jwt = make_jwt(r#"{"chatgpt_account_id":"a"}"#);
    assert_eq!(extract_claims(&jwt).unwrap_err(), "Failed to extract exp from JWT claims");
}

#[test]
fn claim_fields_are_picked_from_the_top_node() {
    let node = JsonNode::Object(vec![
        ("organizations".to_string(), br#"[{"id":"org-1"},{"id":"org-2"}]"#.to_vec()),
        ("exp".to_string(), b"1700000000".to_vec()),
        ("chatgpt_account_id".to_string(), b"17".to_vec()),
    ]);
    let f = claim_fields_of(&node);
    assert_eq!(f.account_id, None);
    assert_eq!(f.auth_account_id, None);
    assert_eq!(f.first_organization_id, Some(Some("org-1".to_string())));
    assert_eq!(f.exp, Some(1700000000));
    let not_object = claim_fields_of(&JsonNode::Array(vec![b"1".to_vec()]));
    assert_eq!(not_object.first_organization_id, None);
    assert_eq!(not_object.exp, None);
}

#[test]
fn claims_from_fields_prefers_direct_id() {
    let f = ClaimFields {
        account_id: Some("direct".to_string()),
        auth_account_id: Some(Some("nested".to_string())),
        first_organization_id: None,
        exp: Some(7),
    };
    assert_eq!(claims_from_fields(f).unwrap(), ("direct".to_string(), 7));
}

#[test]
fn pkce_session_is_derived_from_its_bytes() {
    let v = [0u8; 32];
    let s = [1u8; 16];
    let p = pkce_session_from(&v, &s);
    let engine = base64::engine::general_purpose::URL_SAFE_NO_PAD;
    assert_eq!(p.code_verifier, engine.encode(v));
    assert_eq!(p.code_verifier, "AAAAAAAAAAAAAAAAAAAAAAAAAAAAAAAAAAAAAAAAAAA");
    let digest = sha2::Sha256::digest(p.code_verifier.as_bytes());
    assert_eq!(p.code_challenge, engine.encode(digest));
    assert_eq!(p.state, engine.encode(s));
    assert_ne!(p.code_challenge, p.code_verifier);
}

#[test]
fn generated_pkce_has_expected_lengths() {
    let a = generate_pkce();
    let b = generate_pkce();
    assert_eq!(a.code_verifier.len(), 43);
    assert_eq!(a.state.len(), 22);
    assert_eq!(a.code_challenge.len(), 43);
    assert_ne!(a.code_verifier, b.code_verifier);
}

#[test]
fn authorize_url_carries_challenge_and_state() {
    let url = authorize_url(DEFAULT_ISSUER, "cid", "http://127.0.0.1:1455/auth/callback", "CH", "ST");
    assert_eq!(
        url,
        "https://auth.openai.com/oauth/authorize?response_type=code&client_id=cid&redirect_uri=http://127.0.0.1:1455/auth/callback&code_challenge=CH&code_challenge_method=S256&state=ST&scope=openid+profile+email+offline_access&id_token_add_organizations=true&codex_cli_simplified_flow=true&originator=pi"
    );
    assert_eq!(issuer_endpoint("https://x", TOKEN_PATH), "https://x/oauth/token");
}

#[test]
fn pasted_code_is_extracted() {
    assert_eq!(code_from_input("http://h/auth/callback?code=abc&state=s"), "abc");
    assert_eq!(code_from_input("code=xyz"), "xyz");
    assert_eq!(code_from_input("plaincode"), "plaincode");
}

#[test]
fn poll_interval_reads_number_or_text() {
    assert_eq!(poll_interval(&IntervalValue::Number(Some(7))), 7);
    assert_eq!(poll_interval(&IntervalValue::Number(None)), 5);
    assert_eq!(poll_interval(&IntervalValue::Text(" 9 ".to_string())), 9);
    assert_eq!(poll_interval(&IntervalValue::Text("soon".to_string())), 5);
    assert_eq!(poll_interval(&IntervalValue::Other), 5);
}

#[test]
fn device_poll_decisions() {
    match device_poll_step(
        DevicePollResponse::Refused {
            error_type: Some("authorization_pending".to_string()),
            error_message: None,
        },
        5,
    ) {
        DevicePollStep::Wait { interval } => assert_eq!(interval, 5),
        other => panic!("unexpected {other:?}"),
    }
    match device_poll_step(
        DevicePollResponse::Refused { error_type: Some("slow_down".to_string()), error_message: None },
        5,
    ) {
        DevicePollStep::Wait { interval } => assert_eq!(interval, 10),
        other => panic!("unexpected {other:?}"),
    }
    match device_poll_step(
        DevicePollResponse::Refused {
            error_type: Some("access_denied".to_string()),
            error_message: Some("denied".to_string()),
        },
        5,
    ) {
        DevicePollStep::Fail(AuthError::Auth(m)) => assert_eq!(m, "Device auth failed: denied (access_denied)"),
        other => panic!("unexpected {other:?}"),
    }
    match device_poll_step(
        DevicePollResponse::Failed { status: "500".to_string(), body: "oops".to_string() },
        5,
    ) {
        DevicePollStep::Fail(AuthError::Auth(m)) => assert_eq!(m, "Poll request failed with status 500: oops"),
        other => panic!("unexpected {other:?}"),
    }
    match device_poll_step(
        DevicePollResponse::Authorized {
            authorization_code: "c".to_string(),
            code_verifier: "v".to_string(),
        },
        5,
    ) {
        DevicePollStep::Authorized { authorization_code, code_verifier } => {
            assert_eq!((authorization_code.as_str(), code_verifier.as_str()), ("c", "v"))
        }
        other => panic!("unexpected {other:?}"),
    }
}

#[test]
fn token_freshness_has_a_minute_margin() {
    assert!(token_is_fresh(1000, 939));
    assert!(!token_is_fresh(1000, 940));
}

fn stored() -> AuthConfig {
    AuthConfig {
        auth_type: "oauth".to_string(),
        oauth: OauthPayload {
            access_token: "old".to_string(),
            refresh_token: "r-old".to_string(),
            id_token: Some("id-old".to_string()),
            expires_at: 1,
            account_id: "acc".to_string(),
        },
        issuer: "iss".to_string(),
        client_id: "cid".to_string(),
    }
}

#[test]
fn refresh_keeps_tokens_the_answer_lacks() {
    let r = refreshed_config(
        stored(),
        RefreshResponse { access_token: "new".to_string(), refresh_token: None, id_token: None, expires_in: None },
        "acc2".to_string(),
        99,
    );
    assert_eq!(r.oauth.access_token, "new");
    assert_eq!(r.oauth.refresh_token, "r-old");
    assert_eq!(r.oauth.id_token.as_deref(), Some("id-old"));
    assert_eq!(r.oauth.expires_at, 99);
    assert_eq!(r.oauth.account_id, "acc2");
    assert_eq!(r.issuer, "iss");
    let _unused = OauthResponse { access_token: String::new(), refresh_token: String::new(), id_token: None, expires_in: None };
}

#[test]
fn login_status_lines() {
    let c = stored();
    let (lines, r) = login_status_report(Some(&c), 0);
    assert!(r.is_ok());
    assert_eq!(lines, vec!["Logged in to OpenAI Codex.", "Account ID: acc", "Status: Active (expires in 1 seconds)"]);
    let (lines, _) = login_status_report(Some(&c), 5);
    assert_eq!(lines[2], "Status: Expired (requires refresh)");
    let (lines, r) = login_status_report(None, 0);
    assert_eq!(lines, vec!["Not logged in. Run `opi login` to authenticate."]);
    assert!(matches!(r, Err(AuthError::NotLoggedIn)));
}

#[test]
fn query_values_are_percent_decoded() {
    let pairs = parse_query_string("a=%41&b=x%20y");
    assert_eq!(pairs[0], ("a".to_string(), "A".to_string()));
    assert_eq!(query_get(&pairs, "b").as_deref(), Some("x y"));
}

#[test]
fn callback_checks_state() {
    match callback_step("GET /auth/callback?code=c1&state=s1 HTTP/1.1\r\n\r\n", "s1") {
        CallbackStep::Finish { outcome: Ok(r), response } => {
            assert_eq!(r.code, "c1");
            assert!(response.starts_with("HTTP/1.1 200 OK"));
        }
        other => panic!("unexpected {other:?}"),
    }
    match callback_step("GET /auth/callback?code=c1&state=evil HTTP/1.1\r\n\r\n", "s1") {
        CallbackStep::Finish { outcome: Err(e), .. } => assert_eq!(e, "CSRF state mismatch"),
        other => panic!("unexpected {other:?}"),
    }
    match callback_step("POST / HTTP/1.1\r\n", "s1") {
        CallbackStep::Reject { response } => {
            assert_eq!(response, "HTTP/1.1 400 Bad Request\r\nConnection: close\r\n\r\n")
        }
        other => panic!("unexpected {other:?}"),
    }
    match callback_step("GET /other HTTP/1.1\r\n", "s1") {
        CallbackStep::Reject { response } => {
            assert_eq!(response, "HTTP/1.1 404 Not Found\r\nConnection: close\r\n\r\n")
        }
        other => panic!("unexpected {other:?}"),
    }
    assert_eq!(html_escape("<a&\"'>"), "&lt;a&amp;&quot;&#x27;&gt;");
}

#[test]
fn auth_paths() {
    assert_eq!(auth_dir_from(Some("/o"), Some("/h")), "/o");
    assert_eq!(auth_dir_from(None, Some("/h")), "/h/.local/share/opi/auth");
    assert_eq!(auth_dir_from(None, None), ".opi/auth");
    assert_eq!(auth_file_path("/d"), "/d/auth.json");
}

#[test]
fn issuer_requests_and_failures() {
    let f = code_exchange_form("app_1", "abc", "ver", "http://127.0.0.1:1455/auth/callback");
    let pairs: Vec<(&str, &str)> = f.iter().map(|(k, v)| (k.as_str(), v.as_str())).collect();
    assert_eq!(
        pairs,
        vec![
            ("grant_type", "authorization_code"),
            ("client_id", "app_1"),
            ("code", "abc"),
            ("code_verifier", "ver"),
            ("redirect_uri", "http://127.0.0.1:1455/auth/callback"),
        ]
    );
    let r = refresh_form("app_1", "rt");
    assert_eq!(r[0], ("grant_type".to_string(), "refresh_token".to_string()));
    assert_eq!(r[2], ("refresh_token".to_string(), "rt".to_string()));
    match request_failed(IssuerRequest::TokenRefresh, "401 Unauthorized", "{}") {
        AuthError::Auth(m) => assert_eq!(m, "Token refresh failed (status 401 Unauthorized): {}"),
        other => panic!("unexpected {other:?}"),
    }
    match request_failed(IssuerRequest::DeviceCode, "500", "oops") {
        AuthError::Auth(m) => assert_eq!(m, "Device code request failed (status 500): oops"),
        other => panic!("unexpected {other:?}"),
    }
}
