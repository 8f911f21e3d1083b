use crabclaw::auth::{
    authorize_url, extract_query_param, generate_code_challenge, read_callback,
    refreshed_tokens, tokens_from_response, urlencoding, TokenData, TokenResponse,
};
use crabclaw::error::CrabClawError;

#[test]
fn extract_code_from_callback() {
    let request = "GET /auth/callback?code=abc123&state=xyz HTTP/1.1\r\nHost: localhost\r\n";
    assert_eq!(extract_query_param(request, "code"), Some("abc123".to_string()));
    assert_eq!(extract_query_param(request, "state"), Some("xyz".to_string()));
    assert_eq!(extract_query_param(request, "missing"), None);
}

#[test]
fn urlencoding_works() {
    assert_eq!(urlencoding("hello world"), "hello%20world");
    assert_eq!(urlencoding("http://localhost:1455"), "http%3A%2F%2Flocalhost%3A1455");
}

#[test]
fn pkce_code_challenge_is_deterministic() {
    let verifier = "test_verifier_12345";
    let c1 = generate_code_challenge(verifier);
    let c2 = generate_code_challenge(verifier);
    assert_eq!(c1, c2);
    assert!(!c1.is_empty());
}

#[test]
fn pkce_code_challenge_known_value() {
    // RFC 7636, appendix B.
    assert_eq!(
        generate_code_challenge("dBjftJeZ4CVP-mB92K27uhbUJU1p1r_wW1gFWFOEjXk"),
        "E9Melhoa2OwvFrEMTJguCHaoeK1t8URWbuGJSstw-cM"
    );
}

#[test]
fn token_expired_check() {
    let now = 1_700_000_000;
    let expired = TokenData {
        access_token: "test".to_string(),
        refresh_token: None,
        id_token: None,
        expires_at: Some(0),
    };
    assert!(expired.is_expired_at(now));

    let valid = TokenData {
        access_token: "test".to_string(),
        refresh_token: None,
        id_token: None,
        expires_at: Some(now + 3600),
    };
    assert!(!valid.is_expired_at(now));

    let no_expiry = TokenData {
        access_token: "test".to_string(),
        refresh_token: None,
        id_token: None,
        expires_at: None,
    };
    assert!(!no_expiry.is_expired_at(now));
    let soon = TokenData { expires_at: Some(now + 60), ..no_expiry.clone() };
    assert!(soon.is_expired_at(now));
}

#[test]
fn query_param_edge_cases() {
    assert_eq!(extract_query_param("", "code"), None);
    assert_eq!(extract_query_param("GET /cb HTTP/1.1", "code"), None);
    assert_eq!(extract_query_param("GET /cb?code&code=2 HTTP/1.1", "code"), None);
    assert_eq!(extract_query_param("GET /cb?a=1&code=x=y HTTP/1.1", "code"), Some("x=y".to_string()));
    assert_eq!(extract_query_param("GET /cb?a=1?code=2 HTTP/1.1", "code"), None);
}

#[test]
fn authorize_url_format() {
    let url = authorize_url("CH", "ST");
    assert_eq!(
        url,
        "https://auth.openai.com/oauth/authorize?client_id=app_EMoamEEZ73f0CkXaXp7hrann&redirect_uri=http%3A%2F%2Flocalhost%3A1455%2Fauth%2Fcallback&response_type=code&scope=openid%20profile%20email%20offline_access&code_challenge=CH&code_challenge_method=S256&state=ST"
    );
}

#[test]
fn callback_outcomes() {
    assert_eq!(
        read_callback("GET /cb?code=c1&state=s HTTP/1.1", "s").unwrap(),
        "c1"
    );
    assert_eq!(read_callback("GET /cb?code=c1 HTTP/1.1", "s").unwrap(), "c1");
    match read_callback("GET /cb?code=c1&state=t HTTP/1.1", "s") {
        Err(CrabClawError::Auth(m)) => assert!(m.contains("state mismatch")),
        _ => panic!("expected a state mismatch"),
    }
    match read_callback("GET /cb?error=denied&error_description=no+way HTTP/1.1", "s") {
        Err(CrabClawError::Auth(m)) => assert_eq!(m, "OAuth error: denied \u{2014} no way"),
        _ => panic!("expected an OAuth error"),
    }
    match read_callback("GET /cb?state=s HTTP/1.1", "s") {
        Err(CrabClawError::Auth(m)) => assert_eq!(m, "no authorization code in callback"),
        _ => panic!("expected a missing code"),
    }
}

#[test]
fn token_refresh_keeps_old_tokens_when_absent() {
    let old = TokenData {
        access_token: "a0".to_string(),
        refresh_token: Some("r0".to_string()),
        id_token: Some("i0".to_string()),
        expires_at: Some(1),
    };
    let resp = TokenResponse {
        access_token: "a1".to_string(),
        refresh_token: None,
        id_token: Some("i1".to_string()),
        expires_in: Some(3600),
        token_type: None,
    };
    let t = refreshed_tokens(&old, resp, 1000);
    assert_eq!(t.access_token, "a1");
    assert_eq!(t.refresh_token.as_deref(), Some("r0"));
    assert_eq!(t.id_token.as_deref(), Some("i1"));
    assert_eq!(t.expires_at, Some(4600));
    let fresh = tokens_from_response(
        TokenResponse {
            access_token: "a".to_string(),
            refresh_token: None,
            id_token: None,
            expires_in: None,
            token_type: None,
        },
        5,
    );
    assert_eq!(fresh.expires_at, None);
}
