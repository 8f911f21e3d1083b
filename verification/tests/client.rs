use crabclaw::client::{error_detail, http_error};
use crabclaw::error::CrabClawError;

#[test]
fn error_detail_prefers_the_api_message() {
    assert_eq!(error_detail(r#"{"error": {"message": "Invalid API key", "type": "auth_error"}}"#), "Invalid API key");
    assert_eq!(error_detail("I'm a teapot"), "I'm a teapot");
    assert_eq!(error_detail(""), "");
    assert_eq!(error_detail(r#"{"error": null}"#), r#"{"error": null}"#);
    assert_eq!(error_detail(r#"{"error": {"type": "x"}}"#), r#"{"error": {"type": "x"}}"#);
}

#[test]
fn http_errors_by_status() {
    match http_error(401, "401 Unauthorized", "bad key") {
        CrabClawError::Auth(m) => assert_eq!(m, "HTTP 401 Unauthorized: bad key"),
        _ => panic!("expected an auth error"),
    }
    assert!(matches!(http_error(403, "403 Forbidden", "x"), CrabClawError::Auth(m) if m.contains("403")));
    assert!(matches!(http_error(429, "429 Too Many Requests", "slow"), CrabClawError::Api(m) if m.starts_with("rate limited (HTTP 429")));
    assert!(matches!(http_error(500, "500 Internal Server Error", ""), CrabClawError::Api(m) if m.starts_with("server error (HTTP 500")));
    assert!(matches!(http_error(418, "418 I'm a teapot", "t"), CrabClawError::Api(m) if m == "HTTP 418 I'm a teapot: t"));
}
