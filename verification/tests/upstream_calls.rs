use cc2api::error::AppError;
use cc2api::json::{JsonNumber, JsonValue};
use cc2api::service::oauth::{check_usage_status, proxy_for, status_display, usage_request, HttpMethod, TokenTester};

fn pairs(h: &[(String, String)]) -> Vec<(&str, &str)> {
    h.iter().map(|(a, b)| (a.as_str(), b.as_str())).collect()
}

#[test]
fn token_test_request_shape() {
    let t = TokenTester::new();
    let r = t.token_test_request("tok", "", "model-small", "cli-agent/1.0");
    assert_eq!(r.method, HttpMethod::Post);
    assert_eq!(r.url, "https://api.anthropic.com/v1/messages?beta=true");
    assert_eq!(
        pairs(&r.headers),
        vec![
            ("Authorization", "Bearer tok"),
            ("Content-Type", "application/json"),
            ("anthropic-version", "2023-06-01"),
            ("anthropic-beta", "oauth-2025-04-20"),
            ("User-Agent", "cli-agent/1.0"),
            ("x-app", "cli"),
        ]
    );
    assert!(r.proxy.is_none());
    let body = r.json_body.expect("a body");
    assert_eq!(body.str_at("model").map(|s| s.as_str()), Some("model-small"));
    assert_eq!(body.i64_at("max_tokens"), Some(1));
    match body.get("messages") {
        Some(JsonValue::Array(m)) => {
            assert_eq!(m.len(), 1);
            assert_eq!(m[0].str_at("role").map(|s| s.as_str()), Some("user"));
            assert_eq!(m[0].str_at("content").map(|s| s.as_str()), Some("hi"));
        }
        _ => panic!("messages"),
    }
    assert!(matches!(JsonValue::Number(JsonNumber::Int(1)).as_i64(), Some(1)));
}

#[test]
fn proxies_that_reqwest_takes() {
    assert_eq!(proxy_for(""), None);
    assert_eq!(proxy_for("http://proxy.local:8080"), Some(String::from("http://proxy.local:8080")));
    assert_eq!(proxy_for("proxy.local:8080"), Some(String::from("proxy.local:8080")));
    assert_eq!(proxy_for("http://[::1"), None);
    let r = TokenTester::new().token_test_request("tok", "socks5://127.0.0.1:1080", "m", "ua");
    assert_eq!(r.proxy, Some(String::from("socks5://127.0.0.1:1080")));
}

#[test]
fn token_status_outcomes() {
    let t = TokenTester::new();
    assert_eq!(t.check_token_status(200), Ok(()));
    assert_eq!(
        t.check_token_status(401),
        Err(AppError::Internal(String::from("token invalid: status 401 Unauthorized")))
    );
    assert_eq!(
        t.check_token_status(201),
        Err(AppError::Internal(String::from("token invalid: status 201 Created")))
    );
}

#[test]
fn status_text_like_reqwest() {
    assert_eq!(status_display(404), "404 Not Found");
    assert_eq!(status_display(999), "999 <unknown status code>");
    assert_eq!(status_display(429), reqwest::StatusCode::from_u16(429).unwrap().to_string());
}

#[test]
fn usage_request_shape_and_status() {
    let r = usage_request("tok", "http://p:1", "code-agent/1.0");
    assert_eq!(r.method, HttpMethod::Get);
    assert_eq!(r.url, "https://api.anthropic.com/api/oauth/usage");
    assert_eq!(
        pairs(&r.headers),
        vec![
            ("Authorization", "Bearer tok"),
            ("Accept", "application/json"),
            ("Content-Type", "application/json"),
            ("anthropic-beta", "oauth-2025-04-20"),
            ("User-Agent", "code-agent/1.0"),
        ]
    );
    assert!(r.json_body.is_none());
    assert_eq!(r.proxy, Some(String::from("http://p:1")));
    assert_eq!(check_usage_status(200), Ok(()));
    assert_eq!(
        check_usage_status(500),
        Err(AppError::Internal(String::from("usage fetch failed: status 500 Internal Server Error")))
    );
}
