use cc2api::error::AppError;
use cc2api::handler::router::{
    account_from_request, admin_authorized, apply_account_updates, dashboard_counts, mime_from_path,
    new_account_from_request, page_params, total_pages, CreateAccountRequest,
};
use cc2api::json::{JsonNumber, JsonValue};
use cc2api::model::account::{Account, AccountStatus, BillingMode, UtcTime};

fn s(t: &str) -> JsonValue {
    JsonValue::String(t.to_string())
}

fn obj(members: Vec<(&str, JsonValue)>) -> JsonValue {
    JsonValue::Object(members.into_iter().map(|(k, v)| (k.to_string(), v)).collect())
}

fn request(email: &str, token: &str) -> CreateAccountRequest {
    CreateAccountRequest {
        name: None,
        email: email.to_string(),
        token: token.to_string(),
        proxy_url: None,
        billing_mode: None,
        concurrency: None,
        priority: None,
    }
}

fn base_account(status: AccountStatus) -> Account {
    let t = UtcTime { secs: 5, nanos: 6 };
    let mut a = account_from_request(request("a@b.c", "tok"), t, t).unwrap();
    a.status = status;
    a
}

#[test]
fn mime_types_by_extension() {
    assert_eq!(mime_from_path("index.html"), "text/html");
    assert_eq!(mime_from_path("assets/app.v2.css"), "text/css");
    assert_eq!(mime_from_path("assets/app.js"), "application/javascript");
    assert_eq!(mime_from_path("a.json"), "application/json");
    assert_eq!(mime_from_path("logo.png"), "image/png");
    assert_eq!(mime_from_path("p.jpg"), "image/jpeg");
    assert_eq!(mime_from_path("p.jpeg"), "image/jpeg");
    assert_eq!(mime_from_path("i.svg"), "image/svg+xml");
    assert_eq!(mime_from_path("favicon.ico"), "image/x-icon");
    assert_eq!(mime_from_path("f.woff"), "font/woff");
    assert_eq!(mime_from_path("f.woff2"), "font/woff2");
    assert_eq!(mime_from_path("f.ttf"), "font/ttf");
    assert_eq!(mime_from_path("archive.tar.gz"), "application/octet-stream");
    assert_eq!(mime_from_path("noext"), "application/octet-stream");
    assert_eq!(mime_from_path("html"), "text/html");
    assert_eq!(mime_from_path(""), "application/octet-stream");
    assert_eq!(mime_from_path("dir.html/file"), "application/octet-stream");
}

#[test]
fn paging_parameters() {
    assert_eq!(page_params(None, None, 12), (1, 12));
    assert_eq!(page_params(None, None, 20), (1, 20));
    assert_eq!(page_params(Some(0), Some(500), 12), (1, 100));
    assert_eq!(page_params(Some(-4), Some(-1), 12), (1, 1));
    assert_eq!(page_params(Some(3), Some(25), 12), (3, 25));
}

#[test]
fn page_counts() {
    assert_eq!(total_pages(0, 12), 0);
    assert_eq!(total_pages(1, 12), 1);
    assert_eq!(total_pages(24, 12), 2);
    assert_eq!(total_pages(25, 12), 3);
    assert_eq!(total_pages(100, 100), 1);
}

#[test]
fn create_requires_token_and_email() {
    let t = UtcTime { secs: 1, nanos: 0 };
    let err = AppError::BadRequest(String::from("token and email are required"));
    assert_eq!(account_from_request(request("", "tok"), t, t).err(), Some(err.clone()));
    assert_eq!(account_from_request(request("a@b.c", ""), t, t).err(), Some(err));
}

#[test]
fn create_fills_defaults() {
    let t = UtcTime { secs: 1, nanos: 2 };
    let a = account_from_request(request("a@b.c", "tok"), t, t).unwrap();
    assert_eq!(a.id, 0);
    assert_eq!(a.name, "");
    assert_eq!(a.email, "a@b.c");
    assert_eq!(a.token, "tok");
    assert_eq!(a.proxy_url, "");
    assert_eq!(a.status, AccountStatus::Active);
    assert_eq!(a.billing_mode, BillingMode::Strip);
    assert_eq!(a.concurrency, 3);
    assert_eq!(a.priority, 50);
    assert!(a.rate_limit_reset_at.is_none());
    assert_eq!(a.created_at, t);
    assert!(matches!(&a.canonical_env, JsonValue::Object(m) if m.is_empty()));
    let mut req = request("a@b.c", "tok");
    req.name = Some(String::from("n"));
    req.proxy_url = Some(String::from("http://p:1"));
    req.billing_mode = Some(String::from("rewrite"));
    req.concurrency = Some(0);
    req.priority = Some(7);
    let a = new_account_from_request(req).unwrap();
    assert_eq!(a.name, "n");
    assert_eq!(a.proxy_url, "http://p:1");
    assert_eq!(a.billing_mode, BillingMode::Rewrite);
    assert_eq!(a.concurrency, 0);
    assert_eq!(a.priority, 7);
}

#[test]
fn updates_apply_only_meaningful_values() {
    let mut a = base_account(AccountStatus::Active);
    let updates = obj(vec![
        ("name", s("renamed")),
        ("email", s("")),
        ("token", JsonValue::Number(JsonNumber::Int(5))),
        ("proxy_url", s("http://p:2")),
        ("concurrency", JsonValue::Number(JsonNumber::Int(8))),
        ("priority", JsonValue::Number(JsonNumber::Int(0))),
        ("status", s("disabled")),
        ("billing_mode", s("rewrite")),
    ]);
    apply_account_updates(&mut a, &updates);
    assert_eq!(a.name, "renamed");
    assert_eq!(a.email, "a@b.c");
    assert_eq!(a.token, "tok");
    assert_eq!(a.proxy_url, "http://p:2");
    assert_eq!(a.concurrency, 8);
    assert_eq!(a.priority, 50);
    assert_eq!(a.status, AccountStatus::Disabled);
    assert_eq!(a.billing_mode, BillingMode::Rewrite);
}

#[test]
fn update_numbers_are_cut_to_32_bits_and_unknown_names_fall_back() {
    let mut a = base_account(AccountStatus::Error);
    let updates = obj(vec![
        ("concurrency", JsonValue::Number(JsonNumber::Int(4_294_967_297))),
        ("priority", JsonValue::Number(JsonNumber::Other(String::from("2.5")))),
        ("status", s("weird")),
        ("billing_mode", s("weird")),
    ]);
    apply_account_updates(&mut a, &updates);
    assert_eq!(a.concurrency, 1);
    assert_eq!(a.priority, 50);
    assert_eq!(a.status, AccountStatus::Active);
    assert_eq!(a.billing_mode, BillingMode::Strip);
}

#[test]
fn updating_twice_is_updating_once() {
    let updates = obj(vec![("name", s("x")), ("priority", JsonValue::Number(JsonNumber::Int(3))), ("status", s("error"))]);
    let mut once = base_account(AccountStatus::Active);
    apply_account_updates(&mut once, &updates);
    let mut twice = base_account(AccountStatus::Active);
    apply_account_updates(&mut twice, &updates);
    apply_account_updates(&mut twice, &updates);
    assert_eq!(once.name, twice.name);
    assert_eq!(once.priority, twice.priority);
    assert_eq!(once.status, twice.status);
    assert_eq!(twice.priority, 3);
}

#[test]
fn dashboard_figures() {
    let v = vec![
        base_account(AccountStatus::Active),
        base_account(AccountStatus::Error),
        base_account(AccountStatus::Active),
        base_account(AccountStatus::Disabled),
    ];
    let c = dashboard_counts(&v, Ok(7));
    assert_eq!((c.total, c.active, c.error, c.disabled, c.tokens), (4, 2, 1, 1, 7));
    let e = dashboard_counts(&vec![], Err(AppError::Internal(String::from("down"))));
    assert_eq!((e.total, e.active, e.error, e.disabled, e.tokens), (0, 0, 0, 0, 0));
}

#[test]
fn admin_password_check() {
    assert!(admin_authorized(Some("Bearer admin"), "admin"));
    assert!(!admin_authorized(Some("Bearer wrong"), "admin"));
    assert!(!admin_authorized(Some("admin"), "admin"));
    assert!(!admin_authorized(None, "admin"));
}
