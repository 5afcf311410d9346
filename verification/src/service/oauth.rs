use vstd::prelude::*;
use vstd::string::*;

use crate::error::AppError;
use crate::json::{JsonNumber, JsonValue};
use crate::text::{decimal_text, i64_to_text};

verus! {

/// The HTTP methods of the upstream calls.
#[derive(Clone, Copy, Debug, PartialEq, Eq, Structural)]
pub enum HttpMethod {
    Get,
    Post,
}

/// An upstream HTTP call, as the caller is to send it: method, URL, headers in order,
/// the JSON body if any, and the proxy to send it through if any.
pub struct UpstreamRequest {
    pub method: HttpMethod,
    pub url: String,
    pub headers: Vec<(String, String)>,
    pub json_body: Option<JsonValue>,
    pub proxy: Option<String>,
}

/// The header names and values of `h`, as text.
pub open spec fn header_texts(h: Seq<(String, String)>) -> Seq<(Seq<char>, Seq<char>)> {
    h.map_values(|p: (String, String)| (p.0@, p.1@))
}

/// Whether `reqwest` takes `url` as a proxy for all traffic.
pub uninterp spec fn accepts_proxy_url(url: Seq<char>) -> bool;

/// Whether `reqwest::Proxy::all` accepts `url`: as that call decides.
#[verifier::external_body]
fn proxy_accepted(url: &str) -> (r: bool)
    ensures
        r == accepts_proxy_url(url@),
{
    reqwest::Proxy::all(url).is_ok()
}

/// The proxy an account's calls go through: its proxy URL, when it has one that
/// `reqwest` accepts; otherwise none, and the call goes direct.
pub open spec fn proxy_choice(proxy_url: Seq<char>) -> Option<Seq<char>> {
    if proxy_url.len() > 0 && accepts_proxy_url(proxy_url) {
        Some(proxy_url)
    } else {
        None
    }
}

/// The proxy an account's calls go through.
pub fn proxy_for(proxy_url: &str) -> (r: Option<String>)
    ensures
        match r {
            Some(p) => proxy_choice(proxy_url@) == Some(p@),
            None => proxy_choice(proxy_url@) is None,
        },
{
    if !proxy_url.is_empty() && proxy_accepted(proxy_url) {
        Some(String::from_str(proxy_url))
    } else {
        None
    }
}

/// The reason phrase that HTTP gives status `code`, if it names one.
pub uninterp spec fn canonical_reason_text(code: u16) -> Option<Seq<char>>;

/// The reason phrase of status `code`, from `reqwest::StatusCode::canonical_reason`.
#[verifier::external_body]
fn canonical_reason(code: u16) -> (r: Option<&'static str>)
    requires
        100 <= code <= 999,
    ensures
        match r {
            Some(t) => canonical_reason_text(code) == Some(t@),
            None => canonical_reason_text(code) is None,
        },
{
    match reqwest::StatusCode::from_u16(code) {
        Ok(s) => s.canonical_reason(),
        Err(_) => None,
    }
}

/// How a status code is written: the number, a space, and its reason phrase
/// (`<unknown status code>` when HTTP names none).
pub open spec fn status_text(code: u16) -> Seq<char> {
    decimal_text(code as int) + " "@ + match canonical_reason_text(code) {
        Some(t) => t,
        None => "<unknown status code>"@,
    }
}

/// How a status code is written.
pub fn status_display(code: u16) -> (r: String)
    requires
        100 <= code <= 999,
    ensures
        r@ == status_text(code),
{
    let mut out = i64_to_text(code as i64);
    out.append(" ");
    match canonical_reason(code) {
        Some(t) => out.append(t),
        None => out.append("<unknown status code>"),
    }
    out
}

/// What an upstream answer with status `code` means: success for 200, otherwise an
/// internal error whose message is `prefix` followed by the status.
pub open spec fn status_outcome_ok(code: u16, prefix: Seq<char>, r: Result<(), AppError>) -> bool {
    if code == 200 {
        r is Ok
    } else {
        r is Err && r->Err_0 is Internal && r->Err_0->Internal_0@ == prefix + status_text(code)
    }
}

fn check_status(code: u16, prefix: &str) -> (r: Result<(), AppError>)
    requires
        100 <= code <= 999,
    ensures
        status_outcome_ok(code, prefix@, r),
{
    if code != 200 {
        let mut msg = String::from_str(prefix);
        let status = status_display(code);
        msg.append(status.as_str());
        return Err(AppError::Internal(msg));
    }
    Ok(())
}

/// Checks Setup Tokens by sending a minimal message request upstream.
pub struct TokenTester;

/// The headers of the token check: the token as bearer, JSON, the API version, the
/// OAuth beta, and the user agent of the vendor's command-line client.
pub open spec fn token_test_headers(token: Seq<char>, user_agent: Seq<char>) -> Seq<(Seq<char>, Seq<char>)> {
    seq![
        ("Authorization"@, "Bearer "@ + token),
        ("Content-Type"@, "application/json"@),
        ("anthropic-version"@, "2023-06-01"@),
        ("anthropic-beta"@, "oauth-2025-04-20"@),
        ("User-Agent"@, user_agent),
        ("x-app"@, "cli"@),
    ]
}

/// The body of the token check: one message, "hi", to `model`, for at most one token.
pub open spec fn is_token_test_body(v: JsonValue, model: Seq<char>) -> bool {
    &&& v is Object
    &&& v->Object_0@.len() == 3
    &&& v.text_at("model"@) == Some(model)
    &&& v.int_at("max_tokens"@) == Some(1i64)
    &&& v.lookup("messages"@) matches Some(JsonValue::Array(msgs)) && msgs@.len() == 1 && {
        let m = msgs@[0];
        &&& m is Object
        &&& m->Object_0@.len() == 2
        &&& m.text_at("role"@) == Some("user"@)
        &&& m.text_at("content"@) == Some("hi"@)
    }
}

/// The headers of the usage query: the token as bearer, JSON both ways, the OAuth beta,
/// and the user agent of the vendor's coding client.
pub open spec fn usage_headers(token: Seq<char>, user_agent: Seq<char>) -> Seq<(Seq<char>, Seq<char>)> {
    seq![
        ("Authorization"@, "Bearer "@ + token),
        ("Accept"@, "application/json"@),
        ("Content-Type"@, "application/json"@),
        ("anthropic-beta"@, "oauth-2025-04-20"@),
        ("User-Agent"@, user_agent),
    ]
}

fn header(name: &str, value: &str) -> (r: (String, String))
    ensures
        r.0@ == name@,
        r.1@ == value@,
{
    (String::from_str(name), String::from_str(value))
}

fn bearer(token: &str) -> (r: String)
    ensures
        r@ == "Bearer "@ + token@,
{
    let mut v = String::from_str("Bearer ");
    v.append(token);
    v
}

fn text_value(t: &str) -> (r: JsonValue)
    ensures
        r.text() == Some(t@),
{
    JsonValue::String(String::from_str(t))
}

/// `{"model": <model>, "max_tokens": 1, "messages": [{"role": "user", "content": "hi"}]}`
fn token_test_body(model: &str) -> (r: JsonValue)
    ensures
        is_token_test_body(r, model@),
{
    let mut msg: Vec<(String, JsonValue)> = Vec::new();
    msg.push((String::from_str("role"), text_value("user")));
    msg.push((String::from_str("content"), text_value("hi")));
    let mut msgs: Vec<JsonValue> = Vec::new();
    msgs.push(JsonValue::Object(msg));
    let mut body: Vec<(String, JsonValue)> = Vec::new();
    body.push((String::from_str("model"), text_value(model)));
    body.push((String::from_str("max_tokens"), JsonValue::Number(JsonNumber::Int(1))));
    body.push((String::from_str("messages"), JsonValue::Array(msgs)));
    proof {
        reveal_strlit("model");
        reveal_strlit("max_tokens");
        reveal_strlit("messages");
        reveal_strlit("role");
        reveal_strlit("content");
        assert("max_tokens"@[1] != "model"@[1]);
        assert("messages"@[1] != "model"@[1]);
        assert("messages"@[2] != "max_tokens"@[2]);
        assert("content"@[0] != "role"@[0]);
        let b = body@;
        assert(b.drop_first().drop_first().drop_first().len() == 0);
        let m = msg@;
        assert(m.drop_first().drop_first().len() == 0);
        reveal_with_fuel(crate::json::entry_lookup, 4);
        let r = JsonValue::Object(body);
        assert(r.text_at("model"@) == Some(model@));
        assert(r.int_at("max_tokens"@) == Some(1i64));
        let mv = JsonValue::Object(msg);
        assert(mv.text_at("role"@) == Some("user"@));
        assert(mv.text_at("content"@) == Some("hi"@));
    }
    JsonValue::Object(body)
}

impl TokenTester {
    /// A token tester.
    pub fn new() -> (r: Self) {
        TokenTester
    }

    /// The call that checks `token`: a POST of a one-token message for `model` to the
    /// messages API, presenting `user_agent`, through the account's proxy when it has a
    /// usable one.
    pub fn token_test_request(&self, token: &str, proxy_url: &str, model: &str, user_agent: &str) -> (r: UpstreamRequest)
        ensures
            r.method == HttpMethod::Post,
            r.url@ == "https://api.anthropic.com/v1/messages?beta=true"@,
            header_texts(r.headers@) == token_test_headers(token@, user_agent@),
            r.json_body is Some && is_token_test_body(r.json_body->0, model@),
            match r.proxy {
                Some(p) => proxy_choice(proxy_url@) == Some(p@),
                None => proxy_choice(proxy_url@) is None,
            },
    {
        let mut headers: Vec<(String, String)> = Vec::new();
        headers.push((String::from_str("Authorization"), bearer(token)));
        headers.push(header("Content-Type", "application/json"));
        headers.push(header("anthropic-version", "2023-06-01"));
        headers.push(header("anthropic-beta", "oauth-2025-04-20"));
        headers.push(header("User-Agent", user_agent));
        headers.push(header("x-app", "cli"));
        assert(header_texts(headers@) =~= token_test_headers(token@, user_agent@));
        UpstreamRequest {
            method: HttpMethod::Post,
            url: String::from_str("https://api.anthropic.com/v1/messages?beta=true"),
            headers,
            json_body: Some(token_test_body(model)),
            proxy: proxy_for(proxy_url),
        }
    }

    /// What the token check's answer status means: the token is valid on 200, and
    /// otherwise the error `token invalid: status <status>`.
    pub fn check_token_status(&self, code: u16) -> (r: Result<(), AppError>)
        requires
            100 <= code <= 999,
        ensures
            status_outcome_ok(code, "token invalid: status "@, r),
    {
        check_status(code, "token invalid: status ")
    }
}

/// The call that fetches an account's usage: a GET of the OAuth usage endpoint,
/// presenting `user_agent`, through the account's proxy when it has a usable one.
pub fn usage_request(token: &str, proxy_url: &str, user_agent: &str) -> (r: UpstreamRequest)
    ensures
        r.method == HttpMethod::Get,
        r.url@ == "https://api.anthropic.com/api/oauth/usage"@,
        header_texts(r.headers@) == usage_headers(token@, user_agent@),
        r.json_body is None,
        match r.proxy {
            Some(p) => proxy_choice(proxy_url@) == Some(p@),
            None => proxy_choice(proxy_url@) is None,
        },
{
    let mut headers: Vec<(String, String)> = Vec::new();
    headers.push((String::from_str("Authorization"), bearer(token)));
    headers.push(header("Accept", "application/json"));
    headers.push(header("Content-Type", "application/json"));
    headers.push(header("anthropic-beta", "oauth-2025-04-20"));
    headers.push(header("User-Agent", user_agent));
    assert(header_texts(headers@) =~= usage_headers(token@, user_agent@));
    UpstreamRequest {
        method: HttpMethod::Get,
        url: String::from_str("https://api.anthropic.com/api/oauth/usage"),
        headers,
        json_body: None,
        proxy: proxy_for(proxy_url),
    }
}

/// What the usage query's answer status means: the body is the usage on 200, and
/// otherwise the error `usage fetch failed: status <status>`.
pub fn check_usage_status(code: u16) -> (r: Result<(), AppError>)
    requires
        100 <= code <= 999,
    ensures
        status_outcome_ok(code, "usage fetch failed: status "@, r),
{
    check_status(code, "usage fetch failed: status ")
}

} // verus!
