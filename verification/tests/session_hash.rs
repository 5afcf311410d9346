use cc2api::json::{JsonNumber, JsonValue};
use cc2api::service::session::{
    api_session_hash_of, cli_session_of, conversation_text_of, generate_session_hash,
    session_hash_at, session_user_id, ClientType,
};
use sha2::{Digest, Sha256};

fn s(t: &str) -> JsonValue {
    JsonValue::String(t.to_string())
}

fn obj(members: Vec<(&str, JsonValue)>) -> JsonValue {
    JsonValue::Object(members.into_iter().map(|(k, v)| (k.to_string(), v)).collect())
}

fn expected_hash(raw: &str) -> String {
    let d = Sha256::digest(raw.as_bytes());
    hex::encode(&d[..16])
}

#[test]
fn api_hash_is_first_half_of_sha256() {
    let h = api_session_hash_of("ua/1", "hello", "2024-05-01T10");
    assert_eq!(h, expected_hash("ua/1|hello|2024-05-01T10"));
    assert_eq!(h.len(), 32);
    let non_ascii = api_session_hash_of("ü", "系统", "2024-05-01T10");
    assert_eq!(non_ascii, expected_hash("ü|系统|2024-05-01T10"));
}

#[test]
fn conversation_text_prefers_system_prompt() {
    let body = obj(vec![
        ("system", s("be brief")),
        ("messages", JsonValue::Array(vec![obj(vec![("role", s("user")), ("content", s("hi"))])])),
    ]);
    assert_eq!(conversation_text_of(&body), "be brief");
}

#[test]
fn conversation_text_takes_first_text_block() {
    let body = obj(vec![(
        "system",
        JsonValue::Array(vec![obj(vec![("type", s("text"))]), obj(vec![("text", s("block two"))]), obj(vec![("text", s("three"))])]),
    )]);
    assert_eq!(conversation_text_of(&body), "block two");
}

#[test]
fn conversation_text_falls_back_to_first_message() {
    let body = obj(vec![
        ("system", s("")),
        ("messages", JsonValue::Array(vec![
            obj(vec![("content", JsonValue::Array(vec![obj(vec![("text", s("first"))])]))]),
            obj(vec![("content", s("second"))]),
        ])),
    ]);
    assert_eq!(conversation_text_of(&body), "first");
    let none = obj(vec![("messages", JsonValue::Array(vec![s("not an object")]))]);
    assert_eq!(conversation_text_of(&none), "");
    assert_eq!(conversation_text_of(&JsonValue::Null), "");
}

#[test]
fn cli_session_from_json_user_id() {
    let parsed = Some(obj(vec![("session_id", s("sess-123")), ("device", JsonValue::Number(JsonNumber::Int(1)))]));
    assert_eq!(cli_session_of("{\"session_id\":\"sess-123\"}", &parsed), Some(String::from("sess-123")));
}

#[test]
fn cli_session_from_legacy_user_id() {
    assert_eq!(cli_session_of("user_abc_account__session_xyz", &None), Some(String::from("xyz")));
    assert_eq!(cli_session_of("a_session_b_session_c", &None), Some(String::from("c")));
    assert_eq!(cli_session_of("no marker", &None), None);
    let empty_id = Some(obj(vec![("session_id", s(""))]));
    assert_eq!(cli_session_of("u_session_tail", &empty_id), Some(String::from("tail")));
}

#[test]
fn session_user_id_only_for_the_cli() {
    let body = obj(vec![("metadata", obj(vec![("user_id", s("u_session_q"))]))]);
    assert_eq!(session_user_id(&body, ClientType::CodeCli), Some(String::from("u_session_q")));
    assert_eq!(session_user_id(&body, ClientType::Api), None);
    let not_object = obj(vec![("metadata", s("x"))]);
    assert_eq!(session_user_id(&not_object, ClientType::CodeCli), None);
}

#[test]
fn session_hash_chooses_between_modes() {
    let body = obj(vec![
        ("metadata", obj(vec![("user_id", s("u_session_q"))])),
        ("system", s("sys")),
    ]);
    assert_eq!(session_hash_at("ua", &body, ClientType::CodeCli, &None, "2024-01-01T00"), "q");
    assert_eq!(
        session_hash_at("ua", &body, ClientType::Api, &None, "2024-01-01T00"),
        expected_hash("ua|sys|2024-01-01T00")
    );
    let plain = obj(vec![("metadata", obj(vec![("user_id", s("plain"))])), ("system", s("sys"))]);
    assert_eq!(
        session_hash_at("ua", &plain, ClientType::CodeCli, &None, "2024-01-01T00"),
        expected_hash("ua|sys|2024-01-01T00")
    );
}

#[test]
fn generated_hash_uses_current_hour() {
    let body = obj(vec![("system", s("sys"))]);
    let h = generate_session_hash("ua", &body, ClientType::Api, &None);
    assert_eq!(h.len(), 32);
    assert!(h.chars().all(|c| c.is_ascii_hexdigit() && !c.is_ascii_uppercase()));
    let hour = chrono::Utc::now().format("%Y-%m-%dT%H").to_string();
    let prev = (chrono::Utc::now() - chrono::Duration::hours(1)).format("%Y-%m-%dT%H").to_string();
    assert!(h == expected_hash(&format!("ua|sys|{}", hour)) || h == expected_hash(&format!("ua|sys|{}", prev)));
}

#[test]
fn hour_window_text() {
    assert_eq!(cc2api::service::session::hour_window_of(&cc2api::model::account::UtcTime { secs: 0, nanos: 0 }), "1970-01-01T00");
    assert_eq!(cc2api::service::session::hour_window_of(&cc2api::model::account::UtcTime { secs: 1_700_000_000, nanos: 5 }), "2023-11-14T22");
}
