use cc2api::error::AppError;
use cc2api::store::redis::{redis_url, RedisStore};

#[test]
fn redis_urls() {
    assert_eq!(redis_url("redis://localhost:6379", "", 0), "redis://localhost:6379/0");
    assert_eq!(redis_url("redis://localhost:6379", "pw", 2), "redis://:pw@localhost:6379/2");
    assert_eq!(redis_url("redis://redis://h:1", "p", 15), "redis://:p@h:1/15");
    assert_eq!(redis_url("h:1", "p", 3), "redis://:p@h:1/3");
}

#[test]
fn session_keys_and_values() {
    assert_eq!(RedisStore::session_key("abc"), "session:abc");
    assert_eq!(RedisStore::session_value(1234), "1234");
    assert_eq!(RedisStore::session_value(-7), "-7");
}

#[test]
fn stored_ids_read_back() {
    assert_eq!(RedisStore::stored_account_id(None), Ok(None));
    assert_eq!(RedisStore::stored_account_id(Some(String::from("42"))), Ok(Some(42)));
    assert_eq!(RedisStore::stored_account_id(Some(String::from("+5"))), Ok(Some(5)));
    assert_eq!(
        RedisStore::stored_account_id(Some(String::from("x1"))),
        Err(AppError::Internal(String::from("redis parse: invalid digit found in string")))
    );
    assert_eq!(
        RedisStore::stored_account_id(Some(String::new())),
        Err(AppError::Internal(String::from("redis parse: cannot parse integer from empty string")))
    );
    for id in [0i64, 9, -12, i64::MAX, i64::MIN] {
        assert_eq!(RedisStore::stored_account_id(Some(RedisStore::session_value(id))), Ok(Some(id)));
    }
}

#[test]
fn slot_decisions() {
    let first = RedisStore::slot_decision(1, 3);
    assert!(first.set_expiry && !first.give_back && first.acquired);
    let full = RedisStore::slot_decision(3, 3);
    assert!(!full.set_expiry && !full.give_back && full.acquired);
    let over = RedisStore::slot_decision(4, 3);
    assert!(!over.set_expiry && over.give_back && !over.acquired);
    let none_allowed = RedisStore::slot_decision(1, 0);
    assert!(none_allowed.set_expiry && none_allowed.give_back && !none_allowed.acquired);
}

#[test]
fn opening_clients() {
    assert!(RedisStore::open_client("redis://localhost:6379", "", 0).is_ok());
    assert!(RedisStore::open_client("redis://localhost:6379", "pw", 1).is_ok());
    match RedisStore::open_client("nonsense", "", 0) {
        Err(AppError::Internal(m)) => {
            let e = redis::Client::open("nonsense/0").err().expect("an error");
            assert_eq!(m, format!("redis open: {}", e));
        }
        _ => panic!("expected an open error"),
    }
}

#[test]
fn slot_step_is_one() {
    assert_eq!(cc2api::store::redis::SLOT_STEP, 1);
}
