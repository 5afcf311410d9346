use cc2api::error::AppError;
use cc2api::json::JsonValue;
use cc2api::model::account::{Account, AccountStatus, BillingMode, UtcTime};
use cc2api::service::account::{
    best_priority_count, contains_id, is_id_permitted, pick_by_priority, prepare_new_account,
    select_by_priority, slot_key, take_candidates, AccountSelection, AccountService,
    CanonicalIdentity, SelectAction, SelectEvent, SelectPhase, SLOT_TTL_SECS,
    STICKY_SESSION_TTL_SECS,
};

fn account(id: i64, priority: i32) -> Account {
    Account {
        id,
        name: format!("acc-{}", id),
        email: String::from("a@example.com"),
        status: AccountStatus::Active,
        token: String::from("sk-ant-x"),
        proxy_url: String::new(),
        device_id: String::new(),
        canonical_env: JsonValue::Object(Vec::new()),
        canonical_prompt: JsonValue::Object(Vec::new()),
        canonical_process: JsonValue::Object(Vec::new()),
        billing_mode: BillingMode::Strip,
        concurrency: 3,
        priority,
        rate_limited_at: None,
        rate_limit_reset_at: None,
        usage_data: JsonValue::Object(Vec::new()),
        usage_fetched_at: None,
        created_at: UtcTime { secs: 0, nanos: 0 },
        updated_at: UtcTime { secs: 0, nanos: 0 },
    }
}

fn now() -> UtcTime {
    UtcTime { secs: 1_700_000_000, nanos: 0 }
}

#[test]
fn service_holds_store_and_cache() {
    let svc = AccountService::new(1u8, "cache");
    assert_eq!(svc.store, 1u8);
    assert_eq!(svc.cache, "cache");
}

#[test]
fn start_without_session_lists() {
    let (sel, action) = AccountSelection::start(String::new(), vec![], vec![]);
    assert!(matches!(sel.phase, SelectPhase::Listing));
    assert!(matches!(action, SelectAction::ListSchedulable));
}

#[test]
fn start_with_session_looks_it_up() {
    let (sel, action) = AccountSelection::start(String::from("h1"), vec![], vec![]);
    assert!(matches!(sel.phase, SelectPhase::LookingUpSession));
    match action {
        SelectAction::LookupSession(h) => assert_eq!(h, "h1"),
        _ => panic!("expected a session lookup"),
    }
}

#[test]
fn sticky_account_is_reused() {
    let (mut sel, _) = AccountSelection::start(String::from("h1"), vec![], vec![]);
    let a = sel.advance_with(SelectEvent::SessionLookedUp(Some(7)), now(), 0);
    assert!(matches!(a, SelectAction::LoadAccount(7)));
    let a = sel.advance_with(SelectEvent::AccountLoaded(Some(account(7, 50))), now(), 0);
    match a {
        SelectAction::Done(Ok(acc)) => assert_eq!(acc.id, 7),
        _ => panic!("expected the sticky account"),
    }
    assert!(matches!(sel.phase, SelectPhase::Finished));
}

#[test]
fn sticky_account_that_is_excluded_is_dropped() {
    let (mut sel, _) = AccountSelection::start(String::from("h1"), vec![7], vec![]);
    sel.advance_with(SelectEvent::SessionLookedUp(Some(7)), now(), 0);
    let a = sel.advance_with(SelectEvent::AccountLoaded(Some(account(7, 50))), now(), 0);
    match a {
        SelectAction::DeleteSession(h) => assert_eq!(h, "h1"),
        _ => panic!("expected the binding to be dropped"),
    }
    let a = sel.advance_with(SelectEvent::SessionDeleted, now(), 0);
    assert!(matches!(a, SelectAction::ListSchedulable));
    let a = sel.advance_with(SelectEvent::AccountsListed(Ok(vec![account(7, 1), account(8, 60)])), now(), 0);
    match a {
        SelectAction::BindSession { session_hash, account_id, ttl_secs } => {
            assert_eq!(session_hash, "h1");
            assert_eq!(account_id, 8);
            assert_eq!(ttl_secs, 86400);
        }
        _ => panic!("expected a binding"),
    }
    let a = sel.advance_with(SelectEvent::SessionBound, now(), 0);
    match a {
        SelectAction::Done(Ok(acc)) => assert_eq!(acc.id, 8),
        _ => panic!("expected account 8"),
    }
}

#[test]
fn sticky_account_that_is_disabled_is_dropped() {
    let (mut sel, _) = AccountSelection::start(String::from("h1"), vec![], vec![]);
    sel.advance_with(SelectEvent::SessionLookedUp(Some(7)), now(), 0);
    let mut acc = account(7, 50);
    acc.status = AccountStatus::Disabled;
    let a = sel.advance_with(SelectEvent::AccountLoaded(Some(acc)), now(), 0);
    assert!(matches!(a, SelectAction::DeleteSession(_)));
}

#[test]
fn missing_sticky_account_is_dropped() {
    let (mut sel, _) = AccountSelection::start(String::from("h1"), vec![], vec![]);
    sel.advance_with(SelectEvent::SessionLookedUp(Some(7)), now(), 0);
    let a = sel.advance_with(SelectEvent::AccountLoaded(None), now(), 0);
    assert!(matches!(a, SelectAction::DeleteSession(_)));
}

#[test]
fn session_bound_to_no_account_goes_to_listing() {
    let (mut sel, _) = AccountSelection::start(String::from("h1"), vec![], vec![]);
    let a = sel.advance_with(SelectEvent::SessionLookedUp(Some(0)), now(), 0);
    assert!(matches!(a, SelectAction::ListSchedulable));
    let (mut sel, _) = AccountSelection::start(String::from("h1"), vec![], vec![]);
    let a = sel.advance_with(SelectEvent::SessionLookedUp(None), now(), 0);
    assert!(matches!(a, SelectAction::ListSchedulable));
}

#[test]
fn no_candidates_is_service_unavailable() {
    let (mut sel, _) = AccountSelection::start(String::new(), vec![1], vec![]);
    let a = sel.advance_with(SelectEvent::AccountsListed(Ok(vec![account(1, 50)])), now(), 0);
    match a {
        SelectAction::Done(Err(AppError::ServiceUnavailable(m))) => assert_eq!(m, "no available accounts"),
        _ => panic!("expected no available accounts"),
    }
    let (mut sel, _) = AccountSelection::start(String::new(), vec![], vec![]);
    let a = sel.advance(SelectEvent::AccountsListed(Ok(vec![])));
    assert!(matches!(a, SelectAction::Done(Err(AppError::ServiceUnavailable(_)))));
}

#[test]
fn listing_error_is_passed_on() {
    let (mut sel, _) = AccountSelection::start(String::new(), vec![], vec![]);
    let a = sel.advance(SelectEvent::AccountsListed(Err(AppError::Internal(String::from("db down")))));
    match a {
        SelectAction::Done(Err(AppError::Internal(m))) => assert_eq!(m, "db down"),
        _ => panic!("expected the store's error"),
    }
}

#[test]
fn best_priority_wins_and_draw_picks_among_equals() {
    let list = || vec![account(1, 50), account(2, 10), account(3, 30), account(4, 10)];
    let (mut sel, _) = AccountSelection::start(String::new(), vec![], vec![]);
    match sel.advance_with(SelectEvent::AccountsListed(Ok(list())), now(), 0) {
        SelectAction::Done(Ok(acc)) => assert_eq!(acc.id, 2),
        _ => panic!(),
    }
    let (mut sel, _) = AccountSelection::start(String::new(), vec![], vec![]);
    match sel.advance_with(SelectEvent::AccountsListed(Ok(list())), now(), 1) {
        SelectAction::Done(Ok(acc)) => assert_eq!(acc.id, 4),
        _ => panic!(),
    }
    for _ in 0..20 {
        let (mut sel, _) = AccountSelection::start(String::new(), vec![], vec![]);
        match sel.advance(SelectEvent::AccountsListed(Ok(list()))) {
            SelectAction::Done(Ok(acc)) => assert!(acc.id == 2 || acc.id == 4),
            _ => panic!(),
        }
    }
}

#[test]
fn allowed_list_restricts_candidates() {
    let (mut sel, _) = AccountSelection::start(String::new(), vec![], vec![3]);
    match sel.advance(SelectEvent::AccountsListed(Ok(vec![account(1, 1), account(3, 90)]))) {
        SelectAction::Done(Ok(acc)) => assert_eq!(acc.id, 3),
        _ => panic!(),
    }
}

#[test]
fn priority_helpers() {
    let v = vec![account(1, 20), account(2, 5), account(3, 5), account(4, 5)];
    assert_eq!(best_priority_count(&v), 3);
    assert_eq!(pick_by_priority(&v, 0), 1);
    assert_eq!(pick_by_priority(&v, 2), 3);
    let k = select_by_priority(&v);
    assert!(k >= 1 && k <= 3);
    assert_eq!(select_by_priority(&vec![account(9, 99)]), 0);
}

#[test]
fn candidates_keep_order_and_permissions() {
    let v = vec![account(1, 1), account(2, 2), account(3, 3), account(4, 4)];
    let c = take_candidates(v, &vec![2], &vec![1, 2, 4]);
    let ids: Vec<i64> = c.iter().map(|a| a.id).collect();
    assert_eq!(ids, vec![1, 4]);
    assert!(contains_id(&vec![5, 6], 6));
    assert!(!contains_id(&vec![], 6));
    assert!(is_id_permitted(3, &vec![], &vec![]));
    assert!(!is_id_permitted(3, &vec![3], &vec![]));
    assert!(!is_id_permitted(3, &vec![], &vec![4]));
}

#[test]
fn new_account_defaults() {
    let mut a = account(0, 0);
    a.concurrency = 0;
    let identity = CanonicalIdentity {
        device_id: String::from("dev-1"),
        env: JsonValue::Null,
        prompt: JsonValue::Bool(true),
        process: JsonValue::Object(Vec::new()),
    };
    prepare_new_account(&mut a, identity);
    assert_eq!(a.concurrency, 3);
    assert_eq!(a.priority, 50);
    assert_eq!(a.device_id, "dev-1");
    assert!(matches!(a.canonical_env, JsonValue::Null));
    assert!(matches!(a.canonical_prompt, JsonValue::Bool(true)));
    let mut b = account(0, 7);
    b.concurrency = 9;
    prepare_new_account(&mut b, CanonicalIdentity {
        device_id: String::new(),
        env: JsonValue::Null,
        prompt: JsonValue::Null,
        process: JsonValue::Null,
    });
    assert_eq!(b.concurrency, 9);
    assert_eq!(b.priority, 7);
}

#[test]
fn slot_keys_and_ttls() {
    assert_eq!(slot_key(42), "concurrency:account:42");
    assert_eq!(slot_key(-3), "concurrency:account:-3");
    assert_eq!(SLOT_TTL_SECS, 300);
    assert_eq!(STICKY_SESSION_TTL_SECS, 24 * 60 * 60);
}
