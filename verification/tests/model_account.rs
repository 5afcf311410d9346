use cc2api::json::JsonValue;
use cc2api::model::account::{
    default_concurrency, default_priority, Account, AccountStatus, BillingMode, CanonicalEnvData,
    CanonicalProcessData, CanonicalPromptEnvData, UtcTime,
};

fn account(id: i64, status: AccountStatus, reset: Option<UtcTime>) -> Account {
    Account {
        id,
        name: String::new(),
        email: String::from("a@example.com"),
        status,
        token: String::from("sk-ant-x"),
        proxy_url: String::new(),
        device_id: String::new(),
        canonical_env: JsonValue::Object(Vec::new()),
        canonical_prompt: JsonValue::Object(Vec::new()),
        canonical_process: JsonValue::Object(Vec::new()),
        billing_mode: BillingMode::Strip,
        concurrency: 3,
        priority: 50,
        rate_limited_at: None,
        rate_limit_reset_at: reset,
        usage_data: JsonValue::Object(Vec::new()),
        usage_fetched_at: None,
        created_at: UtcTime { secs: 0, nanos: 0 },
        updated_at: UtcTime { secs: 0, nanos: 0 },
    }
}

#[test]
fn status_names_and_defaults() {
    assert_eq!(AccountStatus::Active.to_string(), "active");
    assert_eq!(AccountStatus::Error.to_string(), "error");
    assert_eq!(AccountStatus::Disabled.to_string(), "disabled");
    assert_eq!(AccountStatus::default(), AccountStatus::Active);
}

#[test]
fn status_round_trips_through_its_name() {
    for s in [AccountStatus::Active, AccountStatus::Error, AccountStatus::Disabled] {
        assert_eq!(AccountStatus::from(s.to_string()), s);
    }
}

#[test]
fn unknown_status_reads_as_active() {
    assert_eq!(AccountStatus::from(String::from("paused")), AccountStatus::Active);
    assert_eq!(AccountStatus::from(String::from("Disabled")), AccountStatus::Active);
    assert_eq!(AccountStatus::from(String::new()), AccountStatus::Active);
}

#[test]
fn billing_names_and_defaults() {
    assert_eq!(BillingMode::Strip.to_string(), "strip");
    assert_eq!(BillingMode::Rewrite.to_string(), "rewrite");
    assert_eq!(BillingMode::default(), BillingMode::Strip);
    assert_eq!(BillingMode::from(String::from("rewrite")), BillingMode::Rewrite);
    assert_eq!(BillingMode::from(String::from("strip")), BillingMode::Strip);
    assert_eq!(BillingMode::from(String::from("other")), BillingMode::Strip);
}

#[test]
fn default_scheduling_settings() {
    assert_eq!(default_concurrency(), 3);
    assert_eq!(default_priority(), 50);
}

#[test]
fn schedulable_only_when_active_and_not_rate_limited() {
    let now = UtcTime { secs: 1_000, nanos: 500 };
    assert!(account(1, AccountStatus::Active, None).is_schedulable_at(&now));
    assert!(!account(1, AccountStatus::Error, None).is_schedulable_at(&now));
    assert!(!account(1, AccountStatus::Disabled, None).is_schedulable_at(&now));
    let later = UtcTime { secs: 1_000, nanos: 501 };
    assert!(!account(1, AccountStatus::Active, Some(later)).is_schedulable_at(&now));
    let earlier = UtcTime { secs: 999, nanos: 900 };
    assert!(account(1, AccountStatus::Active, Some(earlier)).is_schedulable_at(&now));
    // the reset moment itself is no longer limited
    assert!(account(1, AccountStatus::Active, Some(now)).is_schedulable_at(&now));
}

#[test]
fn schedulable_by_the_clock() {
    assert!(account(1, AccountStatus::Active, None).is_schedulable());
    assert!(!account(1, AccountStatus::Disabled, None).is_schedulable());
    let far = UtcTime { secs: i64::MAX, nanos: 0 };
    assert!(!account(1, AccountStatus::Active, Some(far)).is_schedulable());
    let past = UtcTime { secs: 0, nanos: 0 };
    assert!(account(1, AccountStatus::Active, Some(past)).is_schedulable());
}

#[test]
fn fingerprint_types_default_empty() {
    let env = CanonicalEnvData::default();
    assert!(env.platform.is_empty() && !env.is_ci);
    let prompt = CanonicalPromptEnvData::default();
    assert!(prompt.shell.is_empty());
    let process = CanonicalProcessData::default();
    assert_eq!(process.rss_range, [0, 0]);
}
