use vstd::prelude::*;
use vstd::std_specs::convert::FromSpecImpl;
use vstd::string::*;

use crate::json::JsonValue;
use crate::text::text_eq;

verus! {

/// The state an account is in; only active accounts are scheduled.
#[derive(Clone, Copy, Debug, PartialEq, Eq, Structural)]
pub enum AccountStatus {
    Active,
    Error,
    Disabled,
}

/// The lowercase name of a status, as it is stored and shown.
pub open spec fn status_text(s: AccountStatus) -> Seq<char> {
    match s {
        AccountStatus::Active => "active"@,
        AccountStatus::Error => "error"@,
        AccountStatus::Disabled => "disabled"@,
    }
}

/// The status a stored name stands for; names that are none of the three read as active.
pub open spec fn status_from_text(t: Seq<char>) -> AccountStatus {
    if t == "active"@ {
        AccountStatus::Active
    } else if t == "error"@ {
        AccountStatus::Error
    } else if t == "disabled"@ {
        AccountStatus::Disabled
    } else {
        AccountStatus::Active
    }
}

impl Default for AccountStatus {
    fn default() -> (r: Self)
        ensures
            r == AccountStatus::Active,
    {
        AccountStatus::Active
    }
}

impl AccountStatus {
    /// The lowercase name of the status.
    pub fn to_string(&self) -> (r: String)
        ensures
            r@ == status_text(*self),
    {
        match self {
            AccountStatus::Active => String::from_str("active"),
            AccountStatus::Error => String::from_str("error"),
            AccountStatus::Disabled => String::from_str("disabled"),
        }
    }
}

impl From<String> for AccountStatus {
    fn from(s: String) -> (r: Self) {
        if text_eq(s.as_str(), "active") {
            AccountStatus::Active
        } else if text_eq(s.as_str(), "error") {
            AccountStatus::Error
        } else if text_eq(s.as_str(), "disabled") {
            AccountStatus::Disabled
        } else {
            AccountStatus::Active
        }
    }
}

impl FromSpecImpl<String> for AccountStatus {
    open spec fn obeys_from_spec() -> bool {
        true
    }

    open spec fn from_spec(s: String) -> AccountStatus {
        status_from_text(s@)
    }
}

/// Reading back the name of a status gives the status.
pub proof fn lemma_status_round_trip(s: AccountStatus)
    ensures
        status_from_text(status_text(s)) == s,
{
    reveal_strlit("active");
    reveal_strlit("error");
    reveal_strlit("disabled");
    assert("error"@[0] != "active"@[0]);
    assert("disabled"@[0] != "active"@[0]);
    assert("disabled"@[0] != "error"@[0]);
}

/// What the gateway does with an account's billing header: strip it or rewrite it.
#[derive(Clone, Copy, Debug, PartialEq, Eq, Structural)]
pub enum BillingMode {
    Strip,
    Rewrite,
}

/// The lowercase name of a billing mode.
pub open spec fn billing_text(m: BillingMode) -> Seq<char> {
    match m {
        BillingMode::Strip => "strip"@,
        BillingMode::Rewrite => "rewrite"@,
    }
}

/// The billing mode a name stands for; every name but `rewrite` reads as strip.
pub open spec fn billing_from_text(t: Seq<char>) -> BillingMode {
    if t == "rewrite"@ {
        BillingMode::Rewrite
    } else {
        BillingMode::Strip
    }
}

impl Default for BillingMode {
    fn default() -> (r: Self)
        ensures
            r == BillingMode::Strip,
    {
        BillingMode::Strip
    }
}

impl BillingMode {
    /// The lowercase name of the billing mode.
    pub fn to_string(&self) -> (r: String)
        ensures
            r@ == billing_text(*self),
    {
        match self {
            BillingMode::Strip => String::from_str("strip"),
            BillingMode::Rewrite => String::from_str("rewrite"),
        }
    }
}

impl From<String> for BillingMode {
    fn from(s: String) -> (r: Self) {
        if text_eq(s.as_str(), "rewrite") {
            BillingMode::Rewrite
        } else {
            BillingMode::Strip
        }
    }
}

impl FromSpecImpl<String> for BillingMode {
    open spec fn obeys_from_spec() -> bool {
        true
    }

    open spec fn from_spec(s: String) -> BillingMode {
        billing_from_text(s@)
    }
}

/// Reading back the name of a billing mode gives the billing mode.
pub proof fn lemma_billing_round_trip(m: BillingMode)
    ensures
        billing_from_text(billing_text(m)) == m,
{
    reveal_strlit("strip");
    reveal_strlit("rewrite");
    assert("strip"@[0] != "rewrite"@[0]);
}

/// A point in time in UTC: whole seconds since the Unix epoch and the nanoseconds
/// past them (more than a second's worth only inside a leap second).
#[derive(Clone, Copy, Debug, PartialEq, Eq, Structural)]
pub struct UtcTime {
    pub secs: i64,
    pub nanos: u32,
}

/// Whether `a` comes strictly before `b`.
pub open spec fn time_before(a: UtcTime, b: UtcTime) -> bool {
    a.secs < b.secs || (a.secs == b.secs && a.nanos < b.nanos)
}

impl UtcTime {
    /// Whether this time comes strictly before `other`.
    pub fn is_before(&self, other: &UtcTime) -> (r: bool)
        ensures
            r == time_before(*self, *other),
    {
        self.secs < other.secs || (self.secs == other.secs && self.nanos < other.nanos)
    }
}

/// Whether a time lies in the range `chrono` represents: from the first second of
/// year -262143 to the last second of year 262142, with fewer nanoseconds than a
/// second (no leap second).
pub open spec fn in_chrono_range(t: UtcTime) -> bool {
    &&& -8334601228800 <= t.secs <= 8210266876799
    &&& t.nanos < 1_000_000_000
}

/// The current time, from `chrono::Utc::now`. Of the value only this is claimed: it is a
/// time `chrono` represents, read from the system clock's whole seconds and
/// nanoseconds (so no leap second); which time it is, the clock says.
#[verifier::external_body]
pub fn utc_now() -> (r: UtcTime)
    ensures
        in_chrono_range(r),
{
    let t = chrono::Utc::now();
    UtcTime { secs: t.timestamp(), nanos: t.timestamp_subsec_nanos() }
}

/// An upstream account of the pool, with its device fingerprint and its
/// scheduling settings. Times are in UTC.
#[derive(Debug)]
pub struct Account {
    pub id: i64,
    pub name: String,
    pub email: String,
    pub status: AccountStatus,
    pub token: String,
    pub proxy_url: String,
    pub device_id: String,
    pub canonical_env: JsonValue,
    pub canonical_prompt: JsonValue,
    pub canonical_process: JsonValue,
    pub billing_mode: BillingMode,
    pub concurrency: i32,
    pub priority: i32,
    pub rate_limited_at: Option<UtcTime>,
    pub rate_limit_reset_at: Option<UtcTime>,
    pub usage_data: JsonValue,
    pub usage_fetched_at: Option<UtcTime>,
    pub created_at: UtcTime,
    pub updated_at: UtcTime,
}

/// The number of requests an account serves at once when nothing else is set.
pub fn default_concurrency() -> (r: i32)
    ensures
        r == 3,
{
    3
}

/// The priority an account gets when nothing else is set (smaller is preferred).
pub fn default_priority() -> (r: i32)
    ensures
        r == 50,
{
    50
}

/// Whether an account may take requests at `now`: it is active and not waiting for a
/// rate limit to reset.
pub open spec fn schedulable_at(a: Account, now: UtcTime) -> bool {
    &&& a.status == AccountStatus::Active
    &&& match a.rate_limit_reset_at {
        Some(reset) => !time_before(now, reset),
        None => true,
    }
}

impl Account {
    /// Whether the account may take requests at `now`.
    pub fn is_schedulable_at(&self, now: &UtcTime) -> (r: bool)
        ensures
            r == schedulable_at(*self, *now),
    {
        if self.status != AccountStatus::Active {
            return false;
        }
        match &self.rate_limit_reset_at {
            Some(reset) => !now.is_before(reset),
            None => true,
        }
    }

    /// Whether the account may take requests now, by the clock.
    pub fn is_schedulable(&self) -> (r: bool)
        ensures
            exists|now: UtcTime| r == schedulable_at(*self, now),
            self.status != AccountStatus::Active ==> !r,
            self.status == AccountStatus::Active && self.rate_limit_reset_at is None ==> r,
    {
        let now = utc_now();
        self.is_schedulable_at(&now)
    }
}


/// An account whose rate limit resets after `now` is not schedulable at `now`,
/// and neither is one that is not active.
pub proof fn lemma_rate_limited_not_schedulable(a: Account, now: UtcTime)
    ensures
        a.rate_limit_reset_at matches Some(reset) && time_before(now, reset) ==> !schedulable_at(a, now),
        a.status != AccountStatus::Active ==> !schedulable_at(a, now),
        a.status == AccountStatus::Active && (a.rate_limit_reset_at matches Some(reset) ==> !time_before(now, reset))
            ==> schedulable_at(a, now),
{
}

/// The environment fingerprint of an account (more than twenty dimensions).
#[derive(Clone, Debug, Default)]
pub struct CanonicalEnvData {
    pub platform: String,
    pub platform_raw: String,
    pub arch: String,
    pub node_version: String,
    pub terminal: String,
    pub package_managers: String,
    pub runtimes: String,
    pub is_running_with_bun: bool,
    pub is_ci: bool,
    pub is_claubbit: bool,
    pub is_claude_code_remote: bool,
    pub is_local_agent_mode: bool,
    pub is_conductor: bool,
    pub is_github_action: bool,
    pub is_claude_code_action: bool,
    pub is_claude_ai_auth: bool,
    pub version: String,
    pub version_base: String,
    pub build_time: String,
    pub deployment_environment: String,
    pub vcs: String,
}

/// The environment that the system prompt is rewritten to.
#[derive(Clone, Debug, Default)]
pub struct CanonicalPromptEnvData {
    pub platform: String,
    pub shell: String,
    pub os_version: String,
    pub working_dir: String,
}

/// The hardware fingerprint of an account.
#[derive(Clone, Debug, Default)]
pub struct CanonicalProcessData {
    pub constrained_memory: i64,
    pub rss_range: [i64; 2],
    pub heap_total_range: [i64; 2],
    pub heap_used_range: [i64; 2],
}

} // verus!
