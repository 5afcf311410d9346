use vstd::prelude::*;
use vstd::string::*;

use crate::error::AppError;
use crate::json::JsonValue;
use crate::model::account::{
    billing_from_text, in_chrono_range, status_from_text, utc_now, Account, AccountStatus, BillingMode, UtcTime,
};
use crate::text::{chars_of, text_eq};

verus! {

/// The part of `path` after its last dot; the whole path when it has no dot.
pub open spec fn extension_of(path: Seq<char>) -> Seq<char> {
    if exists|i: int| 0 <= i < path.len() && path[i] == '.' {
        let i = choose|i: int| 0 <= i < path.len() && path[i] == '.' && forall|j: int| i < j < path.len() ==> path[j] != '.';
        path.subrange(i + 1, path.len() as int)
    } else {
        path
    }
}

/// The content type served for a file with extension `ext`.
pub open spec fn mime_for_extension(ext: Seq<char>) -> Seq<char> {
    if ext == "html"@ { "text/html"@ }
    else if ext == "css"@ { "text/css"@ }
    else if ext == "js"@ { "application/javascript"@ }
    else if ext == "json"@ { "application/json"@ }
    else if ext == "png"@ { "image/png"@ }
    else if ext == "jpg"@ || ext == "jpeg"@ { "image/jpeg"@ }
    else if ext == "svg"@ { "image/svg+xml"@ }
    else if ext == "ico"@ { "image/x-icon"@ }
    else if ext == "woff"@ { "font/woff"@ }
    else if ext == "woff2"@ { "font/woff2"@ }
    else if ext == "ttf"@ { "font/ttf"@ }
    else { "application/octet-stream"@ }
}

/// The extension of `path`: what follows its last dot, or all of it.
fn extension(path: &str) -> (r: String)
    ensures
        r@ == extension_of(path@),
{
    let cs = chars_of(path);
    let n = cs.len();
    let mut i: usize = n;
    while i > 0
        invariant
            n == cs.len(),
            cs@ == path@,
            i <= n,
            forall|j: int| i <= j < n ==> path@[j] != '.',
        decreases i,
    {
        if cs[i - 1] == '.' {
            proof {
                let k = (i - 1) as int;
                assert(0 <= k < path@.len() && path@[k] == '.');
                let c = choose|c: int| 0 <= c < path@.len() && path@[c] == '.' && forall|j: int| c < j < path@.len() ==> path@[j] != '.';
                if c < k {
                    assert(path@[k] != '.');
                } else if k < c {
                    assert(path@[c] != '.');
                }
            }
            return String::from_str(path.substring_char(i, n));
        }
        i = i - 1;
    }
    assert(path@.subrange(0, n as int) =~= path@);
    String::from_str(path)
}

/// The content type of a file served from the web panel, by the extension of its path.
pub fn mime_from_path(path: &str) -> (r: &'static str)
    ensures
        r@ == mime_for_extension(extension_of(path@)),
{
    let ext = extension(path);
    let e = ext.as_str();
    if text_eq(e, "html") {
        "text/html"
    } else if text_eq(e, "css") {
        "text/css"
    } else if text_eq(e, "js") {
        "application/javascript"
    } else if text_eq(e, "json") {
        "application/json"
    } else if text_eq(e, "png") {
        "image/png"
    } else if text_eq(e, "jpg") || text_eq(e, "jpeg") {
        "image/jpeg"
    } else if text_eq(e, "svg") {
        "image/svg+xml"
    } else if text_eq(e, "ico") {
        "image/x-icon"
    } else if text_eq(e, "woff") {
        "font/woff"
    } else if text_eq(e, "woff2") {
        "font/woff2"
    } else if text_eq(e, "ttf") {
        "font/ttf"
    } else {
        "application/octet-stream"
    }
}

/// Whether an admin request carries the admin password: its `Authorization` header is
/// `Bearer <password>`.
pub open spec fn admin_authorized_spec(authorization: Option<Seq<char>>, password: Seq<char>) -> bool {
    authorization == Some("Bearer "@ + password)
}

/// Whether an admin request, with `authorization` as its `Authorization` header (if
/// any), carries the admin password.
pub fn admin_authorized(authorization: Option<&str>, password: &str) -> (r: bool)
    ensures
        r == admin_authorized_spec(
            match authorization {
                Some(h) => Some(h@),
                None => None,
            },
            password@,
        ),
{
    match authorization {
        Some(h) => {
            let mut expected = String::from_str("Bearer ");
            expected.append(password);
            text_eq(h, expected.as_str())
        },
        None => false,
    }
}

/// The page that a listing shows: the one asked for (1 by default), at least 1.
pub open spec fn page_number(page: Option<i64>) -> i64 {
    let p = match page {
        Some(p) => p,
        None => 1,
    };
    if p < 1 { 1 } else { p }
}

/// The number of items per page: the one asked for (`default_size` by default),
/// kept between 1 and 100.
pub open spec fn page_size_of(page_size: Option<i64>, default_size: i64) -> i64 {
    let s = match page_size {
        Some(s) => s,
        None => default_size,
    };
    if s < 1 { 1 } else if s > 100 { 100 } else { s }
}

/// The page and page size of a listing request; `default_size` is 12 for accounts and
/// 20 for tokens.
pub fn page_params(page: Option<i64>, page_size: Option<i64>, default_size: i64) -> (r: (i64, i64))
    ensures
        r.0 == page_number(page),
        r.1 == page_size_of(page_size, default_size),
        r.0 >= 1,
        1 <= r.1 <= 100,
{
    let p = match page {
        Some(p) => p,
        None => 1,
    };
    let p = if p < 1 { 1 } else { p };
    let s = match page_size {
        Some(s) => s,
        None => default_size,
    };
    let s = if s < 1 { 1 } else if s > 100 { 100 } else { s };
    (p, s)
}

/// The number of pages that `total` items fill at `page_size` a page.
pub fn total_pages(total: i64, page_size: i64) -> (r: i64)
    requires
        total >= 0,
        page_size >= 1,
        total + page_size <= i64::MAX,
    ensures
        r as int == (total + page_size - 1) as int / page_size as int,
        r * page_size >= total,
        (r - 1) * page_size < total || r == 0,
{
    let r = (total + page_size - 1) / page_size;
    proof {
        let n: int = total + page_size - 1;
        let d: int = page_size as int;
        let q: int = r as int;
        assert(q == n / d);
        assert(n == q * d + n % d) by (nonlinear_arith)
            requires n >= 0, d >= 1, q == n / d;
        assert(0 <= n % d < d) by (nonlinear_arith)
            requires n >= 0, d >= 1;
        assert(q * d - d == (q - 1) * d) by (nonlinear_arith);
    }
    r
}

/// A request to create an account, as the admin panel sends it.
pub struct CreateAccountRequest {
    pub name: Option<String>,
    pub email: String,
    pub token: String,
    pub proxy_url: Option<String>,
    pub billing_mode: Option<String>,
    pub concurrency: Option<i32>,
    pub priority: Option<i32>,
}

/// The text an optional field gives: its value, or empty.
pub open spec fn text_or_empty(v: Option<String>) -> Seq<char> {
    match v {
        Some(s) => s@,
        None => Seq::empty(),
    }
}

/// Whether `a` is the account that `req` asks for, created at `created` and updated at
/// `updated`: active, unnamed fields empty, strip billing, concurrency 3 and priority 50
/// by default, empty fingerprints and usage, no rate limit, and id 0 until stored.
pub open spec fn is_requested_account(req: CreateAccountRequest, created: UtcTime, updated: UtcTime, a: Account) -> bool {
    &&& a.id == 0
    &&& a.name@ == text_or_empty(req.name)
    &&& a.email@ == req.email@
    &&& a.status == AccountStatus::Active
    &&& a.token@ == req.token@
    &&& a.proxy_url@ == text_or_empty(req.proxy_url)
    &&& a.device_id@.len() == 0
    &&& a.canonical_env is Object && a.canonical_env->Object_0@.len() == 0
    &&& a.canonical_prompt is Object && a.canonical_prompt->Object_0@.len() == 0
    &&& a.canonical_process is Object && a.canonical_process->Object_0@.len() == 0
    &&& a.billing_mode == match req.billing_mode {
        Some(m) => billing_from_text(m@),
        None => BillingMode::Strip,
    }
    &&& a.concurrency == match req.concurrency {
        Some(c) => c,
        None => 3,
    }
    &&& a.priority == match req.priority {
        Some(p) => p,
        None => 50,
    }
    &&& a.rate_limited_at is None
    &&& a.rate_limit_reset_at is None
    &&& a.usage_data is Object && a.usage_data->Object_0@.len() == 0
    &&& a.usage_fetched_at is None
    &&& a.created_at == created
    &&& a.updated_at == updated
}

fn string_or_empty(v: Option<String>) -> (r: String)
    ensures
        r@ == text_or_empty(v),
{
    match v {
        Some(s) => s,
        None => String::new(),
    }
}

/// The account that `req` asks for, created at `created` and updated at `updated`; the
/// request must name a token and an email.
pub fn account_from_request(req: CreateAccountRequest, created: UtcTime, updated: UtcTime) -> (r: Result<Account, AppError>)
    ensures
        match r {
            Ok(a) => req.token@.len() > 0 && req.email@.len() > 0 && is_requested_account(req, created, updated, a),
            Err(e) => (req.token@.len() == 0 || req.email@.len() == 0) && e is BadRequest
                && e->BadRequest_0@ == "token and email are required"@,
        },
{
    if req.token.as_str().is_empty() || req.email.as_str().is_empty() {
        return Err(AppError::BadRequest(String::from_str("token and email are required")));
    }
    let billing_mode = match req.billing_mode {
        Some(m) => BillingMode::from(m),
        None => BillingMode::from(String::from_str("strip")),
    };
    proof {
        reveal_strlit("strip");
        reveal_strlit("rewrite");
        assert("strip"@[0] != "rewrite"@[0]);
    }
    let concurrency = match req.concurrency {
        Some(c) => c,
        None => 3,
    };
    let priority = match req.priority {
        Some(p) => p,
        None => 50,
    };
    Ok(Account {
        id: 0,
        name: string_or_empty(req.name),
        email: req.email,
        status: AccountStatus::Active,
        token: req.token,
        proxy_url: string_or_empty(req.proxy_url),
        device_id: String::new(),
        canonical_env: JsonValue::empty_object(),
        canonical_prompt: JsonValue::empty_object(),
        canonical_process: JsonValue::empty_object(),
        billing_mode,
        concurrency,
        priority,
        rate_limited_at: None,
        rate_limit_reset_at: None,
        usage_data: JsonValue::empty_object(),
        usage_fetched_at: None,
        created_at: created,
        updated_at: updated,
    })
}

/// The account that `req` asks for, created and updated now, by the clock.
pub fn new_account_from_request(req: CreateAccountRequest) -> (r: Result<Account, AppError>)
    ensures
        match r {
            Ok(a) => req.token@.len() > 0 && req.email@.len() > 0
                && is_requested_account(req, a.created_at, a.updated_at, a)
                && in_chrono_range(a.created_at) && in_chrono_range(a.updated_at),
            Err(e) => (req.token@.len() == 0 || req.email@.len() == 0) && e is BadRequest
                && e->BadRequest_0@ == "token and email are required"@,
        },
{
    let created = utc_now();
    let updated = utc_now();
    account_from_request(req, created, updated)
}

/// The new value of a text field under an update: the string at `key`, when there is one
/// and it is not empty; otherwise the old value.
pub open spec fn updated_text(old: String, updates: JsonValue, key: Seq<char>) -> String {
    match updates.lookup(key) {
        Some(JsonValue::String(s)) => if s@.len() > 0 { s } else { old },
        _ => old,
    }
}

/// The new value of a number field under an update: the integer at `key`, when there
/// is one above zero, cut to 32 bits; otherwise the old value.
pub open spec fn updated_number(old: i32, updates: JsonValue, key: Seq<char>) -> i32 {
    match updates.int_at(key) {
        Some(v) => if v > 0 { v as i32 } else { old },
        None => old,
    }
}

/// The account after an update from the admin panel: each of name, email, token and
/// proxy URL takes a non-empty string given for it; concurrency and priority take a
/// positive integer given for them; status and billing mode take the value a
/// non-empty name given for them stands for. Everything else stays.
pub open spec fn updated_account(a: Account, updates: JsonValue) -> Account {
    Account {
        name: updated_text(a.name, updates, "name"@),
        email: updated_text(a.email, updates, "email"@),
        token: updated_text(a.token, updates, "token"@),
        proxy_url: updated_text(a.proxy_url, updates, "proxy_url"@),
        concurrency: updated_number(a.concurrency, updates, "concurrency"@),
        priority: updated_number(a.priority, updates, "priority"@),
        status: match updates.text_at("status"@) {
            Some(t) => if t.len() > 0 { status_from_text(t) } else { a.status },
            None => a.status,
        },
        billing_mode: match updates.text_at("billing_mode"@) {
            Some(t) => if t.len() > 0 { billing_from_text(t) } else { a.billing_mode },
            None => a.billing_mode,
        },
        ..a
    }
}

fn update_text(field: &mut String, updates: &JsonValue, key: &str)
    ensures
        *final(field) == updated_text(*old(field), *updates, key@),
{
    match updates.get(key) {
        Some(JsonValue::String(s)) => {
            if !s.as_str().is_empty() {
                *field = s.clone();
            }
        },
        _ => {},
    }
}

fn update_number(field: &mut i32, updates: &JsonValue, key: &str)
    ensures
        *final(field) == updated_number(*old(field), *updates, key@),
{
    match updates.i64_at(key) {
        Some(v) => {
            if v > 0 {
                *field = v as i32;
            }
        },
        None => {},
    }
}

/// Applies an update from the admin panel to an account.
pub fn apply_account_updates(existing: &mut Account, updates: &JsonValue)
    ensures
        *final(existing) == updated_account(*old(existing), *updates),
        updates.text_at("name"@) is Some && updates.text_at("name"@)->0.len() > 0
            ==> final(existing).name@ == updates.text_at("name"@)->0,
        !(updates.text_at("name"@) is Some && updates.text_at("name"@)->0.len() > 0)
            ==> final(existing).name == old(existing).name,
        updates.text_at("email"@) is Some && updates.text_at("email"@)->0.len() > 0
            ==> final(existing).email@ == updates.text_at("email"@)->0,
        !(updates.text_at("email"@) is Some && updates.text_at("email"@)->0.len() > 0)
            ==> final(existing).email == old(existing).email,
        updates.text_at("token"@) is Some && updates.text_at("token"@)->0.len() > 0
            ==> final(existing).token@ == updates.text_at("token"@)->0,
        !(updates.text_at("token"@) is Some && updates.text_at("token"@)->0.len() > 0)
            ==> final(existing).token == old(existing).token,
        updates.text_at("proxy_url"@) is Some && updates.text_at("proxy_url"@)->0.len() > 0
            ==> final(existing).proxy_url@ == updates.text_at("proxy_url"@)->0,
        !(updates.text_at("proxy_url"@) is Some && updates.text_at("proxy_url"@)->0.len() > 0)
            ==> final(existing).proxy_url == old(existing).proxy_url,
        updates.int_at("concurrency"@) is Some && updates.int_at("concurrency"@)->0 > 0
            ==> final(existing).concurrency == updates.int_at("concurrency"@)->0 as i32,
        !(updates.int_at("concurrency"@) is Some && updates.int_at("concurrency"@)->0 > 0)
            ==> final(existing).concurrency == old(existing).concurrency,
        updates.int_at("priority"@) is Some && updates.int_at("priority"@)->0 > 0
            ==> final(existing).priority == updates.int_at("priority"@)->0 as i32,
        !(updates.int_at("priority"@) is Some && updates.int_at("priority"@)->0 > 0)
            ==> final(existing).priority == old(existing).priority,
        updates.text_at("status"@) is Some && updates.text_at("status"@)->0.len() > 0
            ==> final(existing).status == status_from_text(updates.text_at("status"@)->0),
        !(updates.text_at("status"@) is Some && updates.text_at("status"@)->0.len() > 0)
            ==> final(existing).status == old(existing).status,
        updates.text_at("billing_mode"@) is Some && updates.text_at("billing_mode"@)->0.len() > 0
            ==> final(existing).billing_mode == billing_from_text(updates.text_at("billing_mode"@)->0),
        !(updates.text_at("billing_mode"@) is Some && updates.text_at("billing_mode"@)->0.len() > 0)
            ==> final(existing).billing_mode == old(existing).billing_mode,
        final(existing).id == old(existing).id,
        final(existing).device_id == old(existing).device_id,
        final(existing).rate_limit_reset_at == old(existing).rate_limit_reset_at,
        final(existing).created_at == old(existing).created_at,
{
    update_text(&mut existing.name, updates, "name");
    update_text(&mut existing.email, updates, "email");
    update_text(&mut existing.token, updates, "token");
    update_text(&mut existing.proxy_url, updates, "proxy_url");
    update_number(&mut existing.concurrency, updates, "concurrency");
    update_number(&mut existing.priority, updates, "priority");
    match updates.str_at("status") {
        Some(s) => {
            if !s.as_str().is_empty() {
                existing.status = AccountStatus::from(s.clone());
            }
        },
        None => {},
    }
    match updates.str_at("billing_mode") {
        Some(s) => {
            if !s.as_str().is_empty() {
                existing.billing_mode = BillingMode::from(s.clone());
            }
        },
        None => {},
    }
}

/// An update sets each text field (name, email, token, proxy URL) to the non-empty
/// string given for it and leaves it alone otherwise; it sets concurrency and priority
/// to the positive integer given for them (cut to 32 bits) and leaves them alone
/// otherwise; it never touches the id, the device id, the rate limit or the times.
pub proof fn lemma_update_sets_given_fields(a: Account, u: JsonValue)
    ensures
        ({
            let b = updated_account(a, u);
            &&& u.text_at("name"@) is Some && u.text_at("name"@)->0.len() > 0 ==> b.name@ == u.text_at("name"@)->0
            &&& !(u.text_at("name"@) is Some && u.text_at("name"@)->0.len() > 0) ==> b.name == a.name
            &&& u.text_at("email"@) is Some && u.text_at("email"@)->0.len() > 0 ==> b.email@ == u.text_at("email"@)->0
            &&& !(u.text_at("email"@) is Some && u.text_at("email"@)->0.len() > 0) ==> b.email == a.email
            &&& u.text_at("token"@) is Some && u.text_at("token"@)->0.len() > 0 ==> b.token@ == u.text_at("token"@)->0
            &&& !(u.text_at("token"@) is Some && u.text_at("token"@)->0.len() > 0) ==> b.token == a.token
            &&& u.text_at("proxy_url"@) is Some && u.text_at("proxy_url"@)->0.len() > 0
                ==> b.proxy_url@ == u.text_at("proxy_url"@)->0
            &&& !(u.text_at("proxy_url"@) is Some && u.text_at("proxy_url"@)->0.len() > 0) ==> b.proxy_url == a.proxy_url
            &&& u.int_at("concurrency"@) is Some && u.int_at("concurrency"@)->0 > 0
                ==> b.concurrency == u.int_at("concurrency"@)->0 as i32
            &&& !(u.int_at("concurrency"@) is Some && u.int_at("concurrency"@)->0 > 0) ==> b.concurrency == a.concurrency
            &&& u.int_at("priority"@) is Some && u.int_at("priority"@)->0 > 0
                ==> b.priority == u.int_at("priority"@)->0 as i32
            &&& !(u.int_at("priority"@) is Some && u.int_at("priority"@)->0 > 0) ==> b.priority == a.priority
            &&& b.id == a.id && b.device_id == a.device_id
            &&& b.rate_limit_reset_at == a.rate_limit_reset_at && b.created_at == a.created_at
        }),
{
}

/// Applying the same update twice gives what applying it once gives.
pub proof fn lemma_update_idempotent(a: Account, updates: JsonValue)
    ensures
        updated_account(updated_account(a, updates), updates) == updated_account(a, updates),
{
}

/// How many accounts of `s` are in status `st`.
pub open spec fn count_status(s: Seq<Account>, st: AccountStatus) -> nat
    decreases s.len(),
{
    if s.len() == 0 {
        0
    } else {
        count_status(s.drop_last(), st) + if s.last().status == st { 1nat } else { 0nat }
    }
}

/// The figures of the dashboard: the accounts, by status, and the API tokens.
pub struct DashboardCounts {
    pub total: usize,
    pub active: usize,
    pub error: usize,
    pub disabled: usize,
    pub tokens: i64,
}

/// The token figure of the dashboard: the token store's count, or 0 when counting failed.
pub open spec fn token_figure(token_count: Result<i64, AppError>) -> i64 {
    match token_count {
        Ok(n) => n,
        Err(_) => 0,
    }
}

/// The count of a status grows by one exactly for each account of that status: none in
/// an empty list, and appending an account adds one when it has the status and nothing
/// otherwise.
pub proof fn lemma_count_status_push(s: Seq<Account>, a: Account, st: AccountStatus)
    ensures
        count_status(Seq::<Account>::empty(), st) == 0,
        count_status(s.push(a), st) == count_status(s, st) + if a.status == st { 1nat } else { 0nat },
{
    assert(s.push(a).drop_last() =~= s);
}

/// The count of a status is the number of accounts with that status.
pub proof fn lemma_count_status_filter(s: Seq<Account>, st: AccountStatus)
    ensures
        count_status(s, st) == s.filter(|a: Account| a.status == st).len(),
    decreases s.len(),
{
    reveal_with_fuel(Seq::filter, 1);
    if s.len() > 0 {
        lemma_count_status_filter(s.drop_last(), st);
    }
}

/// Every account is in exactly one status, so the counts add up to the total.
pub proof fn lemma_status_counts_sum(s: Seq<Account>)
    ensures
        count_status(s, AccountStatus::Active) + count_status(s, AccountStatus::Error)
            + count_status(s, AccountStatus::Disabled) == s.len(),
    decreases s.len(),
{
    if s.len() > 0 {
        lemma_status_counts_sum(s.drop_last());
    }
}

/// The dashboard's figures: all accounts, how many are active, in error and
/// disabled, and the number of API tokens from the token store's count (0 when it
/// failed).
pub fn dashboard_counts(accounts: &Vec<Account>, token_count: Result<i64, AppError>) -> (r: DashboardCounts)
    ensures
        r.tokens == token_figure(token_count),
        r.total == accounts@.len(),
        r.active == count_status(accounts@, AccountStatus::Active),
        r.error == count_status(accounts@, AccountStatus::Error),
        r.disabled == count_status(accounts@, AccountStatus::Disabled),
        r.active + r.error + r.disabled == r.total,
{
    let mut active: usize = 0;
    let mut error: usize = 0;
    let mut disabled: usize = 0;
    let mut i: usize = 0;
    while i < accounts.len()
        invariant
            i <= accounts.len(),
            active == count_status(accounts@.take(i as int), AccountStatus::Active),
            error == count_status(accounts@.take(i as int), AccountStatus::Error),
            disabled == count_status(accounts@.take(i as int), AccountStatus::Disabled),
            active + error + disabled == i,
        decreases accounts.len() - i,
    {
        proof {
            assert(accounts@.take(i + 1).drop_last() =~= accounts@.take(i as int));
            lemma_status_counts_sum(accounts@.take(i as int));
        }
        match accounts[i].status {
            AccountStatus::Active => active = active + 1,
            AccountStatus::Error => error = error + 1,
            AccountStatus::Disabled => disabled = disabled + 1,
        }
        i = i + 1;
    }
    assert(accounts@.take(accounts.len() as int) =~= accounts@);
    let tokens = match token_count {
        Ok(n) => n,
        Err(_) => 0,
    };
    DashboardCounts { total: accounts.len(), active, error, disabled, tokens }
}

} // verus!
