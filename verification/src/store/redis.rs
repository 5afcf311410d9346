use vstd::prelude::*;
use vstd::string::*;

use crate::error::AppError;
use crate::text::{decimal_text, i64_to_text, lemma_decimal_round_trip, parse_i64_text, strip_prefix_repeatedly, trim_start_matches};

verus! {

#[verifier::external_type_specification]
#[verifier::external_body]
pub struct ExConnectionManager(redis::aio::ConnectionManager);

#[verifier::external_type_specification]
#[verifier::external_body]
pub struct ExRedisClient(redis::Client);

/// Whether `redis` takes `url` as the address of a server.
pub uninterp spec fn redis_url_opens(url: Seq<char>) -> bool;

/// What `redis` reports when it does not take `url`.
pub uninterp spec fn redis_open_error(url: Seq<char>) -> Seq<char>;

/// A client for the server at `url`, from `redis::Client::open`, which reads the URL
/// and opens no connection: the client when the URL reads, otherwise the text of the
/// error.
#[verifier::external_body]
fn open_redis_client(url: &str) -> (r: Result<redis::Client, String>)
    ensures
        (r is Ok) <==> redis_url_opens(url@),
        r matches Err(m) ==> m@ == redis_open_error(url@),
{
    match redis::Client::open(url) {
        Ok(c) => Ok(c),
        Err(e) => Err(e.to_string()),
    }
}

/// The amount a slot counter moves by: up when a slot is asked for, down when one is
/// given back (or an increment is given back).
pub const SLOT_STEP: i64 = 1;

/// The Redis cache: a managed connection. The commands go out through the connection;
/// the keys, the stored values and the slot rules are the functions below.
pub struct RedisStore {
    client: redis::aio::ConnectionManager,
}

/// The connection URL for a Redis at `addr`, database `db`: `addr/db` without a
/// password, otherwise `redis://:password@host/db`, where host is `addr` with every
/// leading `redis://` removed.
pub open spec fn redis_url_text(addr: Seq<char>, password: Seq<char>, db: i64) -> Seq<char> {
    if password.len() == 0 {
        addr + "/"@ + decimal_text(db as int)
    } else {
        "redis://:"@ + password + "@"@ + strip_prefix_repeatedly(addr, "redis://"@) + "/"@
            + decimal_text(db as int)
    }
}

/// The connection URL for a Redis at `addr`, database `db`, with `password` if not empty.
pub fn redis_url(addr: &str, password: &str, db: i64) -> (r: String)
    ensures
        r@ == redis_url_text(addr@, password@, db),
{
    let db_text = i64_to_text(db);
    if password.is_empty() {
        let mut url = String::from_str(addr);
        url.append("/");
        url.append(db_text.as_str());
        url
    } else {
        let base = trim_start_matches(addr, "redis://");
        let mut url = String::from_str("redis://:");
        url.append(password);
        url.append("@");
        url.append(base.as_str());
        url.append("/");
        url.append(db_text.as_str());
        url
    }
}

/// The cache key that binds a session: `session:<hash>`.
pub open spec fn session_key_text(session_hash: Seq<char>) -> Seq<char> {
    "session:"@ + session_hash
}

/// What parsing `s` as an `i64` reports when it fails.
pub uninterp spec fn int_parse_error_text(s: Seq<char>) -> Seq<char>;

/// `s` parsed as an `i64` with `str::parse`: the value of an optional sign followed
/// by digits, when it fits; otherwise the text of the parse error.
#[verifier::external_body]
fn parse_i64(s: &str) -> (r: Result<i64, String>)
    ensures
        match r {
            Ok(v) => parse_i64_text(s@) == Some(v),
            Err(m) => parse_i64_text(s@) is None && m@ == int_parse_error_text(s@),
        },
{
    match s.parse::<i64>() {
        Ok(v) => Ok(v),
        Err(e) => Err(e.to_string()),
    }
}

/// The account id a session binding holds, as read back from the cache: none when
/// the key is absent, the number when the stored text is one, and otherwise the error
/// `redis parse: <reason>`.
pub open spec fn stored_account_id_ok(stored: Option<Seq<char>>, r: Result<Option<i64>, AppError>) -> bool {
    match stored {
        None => r == Ok::<Option<i64>, AppError>(None),
        Some(t) => match parse_i64_text(t) {
            Some(v) => r == Ok::<Option<i64>, AppError>(Some(v)),
            None => r is Err && r->Err_0 is Internal
                && r->Err_0->Internal_0@ == "redis parse: "@ + int_parse_error_text(t),
        },
    }
}

/// Whether the counter of a slot gets its expiry, is given back, and whether the slot
/// is taken, once the counter reads `count` after the increment.
pub struct SlotDecision {
    pub set_expiry: bool,
    pub give_back: bool,
    pub acquired: bool,
}

/// The decision once the slot counter reads `count` after its increment.
pub open spec fn slot_decision_spec(count: int, max: i32) -> SlotDecision {
    SlotDecision { set_expiry: count == 1, give_back: count > max, acquired: count <= max }
}

/// The counter after a slot is asked for when it read `before`: incremented, and
/// decremented again when the decision gives the increment back.
pub open spec fn counter_after_acquire(before: int, max: i32) -> int {
    before + SLOT_STEP - if slot_decision_spec(before + SLOT_STEP, max).give_back { SLOT_STEP as int } else { 0int }
}

/// The counter after a slot is given back when it read `before`: decremented.
pub open spec fn counter_after_release(before: int) -> int {
    before - SLOT_STEP
}

/// One call on a slot counter: asking for a slot, or giving one back.
pub enum SlotOp {
    Acquire,
    Release,
}

/// A run of calls on a counter that starts absent (at 0): the counter afterwards,
/// how many slots were granted, and how many were given back.
pub open spec fn slot_run(ops: Seq<SlotOp>, max: i32) -> (int, nat, nat)
    decreases ops.len(),
{
    if ops.len() == 0 {
        (0, 0, 0)
    } else {
        let before = slot_run(ops.drop_last(), max);
        match ops.last() {
            SlotOp::Acquire => (
                counter_after_acquire(before.0, max),
                if slot_decision_spec(before.0 + SLOT_STEP, max).acquired { before.1 + 1 } else { before.1 },
                before.2,
            ),
            SlotOp::Release => (counter_after_release(before.0), before.1, before.2 + 1),
        }
    }
}

/// Whether every give-back of the run gives back a slot granted earlier in it and not
/// given back yet.
pub open spec fn releases_matched(ops: Seq<SlotOp>, max: i32) -> bool
    decreases ops.len(),
{
    ops.len() == 0 || {
        &&& releases_matched(ops.drop_last(), max)
        &&& (ops.last() is Release ==> slot_run(ops.drop_last(), max).1 > slot_run(ops.drop_last(), max).2)
    }
}

impl RedisStore {
    /// The connection the store sends its commands through.
    pub closed spec fn connection(&self) -> redis::aio::ConnectionManager {
        self.client
    }

    /// A store over an established connection.
    pub fn with_client(client: redis::aio::ConnectionManager) -> (r: Self)
        ensures
            r.connection() == client,
    {
        RedisStore { client }
    }

    /// The connection.
    pub fn client(&self) -> (r: &redis::aio::ConnectionManager)
        ensures
            *r == self.connection(),
    {
        &self.client
    }

    /// A client for the Redis at `addr`, database `db`, with `password` if not empty; an
    /// address that `redis` does not take is the error `redis open: <reason>`.
    pub fn open_client(addr: &str, password: &str, db: i64) -> (r: Result<redis::Client, AppError>)
        ensures
            (r is Ok) <==> redis_url_opens(redis_url_text(addr@, password@, db)),
            r matches Err(e) ==> e is Internal && e->Internal_0@ == "redis open: "@
                + redis_open_error(redis_url_text(addr@, password@, db)),
    {
        let url = redis_url(addr, password, db);
        match open_redis_client(url.as_str()) {
            Ok(c) => Ok(c),
            Err(e) => {
                let mut msg = String::from_str("redis open: ");
                msg.append(e.as_str());
                Err(AppError::Internal(msg))
            },
        }
    }

    /// The cache key that binds a session.
    pub fn session_key(session_hash: &str) -> (r: String)
        ensures
            r@ == session_key_text(session_hash@),
    {
        let mut key = String::from_str("session:");
        key.append(session_hash);
        key
    }

    /// The text a session binding stores for `account_id`: its decimal text.
    pub fn session_value(account_id: i64) -> (r: String)
        ensures
            r@ == decimal_text(account_id as int),
    {
        i64_to_text(account_id)
    }

    /// The account id a session binding holds, from what the cache gave back for its key.
    pub fn stored_account_id(stored: Option<String>) -> (r: Result<Option<i64>, AppError>)
        ensures
            stored_account_id_ok(
                match stored {
                    Some(t) => Some(t@),
                    None => None,
                },
                r,
            ),
    {
        match stored {
            Some(s) => match parse_i64(s.as_str()) {
                Ok(id) => Ok(Some(id)),
                Err(e) => {
                    let mut msg = String::from_str("redis parse: ");
                    msg.append(e.as_str());
                    Err(AppError::Internal(msg))
                },
            },
            None => Ok(None),
        }
    }

    /// What to do once the slot counter reads `count` after its increment: set the
    /// expiry when this is the first slot, and give the increment back (refusing the
    /// slot) when the count passes `max`.
    pub fn slot_decision(count: i64, max: i32) -> (r: SlotDecision)
        ensures
            r == slot_decision_spec(count as int, max),
    {
        let over = count > max as i64;
        SlotDecision { set_expiry: count == 1, give_back: over, acquired: !over }
    }
}

/// What a session binding stores reads back as the account id that was written.
pub proof fn lemma_session_binding_round_trip(account_id: i64, r: Result<Option<i64>, AppError>)
    requires
        stored_account_id_ok(Some(decimal_text(account_id as int)), r),
    ensures
        r == Ok::<Option<i64>, AppError>(Some(account_id)),
{
    lemma_decimal_round_trip(account_id);
}

/// A slot is granted exactly when the counter, once incremented, is within `max`; the
/// counter then grows by one and is otherwise left as it was, so it never grows past
/// `max`.
pub proof fn lemma_slot_bound(before: i64, max: i32)
    requires
        before < i64::MAX,
    ensures
        ({
            let d = slot_decision_spec(before + 1, max);
            &&& d.acquired == (before + 1 <= max)
            &&& d.acquired ==> counter_after_acquire(before as int, max) == before + 1
            &&& !d.acquired ==> counter_after_acquire(before as int, max) == before
            &&& before <= max ==> counter_after_acquire(before as int, max) <= max
        }),
{
}

/// Concurrency control over a run: starting from an absent counter, with `max` at least
/// 0 and every give-back matched to an earlier granted slot, the counter after each
/// call is the slots granted less the slots given back, and it stays between 0 and
/// `max`: at most `max` slots are ever held at once.
pub proof fn lemma_slot_run(ops: Seq<SlotOp>, max: i32)
    requires
        max >= 0,
        releases_matched(ops, max),
    ensures
        slot_run(ops, max).0 == slot_run(ops, max).1 - slot_run(ops, max).2,
        0 <= slot_run(ops, max).0 <= max,
    decreases ops.len(),
{
    if ops.len() > 0 {
        lemma_slot_run(ops.drop_last(), max);
    }
}

} // verus!
