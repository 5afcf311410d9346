use vstd::prelude::*;
use vstd::string::*;

use crate::error::AppError;
use crate::json::JsonValue;
use crate::model::account::{schedulable_at, time_before, utc_now, Account, AccountStatus, UtcTime};
use crate::text::{decimal_text, i64_to_text};

verus! {

/// How long a session stays bound to the account chosen for it: a day, in seconds.
pub const STICKY_SESSION_TTL_SECS: u64 = 86400;

/// How long a concurrency counter lives after its first slot is taken, in seconds.
pub const SLOT_TTL_SECS: u64 = 300;

/// The account service: the account store and the cache that it works with.
/// The store and the cache do the I/O; the decisions in between are the functions of
/// this module.
pub struct AccountService<S, C> {
    pub store: S,
    pub cache: C,
}

impl<S, C> AccountService<S, C> {
    /// A service over `store` and `cache`.
    pub fn new(store: S, cache: C) -> (r: Self)
        ensures
            r.store == store,
            r.cache == cache,
    {
        AccountService { store, cache }
    }
}

/// The device identity and fingerprints that a new account is given.
pub struct CanonicalIdentity {
    pub device_id: String,
    pub env: JsonValue,
    pub prompt: JsonValue,
    pub process: JsonValue,
}

/// Gives a new account its identity and fills in the defaults that it lacks:
/// a concurrency of 0 becomes 3 and a priority of 0 becomes 50.
pub fn prepare_new_account(a: &mut Account, identity: CanonicalIdentity)
    ensures
        final(a).device_id == identity.device_id,
        final(a).canonical_env == identity.env,
        final(a).canonical_prompt == identity.prompt,
        final(a).canonical_process == identity.process,
        final(a).concurrency == (if old(a).concurrency == 0 { 3 } else { old(a).concurrency }),
        final(a).priority == (if old(a).priority == 0 { 50 } else { old(a).priority }),
        final(a).id == old(a).id,
        final(a).name == old(a).name,
        final(a).email == old(a).email,
        final(a).status == old(a).status,
        final(a).token == old(a).token,
        final(a).proxy_url == old(a).proxy_url,
        final(a).billing_mode == old(a).billing_mode,
        final(a).rate_limited_at == old(a).rate_limited_at,
        final(a).rate_limit_reset_at == old(a).rate_limit_reset_at,
        final(a).usage_data == old(a).usage_data,
        final(a).usage_fetched_at == old(a).usage_fetched_at,
        final(a).created_at == old(a).created_at,
        final(a).updated_at == old(a).updated_at,
{
    a.device_id = identity.device_id;
    a.canonical_env = identity.env;
    a.canonical_prompt = identity.prompt;
    a.canonical_process = identity.process;
    if a.concurrency == 0 {
        a.concurrency = 3;
    }
    if a.priority == 0 {
        a.priority = 50;
    }
}

/// The cache key of an account's concurrency counter.
pub open spec fn slot_key_text(account_id: i64) -> Seq<char> {
    "concurrency:account:"@ + decimal_text(account_id as int)
}

/// The cache key of an account's concurrency counter: `concurrency:account:<id>`.
pub fn slot_key(account_id: i64) -> (r: String)
    ensures
        r@ == slot_key_text(account_id),
{
    let mut key = String::from_str("concurrency:account:");
    let id = i64_to_text(account_id);
    key.append(id.as_str());
    key
}

/// Whether a token whose blocked list is `exclude` and whose allowed list is `allowed`
/// (empty for no limit) may use account `id`.
pub open spec fn id_permitted(id: i64, exclude: Seq<i64>, allowed: Seq<i64>) -> bool {
    !exclude.contains(id) && (allowed.len() == 0 || allowed.contains(id))
}

/// Whether `ids` holds `id`.
pub fn contains_id(ids: &Vec<i64>, id: i64) -> (r: bool)
    ensures
        r == ids@.contains(id),
{
    let mut i: usize = 0;
    while i < ids.len()
        invariant
            i <= ids.len(),
            forall|j: int| 0 <= j < i ==> ids@[j] != id,
        decreases ids.len() - i,
    {
        if ids[i] == id {
            assert(ids@[i as int] == id);
            return true;
        }
        i = i + 1;
    }
    false
}

/// Whether the token's lists let it use account `id`.
pub fn is_id_permitted(id: i64, exclude: &Vec<i64>, allowed: &Vec<i64>) -> (r: bool)
    ensures
        r == id_permitted(id, exclude@, allowed@),
{
    !contains_id(exclude, id) && (allowed.len() == 0 || contains_id(allowed, id))
}

/// The accounts of `list` that the token may use, in their order.
pub open spec fn candidates(list: Seq<Account>, exclude: Seq<i64>, allowed: Seq<i64>) -> Seq<Account> {
    list.filter(|a: Account| id_permitted(a.id, exclude, allowed))
}

/// Moves out of `list` the accounts that the token may use, keeping their order.
pub fn take_candidates(list: Vec<Account>, exclude: &Vec<i64>, allowed: &Vec<i64>) -> (r: Vec<Account>)
    ensures
        r@ == candidates(list@, exclude@, allowed@),
{
    let ghost orig = list@;
    let ghost pred = |a: Account| id_permitted(a.id, exclude@, allowed@);
    let n = list.len();
    let mut rest = list;
    let mut out: Vec<Account> = Vec::new();
    let mut i: usize = 0;
    assert(orig.subrange(0, n as int) =~= orig);
    assert(orig.take(0) =~= Seq::<Account>::empty());
    assert(orig.take(0).filter(pred) =~= Seq::<Account>::empty()) by {
        reveal_with_fuel(Seq::filter, 1);
    }
    while i < n
        invariant
            n == orig.len(),
            i <= n,
            rest@ == orig.subrange(i as int, n as int),
            out@ == orig.take(i as int).filter(pred),
            pred == (|a: Account| id_permitted(a.id, exclude@, allowed@)),
        decreases n - i,
    {
        let a = rest.remove(0);
        proof {
            assert(a == orig[i as int]);
            assert(orig.take(i + 1).drop_last() =~= orig.take(i as int));
            assert(orig.take(i + 1).last() == orig[i as int]);
            assert(rest@ =~= orig.subrange(i + 1, n as int));
        }
        let keep = is_id_permitted(a.id, exclude, allowed);
        proof {
            let t = orig.take(i + 1);
            reveal_with_fuel(Seq::filter, 1);
            assert(keep == pred(t.last()));
            assert(t.filter(pred) == if pred(t.last()) {
                t.drop_last().filter(pred).push(t.last())
            } else {
                t.drop_last().filter(pred)
            });
        }
        if keep {
            out.push(a);
        }
        i = i + 1;
    }
    assert(orig.take(n as int) =~= orig);
    out
}

/// The smallest priority value of the accounts of `s` (50 when there are none).
pub open spec fn min_priority(s: Seq<Account>) -> i32
    decreases s.len(),
{
    if s.len() == 0 {
        50
    } else if s.len() == 1 {
        s[0].priority
    } else {
        let m = min_priority(s.drop_first());
        if s[0].priority <= m { s[0].priority } else { m }
    }
}

/// How many accounts of `s` have priority `p`.
pub open spec fn count_priority(s: Seq<Account>, p: i32) -> nat
    decreases s.len(),
{
    if s.len() == 0 {
        0
    } else {
        (if s[0].priority == p { 1nat } else { 0nat }) + count_priority(s.drop_first(), p)
    }
}

/// The position in `s` of the account with priority `p` that has `r` others of that
/// priority before it.
pub open spec fn nth_with_priority(s: Seq<Account>, p: i32, r: nat) -> int
    decreases s.len(),
{
    if s.len() == 0 {
        0
    } else if s[0].priority == p {
        if r == 0 { 0 } else { 1 + nth_with_priority(s.drop_first(), p, (r - 1) as nat) }
    } else {
        1 + nth_with_priority(s.drop_first(), p, r)
    }
}

/// The position of the account that draw `r` picks among the accounts of `s` with
/// the best (smallest) priority.
pub open spec fn priority_pick(s: Seq<Account>, r: nat) -> int {
    nth_with_priority(s, min_priority(s), r)
}

/// The number of accounts of `s` with the best priority: the draws there are.
pub open spec fn best_count(s: Seq<Account>) -> nat {
    count_priority(s, min_priority(s))
}

/// The best priority is no larger than any account's and is some account's.
pub proof fn lemma_min_priority(s: Seq<Account>)
    requires
        s.len() > 0,
    ensures
        forall|j: int| 0 <= j < s.len() ==> min_priority(s) <= #[trigger] s[j].priority,
        exists|j: int| 0 <= j < s.len() && s[j].priority == min_priority(s),
        best_count(s) > 0,
    decreases s.len(),
{
    if s.len() == 1 {
        assert(s[0].priority == min_priority(s));
        assert(s.drop_first().len() == 0);
    } else {
        let t = s.drop_first();
        lemma_min_priority(t);
        assert forall|j: int| 0 <= j < s.len() implies min_priority(s) <= #[trigger] s[j].priority by {
            if j > 0 {
                assert(s[j] == t[j - 1]);
            }
        }
        if s[0].priority <= min_priority(t) {
            assert(s[0].priority == min_priority(s));
        } else {
            let j = choose|j: int| 0 <= j < t.len() && t[j].priority == min_priority(t);
            assert(s[j + 1] == t[j]);
        }
        lemma_count_positive(s, min_priority(s));
    }
}

/// A priority that some account has is counted at least once.
proof fn lemma_count_positive(s: Seq<Account>, p: i32)
    requires
        exists|j: int| 0 <= j < s.len() && s[j].priority == p,
    ensures
        count_priority(s, p) > 0,
    decreases s.len(),
{
    if s[0].priority != p {
        let j = choose|j: int| 0 <= j < s.len() && s[j].priority == p;
        assert(s.drop_first()[j - 1] == s[j]);
        lemma_count_positive(s.drop_first(), p);
    }
}

/// The account that a draw below the count picks lies in the sequence and has the
/// given priority.
pub proof fn lemma_nth_with_priority(s: Seq<Account>, p: i32, r: nat)
    requires
        r < count_priority(s, p),
    ensures
        0 <= nth_with_priority(s, p, r) < s.len(),
        s[nth_with_priority(s, p, r)].priority == p,
    decreases s.len(),
{
    let t = s.drop_first();
    if s[0].priority == p {
        if r > 0 {
            lemma_nth_with_priority(t, p, (r - 1) as nat);
            assert(s[nth_with_priority(s, p, r)] == t[nth_with_priority(t, p, (r - 1) as nat)]);
        }
    } else {
        lemma_nth_with_priority(t, p, r);
        assert(s[nth_with_priority(s, p, r)] == t[nth_with_priority(t, p, r)]);
    }
}

/// The best priority among `accounts`.
fn best_priority_of(accounts: &Vec<Account>) -> (r: i32)
    requires
        accounts.len() > 0,
    ensures
        r == min_priority(accounts@),
{
    let n = accounts.len();
    let mut m = accounts[n - 1].priority;
    let mut i: usize = n - 1;
    assert(accounts@.subrange(i as int, n as int).drop_first().len() == 0);
    while i > 0
        invariant
            n == accounts.len(),
            0 <= i < n,
            m == min_priority(accounts@.subrange(i as int, n as int)),
        decreases i,
    {
        i = i - 1;
        proof {
            let t = accounts@.subrange(i as int, n as int);
            assert(t.drop_first() =~= accounts@.subrange(i + 1, n as int));
            assert(t[0] == accounts@[i as int]);
        }
        if accounts[i].priority <= m {
            m = accounts[i].priority;
        }
    }
    assert(accounts@.subrange(0, n as int) =~= accounts@);
    m
}

/// How many of `accounts` have priority `p`.
fn count_with_priority(accounts: &Vec<Account>, p: i32) -> (r: usize)
    ensures
        r == count_priority(accounts@, p),
{
    let n = accounts.len();
    let mut c: usize = 0;
    let mut i: usize = n;
    assert(accounts@.subrange(n as int, n as int).len() == 0);
    while i > 0
        invariant
            n == accounts.len(),
            i <= n,
            c == count_priority(accounts@.subrange(i as int, n as int), p),
            c <= n - i,
        decreases i,
    {
        i = i - 1;
        proof {
            let t = accounts@.subrange(i as int, n as int);
            assert(t.drop_first() =~= accounts@.subrange(i + 1, n as int));
            assert(t[0] == accounts@[i as int]);
        }
        if accounts[i].priority == p {
            c = c + 1;
        }
    }
    assert(accounts@.subrange(0, n as int) =~= accounts@);
    c
}

/// The number of draws there are among `accounts`: how many share the best priority.
pub fn best_priority_count(accounts: &Vec<Account>) -> (r: usize)
    requires
        accounts.len() > 0,
    ensures
        r == best_count(accounts@),
        r > 0,
{
    proof { lemma_min_priority(accounts@); }
    let p = best_priority_of(accounts);
    count_with_priority(accounts, p)
}

/// The position of the account that draw `r` picks among the accounts with the best
/// priority: the one with `r` accounts of that priority before it.
pub fn pick_by_priority(accounts: &Vec<Account>, r: usize) -> (k: usize)
    requires
        accounts.len() > 0,
        r < best_count(accounts@),
    ensures
        k == priority_pick(accounts@, r as nat),
        k < accounts.len(),
        accounts@[k as int].priority == min_priority(accounts@),
{
    let p = best_priority_of(accounts);
    proof { lemma_nth_with_priority(accounts@, p, r as nat); }
    let n = accounts.len();
    let mut i: usize = 0;
    let mut remaining: usize = r;
    assert(accounts@.subrange(0, n as int) =~= accounts@);
    loop
        invariant
            n == accounts.len(),
            i < n,
            p == min_priority(accounts@),
            remaining < count_priority(accounts@.subrange(i as int, n as int), p),
            nth_with_priority(accounts@, p, r as nat)
                == i + nth_with_priority(accounts@.subrange(i as int, n as int), p, remaining as nat),
        decreases n - i,
    {
        proof {
            let t = accounts@.subrange(i as int, n as int);
            assert(t.drop_first() =~= accounts@.subrange(i + 1, n as int));
            assert(t[0] == accounts@[i as int]);
        }
        if accounts[i].priority == p {
            if remaining == 0 {
                return i;
            }
            remaining = remaining - 1;
        }
        proof {
            let t = accounts@.subrange(i + 1, n as int);
            if t.len() == 0 {
                assert(count_priority(t, p) == 0);
            }
        }
        i = i + 1;
    }
}

/// A random draw below `n`, from `rand::thread_rng().gen_range(0..n)`: below `n`,
/// and otherwise whatever the generator gives.
#[verifier::external_body]
fn random_below(n: usize) -> (r: usize)
    requires
        n > 0,
    ensures
        r < n,
{
    rand::Rng::gen_range(&mut rand::thread_rng(), 0..n)
}

/// Picks one of `accounts` with the best priority, at random among those that share
/// it; with a single account there is nothing to draw.
pub fn select_by_priority(accounts: &Vec<Account>) -> (k: usize)
    requires
        accounts.len() > 0,
    ensures
        exists|r: nat| r < best_count(accounts@) && k == priority_pick(accounts@, r),
        k < accounts.len(),
        accounts@[k as int].priority == min_priority(accounts@),
{
    proof { lemma_min_priority(accounts@); }
    if accounts.len() == 1 {
        proof {
            assert(accounts@.drop_first().len() == 0);
            assert(nth_with_priority(accounts@, min_priority(accounts@), 0) == 0);
        }
        return pick_by_priority(accounts, 0);
    }
    let count = best_priority_count(accounts);
    let r = random_below(count);
    pick_by_priority(accounts, r)
}

/// Where a selection stands in its exchange with the cache and the store.
pub enum SelectPhase {
    /// Waiting for the cache to say which account the session is bound to.
    LookingUpSession,
    /// Waiting for the store to load the account the session is bound to.
    LoadingAccount(i64),
    /// Waiting for the cache to drop a binding that no longer serves.
    DeletingSession,
    /// Waiting for the store to list the schedulable accounts.
    Listing,
    /// Waiting for the cache to bind the session to the chosen account.
    Binding(Account),
    /// The selection has its answer.
    Finished,
}

/// What the cache or the store answered to the last action.
pub enum SelectEvent {
    /// The account id the session is bound to; a cache error counts as no binding.
    SessionLookedUp(Option<i64>),
    /// The account loaded by id; a store error counts as no account.
    AccountLoaded(Option<Account>),
    /// The binding was dropped (or dropping it failed: that is not looked at).
    SessionDeleted,
    /// The schedulable accounts, or the store's error.
    AccountsListed(Result<Vec<Account>, AppError>),
    /// The binding was written (or writing it failed: that is not looked at).
    SessionBound,
}

/// What the caller has to do next for the selection.
pub enum SelectAction {
    LookupSession(String),
    LoadAccount(i64),
    DeleteSession(String),
    ListSchedulable,
    BindSession { session_hash: String, account_id: i64, ttl_secs: u64 },
    Done(Result<Account, AppError>),
}

/// The choice of an account for one request: with the session hash of the request
/// (empty for none), the ids the token may not use and the ids it may use (empty for
/// all), and the phase it is in.
pub struct AccountSelection {
    pub session_hash: String,
    pub exclude_ids: Vec<i64>,
    pub allowed_ids: Vec<i64>,
    pub phase: SelectPhase,
}

/// Whether `event` answers what a selection in `phase` waits for.
pub open spec fn event_fits(phase: SelectPhase, event: SelectEvent) -> bool {
    match phase {
        SelectPhase::LookingUpSession => event is SessionLookedUp,
        SelectPhase::LoadingAccount(_) => event is AccountLoaded,
        SelectPhase::DeletingSession => event is SessionDeleted,
        SelectPhase::Listing => event is AccountsListed,
        SelectPhase::Binding(_) => event is SessionBound,
        SelectPhase::Finished => false,
    }
}

/// Whether `pick` is a draw the listing answer allows: below the number of candidates
/// that share the best priority, when there are candidates.
pub open spec fn pick_fits(sel: AccountSelection, event: SelectEvent, pick: nat) -> bool {
    match event {
        SelectEvent::AccountsListed(Ok(list)) => {
            let c = candidates(list@, sel.exclude_ids@, sel.allowed_ids@);
            c.len() > 0 ==> pick < best_count(c)
        },
        _ => true,
    }
}

/// The message of the error when no account can take the request.
pub open spec fn no_accounts_text() -> Seq<char> {
    "no available accounts"@
}

/// What a selection does when `event` comes, at time `now` and with draw `pick`:
/// `next` is its phase afterwards and `action` what the caller does next.
pub open spec fn select_step(
    sel: AccountSelection,
    event: SelectEvent,
    now: UtcTime,
    pick: nat,
    next: SelectPhase,
    action: SelectAction,
) -> bool {
    let hash = sel.session_hash@;
    let ex = sel.exclude_ids@;
    let al = sel.allowed_ids@;
    match sel.phase {
        SelectPhase::LookingUpSession => match event {
            SelectEvent::SessionLookedUp(found) => {
                if found is Some && found->0 > 0 {
                    next == SelectPhase::LoadingAccount(found->0)
                        && action == SelectAction::LoadAccount(found->0)
                } else {
                    next == SelectPhase::Listing && action == SelectAction::ListSchedulable
                }
            },
            _ => false,
        },
        SelectPhase::LoadingAccount(id) => match event {
            SelectEvent::AccountLoaded(loaded) => {
                if loaded is Some && schedulable_at(loaded->0, now) && id_permitted(id, ex, al) {
                    next == SelectPhase::Finished && action == SelectAction::Done(Ok(loaded->0))
                } else {
                    next == SelectPhase::DeletingSession && action is DeleteSession
                        && action->DeleteSession_0@ == hash
                }
            },
            _ => false,
        },
        SelectPhase::DeletingSession => match event {
            SelectEvent::SessionDeleted => next == SelectPhase::Listing
                && action == SelectAction::ListSchedulable,
            _ => false,
        },
        SelectPhase::Listing => match event {
            SelectEvent::AccountsListed(Err(e)) => next == SelectPhase::Finished
                && action == SelectAction::Done(Err(e)),
            SelectEvent::AccountsListed(Ok(list)) => {
                let c = candidates(list@, ex, al);
                if c.len() == 0 {
                    &&& next == SelectPhase::Finished
                    &&& action is Done
                    &&& action->Done_0 is Err
                    &&& action->Done_0->Err_0 is ServiceUnavailable
                    &&& action->Done_0->Err_0->ServiceUnavailable_0@ == no_accounts_text()
                } else {
                    let chosen = c[priority_pick(c, pick)];
                    if hash.len() > 0 {
                        &&& next == SelectPhase::Binding(chosen)
                        &&& action is BindSession
                        &&& action->session_hash@ == hash
                        &&& action->account_id == chosen.id
                        &&& action->ttl_secs == STICKY_SESSION_TTL_SECS
                    } else {
                        next == SelectPhase::Finished && action == SelectAction::Done(Ok(chosen))
                    }
                }
            },
            _ => false,
        },
        SelectPhase::Binding(chosen) => match event {
            SelectEvent::SessionBound => next == SelectPhase::Finished
                && action == SelectAction::Done(Ok(chosen)),
            _ => false,
        },
        SelectPhase::Finished => false,
    }
}


/// What a selection keeps true in every phase: an account it holds for binding is
/// one the token may use.
pub open spec fn selection_inv(sel: AccountSelection) -> bool {
    match sel.phase {
        SelectPhase::Binding(a) => id_permitted(a.id, sel.exclude_ids@, sel.allowed_ids@),
        _ => true,
    }
}

/// The candidate that draw `pick` chooses from a listing is one the token may use, it
/// comes from the listing, and no account of the listing that the token may use has a
/// better (smaller) priority.
pub proof fn lemma_candidate_choice(list: Seq<Account>, exclude: Seq<i64>, allowed: Seq<i64>, pick: nat)
    requires
        candidates(list, exclude, allowed).len() > 0,
        pick < best_count(candidates(list, exclude, allowed)),
    ensures
        ({
            let c = candidates(list, exclude, allowed);
            let chosen = c[priority_pick(c, pick)];
            &&& 0 <= priority_pick(c, pick) < c.len()
            &&& id_permitted(chosen.id, exclude, allowed)
            &&& list.contains(chosen)
            &&& forall|j: int| 0 <= j < list.len() && id_permitted(list[j].id, exclude, allowed)
                ==> chosen.priority <= #[trigger] list[j].priority
        }),
{
    let pred = |a: Account| id_permitted(a.id, exclude, allowed);
    let c = candidates(list, exclude, allowed);
    let k = priority_pick(c, pick);
    lemma_min_priority(c);
    lemma_nth_with_priority(c, min_priority(c), pick);
    list.lemma_filter_pred(pred, k);
    assert(c.contains(c[k]));
    list.lemma_filter_contains_rev(pred, c[k]);
    assert forall|j: int| 0 <= j < list.len() && id_permitted(list[j].id, exclude, allowed)
        implies c[k].priority <= #[trigger] list[j].priority by {
        list.lemma_filter_contains(pred, j);
        let m = choose|m: int| 0 <= m < c.len() && c[m] == list[j];
        assert(min_priority(c) <= c[m].priority);
    }
}

/// Choosing from a listing: it fails with "no available accounts" exactly when the
/// token may use none of the listed accounts; otherwise the account chosen (handed out,
/// or bound to the session first) is a listed one that the token may use and that has
/// the best priority among those.
pub proof fn lemma_listing_outcome(
    sel: AccountSelection,
    list: Vec<Account>,
    now: UtcTime,
    pick: nat,
    next: SelectPhase,
    action: SelectAction,
)
    requires
        sel.phase == SelectPhase::Listing,
        pick_fits(sel, SelectEvent::AccountsListed(Ok(list)), pick),
        select_step(sel, SelectEvent::AccountsListed(Ok(list)), now, pick, next, action),
    ensures
        (action is Done && action->Done_0 is Err) <==> candidates(list@, sel.exclude_ids@, sel.allowed_ids@).len() == 0,
        action is Done && action->Done_0 is Err ==> action->Done_0->Err_0 is ServiceUnavailable
            && action->Done_0->Err_0->ServiceUnavailable_0@ == no_accounts_text(),
        !(action is Done && action->Done_0 is Err) ==> exists|chosen: Account| {
            &&& list@.contains(chosen)
            &&& id_permitted(chosen.id, sel.exclude_ids@, sel.allowed_ids@)
            &&& (forall|j: int| 0 <= j < list@.len() && id_permitted(list@[j].id, sel.exclude_ids@, sel.allowed_ids@)
                ==> chosen.priority <= #[trigger] list@[j].priority)
            &&& (action == SelectAction::Done(Ok(chosen))
                || (action is BindSession && action->account_id == chosen.id
                    && next == SelectPhase::Binding(chosen)))
        },
{
    let c = candidates(list@, sel.exclude_ids@, sel.allowed_ids@);
    if c.len() > 0 {
        lemma_candidate_choice(list@, sel.exclude_ids@, sel.allowed_ids@, pick);
        let chosen = c[priority_pick(c, pick)];
        assert(list@.contains(chosen));
    }
}

/// How many answers a selection in `phase` waits for at most before it finishes.
pub open spec fn steps_left(phase: SelectPhase) -> nat {
    match phase {
        SelectPhase::LookingUpSession => 5,
        SelectPhase::LoadingAccount(_) => 4,
        SelectPhase::DeletingSession => 3,
        SelectPhase::Listing => 2,
        SelectPhase::Binding(_) => 1,
        SelectPhase::Finished => 0,
    }
}

/// Every step brings a selection closer to its end, and it has an answer (`Done`)
/// exactly when it reaches `Finished`: a selection asks the cache and the store at
/// most five times.
pub proof fn lemma_step_progress(
    sel: AccountSelection,
    event: SelectEvent,
    now: UtcTime,
    pick: nat,
    next: SelectPhase,
    action: SelectAction,
)
    requires
        select_step(sel, event, now, pick, next, action),
    ensures
        steps_left(next) < steps_left(sel.phase),
        (action is Done) <==> (next == SelectPhase::Finished),
{
}

/// A session's account that is rate limited past `now` (or is not active) is never
/// handed out at `now`: the binding is dropped instead.
pub proof fn lemma_rate_limited_session_account_dropped(
    sel: AccountSelection,
    loaded: Account,
    now: UtcTime,
    pick: nat,
    next: SelectPhase,
    action: SelectAction,
)
    requires
        sel.phase is LoadingAccount,
        (loaded.rate_limit_reset_at matches Some(reset) && time_before(now, reset))
            || loaded.status != AccountStatus::Active,
        select_step(sel, SelectEvent::AccountLoaded(Some(loaded)), now, pick, next, action),
    ensures
        next == SelectPhase::DeletingSession,
        action is DeleteSession,
        action->DeleteSession_0@ == sel.session_hash@,
{
}

/// Every step keeps `selection_inv`.
pub proof fn lemma_step_keeps_inv(
    sel: AccountSelection,
    event: SelectEvent,
    now: UtcTime,
    pick: nat,
    next: SelectPhase,
    action: SelectAction,
)
    requires
        selection_inv(sel),
        pick_fits(sel, event, pick),
        select_step(sel, event, now, pick, next, action),
    ensures
        selection_inv(AccountSelection { phase: next, ..sel }),
{
    if sel.phase == SelectPhase::Listing {
        if let SelectEvent::AccountsListed(Ok(list)) = event {
            let c = candidates(list@, sel.exclude_ids@, sel.allowed_ids@);
            if c.len() > 0 {
                lemma_candidate_choice(list@, sel.exclude_ids@, sel.allowed_ids@, pick);
            }
        }
    }
}

/// A selection that starts with `selection_inv` hands out only accounts the token may
/// use: one loaded for the session only when the session's account id is permitted
/// and the account is schedulable, otherwise one from a listing or one held for
/// binding, whose ids are permitted.
pub proof fn lemma_handed_out_account_permitted(
    sel: AccountSelection,
    event: SelectEvent,
    now: UtcTime,
    pick: nat,
    next: SelectPhase,
    action: SelectAction,
)
    requires
        selection_inv(sel),
        pick_fits(sel, event, pick),
        select_step(sel, event, now, pick, next, action),
        action is Done,
        action->Done_0 is Ok,
    ensures
        match sel.phase {
            SelectPhase::LoadingAccount(id) => id_permitted(id, sel.exclude_ids@, sel.allowed_ids@)
                && schedulable_at(action->Done_0->Ok_0, now),
            _ => id_permitted(action->Done_0->Ok_0.id, sel.exclude_ids@, sel.allowed_ids@),
        },
{
    if sel.phase == SelectPhase::Listing {
        if let SelectEvent::AccountsListed(Ok(list)) = event {
            let c = candidates(list@, sel.exclude_ids@, sel.allowed_ids@);
            if c.len() > 0 {
                lemma_candidate_choice(list@, sel.exclude_ids@, sel.allowed_ids@, pick);
            }
        }
    }
}

/// Sticky sessions: when a selection has bound its session to an account id (above
/// zero), a later selection for the same session whose cache lookup gives that id
/// back goes on to load it, and when the store gives back an account that is
/// schedulable and that the token may use, it finishes with that account at once,
/// without listing.
pub proof fn lemma_sticky_session(
    first: AccountSelection,
    first_event: SelectEvent,
    first_now: UtcTime,
    first_pick: nat,
    first_next: SelectPhase,
    bind: SelectAction,
    second: AccountSelection,
    now: UtcTime,
    pick: nat,
    lookup_next: SelectPhase,
    lookup_action: SelectAction,
    loaded: Account,
    load_next: SelectPhase,
    load_action: SelectAction,
)
    requires
        select_step(first, first_event, first_now, first_pick, first_next, bind),
        bind is BindSession,
        bind->account_id > 0,
        second.session_hash@ == first.session_hash@,
        second.phase == SelectPhase::LookingUpSession,
        select_step(second, SelectEvent::SessionLookedUp(Some(bind->account_id)), now, pick,
            lookup_next, lookup_action),
        select_step(AccountSelection { phase: lookup_next, ..second },
            SelectEvent::AccountLoaded(Some(loaded)), now, pick, load_next, load_action),
        schedulable_at(loaded, now),
        id_permitted(bind->account_id, second.exclude_ids@, second.allowed_ids@),
    ensures
        bind->session_hash@ == second.session_hash@,
        lookup_action == SelectAction::LoadAccount(bind->account_id),
        load_next == SelectPhase::Finished,
        load_action == SelectAction::Done(Ok(loaded)),
{
}

impl AccountSelection {
    /// Starts choosing an account for a request: with a session hash, first ask the
    /// cache for the session's account; without one, list the schedulable accounts.
    pub fn start(session_hash: String, exclude_ids: Vec<i64>, allowed_ids: Vec<i64>) -> (r: (
        AccountSelection,
        SelectAction,
    ))
        ensures
            r.0.session_hash == session_hash,
            r.0.exclude_ids == exclude_ids,
            r.0.allowed_ids == allowed_ids,
            selection_inv(r.0),
            session_hash@.len() > 0 ==> r.0.phase == SelectPhase::LookingUpSession && r.1 is LookupSession
                && r.1->LookupSession_0@ == session_hash@,
            session_hash@.len() == 0 ==> r.0.phase == SelectPhase::Listing && r.1
                == SelectAction::ListSchedulable,
    {
        if !session_hash.as_str().is_empty() {
            let action = SelectAction::LookupSession(session_hash.clone());
            (
                AccountSelection {
                    session_hash,
                    exclude_ids,
                    allowed_ids,
                    phase: SelectPhase::LookingUpSession,
                },
                action,
            )
        } else {
            (
                AccountSelection {
                    session_hash,
                    exclude_ids,
                    allowed_ids,
                    phase: SelectPhase::Listing,
                },
                SelectAction::ListSchedulable,
            )
        }
    }

    /// The account chosen from the candidates with draw number `k` taken, and what
    /// follows: binding the session to it, or handing it out.
    fn finish_with(&mut self, mut c: Vec<Account>, k: usize) -> (action: SelectAction)
        requires
            k < c.len(),
        ensures
            final(self).session_hash == old(self).session_hash,
            final(self).exclude_ids == old(self).exclude_ids,
            final(self).allowed_ids == old(self).allowed_ids,
            old(self).session_hash@.len() > 0 ==> {
                &&& final(self).phase == SelectPhase::Binding(c@[k as int])
                &&& action is BindSession
                &&& action->session_hash@ == old(self).session_hash@
                &&& action->account_id == c@[k as int].id
                &&& action->ttl_secs == STICKY_SESSION_TTL_SECS
            },
            old(self).session_hash@.len() == 0 ==> final(self).phase == SelectPhase::Finished
                && action == SelectAction::Done(Ok(c@[k as int])),
    {
        let ghost cs = c@;
        let chosen = c.swap_remove(k);
        assert(chosen == cs[k as int]);
        if !self.session_hash.as_str().is_empty() {
            let action = SelectAction::BindSession {
                session_hash: self.session_hash.clone(),
                account_id: chosen.id,
                ttl_secs: STICKY_SESSION_TTL_SECS,
            };
            self.phase = SelectPhase::Binding(chosen);
            action
        } else {
            self.phase = SelectPhase::Finished;
            SelectAction::Done(Ok(chosen))
        }
    }

    /// Takes the cache's or the store's answer, with the time `now` and the draw
    /// `pick` given: the selection moves on exactly as `select_step` says.
    pub fn advance_with(&mut self, event: SelectEvent, now: UtcTime, pick: usize) -> (action: SelectAction)
        requires
            event_fits(old(self).phase, event),
            pick_fits(*old(self), event, pick as nat),
        ensures
            select_step(*old(self), event, now, pick as nat, final(self).phase, action),
            final(self).session_hash == old(self).session_hash,
            final(self).exclude_ids == old(self).exclude_ids,
            final(self).allowed_ids == old(self).allowed_ids,
    {
        match event {
            SelectEvent::SessionLookedUp(found) => {
                match found {
                    Some(id) => {
                        if id > 0 {
                            self.phase = SelectPhase::LoadingAccount(id);
                            return SelectAction::LoadAccount(id);
                        }
                    },
                    None => {},
                }
                self.phase = SelectPhase::Listing;
                SelectAction::ListSchedulable
            },
            SelectEvent::AccountLoaded(loaded) => {
                let id = match &self.phase {
                    SelectPhase::LoadingAccount(id) => *id,
                    _ => 0,
                };
                match loaded {
                    Some(a) => {
                        if a.is_schedulable_at(&now) && is_id_permitted(id, &self.exclude_ids, &self.allowed_ids) {
                            self.phase = SelectPhase::Finished;
                            return SelectAction::Done(Ok(a));
                        }
                    },
                    None => {},
                }
                self.phase = SelectPhase::DeletingSession;
                SelectAction::DeleteSession(self.session_hash.clone())
            },
            SelectEvent::SessionDeleted => {
                self.phase = SelectPhase::Listing;
                SelectAction::ListSchedulable
            },
            SelectEvent::AccountsListed(listed) => {
                match listed {
                    Err(e) => {
                        self.phase = SelectPhase::Finished;
                        SelectAction::Done(Err(e))
                    },
                    Ok(list) => {
                        let c = take_candidates(list, &self.exclude_ids, &self.allowed_ids);
                        if c.len() == 0 {
                            self.phase = SelectPhase::Finished;
                            SelectAction::Done(Err(AppError::ServiceUnavailable(String::from_str("no available accounts"))))
                        } else {
                            let k = pick_by_priority(&c, pick);
                            self.finish_with(c, k)
                        }
                    },
                }
            },
            SelectEvent::SessionBound => {
                let mut phase = SelectPhase::Finished;
                std::mem::swap(&mut phase, &mut self.phase);
                match phase {
                    SelectPhase::Binding(chosen) => SelectAction::Done(Ok(chosen)),
                    _ => SelectAction::ListSchedulable,
                }
            },
        }
    }

    /// Takes the cache's or the store's answer. The time is read from the clock and
    /// the draw among equally good accounts is random; whatever they were, the
    /// selection moves on as `select_step` says for some time and some allowed draw.
    pub fn advance(&mut self, event: SelectEvent) -> (action: SelectAction)
        requires
            event_fits(old(self).phase, event),
        ensures
            exists|now: UtcTime, pick: nat|
                pick_fits(*old(self), event, pick)
                && #[trigger] select_step(*old(self), event, now, pick, final(self).phase, action),
            final(self).session_hash == old(self).session_hash,
            final(self).exclude_ids == old(self).exclude_ids,
            final(self).allowed_ids == old(self).allowed_ids,
    {
        match event {
            SelectEvent::AccountsListed(Ok(list)) => {
                // The clock is read only to check a loaded account; a listing does not use it.
                let now = UtcTime { secs: 0, nanos: 0 };
                let ghost ev = SelectEvent::AccountsListed(Ok(list));
                let ghost before = *self;
                let c = take_candidates(list, &self.exclude_ids, &self.allowed_ids);
                if c.len() == 0 {
                    self.phase = SelectPhase::Finished;
                    let action = SelectAction::Done(Err(AppError::ServiceUnavailable(String::from_str("no available accounts"))));
                    assert(select_step(before, ev, now, 0, self.phase, action));
                    action
                } else {
                    let k = select_by_priority(&c);
                    let ghost r = choose|r: nat| r < best_count(c@) && k == priority_pick(c@, r);
                    let action = self.finish_with(c, k);
                    assert(select_step(before, ev, now, r, self.phase, action));
                    action
                }
            },
            _ => {
                let ghost ev = event;
                let now = match &self.phase {
                    SelectPhase::LoadingAccount(_) => utc_now(),
                    _ => UtcTime { secs: 0, nanos: 0 },
                };
                let action = self.advance_with(event, now, 0);
                assert(pick_fits(*old(self), ev, 0));
                action
            },
        }
    }
}

} // verus!
