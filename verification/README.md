# cc2api

The account-pool logic of a gateway that spreads requests over several upstream
accounts, as a Verus-verified library, with the I/O around it in `app/`.

- `src/model/account.rs`: accounts, their status and billing mode, when an account
  may be scheduled.
- `src/service/account.rs`: choosing the account for a request (sticky sessions,
  token allow and block lists, best priority, random among equals) as a step
  function driven by the cache's and the store's answers; creation defaults;
  concurrency slot keys.
- `src/service/session.rs`: the session hash of a request.
- `src/service/oauth.rs`: the shape of the upstream token check and usage query,
  and what their answers mean.
- `src/store/redis.rs`: cache keys, stored values and the slot counter rule.
- `src/handler/router.rs`: the admin panel's rules (paging, account creation and
  update, dashboard figures, content types).
- `src/json.rs`, `src/text.rs`, `src/error.rs`: JSON documents, text helpers, errors.
- `app/`: serde forms, the Redis commands, the store interface, the async drivers
  and the axum routes.

The upstream model name and the user agents the upstream calls present are read
from `UPSTREAM_CHECK_MODEL`, `UPSTREAM_CLI_USER_AGENT` and
`UPSTREAM_CODE_USER_AGENT`.
