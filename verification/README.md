# treasury

Verified core of two NEAR contracts that guard a DAO treasury:

* `timelock` — a delay queue between a Sputnik DAO and every action it takes.
  The DAO schedules batches of function calls (or a proposal on a DAO, added
  and then approved); anyone executes a request once its delay has passed;
  guardians cancel requests during the delay and the escrowed deposit goes
  back to the funder; the admin changes the configuration.
* `spending_account` — pays NEAR and NEP-141 tokens only to whitelisted
  (receiver, token) pairs within non-expiring limits, with separate spender,
  manager and admin roles, atomic whitelist batches and a rollback of failed
  payouts.

Layout:

* `src/` — the library, verified with Verus. Each contract is a state machine
  over plain values: the runtime context (caller, block time, attached
  deposit, own account) comes in as arguments, a rejection is an `Err` that
  leaves the state unchanged, and outgoing calls are returned as descriptions.
  `src/table.rs` models the insertion-ordered maps the contracts keep;
  `src/json.rs` writes JSON string literals and integers (string escaping and
  value parsing are done by `serde_json`); `src/events.rs` and each
  contract's `events` module build the `EVENT_JSON` log lines. Each contract
  module has a `laws` file with the properties that span its operations, and
  a `calls` module that states each state-changing method as a step on the
  contract's view and proves what holds after any sequence of calls; the
  timelock's `gas` module gives the gas of a request in closed form.
* `tests/` — unit tests and end-to-end scenarios run against the library.
* `app/` — the `near-sdk` contracts around the library: they read the
  runtime context, keep the state in storage, build promises and log the
  event lines the library builds.
