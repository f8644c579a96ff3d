# Tip jar

A contract that holds tips in escrow for creators: plain tips with a platform
fee, tips with a note, tips split over several creators, recurring
subscriptions, withdrawals and an emergency pause.

- `src/` holds the rules, verified with Verus. `model.rs` says what each call
  comes to, `contract.rs` has the calls, `laws.rs`, `call_laws.rs`,
  `account_laws.rs`, `history_laws.rs` and `footprint.rs` say what holds of all of them. What is
  trusted of the SDK stands in `host.rs`.
- `app/` is the contract on the ledger: it loads the entries that a call rests
  on, lets the library decide, and then asks for authorizations, moves tokens,
  stores entries and publishes events as the library listed them.
- `tests/` runs the calls beside a real token contract.
