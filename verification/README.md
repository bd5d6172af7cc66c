# agrifeed

A verified library for cash-settled agricultural commodity price protection:

- `oracle`: a SEP-40 price feed. Authorized nodes submit prices for tracked
  commodities; a permissionless finalize step aggregates the pending
  submissions of a resolution window into their integer median, appends the
  record to a history bounded by a retention limit, and clears the pending
  submissions.
- `pricefloor`: a price-floor agreement between a farmer and a buyer that
  settles against the oracle's last price after maturity.

Layout:

- `src/` — the library, verified with Verus. `primitives` (addresses,
  symbols, assets and identity lookups), `window` (resolution windows),
  `median` (sorting and the median), `oracle/*` and `pricefloor/*` (state,
  operations and the properties that span them, in `laws.rs`).
- `tests/` — tests of the library on concrete values.
- `app/` — Soroban contract shells: host authorization, storage, the ledger
  clock, TTL extension, events, the cross-contract oracle query and token
  transfers around the library's decisions.
