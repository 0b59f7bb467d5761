# rig-taskmarket

Read-only TaskMarket tooling for Rig agents, with its logic verified in Verus.

- `src/` — the verified library: exact USDC amount conversion (`amount`),
  argument checks and message bounding (`validate`), request construction and
  base-URL normalization (`request`), auditable task screening with its laws
  (`screen`), the shared error type (`error`), the records (`models`) and the
  string helpers they rest on (`text`).
- `app/` — the HTTP client (reqwest), the serde forms of the records, the
  `Display`-able error, and the Rig `Tool` implementations, all delegating
  validation, requests and screening to the library.
- `tests/` — executable checks of the library against concrete values and
  against the standard library where it defines the behaviour (`trim`,
  `char::is_whitespace`, `to_string`, `to_lowercase`).
