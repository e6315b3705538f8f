# bluefin_bot

Order management, normalization and bookkeeping for a trading bot on the
Bluefin exchange, verified with Verus.

- `src/` is the verified library: decimal and time values, orders and their
  lifecycle, the order manager (updates, queries, reconciliation with REST
  snapshots), balances, trade history, the normalization of strategy intents
  onto a market's tick and step, the building and reading back of exchange
  order submissions, the reading of the exchange's stream messages and REST
  replies, token management decisions and configuration checks. Calls into
  `rust_decimal`, `chrono`, `hex`, `rand`, `uuid`, `bluefin-pro` and
  `serde_json` (decoding account stream messages with `bluefin_api`'s models)
  go through small trusted wrappers whose contracts state what those crates
  document, or name the result where it takes more than a few lines.
- `tests/` exercises the library on concrete values.
- `app/` is the program around it: configuration files, SQLite storage,
  HTTP and WebSocket connections, signing and sending orders, and the
  asynchronous managers that save each change before the library applies it.
