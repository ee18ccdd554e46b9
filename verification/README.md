# sextant

A personal investment ledger: a transaction history and a set of market
prices go in, a portfolio snapshot comes out. The engine is stateless: only
assets and transactions are stored, and positions and snapshots are
regenerated from the history on demand.

- `src/` is the library, written in Verus. Every function carries a contract
  over a mathematical model (views, `Seq`, `Map`), and the laws that hold
  across calls (the engine gives the same result for the same inputs, a
  snapshot holds exactly the open positions, sorting is stable and
  ledgers holding the same transactions sort to one order as long as no two
  different transactions share a date and an id, stored rows read back to
  what was written) are proof functions.
  Decimal arithmetic, calendar dates and UUIDs come from `rust_decimal`,
  `chrono` and `uuid`, called through small trusted wrappers whose contracts
  say what those crates guarantee.
- `tests/` exercises the library's public API.
- `app/` is the demo binary and the adapters that touch the outside world:
  SQLite storage (`rusqlite`) and live quotes (`yahoo_finance_api`).
