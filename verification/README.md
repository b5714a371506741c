# mm

A single-pair market-making bot. The library under `src/` is written in Verus
and holds the logic that can be stated and proved: order-book bookkeeping,
symbol, pair and topic texts of the exchanges, the reading of bot
configurations, the websocket data store and the decisions of the trading
loop. `app/` is the program around it: the actors, the websocket and Redis
connections, file reading, JSON decoding and the command line.

Layout of `src/`:

- `market/` — symbols (`exchange:BASE/QUOTE`); number texts in Rust's
  float syntax read into decimal codes: integers that stand for the numbers
  (19 significant digits, decimal exponents from -10^9 to 10^9, smaller
  numbers read as zero) and order as they do, so that price levels are
  ordered and found again by them; and the order book: merging snapshot and
  diffs, best-first sides cut to 50 levels.
- `infra/connectors/` — Exmo and OKX pair texts, topics and subscription
  messages, and the reading of their depth messages.
- `infra/config_providers/` — bot configurations read from a directory.
- `infra/stores/` — the websocket market-data store.
- `infra/actors/`, `actors/` — the messages and pure steps of the actors.
- `bots/` — the single-pair bot's trading-loop decisions.
- `bindings.rs` — the contracts of the outside functions the library calls
  (`trading_types::Symbol`, `serde_json::to_string`, `url::Url::parse`, and
  a few std string functions).

Laws that span functions (read-back of a written snapshot, idempotence of
merging, round trips of symbol and pair texts, the last configuration read
winning) are stated as public proof functions named `law_*`.
