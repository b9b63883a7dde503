# polyrust-strategies

Strategies for 15-minute Up/Down crypto prediction markets, written in Rust and proved with
Verus.

- `src/` is the library. Every function states in its contract what it returns or changes, and
  Verus proves it. The exceptions are the small wrappers in `decimal` and `text` around
  `rust_decimal` and the standard library: what they claim is believed, and said in the comment
  above each.
  - `decimal`, `time`, `text`, `table`, `sorting`: numbers, instants, texts, keyed tables and
    their order.
  - `exchange`: markets, order books, orders, actions and events.
  - `config`, `fee_math`, `sizing`: settings, fees and margins, position sizes.
  - `domain`: markets with references, positions, the life of a position, results.
  - `runtime`, `services`: the shared state, its prices, markets, orders and positions.
  - `tailend`: entries shortly before a market ends, and the exits of their positions.
  - `base`, `mode_orders`, `mode_events`, `confirmed`, `crosscorr`: the strategies that share
    the simple stop-loss.
  - `crypto_arb`: the combined strategy.
  - `dashboard`: the HTML view.
- `app/` is plain Rust around the library: configuration files and the environment, clocks and
  locks, the oracle's chain, JSON payloads, and figures in floating point.
- `tests/` runs the library on concrete values.

A contract speaks of overflow where decimal arithmetic can leave its range: the computation
then ends with `Err(Overflow)`. Time, market data and what the oracle's chain answered are
passed in as values.
