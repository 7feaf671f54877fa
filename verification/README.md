# trading_system

A trading system — live Bollinger Bands signals, order placement, market-data
subscriptions and parameter-grid backtests — whose decision logic is written and
proved in Verus.

- `src/` is the verified library. Contracts are stated over `Seq`, `Map` and spec
  functions; the proof functions named `law_*` state properties that span several
  calls (the price window always holds the latest prices, positions open and close
  one at a time, orders follow signals, an unsubscribe hands back what was filed,
  a grid holds every combination in order).
  - `registry`: a string-keyed table viewed as a `Map`.
  - `bands`, `positions`, `grid`, `backtest`, `condor`: price windows, the band
    rule, the position rule of a backtest, parameter grids and their validation.
  - `strategies`, `live`, `market_data`: strategy engines, quote feeds,
    subscription tables, the trading service.
  - `data_config`: validation of the data loader configuration and the row
    filters it implies.
  - `ib_client`: the broker gateway configuration and address.
  - `channel`: the `crossbeam_channel` items the library uses.
- `app/` is the program around it: threads, async tasks, the broker connection,
  CSV loading with polars, CUDA kernels, configuration files, and the
  floating-point arithmetic (bands, metrics, random walks).
- `tests/` exercises the library on concrete values.
