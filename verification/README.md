# ict_strategy

A verified Inner Circle Trader (ICT) analysis library: fair value gaps, order
blocks, market structure, entry signals, and the orders drawn from them.

- `src/model.rs` — candles, gaps, blocks, structure and configuration. Prices,
  volumes and pip sizes are fixed-point integers with eight decimals
  (`PRICE_SCALE`), so every threshold and percentage is exact.
- `src/spec.rs` — the mathematical description of one analysis step.
- `src/analysis.rs` — `IctAnalysisData::process_candle`, proved to compute it.
- `src/signal.rs` — `generate_signal` and its description. Signal prices carry
  eleven decimals, so every stop and target is exact.
- `src/strategy.rs` — strategy identifier, per-instrument data (with the
  configuration it analyses with), orders to open on signals and orders to
  close open positions.
- `src/decimal.rs` — the `rust_decimal` values used for order prices and sizes.
- `src/laws.rs` — properties proved for all inputs: the invariant kept by
  processing, stale candles, history bounds, cleanup of filled gaps,
  permanence of tested blocks, new gaps, swing points, structure changes,
  average ranges, and the shape of every signal.
- `app/` — conversions between floats, `chrono` times, `rust_decimal` values,
  positions, order requests and the library's values.
