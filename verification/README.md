# tradingflow_agents

Backtests of factor strategies on Chinese A-shares, and the scorer of the
books they produce. The library decides what a run computes; the engine that
streams market data through it, and the floating-point arithmetic, stand
around it.

## Layout

- `src/` is the library, verified with Verus.
  - `graph`, `ops`, `expr`: a plan is a list of operator nodes. Every wire has
    a *term*, the expression that its node computes, and contracts speak of
    terms.
  - `data`, `universe`, `quotes`, `trade`: market panels, the cap-weighted
    universe, the synthetic quote book, simulated traders.
  - `features`: the catalogs of alpha and risk features.
  - `strategy_base`, `strategy_markowitz`, `risk_model_compare`, `screens`,
    `score`: the programs, each from its arguments to its plan.
  - `report`, `paths`, `time`, `text`, `double`, `sort`: tables, file names,
    dates, numerals, floating-point values by their bit patterns, ordering.
- `tests/` runs the library on concrete values.
- `app/` is the command line: it reads Parquet files, lowers a plan onto the
  engine, runs it and writes the results.

## Numbers

A floating-point value is a `Double`, its bit pattern. The library orders,
selects and places such values; adding and dividing them is left to `app/` and
to the engine.
