# stonktop

A top-like terminal monitor for stock and cryptocurrency prices, built around
a library whose logic is verified with Verus.

## Layout

- `src/` — the verified library.
  - `symbols.rs`: symbol validation, built-in and custom shortcut expansion,
    the quote source's market-state and instrument-type names.
  - `models.rs`: instrument types, market states, sort orders and directions,
    the quote as the logic sees it (prices as integer order keys), alerts, and
    the bounded price history.
  - `sorting.rs`: the quote order for each column and a stable sort, proved
    sorted and a permutation of its input.
  - `input.rs`: the key map for each mode and overlay.
  - `app.rs`: the application state and every command on it (navigation,
    sorting, adding and removing symbols, search, groups, alerts, refresh
    results, start-up).
  - `config.rs`, `csv.rs`, `fetch.rs`: configuration defaults and symbol
    collection, CSV escaping and import, and the request/retry/cache decisions.
  - `laws.rs`: properties that span several operations.
  - `text.rs`, `clock.rs`: string helpers and the few std calls the logic
    makes.
- `app/` — the program: command line, configuration file, HTTP client,
  terminal interface, and the floating-point parts (portfolio sums,
  sparklines, currency conversion).
- `tests/` — tests of the library.
