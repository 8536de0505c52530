# perp_arb

Collects the order books and funding rates of perpetual futures on several venues (Hyperliquid,
edgeX, Aster, Lighter, dYdX v4), compares prices between each two of them, and writes what it finds
to files. It places no orders.

## Layout

- `src/` is the library, all of it verified with Verus. It holds the decisions: what a message does
  to a book, when a book has to be built anew, which books are compared and how, which rows are
  written and when, when a connection is made again. It does no I/O.
- `app/` is the program around it: connections, files, signals and logs. It hands messages to the
  library and does what the library answers.
- `tests/` runs the library on concrete values.

## The library

| Module | What it holds |
|---|---|
| `decimal`, `num`, `text`, `text_map`, `dates`, `time` | numbers, text, days and clocks |
| `symbol`, `book`, `liquidity`, `ladder`, `trace`, `funding`, `fees`, `market_stats` | instruments, books, rates and fees |
| `aster`, `dydx`, `edgex`, `hyperliquid`, `lighter` | the messages and sessions of each venue |
| `source`, `backoff`, `metrics`, `status`, `rate_limit` | what all sessions share |
| `latest`, `store`, `funding_store`, `pairs`, `divergence` | the latest books and rates, and their comparison |
| `recorder` | the rows of the files |
| `config`, `collector` | the configuration, and how the parts are put together |
| `json`, `wire`, `by_dex`, `by_symbol` | values as they come from a parser, and small tables |

## How contracts are written

- Arithmetic is that of `rust_decimal`. A function whose numbers may not fit comes twice: one that
  starts with `checked_` and returns `Overflow`, and one that asks for numbers that fit.
- A function that reads a clock comes twice as well: one that ends in `_at` and takes the time, with
  an exact contract, and one that reads the clock and says what holds at any time.
- A session is a state and a function from a message to the next state and what is to be done.
- Functions whose name starts with `outside_` call another crate or the standard library. Their
  contracts are believed, not proved.
- Proof functions whose name starts with `law_` state what holds across functions.
