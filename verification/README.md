# OrderPilot

OrderPilot creates batches of identical Shopify orders from one frozen template. This crate is its
backend: a verified library, and ordinary Rust around it.

## The library (`src/`)

- `domain`: shop domains, batch sizes, order templates, batches and their items
- `error`, `redact`: errors with stable codes, and the removal of access tokens from text
- `json`: JSON values as they come from a shop
- `identifier`: UUIDs and the source identifiers by which orders are found again
- `shopify`: order input, what answers mean, searches; `shopify::attempts` decides when a request is
  sent again
- `batch`: `batch::machine` says what an operation on a batch does after each event,
  `batch::operation` runs it, `batch::laws` and `batch::bounds` hold what is proved of every run,
  `batch::repeats` what is proved over all operations on a batch
- `ledger`: what is stored of a batch, and how its items may change
- `repository`: what is stored of a store, and how stores are searched
- `outside`: every call into another crate, with what is claimed of it
- `text`: trimming, matching, replacing and numbers

Everything in it carries a contract that Verus proves. What is believed rather than proved stands in
`outside`, besides `String::push` in `text` and the numbers of `serde_json`, which `json` carries
through unread.

Two pieces of the program alternate decisions with work outside: the attempts at one HTTP request,
and an operation on a batch. Each is a state machine: the caller performs the action that it is told
and reports the event that came of it.

## The application (`app/`)

Storage in SQLite, the HTTP client, waiting, locking, and the copies of library types that serde and
sqlx read and write. It holds one computation, the delay that Shopify's throttle status asks for,
which is made in floating point.

## Tests (`tests/`)

The tests run the library on concrete values; those of batches drive whole operations against a
store, a shop and a clock in memory.
