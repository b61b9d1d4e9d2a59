# kvs

A small key/value store with a verified core.

- `src/` is the library, verified with Verus:
  - `engine/` — the `KvsEngine` trait (a map from keys to values) and the
    engine over a `sled` tree, whose tree operations are the trusted items;
    the choice of engine at server start.
  - `server.rs` — what the server answers to each request, and the laws that
    tie answers together (a read gives back the last write, a removed key is
    gone, a key cannot be removed twice).
  - `client.rs` — how the client turns an answer into its result.
  - `log.rs` — the command log: appending records, naming them, and finding
    the newest one again on reload.
  - `utils.rs` — quote trimming, decimal formatting and parsing of record
    numbers.
  - `protocol.rs`, `errors.rs`, `thread_pool.rs`.
- `app/` is the program around it: the command line, the TCP loops of
  server and client, the files of a data directory, the JSON forms of the
  messages, and the thread pool's workers.
- `tests/` runs the library on concrete values.
