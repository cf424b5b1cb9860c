# sentia

The system services of Sentia Linux, with their logic written in Verus and
proved against its contracts.

## Layout

- `src/` is the verified library.
  - `protocol/` holds the shared contracts: bounded strings and lists, router
    requests and results, tool registry, canonical transaction plans, socket
    settings, error codes.
  - `broker/` is the local inference broker: configuration, the admission
    queue, the JSON-lines frame reader, the per-connection request machine,
    and the llama.cpp HTTP head, chunked body and SSE stream parsers.
  - `providers/` is the remote provider worker: request validation, request
    plans, response parsing for each vendor, transport checks and the worker's
    step function.
  - `privileged/` is the privileged broker: operations, one-shot plans,
    helper command lines and the APT worker protocol.
  - `health/` is the health monitor: `/proc` and `/sys` parsers, alert
    streak counting, adaptive sampling intervals and the command line.
  - `retrieval/` is the documentation index: configuration checks, path
    allowlists, document budgets, the indexer's report and query plans.
  - `client.rs` is the `ai` command line parser; `json.rs`, `kv.rs` and
    `text.rs` are small shared helpers.
- `tests/` runs the library on concrete values.
- `app/` is the ordinary Rust around it: the program entry points, sockets,
  D-Bus, HTTP, SQLite, file system walks and the floating-point parts of the
  health snapshot.

Proof functions named `lemma_*` that are public state properties of the
library as a whole (for example that releasing a queue reservation undoes
reserving it, or that SSE parsing does not depend on how the stream was cut
into chunks).
