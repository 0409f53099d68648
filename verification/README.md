# memlink

Structured communication, state hand-off and shared memory for cooperating
agents (a planner, a retriever, an executor and a summarizer), with a
text mode to compare against.

- `src/` is the library, written in Verus. Each module states what its
  functions do in `requires`/`ensures` clauses over mathematical models,
  and the laws of the library are public proof functions (`law_*`):
  - `protocol`: messages, parameters, state handles, protocol versions.
  - `state`: the in-memory state store and the index of stored states,
    checksums, expiry.
  - `memory`: matching remembered items against a query and ranking hits.
  - `words`, `text`: search terms, keywords, topics, splitting and joining.
  - `evaluator`: the event log's totals and the comparison report.
  - `runtime`: what each agent answers and the course of a task (`TaskRun`).
  - `sandbox`: limits and output handling of the script sandbox.
  - `audit`, `bench`, `observe`, `transport`: demo audit, per-mode files,
    process snapshots, socket framing.
  - `platform`: the calls into `uuid`, `chrono`, `blake3`, `hex` and
    `serde_json` that the library makes, with the contracts it relies on.
- `tests/` exercises the library on concrete values.
- `app/` is the command line program: files, SQLite, sockets, child
  processes, async plumbing, and the floating-point scoring and embeddings.
