# resly

A command-line helper for the Resly Open API: diagnostics, reads, availability
quotes, and two-phase (preview, approve, apply) writes for rates and webhooks,
with a fixture mode that answers from demo data when no credentials are set.

The logic lives in a library verified with Verus; the program around it
parses the command line, reads and writes files, and talks HTTP.

## Layout

- `src/` — the verified library.
  - `json.rs` — the JSON document held by the library and its model.
  - `text.rs` — text helpers over characters, with their specifications.
  - `config.rs` — runtime selection (credentials, base URL, environment,
    fixture mode) and the paths under `~/.resly`.
  - `commands.rs` — date checks, query parameters, the command output and
    its JSON envelope.
  - `requests.rs` — path encoding, raw paths and queries, fixture routing.
  - `fixtures.rs` — reads answered from the fixture document.
  - `reads.rs` — how each plain read is answered.
  - `redact.rs` — redaction of secrets in texts and JSON documents.
  - `hashing.rs` — SHA-256 hashes in hex.
  - `approval.rs` — approval requests: creation, approval, revocation, use,
    and the check that binds a live write to its approval; the laws of
    their life cycle.
  - `writes.rs` — the production gate, write modes and write payloads.
  - `availability.rs` — availability quotes: screening, nights of a stay,
    options, their order and the answer.
  - `auth.rs` — Bearer token choice, token requests and API errors.
  - `outputs.rs` — the outputs of the commands.
  - `clock.rs` — the time since the Unix epoch.
- `app/` — the program: command line, files, HTTP, and the float arithmetic
  of quotes.
- `tests/` — tests of the library.
