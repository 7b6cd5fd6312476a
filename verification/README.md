# beluna

The logic of Beluna's core as a verified library: the AI gateway (backend
routing, request normalization, error mapping, reliability and budget rules,
retry decisions), the chat layer (messages, turns, threads, context
rewriting, the thread store, tool-call linkage), the wire formats of the
OpenAI-compatible, Ollama, Responses and Copilot backends (request bodies
built as JSON trees, replies read from JSON trees), admission of intent
attempts, body endpoint payload limits, and the command-line grammars and
socket decisions of the chat client.

- `src/` — the library, verified by Verus. The few calls into outside
  crates and into std that Verus cannot read (SHA-256, UUIDs, JSON parsing
  and quoting, lossy UTF-8 decoding, the clock) sit in small trusted
  wrappers; their contracts say what is known of each result (nothing, of
  the clock's).
- `tests/` — ordinary Rust tests of the library.
- `app/` — the `beluna-cli` program: sockets, standard input and output,
  JSON text in and out; each decision is a call into the library.
