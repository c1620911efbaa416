# moonleaf

A wind tunnel for LLM inference infrastructure: an OpenAI-compatible streaming
simulator and the pieces a measurement client needs to read its streams.

The library under `src/` is verified with Verus:

- `sse` — the incremental Server-Sent Events parser. Its contracts describe
  every call over a model of buffered bytes and gathered data; the laws show
  that splitting a byte stream into reads at any points never changes the
  events it yields.
- `protocol` — the chat completions request and chunk types.
- `tokenizer` — the deterministic 4-characters-per-token rule and the filler
  vocabulary; synthesized completions measure back exactly.
- `stream` — planning a whole completion stream from its sampled values, with
  truthful usage; response ids and the per-response random generator.
- `routes` — request validation, the health body and the model listing, which
  agrees with validation on the served model.
- `error` — OpenAI-shaped error values.

`app/` is the `moonleaf` binary: the CLI, the axum server and handlers, the
JSON encodings, and the floating-point injector distributions that feed the
planner.
