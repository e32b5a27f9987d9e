# anthropic_completions

Streaming chat completions against the Anthropic Messages API, with the
logic verified in Verus.

- `src/request.rs` — turns a conversation into the request body: system
  text, user/assistant messages, tool calls and tool results, base64 image
  `data:` URIs, `max_tokens`, `stream`, tools.
- `src/sse.rs` — the state machine that reads the server-sent events of a
  response (`message_start`, `content_block_*`, `message_delta`,
  `message_stop`) and reports response events.
- `src/retry.rs` — what to do after each attempt at sending the request:
  stream, read the error body, retry, or fail with which error.
- `src/json.rs`, `src/json_serde.rs` — the JSON values the logic reads and
  writes; parsing and writing JSON text is left to `serde_json`.
- `src/text.rs` — text helpers (trimming, decimal numbers, prefixes).
- `src/request_laws.rs`, `src/sse_laws.rs` — properties proved over whole
  conversations and whole event streams.
- `app/` — the I/O: sending the request with `reqwest`, retrying with a
  back-off, and reading the event stream with `eventsource-stream` and
  `tokio`.
