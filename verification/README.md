# nvidia_nim

The core of a chat-completions provider for NVIDIA NIM endpoints, verified with
Verus: it builds requests from prompts, turns server-sent events into response
events, and makes a model catalog of what an endpoint lists.

- `src/chat_request.rs`, `src/request_laws.rs`: requests, and what holds of them.
- `src/chat_stream.rs`, `src/stream_laws.rs`: the state machine of a stream, and
  what holds of any run of it.
- `src/models.rs`, `src/model_laws.rs`: the catalog, and what holds of it.
- `src/provider.rs`: capabilities, account, and where models come from.
- `src/json.rs`, `src/headers.rs`, `src/text.rs`: JSON values, header maps and
  text; what is trusted of `serde_json`, `http` and std stands there.
- `src/protocol.rs`: the types that callers exchange with the library.
- `app/`: connections, credentials, the environment and the reading of bodies.
