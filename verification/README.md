# local_agent

Routes an agent's requests to an OpenAI-compatible endpoint of the user's
choice, and turns the replies into the events that the agent's interface
consumes. Everything that decides or computes is verified with Verus.

- `src/local_provider.rs`: the endpoint's configuration.
- `src/local_dispatch.rs`, `src/streaming.rs`, `src/pending.rs`: requests with
  tools, and the streamed reply. `src/stream_laws.rs` states what holds of a
  streamed reply as a whole.
- `src/buffered_dispatch.rs`: requests for a reply in one piece.
- `src/tools.rs`, `src/schema.rs`, `src/tool_results.rs`: the tools, their
  calls and their results. `src/tool_laws.rs` states that what is advertised is
  what can be decoded.
- `src/conversation.rs`, `src/events.rs`, `src/agent.rs`, `src/openai.rs`,
  `src/replies.rs`: the shapes on either side, and how they relate.
- `src/record.rs`, `src/flatten.rs`, `src/layout.rs`, `src/spacing.rs`,
  `src/spelling.rs`, `src/numbers.rs`, `src/json.rs`: JSON texts and the records
  in them.
- `src/text.rs`, `src/mint.rs`: text, ids and the time.
- `app/`: environment variables, wire encoding and network traffic.

Functions that need a fresh id or the time come in two forms: one that takes
them as arguments, with an exact contract, and one that mints them.
