# opennovel_sdk_core

The core of the OpenNovel agent SDK as a verified library.

- `src/` — the library, verified: agents and their registry, sessions, chat
  messages, the streamed-answer events and their SSE framing, intent
  classification, permissions, hooks, tools and delegation. `src/deps.rs`
  holds the few calls into `chrono`, `uuid` and std's `to_lowercase`, each
  with the contract that is believed of it.
- `tests/` — tests of the library on concrete values.
- `app/` — what stays outside the verified library: the async `Agent` and
  `LLMProvider` traits, the registry of `Arc<dyn Agent>` built on the
  verified one, the `futures::Stream` view of a message stream, serde and
  `thiserror` forms of the library's values, and the floating-point agent
  configuration and intent confidence.
