# viber_router

A relay for language-model APIs. Clients speak Anthropic Messages, OpenAI Chat
Completions or the OpenAI Responses API; the servers behind the relay speak Anthropic
Messages alone. The relay admits a request, translates it, takes it through the servers
of a group until one answers, and translates the answer back, streamed or whole.

Every decision and every translation is a function in `src/` whose contract says what
it returns, proved by Verus. `app/` performs what `src/` decides: the routes, the
database, the shared store, the upstream connections.

## Layout

- `src/json.rs`, `src/text.rs`, `src/ids.rs`: documents, texts and random ids. The model
  of a document is `Tree`.
- `src/translate/`: the three client protocols. `chat`, `responses` translate whole
  bodies, `chat_sse`, `responses_sse` translate streams, `sse` finds the events of a
  stream.
- `src/circuit_breaker.rs`: the circuit of a server, as dialogues with the shared store.
- `src/proxy/`: who is let in (`admission`, `config`), what is sent (`request`, `body`,
  `headers`), which server is tried and what its reply leads to (`servers`, `waterfall`,
  `failover`, `side`), the order of the stages (`journey`), who pays (`billing`), and how
  a refusal or an answer reaches the client (`refusal`, `seam`).
- `src/ttft.rs`: the statistics on the time to the first token.
- Modules whose names end in `_laws` state what holds across functions. Smaller laws
  stand at the end of the module that they are about. All are named `law_..`.
- `app/`: ordinary Rust around the library.
- `tests/`: the library from outside, with the real outside crates.

## What is trusted

The calls into `serde_json`, `uuid`, `chrono`, `chrono-tz` and `reqwest`'s header types,
and into a few functions of std, stand behind small functions marked `external_body`, each with a
comment that says what is believed of it. Where a result takes pages to state, it has a
name: `json::parsed` for what the JSON reader makes of bytes, `json::json_text` for the
text of a document. Contracts speak of these names exactly.
