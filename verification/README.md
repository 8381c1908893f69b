# oplire

The core of a bridge between the Anthropic messages API and an opencode
server, written in Verus: its contracts are proved.

- `src/json.rs`, `src/json_parse.rs`, `src/json_text.rs`, `src/text.rs`: JSON
  values, how they are read and written, strings.
- `src/config.rs`: configuration and the models that the bridge offers on its own.
- `src/transform/`: requests to native session input (`native.rs`), replies to
  messages (`native.rs`), snapshots of a turn to server-sent events
  (`native_stream.rs`), the turn that a message list shows (`turn.rs`), and the
  laws of the event stream (`protocol.rs`).
- `src/proxy/`: URLs and the classification of answers (`upstream.rs`), the
  session cache and the course of a request through its session
  (`session.rs`), retries and chunks (`messages.rs`), the models list
  (`models.rs`), the answer to a prompt (`reply.rs`), the course of a stream
  (`stream_task.rs`).
- `app/`: axum handlers, HTTP requests and stored settings around the library.

Proof functions named `law_...` state what holds across functions. The few
outside functions that the proofs rest on are declared next to their use, with
what is claimed of them: parsing, string quoting and integers written as doubles
from `serde_json`, host names from `url`, status lines from `reqwest`, and the clock,
characters and text decoding of the standard library.
