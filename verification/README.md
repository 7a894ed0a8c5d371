# tinyfusion-core

The core of TinyFusion, an OpenAI-compatible chat gateway, written in Verus.

- `src/` is the verified library. It holds the routing decision (`chat::decide_route`),
  request validation, the deliberation pipeline stages (`harness::*`), the legacy
  worker/judge path (`moa`), the token budget (`budget`), session state machine
  (`session`), request sniffing (`sniffer`, `complexity`), the streaming tool-call
  parser (`tool_call_parser`), configuration defaults (`config`) and dashboard
  formatting (`dashboard`). Each public function states its result in `ensures`;
  properties that span several calls are public proof functions named `law_*`.
- Outside crates are reached only through small trusted wrappers whose doc
  comments say what is believed of them: `serde_json` (parsing into `json::Json`),
  `sha2` and `hex` (session identifiers), and a few std calls (clock, lowercase,
  lossy UTF-8 decoding).
- `app/` is the unverified program around it: the axum server, reqwest calls to
  upstream models, file persistence, the event bus and serde copies of the
  library's types.
- `tests/` exercises the library on concrete values.
