# warpllm

A gateway between the chat protocols of language-model providers, verified with
Verus. A caller speaks chat completions; the provider behind a model may speak
the same protocol or Anthropic's Messages.

- `src/json.rs`, `src/json_text.rs`, `src/meaning.rs`: JSON values, their texts
  (read and written by `serde_json`), and when two values mean the same.
- `src/gateway/types/`: the common form of requests, replies and chunks.
- `src/gateway/openai_compat/`, `src/gateway/anthropic/`: each protocol to and
  from the common form, its failures, and the laws of the way there and back.
- `src/gateway/error.rs`, `src/error.rs`: what a provider failure means.
- `src/http.rs`: server-sent events and response headers.
- `src/registry.rs`, `src/config.rs`, `src/client.rs`, `src/balancer.rs`,
  `src/json_client.rs`: from a request's text to the call to make, and from the
  response to the reply's text.
- `app/`: the same on the network, with keys from the environment.

Every function in `src/` states what it returns; proof functions named `law_..`
state what holds across functions.
