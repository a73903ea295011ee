# ai_gateway

The verified core of an AI API gateway: the rules it applies to client
requests and upstream answers, proved with Verus.

- `src/` is the library. Each module states its behaviour in `requires` /
  `ensures` contracts over plain mathematical values, and Verus proves the
  code against them: request admission (rate, concurrency and settled
  quota), the gates a proxied request or WebSocket `response.create`
  passes before its body is read, the failover machine of upstream
  attempts, the relay of a WebSocket response, session-affinity keys,
  request-log events and their sinks, console credential rules and the failed-attempt limiter, request
  and response header rules, usage and error extraction from JSON and
  server-sent events, Images edit forms (part limits, Codex fields, base64
  streaming), the Codex OAuth attempt (identity, target, headers, token
  and quota answers), billing arithmetic, keyword-triggered channel
  disabling, and the WebSocket session lifecycle.
- Calls into outside crates (`serde_json`, `sha2`, `subtle`, `base64`,
  `rust_decimal`, `reqwest`'s URL and header types, `chrono`, `uuid`,
  `rand`, `argon2`) stand behind small trusted wrappers whose doc comments
  say what their contracts claim.
- `app/` holds what Verus does not see: locks and clocks around the
  library's state machines, operating-system sampling, floating-point
  figures, and error types that display themselves.
- `tests/` runs the library on concrete values.
