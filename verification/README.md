# parity_jsonrpc

A JSON-RPC 2.0 library whose core is verified with Verus: requests and responses and their
JSON forms, the registry of methods and notifications, the request handler, transforming
response handlers and batch bookkeeping, and the decision logic of the transports (TCP,
named pipes, WebSockets, stdio, HTTP records and CORS).

## Layout

- `src/` — the verified library.
  - `json`, `types`, `error`, `request`, `response`: JSON values, the protocol types, their
    JSON forms and how they read back.
  - `commander`, `request_handler`, `io`, `testing`: registering commands (methods,
    notifications, subscriptions) and answering requests; a method call is answered with a
    result its method gives, and subscribing needs a session.
  - `control`, `flow`, `async_result`: response handlers, split batches, sessions and
    asynchronous result slots.
  - `validator`, `tcp`, `tcp_server`, `buffer`, `server_state`, `pipe`, `stdio`, `cors`,
    `request_response`, `ws_server`, `ws_session`: the transports' own logic.
- `tests/` — tests of the library.
- `app/` — what talks to the world: JSON text (through `serde_json`), logging, the shared state
  of split handlers and sessions, blocking and callback-based results, a stdio server.
