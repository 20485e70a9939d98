# cranker_connector

A cranker connector: it registers with one or more cranker routers over
websockets, keeps a sliding window of idle sockets open at each, and relays
the HTTP requests that arrive over those sockets to a target service.

The library under `src/` is verified with Verus:

- `backoff` — the reconnection back-off delay and its laws.
- `text` — character-level helpers (first occurrence, ranges, appending).
- `request` — reading a request head (method, URI, headers) out of the text
  the router sends.
- `builder` — turning a request head into an `http` request builder.
- `ids` — random connector and socket identifiers (`uuid`).
- `idle` — the set of idle socket identifiers (`dashmap`).
- `socket` — one websocket: registration URL, handshake request, status line,
  and the decision taken on each incoming message.
- `registration` — the sliding window of idle sockets at one router.
- `connector` — a connector instance and its registrations.

`app/main.rs` is the program: it opens the websockets, sends the requests with
`hyper`, and runs the event loops, asking the library for every decision.
