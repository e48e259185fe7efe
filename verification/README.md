# sockudo

A WebSocket server for the Pusher protocol: applications, channels, presence, client events, an HTTP
API, webhooks and clusters of servers. The rules of the server are a Verus library, and its contracts
say what each operation does to the state of the server.

- `src/` is the library. A connection holds the frames that it has still to write, so that the library
  needs no I/O: what has to be published, cached or delivered is handed back to the caller.
  - `store.rs`, `table.rs`: maps and sets over `dashmap`, and maps that keep the order of their keys.
  - `namespace.rs`, `adapter/`: the connections, channels and users of each application.
  - `channel/`: kinds of channels, subscriptions and their signatures.
  - `connection/`: messages of clients from the handshake to the end of a connection; `laws.rs` holds
    what spans several operations.
  - `app/`: applications and sign-in. `http_handler.rs`: events that come in over HTTP.
  - `webhook/`, `queue/`, `cache/`: what webhooks are told, how deliveries are retried, what is cached.
- `tests/` runs the library on concrete values.
- `app/` is the program: sockets, routes, Redis, files, time and serialisation.
