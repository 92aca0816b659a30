# scry_proxy

A proxy for PostgreSQL that pools backend connections and reports what is
queried, without the values in it. The decisions it makes are a library that
Verus verifies; sockets, files and timers are ordinary Rust around it.

## Layout

- `src/protocol`: messages on the wire, and what a SQL command does to a session.
- `src/proxy`: the state of a session and of a transaction, pooling modes, the
  cache of prepared statements, replay of a session on another connection, the
  queue for connections, batches of events, the admin console, and the server
  that brings them together.
- `src/publisher`: what becomes of a batch of events.
- `src/resilience`: circuit breaker, health checks and retries.
- `src/tls`: when a connection is encrypted, and from what files.
- `src/config.rs`, `src/routing.rs`: settings, and which backend serves a database.
- `src/text.rs`, `src/names.rs`, `src/ids.rs`, `src/counters.rs`, `src/time.rs`:
  strings, maps by name, identifiers, wrapping counters and the clock.
- `tests`: tests of the library.
- `app`: the proxy itself, over `tokio`, `deadpool` and `rustls`.

## What is stated

Each function says in its contract what it returns and changes. What holds across
functions stands in proof functions whose names begin with `law_`: among others
that a session is pinned exactly while it holds state, that nothing of a literal
is left in an anonymized event, that clients in a queue are served in their
order, that a failing backend is shed, and that a connection that has to be
encrypted never goes on in the clear.

What is taken on trust of other crates and of the standard library is declared
with `external_body`, `external_type_specification` or `assume_specification`,
with a comment that says what is claimed.
