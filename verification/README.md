# mcp_core

Transports for the Model Context Protocol, verified with Verus.

- `src/` is the library. It decides what is sent where, in which order, and what
  a caller gets: settings, session endpoints and HTTP requests of the client
  transport (`sse`, `endpoint`, `headers`, `http`, `text`), lines of the server
  transport (`stdio`), and the steps of requests, deliveries and loops (`call`,
  `listen`) over the messages of `jsonrpc` and the errors of `error`.
- `app/` holds the sockets, the standard streams, the timers and the tasks.
- `tests/` runs the library on concrete values.

`http` and `error` call `reqwest` and `reqwest_eventsource`; the contracts of
those calls are taken from the sources of the two crates and of `http`.
