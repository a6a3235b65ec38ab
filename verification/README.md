# sozu

The decisions of a TLS reverse proxy, verified with Verus: which backend serves
a request, what an order changes, what a connection does on an event, and how
the configuration file becomes the configuration of a proxy.

The library performs no I/O. The program around it reads, writes and waits; it
hands over what it found and carries out what comes back.

- `src/routing.rs`: the routing configuration as mathematical values, and the
  laws of it
- `src/server.rs`: the routing configuration as it is held
- `src/listeners.rs`: the listening sockets, in a `mio` slab
- `src/client.rs`, `src/buffer.rs`: a connection, and the bytes that wait in it
- `src/config.rs`: the types of the configuration file
- `src/syntax.rs`: its syntax, and the report of errors in it
- `src/nesting.rs`: how deeply it is nested
- `src/messages.rs`, `src/events.rs`, `src/address.rs`, `src/text.rs`: orders
  and answers, readiness events, addresses, and the text of an address
- `app/`: files, sockets, OpenSSL and the event loop
- `tests/`: the library seen from outside

What is trusted: the slab of `mio`; the TOML parser of `toml`, on texts whose
nesting is at most `MAX_NESTING`, for which a stack of 2 MiB suffices; and that
`rand::random` returns.
