# raptor

An HTTP/2 (and HTTP/1.1) static file server over TLS, whose protocol logic
is a library verified with Verus.

## Layout

- `src/` — the verified library.
  - `wire.rs`: big-endian integers and byte strings on the wire.
  - `http2/frames/`: HTTP/2 frame headers and payloads (SETTINGS, PING,
    GOAWAY, RST_STREAM, WINDOW_UPDATE, HEADERS, CONTINUATION, DATA), read and
    written, with round-trip lemmas.
  - `http2/stream.rs`: streams, their flow-control windows and pending
    response bytes; the flow-control lemmas.
  - `connection/http2.rs`: the HTTP/2 connection as a state machine: each
    step reads the frame at the front of the buffer and says what to send and
    what to do next; its relation `step_rel` and the invariant `conn_wf`.
  - `connection/http11.rs`, `http11.rs`: HTTP/1.1 request heads and responses.
  - `method_handlers.rs`, `response.rs`, `config.rs`: which file a request
    names, and the response to reading it.
  - `vhosts.rs`, `handlers.rs`, `stream_utils.rs`: virtual hosts, listeners
    and the first HTTP/1.1 handlers.
  - `tasks/`: a second HTTP/2 server design, with a task per stream.
  - `hpack.rs`, `mime.rs`: the outside crates (HPACK, MIME types, clock)
    behind trusted wrappers.
- `tests/`: tests of the library.
- `app/`: the program: command line, configuration file, TLS, sockets, and
  the loops that feed bytes to the library.
