# http2_server

A small HTTP/2 static-file server whose protocol logic is verified with Verus.

## Layout

- `src/` — the verified library.
  - `bytes.rs` — big-endian integers, decimal text, byte-string helpers.
  - `gc_buffer.rs` — the receive buffer: bytes come out in the order they went in.
  - `http2/frames/` — reading and writing every frame type, with the law that a frame
    written and read back is the same frame for the frames the server writes or reads whole
    (padded DATA, PUSH_PROMISE, CONTINUATION and GOAWAY are outside that law).
  - `http2/codec.rs` — HPACK from the `hpack` crate behind trusted wrappers. Each decoder and
    encoder carries the history of blocks (or header lists) handed to it, and the results are
    named over that history; a verified pass refuses blocks whose table-size updates the
    decoder cannot read.
  - `http2/header_builder.rs` — collecting a header block and turning the decoded list into
    request headers (names and values read as UTF-8, invalid bytes replaced).
  - `http2/outbound.rs` — the replies to a frame: DATA frames wait in a queue for flow
    control, the others are written at once.
  - `http2/stream/` — the stream state machine (idle, open, half closed, closed).
  - `http2/connection_state.rs`, `http2/connection.rs` — the connection: settings, PING,
    flow-control windows, routing frames to streams, sending DATA within the windows, and the
    answer to each error.
  - `request.rs`, `response.rs`, `util.rs`, `read.rs`, `types.rs`, `text.rs` — requests,
    responses, the file cache and the answer to a GET or HEAD request.
  - `clock.rs` — the `Date` header: the clock through `std::time`, the RFC 2822 text through
    `chrono`, for any time from the year 0 to the year 9999.
  - `settings_frame.rs` — a fixed-layout settings record.
- `tests/` — tests on concrete values.
- `app/` — the program around the library: command line, file system, TLS (`openssl`),
  the thread pool (`threadpool`) and the socket loop.

## Running

The server takes the directory to serve as its only argument and listens on port 443, with
the certificate `localhost+1.pem` and key `localhost+1-key.pem` in the working directory.
