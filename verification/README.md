# rs_netty

A typed TCP/UDP pipeline framework in the spirit of Netty: a byte stream or
datagram is decoded by a codec, passes through inbound, business and handler
stages, and what the handler writes passes through outbound stages and is
encoded again.

## Layout

- `src/` is the library, verified with Verus:
  - `codec/`: the codecs (lines, length fields, fixed lengths, delimiters,
    raw bytes, UTF-8 and byte datagrams, HTTP/1.1 requests and responses,
    WebSocket handshakes and frames, MQTT 5 packets) with contracts stating
    exactly what each decode consumes and yields and what each encode
    appends, and proofs that what the encoders write is read back
    (`line.rs`, `delimiter_based_frame.rs`, `length_field_based_frame.rs`,
    `websocket/laws.rs`, `mqtt/laws.rs`);
  - `pipeline/` and `traits.rs`: the typed builders, whose type parameters
    only allow `codec -> inbound* -> business* -> handler -> outbound*`;
  - `transport/`: the endpoint builders and their configurations, and the
    decisions of a connection or socket task (close reasons, size checks);
  - `buf.rs`, `text.rs`: the `bytes` buffers and the standard-library calls
    the codecs use, each with the contract they are relied on for;
  - `search.rs`, `uint.rs`: byte search and integer encodings.
- `tests/` exercises the library on concrete inputs.
- `app/` is the Tokio runtime: sockets, per-connection tasks, contexts and
  channels, the asynchronous stage traits applications implement, lifecycle
  hooks, and the JSON stages.
