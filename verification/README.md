# osmium

An HTTP/2 server library whose protocol logic is verified with Verus.

- `src/` is the verified library: HPACK (integers, strings, Huffman coding,
  the header tables, encoding and decoding, with their round trips), the
  HTTP/2 frames (reading and writing each frame type), the stream state
  machine, the connection (frame routing, settings, flow control, held-back
  frames, server push), and HTTP/1 request decoding (the request head read
  with `httparse`) and response encoding.
- `app/` is the unverified server around it: TLS with ALPN, the socket loop
  that reads frames, hands them to the connection and writes what the
  connection queues, the HTTP/1 socket loop, and the traits an application
  implements.
- `tests/` runs the library on concrete inputs.

Build and verify with the Verus toolchain; `cargo test` runs the tests.
