# socks5_core

A SOCKS5 CONNECT proxy toolkit whose protocol logic is verified with Verus.

- `src/protocol.rs` parses the client greeting and CONNECT request and encodes
  the server replies and error messages.
- `src/handshake.rs` is the proxy's handshake as a state machine: it says what
  to read, write or dial next, and the caller performs it.
- `src/client.rs` holds what the benchmark client sends and checks.
- `src/config.rs` reads the benchmark's command line.
- `src/http.rs` holds the benchmark's HTTP request, the target server's
  response header and its request-header scan, and the response body.
- `src/schedule.rs` is the benchmark's run procedure: the ordered steps
  (start a proxy, warm up, measure, stop), the warmup gate, and the
  decision after each poll of a starting proxy.
- `src/load.rs` tallies the outcomes of a load run.
- `src/text.rs` formats numbers and byte lists, reads decimal numbers, and
  splits and compares text.
- `src/laws.rs` proves properties across these: the parser reads exactly the
  canonical bytes of a request, the benchmark client's requests parse back to
  their address, and the handshake answers as the parser does.

`app/` holds the programs: the Tokio and Compio proxies and the benchmark,
chosen by the name the executable runs under.
