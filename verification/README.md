# xproxy

A small HTTP(S) proxy that can show the packets it relays. The library in
`src/` holds everything the proxy decides and computes, verified with Verus;
`app/` holds the program around it: sockets, threads, OpenSSL sessions,
files and logging.

- `http_utils`: decoding a request (request line, header lines, body) and
  the reply to `CONNECT`.
- `grammar`: the pieces of a request target (scheme, host, port, path) and
  header values; `charclass` holds the Unicode classes they use.
- `proxy`: what to do with a client's first packet.
- `connection`: the decisions of the byte relay, server addresses.
- `debug`: which log messages show, and the log line of a request.
- `utils`: hex digits, numerals and packet dumps.
- `tls`: telling IP addresses from host names, the certificate's subject
  name, reading a PEM certificate.
- `laws`: properties that span functions (requests are routed to the host
  and port they name, ports read back as written, bodies are kept, ...).

The certificates for TLS interception live in `tls/cert` under the working
directory of the program; install `rootca.crt` on the client and set `TLS`
in `constants` to decrypt connections.
