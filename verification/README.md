# azbridge

A bridge that tunnels TCP, UDP, Unix-socket and HTTP traffic through Azure
Relay Hybrid Connections.

- `src/` is the verified library: configuration (files, command-line
  expressions, layering), the connection preamble and datagram framing,
  the connection-string builder, SAS tokens, relay URIs, the listener's
  control decisions, the host's plans for each forwarding rule and the
  routing of relayed connections. Every function carries a contract that
  Verus proves; the calls into outside crates sit behind small trusted
  wrappers whose contracts say what those crates document.
- `app/` is the program around it: the command line, file and network I/O,
  the WebSocket runtime, logging setup and the async forwarding loops. It
  calls the library for every decision.
- `tests/` runs the library on concrete values.
