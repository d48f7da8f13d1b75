# tnl

Expose a local HTTP service through your own public server. A visitor's TLS connection reaches the
service on the local machine unopened: the server reads the first message of the handshake to learn
which tunnel is asked for, and forwards every byte of it.

The library under `src/` holds what a tunnel endpoint decides between two I/O operations, verified
with Verus:

- `protocol`: tunnel names, the registration of a data connection, and the two ways in which one
  transport carries stream after stream (frames, and counts on a sideband)
- `stream`, `session`, `transport`: tagged streams, session settings, dedicated transports
- `server`: registered nodes and their pools, control sessions, the first message of a TLS
  connection, routing, forwarding and the API's answers
- `client`: tunnel names, the HTTP exchange with the API, reconnecting, forwarding
- `auth`, `config`, `setup`, `process`, `net`: tokens and invitations, the server's configuration,
  what its operator is asked and told, the record of a background process, addresses
- `bench`: the stream server benchmark
- `table`, `text`, `big_endian`, `error`: what the others are built on
- `external`: the calls into other crates, each with the contract that it is relied on for

`app/` is the program around the library: sockets, timers, files and the command line.
Times are integers in nanoseconds on a clock that the caller reads.
