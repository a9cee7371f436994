# webrtc_benchmark

A benchmarking toolkit for STUN and TURN servers (RFC 5389, RFC 5766),
written in Verus: the parts that decide what goes on the wire and how
replies are counted are proved against their specifications.

Layout:

- `src/wire.rs`: big-endian fields and the STUN header, read and written
  through `byteorder`.
- `src/stun.rs`: Binding requests, the header checks on replies, the
  per-worker counts, and percentile positions.
- `src/turn.rs`: Allocate requests with REQUESTED-TRANSPORT and USERNAME
  attributes, the TURN reply checks and counts.
- `src/transaction.rs`: clock-seeded xorshift transaction IDs.
- `src/text.rs`, `src/cli.rs`, `src/report.rs`: characters and decimal
  numbers, the command-line values (durations, targets, credentials), and
  comma-grouped numbers for the tables.
- `app/`: the command-line program: sockets, threads, timing, latency
  statistics (floating point), JSON and tables.
- `tests/`: tests of the library on concrete values.
