# sangam

The verified core of a Sangam node: a local-first, peer-to-peer compute
mesh in which nearby machines discover each other over mDNS and hand
each other small tasks over TCP.

`src/` is the library, written in Verus and verified:

- `tasks` — the task payload, its execution (a checked sum), and the
  lifecycle tracker (`Queued -> Running -> Completed | Failed`).
- `peers` — the peer registry with liveness (Online, Stale, Offline)
  derived from how long ago a peer was last seen, eviction, and the
  display order of peer lists.
- `discovery` — TXT-record reading, address choice, and the session
  state that decides what a node does about each mDNS event.
- `networking` and `models` — the protocol messages, line framing, the
  reply a node gives to each inbound message, and how the answer to an
  outbound task is recorded.
- `logging`, `metrics`, `ring` — the bounded histories behind the log
  console and the metrics charts.
- `clock`, `text`, `net`, `utils` — time readings, text helpers, plain
  network addresses, and node resource figures.

`app/` is the headless node program: sockets, the mDNS daemon, JSON
encoding, system probes and the Tokio runtime, calling into the library
for every decision.

`tests/` exercises the library on concrete values.
