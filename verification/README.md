# dnsd

A DNS forwarder that watches answers for signs of tampering. The resolver
talks to in-memory sockets; their packets are forwarded to the real name
servers by one task per packet. Domains whose answers look suspect (a
second answer arrives after the first, or more than about one answer in ten
is suspect) are marked high risk: their answers are then collected for a
while and the last one is used, and their cache entries are refreshed.

Layout:

- `src/` — the verified library (Verus):
  - `addr` socket addresses as plain values;
  - `stats` server and per-domain counters and the high-risk rule;
  - `memory` the per-address packet queues of the in-memory sockets;
  - `exchange` the forwarding of one packet, step by step, and the task list;
  - `window` which upstream answer is kept within a time window;
  - `udp` local address and port choice, and query preparation;
  - `authority` what each search and lookup counts;
  - `config` resolver settings from resolv.conf.
- `app/` — the program: tokio tasks, sockets, channels and hickory's server
  and resolver, driving the library.
- `tests/` — tests of the library.
