# meow-ios-ffi

Decision core of the meow packet tunnel, verified with Verus, and the C ABI
around it.

- `src/` is the verified library. Every function works on plain values: octets,
  endpoints, millisecond counts, documents, outcomes of outside calls. It opens
  no socket, spawns no task and reads no clock.
  - `packet`: IPv4 + UDP parsing, reply framing, header checksum.
  - `dns`: interception, query types, routing, the race of the upstreams.
  - `fake_ip_dns`, `message`: answers over synthetic addresses, on messages of
    `hickory-proto`.
  - `config`, `yaml`: stripping and patching configurations, on documents of
    `serde_yaml`.
  - `flows`: the registry of TCP flows, on a map of `dashmap`.
  - `relay`: dial watchdog, activity of a stream, end of a relay.
  - `udp`: live sessions, their cap and their reply readers.
  - `tun2socks`: settings, lifecycle, and the steps of the tunnel's loops.
  - `engine`, `ffi`, `logging`, `rss`, `text`, `net`: lifecycle of the engine,
    arguments and replies of the C ABI, log lines, memory samples, text and
    address helpers.
- `tests/` runs the library, outside crates included.
- `app/` is the C ABI: pointers, sockets, tasks and timers. It performs what the
  library decides and hands outcomes back.

What the library takes on trust stands in `yaml`, `message`, `flows`, `text` and
`fake_ip_dns`, each item with the outside function it speaks of.
