# wakfu

The wire format of the Wakfu game protocol, verified with Verus.

- `src/buf`: the big-endian byte codec — a read cursor over a byte buffer,
  the `WakfuBufReadable` / `WakfuBufWritable` traits for integers, booleans,
  strings, vectors, arrays and options, and the proof that every encodable
  value reads back as written (`codec.rs`).
- `src/protocol`: the packet header of each direction, framing a packet
  (`serialize_packet`) and reading a frame back (`deserialize_packet`), and
  the packets of the connection state with their ids.
- `src/agent.rs`: the scan that a JVM agent makes of each loaded class for the
  string templates of its `toString` method.
- `src/login.rs`: the login phases, as architecture targets.
- `app/`: the TLS proxy program, the network connection tasks, the JVM agent
  entry points, and floating-point values of the codec.
