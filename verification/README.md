# pico_limbo

The decision logic of a lobby-capable Minecraft limbo server, verified with
Verus: lobby session bookkeeping (admission, removal, replies), chat and
private-message planning, which visibility packets each client version is
sent, the server-selector menu, command parsing and execution, the join and
configuration sequences, the spiral in which chunks are sent, and the
configuration defaults.

Layout:

- `src/` — the verified library, one module per concern (`lobby`, `chat`,
  `visibility`, `selector` and `menu`, `commands` and `play`, `join`,
  `chunks`, `client`, `connection`, `config`, `profile`, `text`).
- `tests/` — tests of the library on concrete values.
- `app/` — the executable around it: configuration files (serde/TOML),
  Mojang profile lookups over HTTPS, and the floating-point geometry that
  the library receives as bit patterns.

Packet encoding and the network loop (sockets, per-connection tasks) are
not part of this crate: they are built on the Minecraft packet, stream and
NBT crates, which it does not depend on. The library plans which packets
are sent, in what order and to whom, and leaves their byte encoding and
their sending to that layer.
