# urc — Ubuntu Remote Control, verified core

Remote desktop for machines on a Tailscale network: an agent on each PC
serves VNC and a web UI over TLS, a client opens a local TLS tunnel to it,
and an optional coordinator relays connections.

- `src/` is the library, verified with Verus: text and number handling,
  the protocol model, Tailscale status interpretation and peer lookup,
  graphical-session detection, VNC backend commands, supervision policy,
  health reports, the coordinator's registry and relay table, the file API's
  path guard, listing order and folder ZIP archives, the client's session
  bookkeeping, TLS helper checks and the pairing link.
- `tests/` runs the library on concrete values.
- `app/` is the executable (`urc agent|client|coordinator ...`): process
  spawning, sockets, WebSockets, TLS streams, files and the command line.
  It hands the library plain values and acts on what it returns.
