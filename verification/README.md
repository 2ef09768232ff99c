# safe_network

The decision logic of a network of Kademlia nodes, verified with Verus, and the programs around it.

- `src/` is the library. Sockets, channels, clocks, wallets and files stay outside: the modules take
  what those gave as plain values and say what happens next.
  - `distance`, `peer`, `address`, `record_cfg`: the key space, identities, addresses, settings.
  - `builder`, `driver`, `event_loop`, `cmd`, `statistics`, `throttle`: how a node is set up, what it
    keeps, in which order it serves its work, and what each command leads to.
  - `account`: reading and writing the account packet of a client.
  - `home`, `kadnode`, `ping`, `gutenberg`, `omni`, `console`: the logic of the programs.
- `app/` is ordinary Rust: the programs, and what connects the library to `libp2p`, the screen and
  the disk.
- `tests/` run the library with the real outside crates.
