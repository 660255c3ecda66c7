# dronechain

A node of a small network of drones and cars that records device commands in a
proof-of-work blockchain.

- `src/` is the library, verified with Verus: blocks and the chain (hashing, mining,
  appending, in-place updates), the vote and consensus rules, node addresses and
  URLs, settings parsing, the heartbeat and monitor decisions, key-file naming and
  RSA-SHA256 signing and checking through OpenSSL.
- `app/` is the program around it: the HTTP server, files, environment, sockets and
  the loops that call the library's decisions.
- `tests/` exercise the library on concrete values.
