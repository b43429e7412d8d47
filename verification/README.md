# nearssage

The verified core of Nearssage, a service to chat with and meet people
nearby: its byte framing, cryptographic envelopes, key agreement, protocol
signals, the connection state machines of client and server, the client pool,
the record rules and the storage search. Every function under `src/` carries a
contract that Verus proves; the calls into the cryptographic and serialization
crates stand behind small trusted wrappers, each documented with what it
claims.

Layout:

- `src/`: the library. `encoding`, `data`, `checksum`, `authenticated`,
  `crypt`, `compress`, `payload` frame and protect values; `exchange`,
  `csidh`, `identity`, `keychain`, `session` hold keys, signatures and the
  session key agreement; `protocol` the signals, their wire form and
  heights; `server` and `client` the two ends of a connection; `schema`,
  `user`, `validation`, `storage` the records, their rules and the search.
- `tests/`: tests run against the compiled library.
- `app/`: the server program (command line, configuration, logging and
  metrics, the UDP listener, the database) and the client's connection task.
