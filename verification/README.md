# record_store

The core rules of an object store, written in Rust and verified with Verus.

- `src/` is the library. Every function states what it returns or changes, and
  Verus proves that it does.
  - `merkle`, `merkle_laws`: the tree that commits to a range of audit records,
    and what its roots and inclusion paths guarantee.
  - `integrity`, `integrity_laws`: reads that fail when a payload is not the one
    that was committed.
  - `catalog`, `schema`, `keys`, `tx`, `tx_laws`: what each catalog operation
    reads and writes inside a transaction, and what the operations guarantee
    together.
  - `time`, `retention`: the calendar, and what Object Lock holds until when.
  - `audit`, `lock`, `lock_laws`: the Object Lock service, as requests that name
    the next thing to be done, and the record of every governance bypass.
  - `mutation_event`, `redb_open`, `digest`, `types`, `error`: the types and
    rules these share.
- `tests/` runs the library with the real database, hash and calendar crates.
- `app/` is ordinary Rust around the library: files, serialized forms, streams
  and the asynchronous service.

What is believed rather than proved is marked `external_body`: the calls into
`sha2`, `redb`, `chrono` and `serde_json`, in `digest`, `catalog`, `time` and
`mutation_event`. The laws about
hashes take as a hypothesis that SHA-256 does not collide on the messages that
were hashed.
