# storage

The storage engine of a TrenchDB node, with its core written in Verus and
proved against its contracts.

## Layout

- `src/` — the verified library.
  - `wal/` — the write-ahead log: the payload codec, the CRC-32 checksum,
    the file header, framing (`writer`), reading frames back (`reader`),
    replay into a table store (`replay`), and the laws that tie them
    together (`laws`): a written log replays to the entries written, and a
    torn or damaged tail stops replay where it begins.
  - `api/` — request validation and what each storage action does to the
    store, with the laws that relate the actions (a read gives back what a
    write wrote; the metadata table is reserved).
  - `events/`, `queue/` — the lifecycles, queues and decisions of the two
    event loops.
  - `index.rs` — equality-only secondary indexes, kept in `dashmap` maps.
  - `rec/` — versioned records and the `dashmap`-backed collection.
  - `config.rs`, `metadata.rs`, `metrics.rs`, `walmanager.rs`, `echo.rs` —
    the node's configuration file, its metadata table, counters, the
    dispatcher's log, and the echo service.
- `tests/` — tests of the library, run against the compiled crate.
- `app/` — the node binary around the library: files, threads, sockets and
  the `transport` server.

Files and sockets stay in `app/`: the library takes and returns bytes, and
the binary reads and writes them.
