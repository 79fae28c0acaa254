# cathedral

The Cathedral agent platform's decision logic, written in Verus with its
behaviour stated as contracts and proved.

- `src/` is the verified library: identifiers and their text forms, the
  provenance ledgers and their in-memory backend, shard storage planning
  (segment names, ordering, compaction, retention, paging), leader leases
  and shard migration, partition tables and quorum arithmetic, expert
  routing and capacity, the ingestion bridge, zero-knowledge job handling,
  the SDK's events and retry schedule, and the identity schemes. Calls into
  outside crates (Ed25519, ML-DSA, BLAKE3, zstd, base64, hex, serde_json,
  dashmap, chrono, uuid, rand) go through small trusted wrappers whose
  contracts say what the crate promises.
- `tests/` runs the library on concrete values.
- `app/` holds what the verifier does not model: file and channel I/O,
  timers, the transports, the floating-point model code, and serialisable
  copies of library types.
