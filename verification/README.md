# aicortex_store

The statements, derived identities and decisions of the aicortex memory
store, verified with Verus.

A repository here executes nothing. It builds the statements a caller submits
as one transaction, derives the identities those statements key on (scope
ids, content fingerprints, filter digests, signed cursors, digest keys), and
decides what to do with the rows a read returned. The public functions state
what they return and stage in their contracts, over the views in `sql.rs`;
where an outside call decides (a random key, a digest), the contract names
that call's result. The properties that span several functions are proof
functions beside them.

Layout:

- `src/` — the verified library.
  - `sql.rs`: statements, parameters and the staged transaction.
  - `scope.rs`, `memory_repo.rs`, `provenance_repo.rs`, `counters.rs`,
    `cursor.rs`, `decision_key.rs`: the memory tables.
  - `lifecycle.rs`, `fingerprint.rs`, `erasure.rs`: merging, supersession,
    correction, expiry, re-digesting and erasure.
  - `claim_repo.rs`, `claim_admission_repo.rs`, `claim_proposal_repo.rs`,
    `predicate_registry_repo.rs`: claim history and its admission.
  - `migrations.rs`: the schema, in version order.
  - `digest.rs`, `text.rs`, `types.rs`, `error.rs`: shared vocabulary.
- `tests/` — tests over concrete values.
- `app/` — the I/O around the library: reads and commits through the store
  handle, leases, the ledger, and the serde form of records.

The outside crates the library calls (`ring`, `blake3`, `base64`, `uuid`) are
reached through small trusted wrappers whose contracts say what each call
returns; each one is named and described where it is declared.
