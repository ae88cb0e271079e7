# finite-brain-store

The decision logic of the FiniteBrain authoritative store, verified with
Verus: which records a Brain accepts, who may read or govern it, how Folder
Keys rotate, how links, departures, Folder subtree deletions and bootstraps
are checked before anything is written.

- `src/` is the verified library. Every public function states in its
  contract exactly what it returns for every input; `src/laws.rs` holds the
  properties that span several calls (single-use links, expiry by instant,
  exact and children-first subtree deletion, replay-safe departures, stable
  email canonicalisation, bootstrap equivalence).
- Calls into `time` (RFC 3339 parsing) and `serde_json` (stored string-list
  columns such as Folder scopes, delegation scopes and NIP-05 relays, and
  deletion payloads) sit behind small trusted wrappers whose contracts name
  their results; `src/columns.rs` turns those results into store errors.
- The decision functions take what the store has read as arguments (whether
  a fact was already applied, whether a receipt exists, the rows of pending
  invitations, the Brain's latest sync sequence) and return the step to
  perform. The SQLite store itself — schema, transactions, queries and the
  sync log — is not part of this crate.
- `app/` holds what only SQLite and serde can do: reading a failed
  statement, the serde copies of Invitation Plan records, a displayable
  error and the clock.
- `tests/` exercises the library on concrete values.
