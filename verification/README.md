# chainverse

The ChainVerse scholarship and library contracts as a verified library.
Each contract is a state machine over plain values: its storage is a set of
`Table`s whose view is a `Map`, every entrypoint has a spec function that
gives the result and the next state, and every refused call leaves the
state as it was. Callers pass the ledger context (time, ledger sequence,
network id, contract id) and the identity of an already authorized caller as
32-byte values.

Layout:

- `src/` — the verified library.
  - `table`, `math`, `config`, `crypto`, `shared`: storage, checked
    arithmetic and the debt account, configuration validation, hashing through
    the ledger host and byte encodings, shared error codes.
  - `commitments`, `signing`, `webhook_signing`: salted identifier
    commitments and the two canonical signing envelopes.
  - `registry`, `programs`, `eligibility`, `reviews`, `review_workflow`,
    `milestones`, `finance`, `migration`, `outbox` (with `settlement` and
    `webhooks`), `token`, `staking`: the contracts.
  - The laws of each contract are public proof functions named `lemma_*`
    at the end of its module.
- `tests/` — scenario tests, run against the real Soroban SDK.
- `app/` — host glue: ledger storage helpers, events, and reading the ledger
  context and caller identities from the host.

SHA-256, address and symbol XDR come from `soroban-sdk` through small trusted
wrappers in `src/crypto.rs`; their results are named, not restated.
