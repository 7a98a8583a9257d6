# lily_contracts

The contract logic of Lily Protocol, verified with Verus: global protocol
configuration, the agent identity registry, the wallet policy registry and
payment intents, plus the CosmWasm lifecycle variant.

Each contract is a state machine over plain values. Every entry point takes
the contract state, the authorizations of the call and its arguments, and
either commits the next state and the events to publish or fails with the
error the specification names, leaving the state as it was.

- `src/common.rs` — protocol errors, addresses, authorizations, validation
  guards, reentrancy guards.
- `src/table.rs` — per-address records viewed as a map.
- `src/outcome.rs` — how a call relates to its specified transition.
- `src/protocol.rs`, `src/identity.rs`, `src/wallet.rs`, `src/payments.rs` —
  the four Soroban contracts, their transition specifications and laws.
- `src/cw_state.rs`, `src/cw_flag.rs` — the CosmWasm lifecycle variants.
- `app/` — Soroban and CosmWasm entry points: storage, signature checks,
  events, ledger time and cross-contract calls around the verified logic.
- `tests/` — scenarios on concrete values.
