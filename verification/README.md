# nova_rewards

The Nova rewards contract (Nova points, staking with yield, swaps through a
DEX router, and emergency recovery procedures) as a Verus-verified state
machine.

- `src/payout.rs` — fixed-point payout and the staking yield formula.
- `src/byte_map.rs` — a map keyed by byte strings (account addresses,
  operation ids), kept as a list of entries with distinct keys.
- `src/state.rs` — the contract's storage as mathematical values and every
  operation as a transition on it.
- `src/contract.rs` — `NovaRewardsContract`, the executable operations, each
  proved to perform its transition.
- `src/laws.rs` — properties of the contract proved over the transitions.
- `app/lib.rs` — the Soroban entry points: storage, authorization, ledger
  time, events and the router call, around the verified operations.
