# side_contracts

The logic of the Side chain CosmWasm contracts, written in Verus and proved against
its contracts.

- `src/` is the verified library, one module per contract:
  `ics100` (atomic swaps: orders, bids, fees, packet handling),
  `ics101` (interchain liquidity pools: weighted pool maths, deposits, withdrawals,
  swaps, packet handling), `staking` (liquid staking: validator set, deposits,
  withdraw windows, kill switch), `lp_staking` (LP staking rewards), `voting_escrow`
  (vote-escrowed locks and voting power histories), `volume` (a ring of cumulative
  volume observations), `router` (multi-hop swaps), `vesting`; plus `decimal` and
  `coin`, the fixed-point and coin values they share.
  Calls into `cosmwasm-std`, `rust_decimal`, `sha2` and `hex` stand behind small
  trusted wrappers whose contracts say what those crates compute.
- `tests/` runs the library on concrete values.
- `app/` holds the entry points of the atomic swap (`ics100`), LP staking, vote escrow,
  volume and router contracts around the library: stored state, messages, queries, and
  the transfers the library decides. The interchain pool (`ics101`) and liquid staking
  contracts have no entry points there: the library functions take what those would
  load and return what they would store and send.
