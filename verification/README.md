# sla_calculator

A verified library for service-level-agreement bookkeeping on a Soroban
contract: outage penalties and rewards, disputes and their arbitration,
collateral, claim windows, force-majeure windows, outage correlation and
site dependencies, event history queries, and the governance switches
around them (admin and operator hand-over, pauses, freezes, rollbacks).

- `src/` is the library, written with Verus. Every public function states
  what it returns and how it changes the state it is given, and Verus
  proves it. Public `lemma_*` proof functions state the properties that
  span several calls (bond conservation, acyclic links, listings in key
  order, and so on).
- `src/host.rs`, `src/config_version_hash.rs` and the invocation wrapper in
  `src/cross_contract_safety.rs` hold the few items that rest on
  soroban-sdk: declarations of its types and the calls into its hash and
  cross-contract invocation, each with the contract it is trusted to meet.
- `app/` is the contract shell: storage, authorisation and the
  `contracttype` copies of the library's types.
- `tests/` runs the library against concrete scenarios.
