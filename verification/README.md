# qubitum_protocol

Protocol primitives of Qubitum, a marketplace for private, verifiable AI inference, written in
Verus: every public function carries a contract, and the library's laws are proof functions
that Verus checks.

## Layout

- `src/lib.rs`: the vocabulary (identifiers, constants, errors, registry types), reward and
  settlement arithmetic, bond and subnet policies, proof-shape checks, the privacy table, the
  signature roadmap and the halving schedule.
- `src/post_quantum.rs`: the account-signature policy for the classical to post-quantum
  migration.
- `src/proof_verifier.rs`: the verifier trait consulted by settlement, and the shape-only,
  fail-closed and mock verifiers.
- `src/state.rs`: the protocol state machine (ledgers, registries, records) with supply
  conservation stated on every transition.
- `src/chain.rs`: the chain-facing surface that needs no storage: verifier modes, readiness
  blockers, protocol parameters, the shapes of the redacted public views, request-status
  counters and sorted routing indexes.
- `src/registry.rs`: the chain registry (subnets, miners, validators, identity commitments,
  routing indexes, inference requests, proof records, totals) with its invariant, its public
  views, request opening, submission validation and identity-commitment updates.
- `src/settlement.rs`: how requests close over the registry: a valid proof settles the escrowed
  payment and is recorded, an invalid one slashes both participants and refunds the user;
  cancellation, expiry, and the root's slashing of idle participants.
- `src/route_view.rs`: the route scan over the registry's indexes, the checks and routing of a
  new request, and the public route availability.
- `src/consistency.rs`: the registry's upgrade consistency check (routing indexes,
  pending-request counters, status counters).
- `src/reindex.rs`: the registry-wide rebuild of the routing indexes.
- `src/lifecycle.rs`: subnet creation, miner and validator registration, activation and exit.
- `src/routing.rs`: routing-index rebuilds, the upgrade consistency check and request
  assignment.
- `src/rules.rs`: fee split, proof freshness and slashing of locked capital.
- `src/shielding.rs`: the call-tree scans of the runtime's shielding and mortality extensions.
- `src/authors.rs`: block-author lookup used by the shield's key rotation.
- `src/weights.rs`: extrinsic weights.
- `src/wire.rs`: wire framing of shielded ciphertexts.
- `tests/`: scenario and property tests on concrete values.
- `app/main.rs`: the local single-subnet flow, printing its results.

Commitments the chain computes by hashing are handed to the registry's transitions by their
callers, and balance movements (holds, transfers, burns) are returned for the caller to carry
out.
