# plato_trust_beacon

Ships emit trust events (signals about other ships' reliability); a beacon
collects them, lets observers read them back, decays them over time and
decides when enough observations exist for a consensus.

- `src/` is the verified library (Verus):
  - `signal`: IEEE-754 values held by their bit patterns; exact comparison,
    magnitude and clamping on the encodings.
  - `event`: `TrustEvent`, its constructors and one-generation decay.
  - `beacon`: `TrustBeacon` (emit, observe, prune, decay, batch emit,
    propagation, known targets, stats, consensus inputs) and `BeaconStats`.
    A beacon is described by its view `BeaconView`; its type invariant
    keeps the counters accounting for its events.
  - `level`: `FluxTrustLevel`, score bands and names.
  - `adapter`: `FluxTrustAdapter`, agent numbering (`agent-<n>`), revoke,
    update and decay through the adapter.
  - `laws`: proof functions relating the beacon's operations.
- `app/` holds what computes on floating-point values (multiplying strengths
  by the decay factor, averaging them into a consensus, score arithmetic)
  and the `BeaconLayer` trait, whose signatures use `f32`.
- `tests/` runs the library on concrete values.
