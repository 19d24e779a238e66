# trust_circle

A rotating savings circle (ajo, chama, tanda, susu) as a verified state machine.
Members pay a fixed amount each cycle, one member per cycle receives the pot,
reputation rewards on-time payment and penalises missed cycles, reputable
addresses vouch for newcomers, and members vote on rule changes.

Layout:

- `src/types.rs`: the stored records (`Circle`, `Contribution`, `Proposal`,
  `ProposalType`), the error type and their mathematical models.
- `src/model.rs`: the abstract state and one step function per operation;
  every operation's contract is stated against its step.
- `src/circle.rs`: `TrustCircle`, the executable state, with one method per
  contract entry point. A refused operation returns its error and changes
  nothing.
- `src/entries.rs`: address-keyed entry lists read as maps.
- `src/laws.rs`: properties that span operations (the circle is created
  once, no double contribution, one vote per member, proposals executed once,
  amount changes apply at once, each member paid once per rotation in
  order, penalties, and the invariant every step keeps).
- `app/lib.rs`: the Soroban contract. It authenticates callers, moves storage
  in and out of `TrustCircle`, makes the token transfers and publishes events.

Addresses are held as their strkey text, so two addresses are equal exactly
when their texts are.
