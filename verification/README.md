# bridge-inbound-lane

The receiving end of a bridge lane, verified with Verus. A lane takes messages in the order of
their nonces, hands each of them to a dispatcher once, and remembers which relayer has delivered
which messages until the sending chain confirms them.

- `src/messages.rs`: lane data and the values that pass through a lane.
- `src/inbound_lane.rs`: the lane itself and the storage that backs it.
- `src/memory_storage.rs`: a lane storage in memory.
- `src/model.rs`: the model that the contracts speak of.
- `src/laws.rs`: what holds of a lane over any course of deliveries and confirmations.
- `src/codec.rs`: what is taken from the SCALE codec without proof.
- `app/`: lane data with SCALE encoding and type information, as a runtime stores it.
