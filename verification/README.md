# babe

The consensus extension module for BABE: it collects on-chain randomness from VRF outputs,
manages epoch transitions and handles reports of equivocation. The library is written in Rust
and proved correct with [Verus](https://github.com/verus-lang/verus).

- `src/` is the verified library.
  - `module.rs` holds the state of the module and what blocks, sessions and calls do to it.
    The contracts are stated over `state.rs`, the mathematical content of the module.
  - `randomness.rs`, `epoch.rs` and `digests.rs`: epoch randomness, how epochs are announced in
    block headers, and what headers say about BABE.
  - `inherents.rs`: how the slot number gets into the inherent data of a block and is checked.
  - `equivocation.rs` and `offence.rs`: reports of equivocation, and how much they cost.
  - `laws.rs`: what holds of the module as a whole, over runs of blocks and sessions.
  - `codec.rs`, `crypto.rs`, `inherents.rs` and `offence.rs` hold the calls into outside crates.
    What is claimed of each call without proof is said above it.
- `tests/` runs the library with the outside crates linked.
- `app/` is the glue to a runtime: storage, genesis, calls, the digest of the current block, the
  key store and the traits of the other modules.

The VRF outputs of an epoch are kept in segments of 256. When the epoch changes, the outputs of
all segments, the last one included, are hashed into the randomness of the next epoch, and all
segments are reset.
