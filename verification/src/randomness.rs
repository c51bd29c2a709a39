//! The randomness of an epoch.

use vstd::prelude::*;

use crate::bytes::{concat, extend, le_bytes, u64_to_le_bytes};
use crate::crypto::{blake2_256, blake2_256_hash};

verus! {

/// The length of the BABE randomness.
pub const RANDOMNESS_LENGTH: usize = 32;

/// The randomness of epoch `epoch_index`: the hash of the randomness of the epoch before it,
/// the index, and all the VRF outputs `rho` of the prior epoch.
pub open spec fn epoch_randomness(
    last_epoch_randomness: Seq<u8>,
    epoch_index: u64,
    rho: Seq<Seq<u8>>,
) -> Seq<u8> {
    blake2_256_hash(last_epoch_randomness + le_bytes(epoch_index as nat, 8) + concat(rho))
}

/// The VRF outputs as byte strings.
pub open spec fn outputs_view(outputs: Seq<[u8; 32]>) -> Seq<Seq<u8>> {
    outputs.map_values(|o: [u8; 32]| o@)
}

/// Computes the randomness for a new epoch. `rho` holds all VRF outputs of the prior epoch.
pub fn compute_randomness(
    last_epoch_randomness: &[u8; 32],
    epoch_index: u64,
    rho: &[[u8; 32]],
) -> (r: [u8; 32])
    ensures
        r@ == epoch_randomness(last_epoch_randomness@, epoch_index, outputs_view(rho@)),
{
    let ghost parts = outputs_view(rho@);
    let mut s: Vec<u8> = Vec::new();
    extend(&mut s, last_epoch_randomness.as_slice());
    let index_bytes = u64_to_le_bytes(epoch_index);
    extend(&mut s, index_bytes.as_slice());
    let ghost head = last_epoch_randomness@ + le_bytes(epoch_index as nat, 8);
    assert(parts.take(0) =~= Seq::empty());
    assert(s@ =~= head + concat(parts.take(0)));
    let mut i: usize = 0;
    while i < rho.len()
        invariant
            i <= rho@.len(),
            parts == outputs_view(rho@),
            s@ == head + concat(parts.take(i as int)),
        decreases rho@.len() - i,
    {
        extend(&mut s, rho[i].as_slice());
        assert(parts.take(i + 1).drop_last() =~= parts.take(i as int));
        assert(parts.take(i + 1).last() == rho@[i as int]@);
        assert(s@ =~= head + concat(parts.take(i + 1)));
        i = i + 1;
    }
    assert(parts.take(i as int) =~= parts);
    blake2_256(s.as_slice())
}

} // verus!
